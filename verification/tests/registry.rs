use edna::file_system::{CopyError, CopyReply, CopyRequest, PathKind};
use edna::templates::config::{
    ConfigError, CreatedTemplateConfig, LoadedConfig, RegisteredTemplate, StoredConfig,
    TemplatesConfig, TemplatesMetadata,
};
use edna::templates::creation::{CreationError, CreationReply, CreationRequest, TemplateCreation};
use edna::templates::{get_templates, MissingTemplate, ProbedTemplate};

fn template(name: &str, path: &str) -> RegisteredTemplate {
    RegisteredTemplate { name: name.to_string(), path: path.to_string() }
}

fn probed(name: &str, path: &str, kind: PathKind) -> ProbedTemplate {
    ProbedTemplate { template: template(name, path), kind }
}

fn config(name: &str) -> CreatedTemplateConfig {
    CreatedTemplateConfig {
        target: "project".to_string(),
        name: name.to_string(),
        author: "Ada".to_string(),
        version: "0.3.0".to_string(),
        description: "A template".to_string(),
        exclude_paths: vec!["/templates/web/node_modules".to_string()],
        scripts: vec!["npm install".to_string()],
        exclude_config: false,
    }
}

#[test]
fn registry_path_is_the_file_inside_the_absolute_directory() {
    let metadata = TemplatesMetadata {
        directory: "/var/lib/edna/templates".to_string(),
        filename: "edna.config.json".to_string(),
    };
    assert_eq!(
        TemplatesConfig::get_path(&metadata),
        Some("/var/lib/edna/templates/edna.config.json".to_string())
    );
}

#[test]
fn registry_path_of_a_relative_directory_is_made_absolute() {
    let metadata = TemplatesMetadata {
        directory: "templates".to_string(),
        filename: "edna.config.json".to_string(),
    };
    let path = TemplatesConfig::get_path(&metadata).unwrap();
    let here = std::path::absolute("templates").unwrap();
    assert_eq!(path, format!("{}/edna.config.json", here.to_str().unwrap()));
    assert!(path.starts_with('/'));
    assert!(path.ends_with("/templates/edna.config.json"));
    assert_ne!(path, "templates/edna.config.json");
}

#[test]
fn registry_path_of_the_empty_directory_is_none() {
    let metadata =
        TemplatesMetadata { directory: String::new(), filename: "edna.config.json".to_string() };
    assert_eq!(TemplatesConfig::get_path(&metadata), None);
}

#[test]
fn path_from_joins_the_resolved_directory_and_the_file_name() {
    let filename = "edna.config.json".to_string();
    assert_eq!(
        TemplatesConfig::path_from(Some("/abs/templates".to_string()), &filename),
        Some("/abs/templates/edna.config.json".to_string())
    );
    assert_eq!(TemplatesConfig::path_from(None, &filename), None);
}

#[test]
fn register_appends_in_call_order() {
    let mut doc = TemplatesConfig {
        target: "templates".to_string(),
        registry: vec![template("web", "/templates/web")],
    };
    let added = [template("cli", "/templates/cli"), template("web", "/elsewhere"), template("", "")];
    for (count, entry) in added.iter().enumerate() {
        doc = TemplatesConfig::register_template(entry, doc);
        assert_eq!(doc.registry.len(), 1 + count + 1);
        assert_eq!(doc.registry[0], template("web", "/templates/web"));
        assert_eq!(doc.registry.last(), Some(entry));
    }
    assert_eq!(doc.target, "templates");
    assert_eq!(
        doc.registry,
        vec![
            template("web", "/templates/web"),
            template("cli", "/templates/cli"),
            template("web", "/elsewhere"),
            template("", ""),
        ]
    );
}

#[test]
fn register_into_an_empty_registry() {
    let doc = TemplatesConfig { target: "templates".to_string(), registry: Vec::new() };
    let doc = TemplatesConfig::register_template(&template("a", "/a"), doc);
    assert_eq!(doc.registry, vec![template("a", "/a")]);
}

#[test]
fn default_config_is_named_after_the_last_segment() {
    let made = CreatedTemplateConfig::default_for(&"/templates/web".to_string());
    assert_eq!(
        made,
        CreatedTemplateConfig {
            target: "project".to_string(),
            name: "web".to_string(),
            author: String::new(),
            version: "1.0.0".to_string(),
            description: String::new(),
            exclude_paths: Vec::new(),
            scripts: Vec::new(),
            exclude_config: true,
        }
    );
    assert_eq!(CreatedTemplateConfig::default_for(&"web".to_string()).name, "web");
    assert_eq!(CreatedTemplateConfig::default_for(&"/templates/web/".to_string()).name, "");
}

#[test]
fn config_path_is_the_fixed_file_in_the_root() {
    assert_eq!(
        RegisteredTemplate::config_path(&"/templates/web".to_string()),
        "/templates/web/edna.config.json"
    );
}

#[test]
fn load_without_a_file_synthesizes_and_asks_to_write() {
    let root = "/templates/web".to_string();
    let loaded = RegisteredTemplate::load_config(&root, None).unwrap();
    let written = loaded.persist.clone().unwrap();
    assert_eq!(written, CreatedTemplateConfig::default_for(&root));
    assert_eq!(loaded.config.name, "web");
    assert_eq!(loaded.config.target, "project");
    assert_eq!(loaded.config.version, "1.0.0");
    assert!(loaded.config.exclude_config);
    assert_eq!(loaded.config.exclude_paths, vec!["/templates/web/edna.config.json".to_string()]);
    assert!(loaded.config.scripts.is_empty());
    assert!(written.exclude_paths.is_empty());
}

#[test]
fn second_load_gives_the_same_config_and_writes_nothing() {
    for root in ["/templates/web", "web", "a/b/c", "/t/été"] {
        let root = root.to_string();
        let first = RegisteredTemplate::load_config(&root, None).unwrap();
        let file = first.persist.as_ref().map(|written| written.to_stored());
        let second = RegisteredTemplate::load_config(&root, file).unwrap();
        assert_eq!(second.config, first.config);
        assert_eq!(second.persist, None);
        let file = first.persist.as_ref().map(|written| written.to_stored());
        let third = RegisteredTemplate::load_config(&root, file).unwrap();
        assert_eq!(third, second);
    }
}

#[test]
fn load_keeps_a_stored_config_and_writes_nothing() {
    let file = Some(config("web").to_stored());
    let loaded = RegisteredTemplate::load_config(&"/templates/web".to_string(), file);
    assert_eq!(loaded, Ok(LoadedConfig { config: config("web"), persist: None }));
}

#[test]
fn load_adds_the_config_file_to_the_excluded_paths_when_asked() {
    let mut stored = config("web");
    stored.exclude_config = true;
    let loaded =
        RegisteredTemplate::load_config(&"/templates/web".to_string(), Some(stored.to_stored()))
            .unwrap();
    assert_eq!(
        loaded.config.exclude_paths,
        vec![
            "/templates/web/node_modules".to_string(),
            "/templates/web/edna.config.json".to_string()
        ]
    );
    assert_eq!(loaded.persist, None);
    assert_eq!(loaded.config.scripts, vec!["npm install".to_string()]);
}

#[test]
fn load_refuses_another_target() {
    for target in ["templates", "", "Project", "project ", "projec"] {
        let mut stored = config("web");
        stored.target = target.to_string();
        stored.exclude_config = true;
        let loaded =
            RegisteredTemplate::load_config(&"/templates/web".to_string(), Some(stored.to_stored()));
        assert_eq!(
            loaded,
            Err(ConfigError::InvalidTarget { path: "/templates/web/edna.config.json".to_string() })
        );
    }
}

fn bare(target: &str) -> StoredConfig {
    StoredConfig {
        target: target.to_string(),
        name: None,
        author: None,
        version: None,
        description: None,
        exclude_paths: None,
        scripts: None,
        exclude_config: None,
    }
}

#[test]
fn missing_fields_are_filled_in() {
    assert_eq!(
        bare("project").complete(),
        CreatedTemplateConfig {
            target: "project".to_string(),
            name: String::new(),
            author: String::new(),
            version: String::new(),
            description: String::new(),
            exclude_paths: Vec::new(),
            scripts: Vec::new(),
            exclude_config: false,
        }
    );
    let mut partly = bare("project");
    partly.name = Some("web".to_string());
    partly.scripts = Some(vec!["make".to_string()]);
    partly.exclude_config = Some(true);
    let made = partly.complete();
    assert_eq!(made.name, "web");
    assert_eq!(made.author, "");
    assert_eq!(made.scripts, vec!["make".to_string()]);
    assert_eq!(made.exclude_paths, Vec::<String>::new());
    assert!(made.exclude_config);
}

#[test]
fn written_config_reads_back_as_it_was() {
    let written = config("web");
    let file = written.to_stored();
    assert_eq!(file.name, Some("web".to_string()));
    assert_eq!(file.exclude_paths, Some(vec!["/templates/web/node_modules".to_string()]));
    assert_eq!(file.exclude_config, Some(false));
    assert_eq!(file.complete(), written);
}

#[test]
fn load_of_a_bare_file_excludes_nothing() {
    let loaded =
        RegisteredTemplate::load_config(&"/templates/web".to_string(), Some(bare("project")));
    let loaded = loaded.unwrap();
    assert_eq!(loaded.config, bare("project").complete());
    assert_eq!(loaded.persist, None);
    let refused =
        RegisteredTemplate::load_config(&"/templates/web".to_string(), Some(bare("templates")));
    assert_eq!(
        refused,
        Err(ConfigError::InvalidTarget { path: "/templates/web/edna.config.json".to_string() })
    );
}

fn creation(output: &str, source: &str) -> TemplateCreation {
    CreatedTemplateConfig::create_template(&output.to_string(), &source.to_string(), &config("web"))
}

fn replied(state: TemplateCreation, replies: Vec<CreationReply>) -> TemplateCreation {
    let mut state = state;
    for reply in replies {
        state = state.advance(reply);
    }
    state
}

fn listed_nothing() -> Vec<CreationReply> {
    vec![
        CreationReply::OutputChecked { present: false },
        CreationReply::Copy(CopyReply::Source { is_dir: true }),
        CreationReply::Copy(CopyReply::Destination(PathKind::Missing)),
        CreationReply::Copy(CopyReply::Created),
        CreationReply::Copy(CopyReply::Destination(PathKind::Directory)),
        CreationReply::Copy(CopyReply::Listed(Vec::new())),
    ]
}

#[test]
fn create_template_looks_at_the_output_first() {
    let state = creation("/templates/web", "/src/web");
    assert_eq!(state.outcome(), None);
    assert_eq!(state.request(), CreationRequest::CheckOutput { path: "/templates/web".to_string() });
}

#[test]
fn create_template_never_touches_an_existing_output() {
    let state = creation("/templates/web", "/src/web");
    let state = state.advance(CreationReply::OutputChecked { present: true });
    let error = CreationError::AlreadyExists { output: "/templates/web".to_string() };
    assert_eq!(state.outcome(), Some(Err(error.clone())));
    assert_eq!(state.request(), CreationRequest::Finished(Err(error.clone())));
    assert_eq!(error.message(), "The template \"/templates/web\" already exists!");
    assert_eq!(error.exit_code(), 1);
    let state = replied(state, listed_nothing());
    assert_eq!(state.request(), CreationRequest::Finished(Err(error)));
}

#[test]
fn create_template_twice_fails_the_second_time() {
    let first = replied(creation("/templates/web", ""), vec![
        CreationReply::OutputChecked { present: false },
        CreationReply::DirectoryCreated,
        CreationReply::ConfigWritten,
        CreationReply::Registered,
    ]);
    assert_eq!(first.outcome(), Some(Ok(())));
    let second = creation("/templates/web", "");
    let second = second.advance(CreationReply::OutputChecked { present: true });
    assert_eq!(
        second.outcome(),
        Some(Err(CreationError::AlreadyExists { output: "/templates/web".to_string() }))
    );
}

#[test]
fn create_template_copies_then_writes_then_registers() {
    let state = creation("/templates/web", "/src/web");
    let state = state.advance(CreationReply::OutputChecked { present: false });
    assert_eq!(
        state.request(),
        CreationRequest::Copy(CopyRequest::ProbeSource { from: "/src/web".to_string() })
    );
    let state = state.advance(CreationReply::Copy(CopyReply::Source { is_dir: true }));
    assert_eq!(
        state.request(),
        CreationRequest::Copy(CopyRequest::ProbeDestination { to: "/templates/web".to_string() })
    );
    let state = replied(state, listed_nothing().split_off(2));
    assert_eq!(
        state.request(),
        CreationRequest::WriteConfig {
            path: "/templates/web/edna.config.json".to_string(),
            config: config("web"),
        }
    );
    let state = state.advance(CreationReply::ConfigWritten);
    assert_eq!(
        state.request(),
        CreationRequest::Register { template: template("web", "/templates/web") }
    );
    assert_eq!(state.outcome(), None);
    let state = state.advance(CreationReply::Registered);
    assert_eq!(state.outcome(), Some(Ok(())));
    assert_eq!(state.request(), CreationRequest::Finished(Ok(())));
}

#[test]
fn create_template_passes_over_what_the_configuration_excludes() {
    let state = CreatedTemplateConfig::create_template(
        &"/templates/web".to_string(),
        &"/templates/web-src".to_string(),
        &CreatedTemplateConfig {
            exclude_paths: vec!["/templates/web-src/node_modules".to_string()],
            ..config("web")
        },
    );
    let mut replies = listed_nothing();
    replies.pop();
    let state = replied(state, replies);
    let state = state.advance(CreationReply::Copy(CopyReply::Listed(vec![
        edna::file_system::DirEntry { name: "node_modules".to_string(), is_dir: true },
        edna::file_system::DirEntry { name: "a.txt".to_string(), is_dir: false },
    ])));
    assert_eq!(
        state.request(),
        CreationRequest::Copy(CopyRequest::CopyFile {
            from: "/templates/web-src/a.txt".to_string(),
            to: "/templates/web/a.txt".to_string(),
        })
    );
    let state = state.advance(CreationReply::Copy(CopyReply::Copied));
    assert!(matches!(state.request(), CreationRequest::WriteConfig { .. }));
}

#[test]
fn create_template_from_nothing_makes_an_empty_directory() {
    let state = creation("/templates/blank", "");
    let state = state.advance(CreationReply::OutputChecked { present: false });
    assert_eq!(
        state.request(),
        CreationRequest::CreateDirectory { path: "/templates/blank".to_string() }
    );
    let state = state.advance(CreationReply::DirectoryCreated);
    assert_eq!(
        state.request(),
        CreationRequest::WriteConfig {
            path: "/templates/blank/edna.config.json".to_string(),
            config: config("web"),
        }
    );
}

#[test]
fn create_template_registers_nothing_when_the_source_is_missing() {
    let state = creation("/templates/web", "/nowhere");
    let state = state.advance(CreationReply::OutputChecked { present: false });
    let state = state.advance(CreationReply::Copy(CopyReply::Failed));
    let error = CreationError::CopyFailed(CopyError::Io);
    assert_eq!(state.outcome(), Some(Err(error.clone())));
    assert_eq!(error.message(), "Something bad happened while creating the template.");
    assert_eq!(error.exit_code(), 1);
    let state = replied(state, vec![CreationReply::ConfigWritten, CreationReply::Registered]);
    assert_eq!(state.request(), CreationRequest::Finished(Err(error)));
}

#[test]
fn create_template_registers_nothing_after_a_failure() {
    let up_to_config = || {
        let mut replies = listed_nothing();
        replies.truncate(6);
        replied(creation("/templates/web", "/src/web"), replies)
    };
    let state = up_to_config().advance(CreationReply::Failed);
    assert_eq!(state.outcome(), Some(Err(CreationError::Io)));
    let state = state.advance(CreationReply::Registered);
    assert_eq!(state.request(), CreationRequest::Finished(Err(CreationError::Io)));

    let state = replied(creation("/templates/web", ""), vec![
        CreationReply::OutputChecked { present: false },
        CreationReply::Failed,
    ]);
    assert_eq!(state.outcome(), Some(Err(CreationError::Io)));

    let state = up_to_config().advance(CreationReply::ConfigWritten);
    let state = state.advance(CreationReply::Failed);
    assert_eq!(state.outcome(), Some(Err(CreationError::Io)));

    let state = replied(creation("/templates/web", "/src/web"), vec![
        CreationReply::OutputChecked { present: false },
        CreationReply::Copy(CopyReply::Source { is_dir: true }),
        CreationReply::Copy(CopyReply::Destination(PathKind::File)),
    ]);
    let error = CreationError::CopyFailed(CopyError::DestinationIsFile);
    assert_eq!(state.outcome(), Some(Err(error.clone())));
    assert_eq!(
        error.message(),
        "The destination cannot be a file whilst the source is a directory."
    );
}

#[test]
fn create_template_refuses_a_reply_to_another_request() {
    let state = creation("/templates/web", "/src/web").advance(CreationReply::Registered);
    assert_eq!(state.outcome(), Some(Err(CreationError::UnexpectedReply)));
    let state = replied(creation("/templates/web", ""), vec![
        CreationReply::OutputChecked { present: false },
        CreationReply::ConfigWritten,
    ]);
    assert_eq!(state.outcome(), Some(Err(CreationError::UnexpectedReply)));
    assert_eq!(
        CreationError::UnexpectedReply.message(),
        "Something bad happened while creating the template."
    );
}

#[test]
fn config_path_of_a_root_that_ends_in_a_slash_has_one_slash() {
    assert_eq!(
        RegisteredTemplate::config_path(&"/templates/web/".to_string()),
        "/templates/web/edna.config.json"
    );
    let loaded = RegisteredTemplate::load_config(&"/templates/web/".to_string(), None).unwrap();
    assert_eq!(loaded.config.exclude_paths, vec!["/templates/web/edna.config.json".to_string()]);
}

#[test]
fn registry_path_of_a_directory_that_ends_in_a_slash_has_one_slash() {
    let filename = "edna.config.json".to_string();
    assert_eq!(
        TemplatesConfig::path_from(Some("/abs/templates/".to_string()), &filename),
        Some("/abs/templates/edna.config.json".to_string())
    );
    assert_eq!(
        TemplatesConfig::path_from(Some("/".to_string()), &filename),
        Some("/edna.config.json".to_string())
    );
    assert_eq!(
        TemplatesConfig::path_from(Some("/abs/templates".to_string()), &"/etc/registry".to_string()),
        Some("/etc/registry".to_string())
    );
}

#[test]
fn templates_on_offer_start_with_no_template() {
    assert_eq!(get_templates(&Vec::new()), Ok(vec![template("(No template)", "")]));
}

#[test]
fn templates_on_offer_are_the_directories_in_registry_order() {
    let entries = vec![
        probed("web", "/templates/web", PathKind::Directory),
        probed("note", "/templates/note.txt", PathKind::File),
        probed("pipe", "/templates/pipe", PathKind::Other),
        probed("cli", "/templates/cli", PathKind::Directory),
        probed("web", "/other/web", PathKind::Directory),
    ];
    assert_eq!(
        get_templates(&entries),
        Ok(vec![
            template("(No template)", ""),
            template("web", "/templates/web"),
            template("cli", "/templates/cli"),
            template("web", "/other/web"),
        ])
    );
}

#[test]
fn templates_listing_fails_on_the_first_missing_path() {
    let entries = vec![
        probed("web", "/templates/web", PathKind::Directory),
        probed("gone", "/templates/gone", PathKind::Missing),
        probed("lost", "/templates/lost", PathKind::Missing),
    ];
    assert_eq!(
        get_templates(&entries),
        Err(MissingTemplate { template: template("gone", "/templates/gone") })
    );
}

#[test]
fn cloned_values_are_equal() {
    assert_eq!(config("web").clone(), config("web"));
    assert_eq!(template("web", "/t").clone(), template("web", "/t"));
}
