use std::collections::BTreeMap;

use edna::cli::project_cli::{
    find_template, project_path, project_path_given, resolve_template, script_command,
    InstantiateError, InstantiateReply, InstantiateRequest, Instantiation, Outcome, Resolution,
    ShellCommand, TemplateSelector,
};
use edna::cli::{parse_cli_args, CliCommand};
use edna::file_system::{CopyError, CopyReply, CopyRequest, DirEntry, PathKind};
use edna::templates::config::{CreatedTemplateConfig, RegisteredTemplate};
use edna::templates::{get_templates, ProbedTemplate};

fn template(name: &str, path: &str) -> RegisteredTemplate {
    RegisteredTemplate { name: name.to_string(), path: path.to_string() }
}

fn on_offer() -> Vec<RegisteredTemplate> {
    vec![
        template("(No template)", ""),
        template("web", "/templates/web"),
        template("cli", "/templates/cli"),
        template("web", "/other/web"),
        template("nothing", "none"),
    ]
}

fn config(exclude_paths: &[&str], scripts: &[&str], exclude_config: bool) -> CreatedTemplateConfig {
    CreatedTemplateConfig {
        target: "project".to_string(),
        name: "web".to_string(),
        author: String::new(),
        version: "1.0.0".to_string(),
        description: String::new(),
        exclude_paths: exclude_paths.iter().map(|s| s.to_string()).collect(),
        scripts: scripts.iter().map(|s| s.to_string()).collect(),
        exclude_config,
    }
}

/// The world that a run sees: files by path, parsed configuration files,
/// and what a shell would answer.
struct World {
    files: BTreeMap<String, String>,
    dirs: BTreeMap<String, Vec<String>>,
    configs: BTreeMap<String, CreatedTemplateConfig>,
    shell_succeeds: bool,
    shell_starts: bool,
    commands: Vec<ShellCommand>,
    log: Vec<String>,
}

fn key(path: &str) -> String {
    if path.len() > 1 && path.ends_with('/') {
        path[..path.len() - 1].to_string()
    } else {
        path.to_string()
    }
}

impl World {
    fn new() -> World {
        World {
            files: BTreeMap::new(),
            dirs: BTreeMap::new(),
            configs: BTreeMap::new(),
            shell_succeeds: true,
            shell_starts: true,
            commands: Vec::new(),
            log: Vec::new(),
        }
    }

    fn link(&mut self, path: &str) {
        if let Some(at) = path.rfind('/') {
            let (parent, name) = (path[..at].to_string(), path[at + 1..].to_string());
            if !parent.is_empty() {
                self.dir(&parent);
                let names = self.dirs.get_mut(&parent).unwrap();
                if !names.contains(&name) {
                    names.push(name);
                }
            }
        }
    }

    fn dir(&mut self, path: &str) {
        if !self.dirs.contains_key(path) {
            self.dirs.insert(path.to_string(), Vec::new());
            self.link(path);
        }
    }

    fn file(&mut self, path: &str, content: &str) {
        self.files.insert(path.to_string(), content.to_string());
        self.link(path);
    }

    fn stored(&mut self, root: &str, config: CreatedTemplateConfig) {
        let path = format!("{}/edna.config.json", root);
        self.file(&path, "{}");
        self.configs.insert(path, config);
    }

    fn files_under(&self, root: &str) -> Vec<String> {
        let prefix = format!("{}/", root);
        self.files.keys().filter_map(|p| p.strip_prefix(&prefix)).map(String::from).collect()
    }

    fn kind(&self, path: &str) -> PathKind {
        let path = key(path);
        if self.dirs.contains_key(&path) {
            PathKind::Directory
        } else if self.files.contains_key(&path) {
            PathKind::File
        } else {
            PathKind::Missing
        }
    }

    fn answer_copy(&mut self, request: &CopyRequest) -> CopyReply {
        match request {
            CopyRequest::ProbeSource { from } => match self.kind(from) {
                PathKind::Missing => CopyReply::Failed,
                kind => CopyReply::Source { is_dir: kind == PathKind::Directory },
            },
            CopyRequest::ProbeDestination { to } | CopyRequest::ConfirmDestination { to } => {
                CopyReply::Destination(self.kind(to))
            }
            CopyRequest::CreateDestination { to } => {
                self.dir(&key(to));
                CopyReply::Created
            }
            CopyRequest::List { from } => match self.dirs.get(&key(from)) {
                Some(names) => CopyReply::Listed(
                    names
                        .iter()
                        .map(|name| DirEntry {
                            name: name.clone(),
                            is_dir: self.dirs.contains_key(&format!("{}/{}", key(from), name)),
                        })
                        .collect(),
                ),
                None => CopyReply::Failed,
            },
            CopyRequest::CopyFile { from, to } => match self.files.get(from).cloned() {
                Some(content) => {
                    self.file(to, &content);
                    CopyReply::Copied
                }
                None => CopyReply::Failed,
            },
            CopyRequest::Done | CopyRequest::Failed(_) => panic!("nothing to answer"),
        }
    }

    fn answer(&mut self, request: InstantiateRequest) -> InstantiateReply {
        match request {
            InstantiateRequest::CreateEmptyDirectory { path } => {
                self.log.push(format!("mkdir {}", path));
                if self.dirs.contains_key(&path) || self.files.contains_key(&path) {
                    return InstantiateReply::Failed;
                }
                self.dir(&path);
                InstantiateReply::DirectoryCreated
            }
            InstantiateRequest::CheckTemplate { path } => {
                self.log.push(format!("check {}", path));
                InstantiateReply::TemplateChecked { present: self.kind(&path) != PathKind::Missing }
            }
            InstantiateRequest::ReadConfig { path } => {
                self.log.push(format!("read {}", path));
                InstantiateReply::ConfigRead(self.configs.get(&path).map(|c| c.to_stored()))
            }
            InstantiateRequest::WriteConfig { path, config } => {
                self.log.push(format!("write {}", path));
                self.file(&path, "{}");
                self.configs.insert(path, config);
                InstantiateReply::ConfigWritten
            }
            InstantiateRequest::Copy(request) => InstantiateReply::Copy(self.answer_copy(&request)),
            InstantiateRequest::RunScripts(command) => {
                self.log.push(format!("run {}", command.program));
                self.commands.push(command);
                if self.shell_starts {
                    InstantiateReply::ScriptsRan { success: self.shell_succeeds }
                } else {
                    InstantiateReply::Failed
                }
            }
            InstantiateRequest::Finished(_) => panic!("nothing to answer"),
        }
    }

    fn instantiate(&mut self, selector: TemplateSelector, destination: &str) -> Outcome {
        self.instantiate_from(&on_offer(), selector, destination)
    }

    fn instantiate_from(
        &mut self,
        templates: &Vec<RegisteredTemplate>,
        selector: TemplateSelector,
        destination: &str,
    ) -> Outcome {
        let mut state = Instantiation::start(&selector, templates, &destination.to_string(), false);
        loop {
            if let Some(outcome) = state.outcome() {
                assert_eq!(state.request(), InstantiateRequest::Finished(outcome.clone()));
                return outcome;
            }
            let reply = self.answer(state.request());
            state = state.advance(reply);
        }
    }
}

fn web_world() -> World {
    let mut world = World::new();
    world.file("/templates/web/index.html", "<html>");
    world.file("/templates/web/src/app.js", "app");
    world.file("/templates/web/node_modules/dep/index.js", "dep");
    world.file("/templates/web/node_modules/.bin/tool", "tool");
    world.stored("/templates/web", config(&["/templates/web/node_modules"], &[], false));
    world
}

fn name(text: &str) -> TemplateSelector {
    TemplateSelector::NameOrPath(text.to_string())
}

#[test]
fn scenario_web_template_without_scripts() {
    let mut world = web_world();
    let registry = vec![ProbedTemplate {
        template: template("web", "/templates/web"),
        kind: PathKind::Directory,
    }];
    let templates = get_templates(&registry).unwrap();
    assert_eq!(templates, vec![template("(No template)", ""), template("web", "/templates/web")]);
    let outcome = world.instantiate_from(&templates, name("web"), "/out/myapp");
    assert_eq!(outcome, Outcome::Created { copied: true });
    assert_eq!(outcome.message(), "No scripts to run.");
    assert_eq!(outcome.exit_code(), 0);
    assert!(world.commands.is_empty());
    assert_eq!(
        world.files_under("/out/myapp"),
        vec!["edna.config.json".to_string(), "index.html".to_string(), "src/app.js".to_string()]
    );
    assert_eq!(world.files["/out/myapp/index.html"], "<html>");
    assert_eq!(world.files["/out/myapp/src/app.js"], "app");
    assert!(!world.dirs.contains_key("/out/myapp/node_modules"));
    assert!(world.files.keys().all(|p| !p.starts_with("/out/myapp/node_modules")));
}

#[test]
fn template_with_exclude_config_keeps_its_config_file() {
    let mut world = web_world();
    world.stored("/templates/web", config(&["/templates/web/node_modules"], &[], true));
    let outcome = world.instantiate(name("web"), "/out/myapp");
    assert_eq!(outcome, Outcome::Created { copied: true });
    assert_eq!(
        world.files_under("/out/myapp"),
        vec!["index.html".to_string(), "src/app.js".to_string()]
    );
    assert!(!world.files.contains_key("/out/myapp/edna.config.json"));
    assert!(world.files.contains_key("/templates/web/edna.config.json"));
}

#[test]
fn template_root_that_ends_in_a_slash_keeps_its_config_file() {
    let mut world = web_world();
    world.stored("/templates/web", config(&["/templates/web/node_modules"], &[], true));
    let outcome = world.instantiate(name("/templates/web/"), "/out/myapp");
    assert_eq!(outcome, Outcome::Created { copied: true });
    assert_eq!(
        world.files_under("/out/myapp"),
        vec!["index.html".to_string(), "src/app.js".to_string()]
    );
    assert!(!world.files.contains_key("/out/myapp/edna.config.json"));
    assert!(!world.dirs.contains_key("/out/myapp/node_modules"));
    assert_eq!(
        world.log,
        vec!["check /templates/web/", "read /templates/web/edna.config.json"]
    );
}

#[test]
fn template_without_config_gets_one_and_keeps_it() {
    let mut world = World::new();
    world.file("/templates/cli/main.rs", "fn main() {}");
    let outcome = world.instantiate(name("cli"), "/out/tool");
    assert_eq!(outcome, Outcome::Created { copied: true });
    let written = world.configs["/templates/cli/edna.config.json"].clone();
    assert_eq!(written, CreatedTemplateConfig::default_for(&"/templates/cli".to_string()));
    assert_eq!(written.name, "cli");
    assert_eq!(world.files_under("/out/tool"), vec!["main.rs".to_string()]);
    assert_eq!(
        world.log,
        vec![
            "check /templates/cli",
            "read /templates/cli/edna.config.json",
            "write /templates/cli/edna.config.json",
        ]
    );

    let again = world.instantiate(name("cli"), "/out/tool2");
    assert_eq!(again, Outcome::Created { copied: true });
    assert_eq!(world.configs["/templates/cli/edna.config.json"], written);
    assert_eq!(world.files_under("/out/tool2"), vec!["main.rs".to_string()]);
    assert_eq!(world.log.iter().filter(|l| l.starts_with("write")).count(), 1);
}

#[test]
fn scripts_run_once_in_the_project_directory() {
    let mut world = web_world();
    world.stored("/templates/web", config(&[], &["npm install", "git init"], true));
    let outcome = world.instantiate(name("web"), "/out/myapp");
    assert_eq!(outcome, Outcome::ScriptsRan { success: true });
    assert_eq!(outcome.message(), "Scripts completed successfully!");
    assert_eq!(outcome.exit_code(), 0);
    assert_eq!(
        world.commands,
        vec![ShellCommand {
            program: "sh".to_string(),
            args: vec!["-c".to_string(), "npm install".to_string(), "git init".to_string()],
            working_dir: "/out/myapp".to_string(),
        }]
    );
    assert!(world.files.contains_key("/out/myapp/node_modules/dep/index.js"));
}

#[test]
fn failing_scripts_are_reported_but_not_fatal() {
    let mut world = web_world();
    world.stored("/templates/web", config(&[], &["exit 3"], true));
    world.shell_succeeds = false;
    let outcome = world.instantiate(name("web"), "/out/myapp");
    assert_eq!(outcome, Outcome::ScriptsRan { success: false });
    assert_eq!(outcome.message(), "Scripts completed with errors.");
    assert_eq!(outcome.exit_code(), 0);
    assert!(world.files.contains_key("/out/myapp/index.html"));
}

#[test]
fn shell_that_does_not_start_fails_the_run() {
    let mut world = web_world();
    world.stored("/templates/web", config(&[], &["true"], true));
    world.shell_starts = false;
    let outcome = world.instantiate(name("web"), "/out/myapp");
    assert_eq!(outcome, Outcome::Failed(InstantiateError::Io));
    assert_eq!(outcome.exit_code(), 1);
}

#[test]
fn no_template_makes_an_empty_directory() {
    for selector in [TemplateSelector::NoTemplate, TemplateSelector::Index(0), name("none"), name("nothing")] {
        let mut world = web_world();
        let outcome = world.instantiate(selector, "/out/empty");
        assert_eq!(outcome, Outcome::Created { copied: false });
        assert_eq!(outcome.message(), "");
        assert_eq!(outcome.exit_code(), 0);
        assert_eq!(world.dirs["/out/empty"], Vec::<String>::new());
        assert_eq!(world.log, vec!["mkdir /out/empty"]);
    }
}

#[test]
fn empty_directory_that_cannot_be_made_fails_the_run() {
    let mut world = web_world();
    world.dir("/out/empty");
    let outcome = world.instantiate(TemplateSelector::NoTemplate, "/out/empty");
    assert_eq!(outcome, Outcome::Failed(InstantiateError::Io));
}

#[test]
fn index_selects_by_position() {
    let mut world = web_world();
    world.file("/other/web/other.txt", "other");
    let outcome = world.instantiate(TemplateSelector::Index(3), "/out/o");
    assert_eq!(outcome, Outcome::Created { copied: true });
    assert_eq!(world.files_under("/out/o"), vec!["other.txt".to_string()]);
}

#[test]
fn index_beyond_the_list_fails() {
    let mut world = web_world();
    let outcome = world.instantiate(TemplateSelector::Index(5), "/out/o");
    assert_eq!(outcome, Outcome::Failed(InstantiateError::NoSuchEntry { index: 5 }));
    assert_eq!(outcome.exit_code(), 1);
    assert_eq!(
        outcome.message(),
        "No templates currently exist so supply a path for the `--template` argument."
    );
    assert!(world.log.is_empty());
}

#[test]
fn unregistered_text_is_taken_as_a_path() {
    let mut world = web_world();
    world.file("/srv/skeleton/a.txt", "a");
    let outcome = world.instantiate(name("/srv/skeleton"), "/out/p");
    assert_eq!(outcome, Outcome::Created { copied: true });
    assert_eq!(world.files_under("/out/p"), vec!["a.txt".to_string()]);
}

#[test]
fn missing_template_path_fails_before_anything_is_made() {
    let mut world = web_world();
    let outcome = world.instantiate(name("/srv/absent"), "/out/p");
    assert_eq!(
        outcome,
        Outcome::Failed(InstantiateError::TemplateNotFound { path: "/srv/absent".to_string() })
    );
    assert_eq!(
        outcome.message(),
        "The path /srv/absent does not exist! Please supply a valid folder path or an a supported template."
    );
    assert_eq!(outcome.exit_code(), 1);
    assert!(!world.dirs.contains_key("/out/p"));
    assert_eq!(world.log, vec!["check /srv/absent"]);
}

#[test]
fn registered_template_whose_path_is_gone_fails() {
    let mut world = World::new();
    let outcome = world.instantiate(name("web"), "/out/p");
    assert_eq!(
        outcome,
        Outcome::Failed(InstantiateError::TemplateNotFound { path: "/templates/web".to_string() })
    );
}

#[test]
fn config_for_another_target_fails_the_run() {
    let mut world = web_world();
    let mut bad = config(&[], &[], true);
    bad.target = "templates".to_string();
    world.stored("/templates/web", bad);
    let outcome = world.instantiate(name("web"), "/out/p");
    assert_eq!(
        outcome,
        Outcome::Failed(InstantiateError::InvalidConfig {
            path: "/templates/web/edna.config.json".to_string()
        })
    );
    assert_eq!(
        outcome.message(),
        "Invalid template config for /templates/web/edna.config.json. The variant must be `project`"
    );
    assert_eq!(outcome.exit_code(), 1);
    assert!(!world.dirs.contains_key("/out/p"));
}

#[test]
fn copy_onto_a_file_fails_the_run() {
    let mut world = web_world();
    world.file("/out/p", "a file");
    let outcome = world.instantiate(name("web"), "/out/p");
    assert_eq!(outcome, Outcome::Failed(InstantiateError::CopyFailed(CopyError::DestinationIsFile)));
    assert_eq!(
        outcome.message(),
        "The destination cannot be a file whilst the source is a directory."
    );
    assert_eq!(outcome.exit_code(), 1);
    assert!(world.commands.is_empty());
}

#[test]
fn failed_copy_runs_no_scripts() {
    let mut world = World::new();
    world.file("/templates/web", "not a directory");
    world.configs.insert("/templates/web/edna.config.json".to_string(), config(&[], &["true"], false));
    let outcome = world.instantiate(name("web"), "/out/p");
    assert_eq!(outcome, Outcome::Failed(InstantiateError::CopyFailed(CopyError::Io)));
    assert_eq!(outcome.message(), "Something bad happened while creating the project.");
    assert!(world.commands.is_empty());
}

#[test]
fn unexpected_reply_stops_the_run() {
    let state = Instantiation::start(&name("web"), &on_offer(), &"/out/p".to_string(), false);
    let state = state.advance(InstantiateReply::ConfigWritten);
    assert_eq!(state.outcome(), Some(Outcome::Failed(InstantiateError::UnexpectedReply)));
    let state = state.advance(InstantiateReply::TemplateChecked { present: true });
    assert_eq!(state.outcome(), Some(Outcome::Failed(InstantiateError::UnexpectedReply)));
    assert_eq!(
        state.outcome().unwrap().message(),
        "Something bad happened while creating the project."
    );
}

#[test]
fn windows_shell_is_cmd() {
    let scripts = vec!["dir".to_string()];
    assert_eq!(
        script_command(&scripts, &"C:/p".to_string(), true),
        ShellCommand {
            program: "cmd".to_string(),
            args: vec!["/C".to_string(), "dir".to_string()],
            working_dir: "C:/p".to_string(),
        }
    );
    assert_eq!(
        script_command(&Vec::new(), &"/p".to_string(), false),
        ShellCommand {
            program: "sh".to_string(),
            args: vec!["-c".to_string()],
            working_dir: "/p".to_string()
        }
    );
}

#[test]
fn windows_run_asks_for_cmd() {
    let state = Instantiation::start(&name("web"), &on_offer(), &"/out/p".to_string(), true);
    let state = state.advance(InstantiateReply::TemplateChecked { present: true });
    let file = config(&[], &["build.bat"], false).to_stored();
    let state = state.advance(InstantiateReply::ConfigRead(Some(file)));
    let state = state.advance(InstantiateReply::Copy(CopyReply::Source { is_dir: true }));
    let state =
        state.advance(InstantiateReply::Copy(CopyReply::Destination(PathKind::Directory)));
    let state = state.advance(InstantiateReply::Copy(CopyReply::Listed(Vec::new())));
    assert_eq!(
        state.request(),
        InstantiateRequest::RunScripts(ShellCommand {
            program: "cmd".to_string(),
            args: vec!["/C".to_string(), "build.bat".to_string()],
            working_dir: "/out/p".to_string(),
        })
    );
}

#[test]
fn first_template_of_a_name_wins() {
    let templates = on_offer();
    assert_eq!(find_template(&templates, &"web".to_string()), Some(1));
    assert_eq!(find_template(&templates, &"cli".to_string()), Some(2));
    assert_eq!(find_template(&templates, &"(No template)".to_string()), Some(0));
    assert_eq!(find_template(&templates, &"Web".to_string()), None);
    assert_eq!(find_template(&Vec::new(), &"web".to_string()), None);
    assert_eq!(
        resolve_template(&name("web"), &templates),
        Some(Resolution::Template("/templates/web".to_string()))
    );
}

#[test]
fn selectors_resolve_as_documented() {
    let templates = on_offer();
    assert_eq!(resolve_template(&TemplateSelector::NoTemplate, &templates), Some(Resolution::Empty));
    assert_eq!(resolve_template(&TemplateSelector::Index(0), &templates), Some(Resolution::Empty));
    assert_eq!(
        resolve_template(&TemplateSelector::Index(2), &templates),
        Some(Resolution::Template("/templates/cli".to_string()))
    );
    assert_eq!(
        resolve_template(&TemplateSelector::Index(4), &templates),
        Some(Resolution::Template("none".to_string()))
    );
    assert_eq!(resolve_template(&TemplateSelector::Index(5), &templates), None);
    assert_eq!(resolve_template(&TemplateSelector::Index(0), &Vec::new()), Some(Resolution::Empty));
    assert_eq!(resolve_template(&TemplateSelector::Index(1), &Vec::new()), None);
    assert_eq!(resolve_template(&name("none"), &templates), Some(Resolution::Empty));
    assert_eq!(resolve_template(&name("nothing"), &templates), Some(Resolution::Empty));
    assert_eq!(
        resolve_template(&name("./local"), &templates),
        Some(Resolution::Template("./local".to_string()))
    );
    assert_eq!(
        resolve_template(&name("(No template)"), &templates),
        Some(Resolution::Template(String::new()))
    );
}

#[test]
fn project_path_adds_the_name_unless_told_otherwise() {
    let supplied = "./work".to_string();
    let name = "app".to_string();
    assert_eq!(project_path_given(&supplied, &name, false), "./work/app");
    assert_eq!(project_path_given(&supplied, &name, true), "./work");
}

#[test]
fn project_path_goes_by_the_components_of_the_supplied_path() {
    let name = "app".to_string();
    assert_eq!(project_path(&"./".to_string(), &name), ".//app");
    assert_eq!(project_path(&"/srv/work".to_string(), &name), "/srv/work/app");
    assert_eq!(project_path(&"/srv/app".to_string(), &name), "/srv/app/app");
    assert_eq!(project_path(&"/app".to_string(), &name), "/app");
}

#[test]
fn commands_are_picked_from_the_subcommands() {
    assert_eq!(parse_cli_args(true, true, false), CliCommand::NewProject);
    assert_eq!(parse_cli_args(true, false, true), CliCommand::NewTemplate);
    assert_eq!(parse_cli_args(true, true, true), CliCommand::NewProject);
    assert_eq!(parse_cli_args(true, false, false), CliCommand::Nothing);
    assert_eq!(parse_cli_args(false, true, true), CliCommand::Nothing);
    assert_eq!(parse_cli_args(false, false, false), CliCommand::Nothing);
}
