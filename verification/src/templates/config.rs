//! Templates, the configuration file that each of them carries, and the
//! registry that lists them.

use crate::text::{
    absolute_path, clone_texts, entry_path, join_entry, last_path_segment, last_segment, texts,
};
use vstd::prelude::*;

verus! {

/// The target that every template configuration must name.
pub open spec fn project_target() -> Seq<char> {
    "project"@
}

/// The name of the configuration file inside a template's root directory.
pub open spec fn config_file_name() -> Seq<char> {
    "edna.config.json"@
}

/// The version that a configuration gets when none was ever written.
pub open spec fn default_version() -> Seq<char> {
    "1.0.0"@
}

/// The path of the configuration file of the template rooted at `root`.
pub open spec fn config_path(root: Seq<char>) -> Seq<char> {
    entry_path(root, config_file_name())
}

/// Where the registry document is kept: a directory and a file name in it.
#[derive(Debug, PartialEq, Eq)]
pub struct TemplatesMetadata {
    pub directory: String,
    pub filename: String,
}

/// The configuration of one template.
#[derive(Debug, PartialEq, Eq)]
pub struct CreatedTemplateConfig {
    pub target: String,
    pub name: String,
    pub author: String,
    pub version: String,
    pub description: String,
    pub exclude_paths: Vec<String>,
    pub scripts: Vec<String>,
    pub exclude_config: bool,
}

/// Model of a [`CreatedTemplateConfig`].
pub struct CreatedTemplateConfigView {
    pub target: Seq<char>,
    pub name: Seq<char>,
    pub author: Seq<char>,
    pub version: Seq<char>,
    pub description: Seq<char>,
    pub exclude_paths: Seq<Seq<char>>,
    pub scripts: Seq<Seq<char>>,
    pub exclude_config: bool,
}

impl View for CreatedTemplateConfig {
    type V = CreatedTemplateConfigView;

    open spec fn view(&self) -> CreatedTemplateConfigView {
        CreatedTemplateConfigView {
            target: self.target@,
            name: self.name@,
            author: self.author@,
            version: self.version@,
            description: self.description@,
            exclude_paths: texts(self.exclude_paths@),
            scripts: texts(self.scripts@),
            exclude_config: self.exclude_config,
        }
    }
}

impl Clone for CreatedTemplateConfig {
    fn clone(&self) -> (out: Self)
        ensures
            out@ == self@,
    {
        CreatedTemplateConfig {
            target: self.target.clone(),
            name: self.name.clone(),
            author: self.author.clone(),
            version: self.version.clone(),
            description: self.description.clone(),
            exclude_paths: clone_texts(&self.exclude_paths),
            scripts: clone_texts(&self.scripts),
            exclude_config: self.exclude_config,
        }
    }
}

/// What a template's configuration file holds. Every field but the target
/// may be left out of the file, or be null in it.
#[derive(Debug, PartialEq, Eq)]
pub struct StoredConfig {
    pub target: String,
    pub name: Option<String>,
    pub author: Option<String>,
    pub version: Option<String>,
    pub description: Option<String>,
    pub exclude_paths: Option<Vec<String>>,
    pub scripts: Option<Vec<String>>,
    pub exclude_config: Option<bool>,
}

/// Model of a [`StoredConfig`].
pub struct StoredConfigView {
    pub target: Seq<char>,
    pub name: Option<Seq<char>>,
    pub author: Option<Seq<char>>,
    pub version: Option<Seq<char>>,
    pub description: Option<Seq<char>>,
    pub exclude_paths: Option<Seq<Seq<char>>>,
    pub scripts: Option<Seq<Seq<char>>>,
    pub exclude_config: Option<bool>,
}

/// The text that a field holds, if the file has the field.
pub open spec fn field_text(field: Option<String>) -> Option<Seq<char>> {
    match field {
        Some(text) => Some(text@),
        None => None,
    }
}

/// The texts that a field holds, if the file has the field.
pub open spec fn field_texts(field: Option<Vec<String>>) -> Option<Seq<Seq<char>>> {
    match field {
        Some(list) => Some(texts(list@)),
        None => None,
    }
}

impl View for StoredConfig {
    type V = StoredConfigView;

    open spec fn view(&self) -> StoredConfigView {
        StoredConfigView {
            target: self.target@,
            name: field_text(self.name),
            author: field_text(self.author),
            version: field_text(self.version),
            description: field_text(self.description),
            exclude_paths: field_texts(self.exclude_paths),
            scripts: field_texts(self.scripts),
            exclude_config: self.exclude_config,
        }
    }
}

/// The text of a field that may be missing: empty where it is.
pub open spec fn text_or_empty(field: Option<Seq<char>>) -> Seq<char> {
    match field {
        Some(text) => text,
        None => Seq::empty(),
    }
}

/// The list of a field that may be missing: empty where it is.
pub open spec fn list_or_empty(field: Option<Seq<Seq<char>>>) -> Seq<Seq<char>> {
    match field {
        Some(list) => list,
        None => Seq::empty(),
    }
}

impl StoredConfigView {
    /// The configuration that the file stands for: a text that is missing
    /// is empty, a list that is missing is empty, and a configuration that
    /// does not say whether it excludes its own file does not.
    pub open spec fn completed(self) -> CreatedTemplateConfigView {
        CreatedTemplateConfigView {
            target: self.target,
            name: text_or_empty(self.name),
            author: text_or_empty(self.author),
            version: text_or_empty(self.version),
            description: text_or_empty(self.description),
            exclude_paths: list_or_empty(self.exclude_paths),
            scripts: list_or_empty(self.scripts),
            exclude_config: match self.exclude_config {
                Some(exclude) => exclude,
                None => false,
            },
        }
    }
}

impl CreatedTemplateConfigView {
    /// What the configuration file holds once this configuration is
    /// written to it: every field.
    pub open spec fn stored(self) -> StoredConfigView {
        StoredConfigView {
            target: self.target,
            name: Some(self.name),
            author: Some(self.author),
            version: Some(self.version),
            description: Some(self.description),
            exclude_paths: Some(self.exclude_paths),
            scripts: Some(self.scripts),
            exclude_config: Some(self.exclude_config),
        }
    }
}

/// The text of a field that may be missing.
fn take_text(field: Option<String>) -> (out: String)
    ensures
        out@ == text_or_empty(field_text(field)),
{
    match field {
        Some(text) => text,
        None => String::new(),
    }
}

/// The list of a field that may be missing.
fn take_list(field: Option<Vec<String>>) -> (out: Vec<String>)
    ensures
        texts(out@) == list_or_empty(field_texts(field)),
{
    match field {
        Some(list) => list,
        None => {
            let list: Vec<String> = Vec::new();
            assert(texts(list@) =~= Seq::<Seq<char>>::empty());
            list
        },
    }
}

impl StoredConfig {
    /// The configuration that the file stands for, every missing field
    /// filled in.
    pub fn complete(self) -> (out: CreatedTemplateConfig)
        ensures
            out@ == self@.completed(),
    {
        CreatedTemplateConfig {
            target: self.target,
            name: take_text(self.name),
            author: take_text(self.author),
            version: take_text(self.version),
            description: take_text(self.description),
            exclude_paths: take_list(self.exclude_paths),
            scripts: take_list(self.scripts),
            exclude_config: match self.exclude_config {
                Some(exclude) => exclude,
                None => false,
            },
        }
    }
}

impl CreatedTemplateConfig {
    /// What the configuration file holds once this configuration is
    /// written to it.
    pub fn to_stored(&self) -> (out: StoredConfig)
        ensures
            out@ == self@.stored(),
    {
        StoredConfig {
            target: self.target.clone(),
            name: Some(self.name.clone()),
            author: Some(self.author.clone()),
            version: Some(self.version.clone()),
            description: Some(self.description.clone()),
            exclude_paths: Some(clone_texts(&self.exclude_paths)),
            scripts: Some(clone_texts(&self.scripts)),
            exclude_config: Some(self.exclude_config),
        }
    }
}

/// A configuration that was written is read back as it was.
pub proof fn lemma_stored_config_reads_back(config: CreatedTemplateConfigView)
    ensures
        config.stored().completed() == config,
{
}

/// One entry of the registry: a template's name and where its files are.
#[derive(Debug, PartialEq, Eq)]
pub struct RegisteredTemplate {
    pub name: String,
    pub path: String,
}

/// Model of a [`RegisteredTemplate`].
pub struct RegisteredTemplateView {
    pub name: Seq<char>,
    pub path: Seq<char>,
}

impl View for RegisteredTemplate {
    type V = RegisteredTemplateView;

    open spec fn view(&self) -> RegisteredTemplateView {
        RegisteredTemplateView { name: self.name@, path: self.path@ }
    }
}

impl Clone for RegisteredTemplate {
    fn clone(&self) -> (out: Self)
        ensures
            out == *self,
    {
        RegisteredTemplate { name: self.name.clone(), path: self.path.clone() }
    }
}

/// The models of a sequence of registry entries, in order.
pub open spec fn template_views(entries: Seq<RegisteredTemplate>) -> Seq<RegisteredTemplateView> {
    entries.map_values(|t: RegisteredTemplate| t@)
}

/// The registry document: every template that is known, in the order in
/// which they were registered.
#[derive(Debug, PartialEq, Eq)]
pub struct TemplatesConfig {
    pub target: String,
    pub registry: Vec<RegisteredTemplate>,
}

/// Model of a [`TemplatesConfig`].
pub struct TemplatesConfigView {
    pub target: Seq<char>,
    pub registry: Seq<RegisteredTemplateView>,
}

impl View for TemplatesConfig {
    type V = TemplatesConfigView;

    open spec fn view(&self) -> TemplatesConfigView {
        TemplatesConfigView { target: self.target@, registry: template_views(self.registry@) }
    }
}

impl TemplatesConfigView {
    /// The document after `template` was registered: it is the last entry,
    /// and nothing else has changed.
    pub open spec fn registered(self, template: RegisteredTemplateView) -> TemplatesConfigView {
        TemplatesConfigView { registry: self.registry.push(template), ..self }
    }

    /// The document after each of `added` was registered, in order.
    pub open spec fn registered_all(
        self,
        added: Seq<RegisteredTemplateView>,
    ) -> TemplatesConfigView
        decreases added.len(),
    {
        if added.len() == 0 {
            self
        } else {
            self.registered_all(added.drop_last()).registered(added.last())
        }
    }
}

/// Registering never removes or reorders: after any number of
/// registrations the registry is what it was, followed by the new entries
/// in the order of the calls.
pub proof fn lemma_registry_grows(doc: TemplatesConfigView, added: Seq<RegisteredTemplateView>)
    ensures
        doc.registered_all(added).target == doc.target,
        doc.registered_all(added).registry == doc.registry + added,
        doc.registered_all(added).registry.len() == doc.registry.len() + added.len(),
        forall|i: int|
            0 <= i < doc.registry.len() ==> doc.registered_all(added).registry[i]
                == #[trigger] doc.registry[i],
        forall|j: int|
            0 <= j < added.len() ==> doc.registered_all(added).registry[doc.registry.len() + j]
                == #[trigger] added[j],
    decreases added.len(),
{
    if added.len() > 0 {
        lemma_registry_grows(doc, added.drop_last());
        assert(doc.registered_all(added).registry =~= doc.registry + added);
    } else {
        assert(doc.registered_all(added).registry =~= doc.registry + added);
    }
}

impl TemplatesConfig {
    /// The path of the registry document, given what the directory it is
    /// kept in resolved to: the file name inside that directory, or nothing
    /// where the directory could not be resolved.
    pub fn path_from(directory: Option<String>, filename: &String) -> (out: Option<String>)
        ensures
            out is Some <==> directory is Some,
            out matches Some(path) ==> path@ == entry_path(directory->0@, filename@),
    {
        match directory {
            Some(directory) => Some(join_entry(directory.as_str(), filename.as_str())),
            None => None,
        }
    }

    /// The path of the registry document: the file name inside the
    /// directory, the directory made absolute against the one that the
    /// process runs in. There is none where the directory is the empty path
    /// or cannot be made absolute.
    pub fn get_path(metadata: &TemplatesMetadata) -> (out: Option<String>)
        ensures
            metadata.directory@.len() == 0 ==> out is None,
            out matches Some(path) ==> exists|directory: Seq<char>|
                path@ == entry_path(directory, metadata.filename@),
    {
        let directory = absolute_path(metadata.directory.as_str());
        let out = Self::path_from(directory, &metadata.filename);
        assert(out is Some ==> out->0@ == entry_path(directory->0@, metadata.filename@));
        out
    }

    /// Adds `template` to the end of the registry.
    pub fn register_template(template: &RegisteredTemplate, current: TemplatesConfig) -> (out:
        TemplatesConfig)
        ensures
            out@ == current@.registered(template@),
    {
        let mut out = current;
        out.registry.push(template.clone());
        assert(template_views(out.registry@) =~= template_views(current.registry@).push(
            template@,
        ));
        out
    }
}

/// Why a template's configuration is refused.
#[derive(Debug, PartialEq, Eq)]
pub enum ConfigError {
    /// The configuration file at `path` names another target than `project`.
    InvalidTarget { path: String },
}

/// Model of a [`ConfigError`].
pub enum ConfigErrorView {
    InvalidTarget { path: Seq<char> },
}

impl View for ConfigError {
    type V = ConfigErrorView;

    open spec fn view(&self) -> ConfigErrorView {
        match self {
            ConfigError::InvalidTarget { path } => ConfigErrorView::InvalidTarget { path: path@ },
        }
    }
}

/// A template's configuration as the engines use it, and what has to be
/// written to the template's configuration file first.
#[derive(Debug, PartialEq, Eq)]
pub struct LoadedConfig {
    /// The configuration in force.
    pub config: CreatedTemplateConfig,
    /// The configuration to write to the template's configuration file:
    /// there is one exactly when the template had no such file.
    pub persist: Option<CreatedTemplateConfig>,
}

/// Model of a [`LoadedConfig`].
pub struct LoadedConfigView {
    pub config: CreatedTemplateConfigView,
    pub persist: Option<CreatedTemplateConfigView>,
}

impl View for LoadedConfig {
    type V = LoadedConfigView;

    open spec fn view(&self) -> LoadedConfigView {
        LoadedConfigView {
            config: self.config@,
            persist: match self.persist {
                Some(config) => Some(config@),
                None => None,
            },
        }
    }
}

impl CreatedTemplateConfigView {
    /// The configuration that a template rooted at `root` gets when it has
    /// none: named after the last segment of the root, and keeping its own
    /// configuration file out of the projects made from it.
    pub open spec fn default_for(root: Seq<char>) -> CreatedTemplateConfigView {
        CreatedTemplateConfigView {
            target: project_target(),
            name: last_segment(root),
            author: Seq::empty(),
            version: default_version(),
            description: Seq::empty(),
            exclude_paths: Seq::empty(),
            scripts: Seq::empty(),
            exclude_config: true,
        }
    }

    /// The configuration in force for the template rooted at `root`: where
    /// it asks for that, the path of the configuration file itself is added
    /// to the excluded paths.
    pub open spec fn in_force(self, root: Seq<char>) -> CreatedTemplateConfigView {
        if self.exclude_config {
            CreatedTemplateConfigView {
                exclude_paths: self.exclude_paths.push(config_path(root)),
                ..self
            }
        } else {
            self
        }
    }

    /// What loading the configuration of the template rooted at `root`
    /// gives, `found` being what its configuration file holds, if there is
    /// one.
    pub open spec fn loaded(root: Seq<char>, found: Option<StoredConfigView>) -> Result<
        LoadedConfigView,
        ConfigErrorView,
    > {
        let stored = match found {
            Some(file) => file.completed(),
            None => Self::default_for(root),
        };
        if stored.target != project_target() {
            Err(ConfigErrorView::InvalidTarget { path: config_path(root) })
        } else {
            Ok(
                LoadedConfigView {
                    config: stored.in_force(root),
                    persist: match found {
                        Some(_) => None,
                        None => Some(stored),
                    },
                },
            )
        }
    }
}

/// A template without a configuration file loads, under the name of the
/// last segment of its root. Once the configuration that this load asks to
/// be written stands in the file, a second load gives the same
/// configuration and asks for nothing to be written.
pub proof fn lemma_synthesis_is_stable(root: Seq<char>)
    ensures
        CreatedTemplateConfigView::loaded(root, None) matches Ok(first) && first.config.name
            == last_segment(root) && first.persist == Some(
            CreatedTemplateConfigView::default_for(root),
        ) && CreatedTemplateConfigView::loaded(root, Some(first.persist->0.stored())) == Ok::<
            LoadedConfigView,
            ConfigErrorView,
        >(LoadedConfigView { config: first.config, persist: None }),
{
}

/// A configuration that names the target `project` always loads; where it
/// excludes its own file, the path of that file is among the excluded paths
/// in force, whatever else is.
pub proof fn lemma_own_config_is_excluded(root: Seq<char>, stored: StoredConfigView)
    requires
        stored.target == project_target(),
        stored.exclude_config == Some(true),
    ensures
        CreatedTemplateConfigView::loaded(root, Some(stored)) matches Ok(loaded)
            && loaded.config.exclude_paths.contains(config_path(root)),
{
    let paths = stored.completed().in_force(root).exclude_paths;
    assert(paths[paths.len() - 1] == config_path(root));
}

impl CreatedTemplateConfig {
    /// The configuration that a template rooted at `template_path` gets
    /// when it has none.
    pub fn default_for(template_path: &String) -> (out: CreatedTemplateConfig)
        ensures
            out@ == CreatedTemplateConfigView::default_for(template_path@),
    {
        let out = CreatedTemplateConfig {
            target: String::from_str("project"),
            name: last_path_segment(template_path.as_str()),
            author: String::new(),
            version: String::from_str("1.0.0"),
            description: String::new(),
            exclude_paths: Vec::new(),
            scripts: Vec::new(),
            exclude_config: true,
        };
        assert(out@.exclude_paths =~= Seq::empty());
        assert(out@.scripts =~= Seq::empty());
        out
    }
}

impl RegisteredTemplate {
    /// The path of the configuration file of the template rooted at
    /// `template_path`.
    pub fn config_path(template_path: &String) -> (out: String)
        ensures
            out@ == config_path(template_path@),
    {
        join_entry(template_path.as_str(), "edna.config.json")
    }

    /// Completes and validates the configuration of the template rooted at
    /// `template_path`. `found` is what the template's configuration file
    /// holds; it is `None` where the template has no such file.
    ///
    /// A template without a file gets the default configuration, which the
    /// caller is asked to write. What a file leaves out is filled in. A
    /// configuration for another target than `project` is refused. Where
    /// the configuration says so, the path of the configuration file joins
    /// the excluded paths.
    pub fn load_config(template_path: &String, found: Option<StoredConfig>) -> (out: Result<
        LoadedConfig,
        ConfigError,
    >)
        ensures
            match (
                out,
                CreatedTemplateConfigView::loaded(
                    template_path@,
                    match found {
                        Some(file) => Some(file@),
                        None => None,
                    },
                ),
            ) {
                (Ok(loaded), Ok(model)) => loaded@ == model,
                (Err(error), Err(model)) => error@ == model,
                _ => false,
            },
    {
        let path = Self::config_path(template_path);
        let (stored, persist) = match found {
            Some(file) => (file.complete(), None),
            None => {
                let synthesized = CreatedTemplateConfig::default_for(template_path);
                (synthesized.clone(), Some(synthesized))
            },
        };
        if stored.target != String::from_str("project") {
            return Err(ConfigError::InvalidTarget { path });
        }
        let mut config = stored;
        if config.exclude_config {
            config.exclude_paths.push(path);
            assert(texts(config.exclude_paths@) =~= texts(stored.exclude_paths@).push(path@));
        }
        Ok(LoadedConfig { config, persist })
    }
}

} // verus!
