//! Making a project: empty, or from a template.
//!
//! An [`Instantiation`] leads the caller through the making of one project.
//! It hands out one [`InstantiateRequest`] at a time, takes the caller's
//! [`InstantiateReply`], and ends in an [`Outcome`].

use crate::file_system::{
    lemma_never_asks_for_excluded, source_of, CopyError, CopyJob, CopyJobView, CopyReply,
    CopyReplyView, CopyRequest, CopyRequestView,
};
use crate::templates::config::{
    config_path, template_views, ConfigError, ConfigErrorView, CreatedTemplateConfig,
    CreatedTemplateConfigView, LoadedConfig, RegisteredTemplate, RegisteredTemplateView,
    StoredConfig, StoredConfigView,
};
use crate::text::{child_path, join_path, texts};
use vstd::prelude::*;

verus! {

/// `std::path::Path::ends_with`: whether the components of `path` end in
/// those of `child`. How a text falls into components is the platform's
/// matter, so nothing is claimed of the answer.
#[verifier::external_body]
fn path_ends_with(path: &str, child: &str) -> bool {
    std::path::Path::new(path).ends_with(child)
}

/// The directory of a project named `name` that is to stand at `supplied`:
/// `supplied` itself where `named` says that it ends in the project's name
/// already, and else the entry of that name inside it.
pub fn project_path_given(supplied: &String, name: &String, named: bool) -> (out: String)
    ensures
        out@ == if named {
            supplied@
        } else {
            child_path(supplied@, name@)
        },
{
    if named {
        supplied.clone()
    } else {
        join_path(supplied.as_str(), name.as_str())
    }
}

/// The directory of a project named `name` that is to stand at `supplied`:
/// `supplied` itself where its components end in the root directory
/// followed by `name`, and else the entry `name` inside it.
pub fn project_path(supplied: &String, name: &String) -> (out: String)
    ensures
        out@ == supplied@ || out@ == child_path(supplied@, name@),
{
    let rooted = join_path("", name.as_str());
    let named = path_ends_with(supplied.as_str(), rooted.as_str());
    project_path_given(supplied, name, named)
}

/// The selector text that asks for a project without a template.
pub open spec fn none_sentinel() -> Seq<char> {
    "none"@
}

/// How the user chose what to make the project from.
#[derive(Debug, PartialEq, Eq)]
pub enum TemplateSelector {
    /// No template: an empty project.
    NoTemplate,
    /// The name of a template on offer, or else the path of a template.
    NameOrPath(String),
    /// A position in the list of templates on offer.
    Index(usize),
}

/// Model of a [`TemplateSelector`].
pub enum TemplateSelectorView {
    NoTemplate,
    NameOrPath(Seq<char>),
    Index(usize),
}

impl View for TemplateSelector {
    type V = TemplateSelectorView;

    open spec fn view(&self) -> TemplateSelectorView {
        match self {
            TemplateSelector::NoTemplate => TemplateSelectorView::NoTemplate,
            TemplateSelector::NameOrPath(text) => TemplateSelectorView::NameOrPath(text@),
            TemplateSelector::Index(index) => TemplateSelectorView::Index(*index),
        }
    }
}

/// What a selector stands for.
#[derive(Debug, PartialEq, Eq)]
pub enum Resolution {
    /// An empty project.
    Empty,
    /// The template rooted at this path.
    Template(String),
}

/// Model of a [`Resolution`].
pub enum ResolutionView {
    Empty,
    Template(Seq<char>),
}

impl View for Resolution {
    type V = ResolutionView;

    open spec fn view(&self) -> ResolutionView {
        match self {
            Resolution::Empty => ResolutionView::Empty,
            Resolution::Template(path) => ResolutionView::Template(path@),
        }
    }
}

/// The position of the first of `templates` that is named `name`.
pub open spec fn position_of(templates: Seq<RegisteredTemplateView>, name: Seq<char>) -> Option<
    int,
>
    decreases templates.len(),
{
    if templates.len() == 0 {
        None
    } else {
        match position_of(templates.drop_last(), name) {
            Some(i) => Some(i),
            None => if templates.last().name == name {
                Some(templates.len() - 1)
            } else {
                None
            },
        }
    }
}

/// `position_of` finds a template of that name, the first one in the list,
/// exactly when there is one.
pub proof fn lemma_position_of(templates: Seq<RegisteredTemplateView>, name: Seq<char>)
    ensures
        match position_of(templates, name) {
            Some(i) => 0 <= i < templates.len() && templates[i].name == name && forall|j: int|
                0 <= j < i ==> (#[trigger] templates[j]).name != name,
            None => forall|j: int|
                0 <= j < templates.len() ==> (#[trigger] templates[j]).name != name,
        },
    decreases templates.len(),
{
    if templates.len() > 0 {
        let shorter = templates.drop_last();
        lemma_position_of(shorter, name);
        match position_of(shorter, name) {
            Some(i) => {
                assert(shorter[i] == templates[i]);
                assert forall|j: int| 0 <= j < i implies (#[trigger] templates[j]).name
                    != name by {
                    assert(shorter[j] == templates[j]);
                }
            },
            None => {
                assert forall|j: int| 0 <= j < templates.len() - 1 implies (
                #[trigger] templates[j]).name != name by {
                    assert(shorter[j] == templates[j]);
                }
            },
        }
    }
}

/// What `selector` stands for, given the templates on offer.
///
/// Position 0 of the list is the entry for no template. A text that names a
/// template on offer stands for the path of the first template of that
/// name; any other text is itself taken as the path of a template. The path
/// `none` asks for an empty project. A position beyond the list stands for
/// nothing.
pub open spec fn resolved(
    selector: TemplateSelectorView,
    templates: Seq<RegisteredTemplateView>,
) -> Option<ResolutionView> {
    match selector {
        TemplateSelectorView::NoTemplate => Some(ResolutionView::Empty),
        TemplateSelectorView::Index(index) => if index == 0 {
            Some(ResolutionView::Empty)
        } else if index < templates.len() {
            Some(ResolutionView::Template(templates[index as int].path))
        } else {
            None
        },
        TemplateSelectorView::NameOrPath(text) => {
            let path = match position_of(templates, text) {
                Some(i) => templates[i].path,
                None => text,
            };
            if path == none_sentinel() {
                Some(ResolutionView::Empty)
            } else {
                Some(ResolutionView::Template(path))
            }
        },
    }
}

/// The position of the first of `templates` that is named `name`.
pub fn find_template(templates: &Vec<RegisteredTemplate>, name: &String) -> (out: Option<usize>)
    ensures
        match out {
            Some(i) => i < templates@.len() && position_of(template_views(templates@), name@)
                == Some(i as int),
            None => position_of(template_views(templates@), name@) is None,
        },
{
    let mut at: usize = 0;
    while at < templates.len()
        invariant
            at <= templates.len(),
            forall|j: int| 0 <= j < at ==> (#[trigger] template_views(templates@)[j]).name != name@,
        decreases templates.len() - at,
    {
        if templates[at].name == *name {
            proof {
                lemma_position_of(template_views(templates@), name@);
                assert(template_views(templates@)[at as int].name == name@);
            }
            return Some(at);
        }
        at = at + 1;
    }
    proof {
        lemma_position_of(template_views(templates@), name@);
    }
    None
}

/// Finds what `selector` stands for among the templates on offer.
pub fn resolve_template(selector: &TemplateSelector, templates: &Vec<RegisteredTemplate>) -> (out:
    Option<Resolution>)
    ensures
        match (out, resolved(selector@, template_views(templates@))) {
            (Some(resolution), Some(model)) => resolution@ == model,
            (None, None) => true,
            _ => false,
        },
{
    match selector {
        TemplateSelector::NoTemplate => Some(Resolution::Empty),
        TemplateSelector::Index(index) => {
            if *index == 0 {
                Some(Resolution::Empty)
            } else if *index < templates.len() {
                Some(Resolution::Template(templates[*index].path.clone()))
            } else {
                None
            }
        },
        TemplateSelector::NameOrPath(text) => {
            let path = match find_template(templates, text) {
                Some(i) => templates[i].path.clone(),
                None => text.clone(),
            };
            if path == String::from_str("none") {
                Some(Resolution::Empty)
            } else {
                Some(Resolution::Template(path))
            }
        },
    }
}

/// One invocation of the host's shell.
#[derive(Debug, PartialEq, Eq)]
pub struct ShellCommand {
    /// The shell to start.
    pub program: String,
    /// Its arguments, in order.
    pub args: Vec<String>,
    /// The directory to start it in.
    pub working_dir: String,
}

/// Model of a [`ShellCommand`].
pub struct ShellCommandView {
    pub program: Seq<char>,
    pub args: Seq<Seq<char>>,
    pub working_dir: Seq<char>,
}

impl View for ShellCommand {
    type V = ShellCommandView;

    open spec fn view(&self) -> ShellCommandView {
        ShellCommandView {
            program: self.program@,
            args: texts(self.args@),
            working_dir: self.working_dir@,
        }
    }
}

/// The one shell invocation that runs a template's scripts in the new
/// project: `cmd /C` on Windows and `sh -c` elsewhere, followed by the
/// scripts as further arguments, started in the project's directory.
pub open spec fn shell_command(
    scripts: Seq<Seq<char>>,
    destination: Seq<char>,
    windows: bool,
) -> ShellCommandView {
    ShellCommandView {
        program: if windows {
            "cmd"@
        } else {
            "sh"@
        },
        args: seq![if windows {
            "/C"@
        } else {
            "-c"@
        }] + scripts,
        working_dir: destination,
    }
}

/// Builds the shell invocation that runs `scripts` in `destination`.
pub fn script_command(scripts: &Vec<String>, destination: &String, windows: bool) -> (out:
    ShellCommand)
    ensures
        out@ == shell_command(texts(scripts@), destination@, windows),
{
    let mut args: Vec<String> = Vec::new();
    args.push(
        if windows {
            String::from_str("/C")
        } else {
            String::from_str("-c")
        },
    );
    let mut at: usize = 0;
    assert(texts(args@) =~= shell_command(texts(scripts@).take(0), destination@, windows).args);
    while at < scripts.len()
        invariant
            at <= scripts.len(),
            texts(args@) == shell_command(
                texts(scripts@).take(at as int),
                destination@,
                windows,
            ).args,
        decreases scripts.len() - at,
    {
        let ghost before = args@;
        args.push(scripts[at].clone());
        assert(texts(args@) =~= texts(before).push(scripts@[at as int]@));
        assert(texts(scripts@).take(at + 1) =~= texts(scripts@).take(at as int).push(
            scripts@[at as int]@,
        ));
        assert(texts(args@) =~= shell_command(
            texts(scripts@).take(at + 1),
            destination@,
            windows,
        ).args);
        at = at + 1;
    }
    assert(texts(scripts@).take(scripts.len() as int) =~= texts(scripts@));
    ShellCommand {
        program: if windows {
            String::from_str("cmd")
        } else {
            String::from_str("sh")
        },
        args,
        working_dir: destination.clone(),
    }
}

/// Why no project was made, or only part of one.
#[derive(Debug, PartialEq, Eq)]
pub enum InstantiateError {
    /// The list of templates on offer has no such position.
    NoSuchEntry { index: usize },
    /// Nothing stands at the path that the selector stands for.
    TemplateNotFound { path: String },
    /// The template's configuration file at `path` is for another target
    /// than `project`.
    InvalidConfig { path: String },
    /// The copy of the template's files stopped.
    CopyFailed(CopyError),
    /// The caller reported that a request could not be carried out.
    Io,
    /// The caller answered a request with the reply to another one.
    UnexpectedReply,
}

/// Model of an [`InstantiateError`].
pub enum InstantiateErrorView {
    NoSuchEntry { index: usize },
    TemplateNotFound { path: Seq<char> },
    InvalidConfig { path: Seq<char> },
    CopyFailed(CopyError),
    Io,
    UnexpectedReply,
}

impl View for InstantiateError {
    type V = InstantiateErrorView;

    open spec fn view(&self) -> InstantiateErrorView {
        match self {
            InstantiateError::NoSuchEntry { index } => InstantiateErrorView::NoSuchEntry {
                index: *index,
            },
            InstantiateError::TemplateNotFound { path } => InstantiateErrorView::TemplateNotFound {
                path: path@,
            },
            InstantiateError::InvalidConfig { path } => InstantiateErrorView::InvalidConfig {
                path: path@,
            },
            InstantiateError::CopyFailed(error) => InstantiateErrorView::CopyFailed(*error),
            InstantiateError::Io => InstantiateErrorView::Io,
            InstantiateError::UnexpectedReply => InstantiateErrorView::UnexpectedReply,
        }
    }
}

/// How the making of a project ended.
#[derive(Debug, PartialEq, Eq)]
pub enum Outcome {
    /// The project stands and no script was run: it is empty (`copied` is
    /// false), or its template has no scripts (`copied` is true).
    Created { copied: bool },
    /// The project stands and its template's scripts were run; `success`
    /// tells whether the shell reported success.
    ScriptsRan { success: bool },
    /// The making stopped for the reason given.
    Failed(InstantiateError),
}

/// Model of an [`Outcome`].
pub enum OutcomeView {
    Created { copied: bool },
    ScriptsRan { success: bool },
    Failed(InstantiateErrorView),
}

impl View for Outcome {
    type V = OutcomeView;

    open spec fn view(&self) -> OutcomeView {
        match self {
            Outcome::Created { copied } => OutcomeView::Created { copied: *copied },
            Outcome::ScriptsRan { success } => OutcomeView::ScriptsRan { success: *success },
            Outcome::Failed(error) => OutcomeView::Failed(error@),
        }
    }
}

/// What the user is told at the end. An empty project needs no words.
pub open spec fn outcome_message(outcome: OutcomeView) -> Seq<char> {
    match outcome {
        OutcomeView::Created { copied } => if copied {
            "No scripts to run."@
        } else {
            Seq::empty()
        },
        OutcomeView::ScriptsRan { success } => if success {
            "Scripts completed successfully!"@
        } else {
            "Scripts completed with errors."@
        },
        OutcomeView::Failed(error) => match error {
            InstantiateErrorView::NoSuchEntry { .. } => {
                "No templates currently exist so supply a path for the `--template` argument."@
            },
            InstantiateErrorView::TemplateNotFound { path } => "The path "@ + path
                + " does not exist! Please supply a valid folder path or an a supported template."@,
            InstantiateErrorView::InvalidConfig { path } => "Invalid template config for "@ + path
                + ". The variant must be `project`"@,
            InstantiateErrorView::CopyFailed(CopyError::DestinationIsFile) => {
                "The destination cannot be a file whilst the source is a directory."@
            },
            _ => "Something bad happened while creating the project."@,
        },
    }
}

impl Outcome {
    /// The status that the process exits with: 1 where the making failed,
    /// and 0 otherwise, also where the scripts ended with errors.
    pub fn exit_code(&self) -> (out: i32)
        ensures
            out == if self@ is Failed {
                1i32
            } else {
                0i32
            },
    {
        match self {
            Outcome::Failed(_) => 1,
            _ => 0,
        }
    }

    /// What the user is told at the end.
    pub fn message(&self) -> (out: String)
        ensures
            out@ == outcome_message(self@),
    {
        match self {
            Outcome::Created { copied } => {
                if *copied {
                    String::from_str("No scripts to run.")
                } else {
                    String::new()
                }
            },
            Outcome::ScriptsRan { success } => {
                if *success {
                    String::from_str("Scripts completed successfully!")
                } else {
                    String::from_str("Scripts completed with errors.")
                }
            },
            Outcome::Failed(error) => match error {
                InstantiateError::NoSuchEntry { .. } => String::from_str(
                    "No templates currently exist so supply a path for the `--template` argument.",
                ),
                InstantiateError::TemplateNotFound { path } => {
                    let mut out = String::from_str("The path ");
                    out.append(path.as_str());
                    out.append(
                        " does not exist! Please supply a valid folder path or an a supported template.",
                    );
                    out
                },
                InstantiateError::InvalidConfig { path } => {
                    let mut out = String::from_str("Invalid template config for ");
                    out.append(path.as_str());
                    out.append(". The variant must be `project`");
                    out
                },
                InstantiateError::CopyFailed(CopyError::DestinationIsFile) => String::from_str(
                    "The destination cannot be a file whilst the source is a directory.",
                ),
                _ => String::from_str("Something bad happened while creating the project."),
            },
        }
    }
}

/// What an [`Instantiation`] asks its caller to do next.
#[derive(Debug, PartialEq, Eq)]
pub enum InstantiateRequest {
    /// Create the empty directory `path`. Answered by
    /// [`InstantiateReply::DirectoryCreated`].
    CreateEmptyDirectory { path: String },
    /// Find out whether anything stands at `path`. Answered by
    /// [`InstantiateReply::TemplateChecked`].
    CheckTemplate { path: String },
    /// Read the configuration file `path`, if there is one. Answered by
    /// [`InstantiateReply::ConfigRead`].
    ReadConfig { path: String },
    /// Write `config` to the file `path`. Answered by
    /// [`InstantiateReply::ConfigWritten`].
    WriteConfig { path: String, config: CreatedTemplateConfig },
    /// Carry out a request of the copy. Answered by
    /// [`InstantiateReply::Copy`].
    Copy(CopyRequest),
    /// Run the shell and wait for it. Answered by
    /// [`InstantiateReply::ScriptsRan`].
    RunScripts(ShellCommand),
    /// Nothing is left to do.
    Finished(Outcome),
}

/// Model of an [`InstantiateRequest`].
pub enum InstantiateRequestView {
    CreateEmptyDirectory { path: Seq<char> },
    CheckTemplate { path: Seq<char> },
    ReadConfig { path: Seq<char> },
    WriteConfig { path: Seq<char>, config: CreatedTemplateConfigView },
    Copy(CopyRequestView),
    RunScripts(ShellCommandView),
    Finished(OutcomeView),
}

impl View for InstantiateRequest {
    type V = InstantiateRequestView;

    open spec fn view(&self) -> InstantiateRequestView {
        match self {
            InstantiateRequest::CreateEmptyDirectory { path } => {
                InstantiateRequestView::CreateEmptyDirectory { path: path@ }
            },
            InstantiateRequest::CheckTemplate { path } => InstantiateRequestView::CheckTemplate {
                path: path@,
            },
            InstantiateRequest::ReadConfig { path } => InstantiateRequestView::ReadConfig {
                path: path@,
            },
            InstantiateRequest::WriteConfig { path, config } => {
                InstantiateRequestView::WriteConfig { path: path@, config: config@ }
            },
            InstantiateRequest::Copy(request) => InstantiateRequestView::Copy(request@),
            InstantiateRequest::RunScripts(command) => InstantiateRequestView::RunScripts(command@),
            InstantiateRequest::Finished(outcome) => InstantiateRequestView::Finished(outcome@),
        }
    }
}

/// What the caller found when it carried out an [`InstantiateRequest`].
#[derive(Debug, PartialEq, Eq)]
pub enum InstantiateReply {
    /// The empty directory was created.
    DirectoryCreated,
    /// Whether anything stands at the path.
    TemplateChecked { present: bool },
    /// What the configuration file holds; `None` where there is no file.
    ConfigRead(Option<StoredConfig>),
    /// The configuration file was written.
    ConfigWritten,
    /// The reply to a request of the copy.
    Copy(CopyReply),
    /// The shell ran; `success` is what its exit status says.
    ScriptsRan { success: bool },
    /// The request could not be carried out.
    Failed,
}

/// Model of an [`InstantiateReply`].
pub enum InstantiateReplyView {
    DirectoryCreated,
    TemplateChecked { present: bool },
    ConfigRead(Option<StoredConfigView>),
    ConfigWritten,
    Copy(CopyReplyView),
    ScriptsRan { success: bool },
    Failed,
}

impl View for InstantiateReply {
    type V = InstantiateReplyView;

    open spec fn view(&self) -> InstantiateReplyView {
        match self {
            InstantiateReply::DirectoryCreated => InstantiateReplyView::DirectoryCreated,
            InstantiateReply::TemplateChecked { present } => {
                InstantiateReplyView::TemplateChecked { present: *present }
            },
            InstantiateReply::ConfigRead(found) => InstantiateReplyView::ConfigRead(
                match found {
                    Some(file) => Some(file@),
                    None => None,
                },
            ),
            InstantiateReply::ConfigWritten => InstantiateReplyView::ConfigWritten,
            InstantiateReply::Copy(reply) => InstantiateReplyView::Copy(reply@),
            InstantiateReply::ScriptsRan { success } => InstantiateReplyView::ScriptsRan {
                success: *success,
            },
            InstantiateReply::Failed => InstantiateReplyView::Failed,
        }
    }
}

/// Where the making of a project stands.
pub enum StageView {
    /// The empty project directory is being created.
    CreatingEmpty,
    /// The template's path is being looked at.
    Checking { template: Seq<char> },
    /// The template's configuration file is being read.
    ReadingConfig { template: Seq<char> },
    /// The template had no configuration file: the default one, `persist`,
    /// is being written. `config` is the configuration in force.
    WritingConfig {
        template: Seq<char>,
        config: CreatedTemplateConfigView,
        persist: CreatedTemplateConfigView,
    },
    /// The template's files are being copied; `scripts` wait for the end.
    Copying { job: CopyJobView, scripts: Seq<Seq<char>> },
    /// The shell is running the scripts.
    RunningScripts { scripts: Seq<Seq<char>> },
    /// All is over.
    Finished(OutcomeView),
}

/// Model of an [`Instantiation`].
pub struct InstantiationView {
    /// The directory of the new project.
    pub destination: Seq<char>,
    /// Whether the host's shell is that of Windows.
    pub windows: bool,
    /// How far the making has come.
    pub stage: StageView,
}

impl InstantiationView {
    /// The making of a project at `destination`, newly started.
    pub open spec fn start(
        selector: TemplateSelectorView,
        templates: Seq<RegisteredTemplateView>,
        destination: Seq<char>,
        windows: bool,
    ) -> InstantiationView {
        InstantiationView {
            destination,
            windows,
            stage: match resolved(selector, templates) {
                Some(ResolutionView::Empty) => StageView::CreatingEmpty,
                Some(ResolutionView::Template(path)) => StageView::Checking { template: path },
                None => StageView::Finished(
                    OutcomeView::Failed(
                        InstantiateErrorView::NoSuchEntry { index: selector->Index_0 },
                    ),
                ),
            },
        }
    }

    /// What holds at every stage: a copy that is under way is well formed
    /// and has a request to make.
    pub open spec fn well_formed(self) -> bool {
        self.stage matches StageView::Copying { job, .. } ==> job.well_formed() && job.result()
            is None
    }

    /// The request that is made at this stage.
    pub open spec fn request(self) -> InstantiateRequestView {
        match self.stage {
            StageView::CreatingEmpty => InstantiateRequestView::CreateEmptyDirectory {
                path: self.destination,
            },
            StageView::Checking { template } => InstantiateRequestView::CheckTemplate {
                path: template,
            },
            StageView::ReadingConfig { template } => InstantiateRequestView::ReadConfig {
                path: config_path(template),
            },
            StageView::WritingConfig { template, persist, .. } => {
                InstantiateRequestView::WriteConfig { path: config_path(template), config: persist }
            },
            StageView::Copying { job, .. } => InstantiateRequestView::Copy(job.request()),
            StageView::RunningScripts { scripts } => InstantiateRequestView::RunScripts(
                shell_command(scripts, self.destination, self.windows),
            ),
            StageView::Finished(outcome) => InstantiateRequestView::Finished(outcome),
        }
    }

    /// The stage at which the making stops for the reason `error`.
    pub open spec fn failed(error: InstantiateErrorView) -> StageView {
        StageView::Finished(OutcomeView::Failed(error))
    }

    /// The stage that starts the copy of the template rooted at `template`
    /// under the configuration `config`.
    pub open spec fn copy_stage(
        self,
        template: Seq<char>,
        config: CreatedTemplateConfigView,
    ) -> StageView {
        StageView::Copying {
            job: CopyJobView::start(template, self.destination, config.exclude_paths),
            scripts: config.scripts,
        }
    }

    /// The stage that follows a complete copy: the scripts are run if there
    /// are any, and else the project is ready.
    pub open spec fn after_copy(scripts: Seq<Seq<char>>) -> StageView {
        if scripts.len() == 0 {
            StageView::Finished(OutcomeView::Created { copied: true })
        } else {
            StageView::RunningScripts { scripts }
        }
    }

    /// The stage that follows when the caller answers the current request
    /// with `reply`.
    ///
    /// At every stage but the last, a reply that reports a failure stops
    /// the making, and so does one that answers another request than the
    /// one made. Otherwise: an empty project is ready once its directory
    /// is created. A template at whose path nothing stands is given up;
    /// else its configuration is read and completed, a refused one stops
    /// the making, a missing one is written first. Then the files are
    /// copied, each reply going to the copy; when the copy ends, the
    /// scripts follow if it is complete and there are any. The exit status
    /// of the shell is part of the outcome, good or bad.
    pub open spec fn advance(self, reply: InstantiateReplyView) -> InstantiationView {
        let stage = match self.stage {
            StageView::Finished(outcome) => self.stage,
            _ => match (self.stage, reply) {
                (_, InstantiateReplyView::Failed) => Self::failed(InstantiateErrorView::Io),
                (StageView::CreatingEmpty, InstantiateReplyView::DirectoryCreated) => {
                    StageView::Finished(OutcomeView::Created { copied: false })
                },
                (
                    StageView::Checking { template },
                    InstantiateReplyView::TemplateChecked { present },
                ) => if present {
                    StageView::ReadingConfig { template }
                } else {
                    Self::failed(InstantiateErrorView::TemplateNotFound { path: template })
                },
                (
                    StageView::ReadingConfig { template },
                    InstantiateReplyView::ConfigRead(found),
                ) => {
                    match CreatedTemplateConfigView::loaded(template, found) {
                        Err(ConfigErrorView::InvalidTarget { path }) => Self::failed(
                            InstantiateErrorView::InvalidConfig { path },
                        ),
                        Ok(loaded) => match loaded.persist {
                            Some(persist) => StageView::WritingConfig {
                                template,
                                config: loaded.config,
                                persist,
                            },
                            None => self.copy_stage(template, loaded.config),
                        },
                    }
                },
                (
                    StageView::WritingConfig { template, config, .. },
                    InstantiateReplyView::ConfigWritten,
                ) => self.copy_stage(template, config),
                (StageView::Copying { job, scripts }, InstantiateReplyView::Copy(answer)) => {
                    let next = job.advance(answer);
                    match next.result() {
                        None => StageView::Copying { job: next, scripts },
                        Some(Ok(_)) => Self::after_copy(scripts),
                        Some(Err(error)) => Self::failed(InstantiateErrorView::CopyFailed(error)),
                    }
                },
                (
                    StageView::RunningScripts { .. },
                    InstantiateReplyView::ScriptsRan { success },
                ) => StageView::Finished(OutcomeView::ScriptsRan { success }),
                _ => Self::failed(InstantiateErrorView::UnexpectedReply),
            },
        };
        InstantiationView { stage, ..self }
    }
}

/// A template that keeps its own configuration file out of projects never
/// has that file copied: whatever its configuration file holds, if the
/// configuration in force excludes the file, then at no point of the copy
/// that starts from the template's root, whatever the caller replied
/// before, is the file asked to be copied, looked at or listed.
pub proof fn lemma_own_config_stays_behind(
    template: Seq<char>,
    destination: Seq<char>,
    found: Option<StoredConfigView>,
    replies: Seq<CopyReplyView>,
)
    requires
        CreatedTemplateConfigView::loaded(template, found) matches Ok(loaded)
            && loaded.config.exclude_config,
    ensures
        CreatedTemplateConfigView::loaded(template, found) matches Ok(loaded) && source_of(
            CopyJobView::start(template, destination, loaded.config.exclude_paths).after(
                replies,
            ).request(),
        ) != Some(config_path(template)),
{
    let loaded = CreatedTemplateConfigView::loaded(template, found)->Ok_0;
    let paths = loaded.config.exclude_paths;
    assert(paths[paths.len() - 1] == config_path(template));
    assert(config_path(template).len() > template.len()) by {
        reveal_strlit("edna.config.json");
    }
    lemma_never_asks_for_excluded(template, destination, paths, replies);
}

enum Stage {
    CreatingEmpty,
    Checking { template: String },
    ReadingConfig { template: String },
    WritingConfig {
        template: String,
        config: CreatedTemplateConfig,
        persist: CreatedTemplateConfig,
    },
    Copying { job: CopyJob, scripts: Vec<String> },
    RunningScripts { scripts: Vec<String> },
    Finished(Outcome),
}

impl View for Stage {
    type V = StageView;

    closed spec fn view(&self) -> StageView {
        match self {
            Stage::CreatingEmpty => StageView::CreatingEmpty,
            Stage::Checking { template } => StageView::Checking { template: template@ },
            Stage::ReadingConfig { template } => StageView::ReadingConfig { template: template@ },
            Stage::WritingConfig { template, config, persist } => StageView::WritingConfig {
                template: template@,
                config: config@,
                persist: persist@,
            },
            Stage::Copying { job, scripts } => StageView::Copying {
                job: job@,
                scripts: texts(scripts@),
            },
            Stage::RunningScripts { scripts } => StageView::RunningScripts {
                scripts: texts(scripts@),
            },
            Stage::Finished(outcome) => StageView::Finished(outcome@),
        }
    }
}

/// The making of one project, under way.
pub struct Instantiation {
    destination: String,
    windows: bool,
    stage: Stage,
}

impl View for Instantiation {
    type V = InstantiationView;

    closed spec fn view(&self) -> InstantiationView {
        InstantiationView {
            destination: self.destination@,
            windows: self.windows,
            stage: self.stage@,
        }
    }
}

/// The stage that starts the copy of the template rooted at `template`.
fn copy_stage(template: &String, destination: &String, config: CreatedTemplateConfig) -> (out:
    Stage)
    ensures
        out@ == (StageView::Copying {
            job: CopyJobView::start(template@, destination@, config@.exclude_paths),
            scripts: config@.scripts,
        }),
        out@ matches StageView::Copying { job, .. } && job.well_formed() && job.result() is None,
{
    let job = CopyJob::new(template, destination, &config.exclude_paths);
    Stage::Copying { job, scripts: config.scripts }
}

/// The stage that follows a complete copy.
fn after_copy(scripts: Vec<String>) -> (out: Stage)
    ensures
        out@ == InstantiationView::after_copy(texts(scripts@)),
{
    if scripts.len() == 0 {
        Stage::Finished(Outcome::Created { copied: true })
    } else {
        Stage::RunningScripts { scripts }
    }
}

impl Instantiation {
    #[verifier::type_invariant]
    spec fn sound(self) -> bool {
        self@.well_formed()
    }

    /// Starts the making of a project at `destination` from what `selector`
    /// stands for among the templates on offer. `windows` says whether the
    /// host's shell is that of Windows.
    pub fn start(
        selector: &TemplateSelector,
        templates: &Vec<RegisteredTemplate>,
        destination: &String,
        windows: bool,
    ) -> (out: Instantiation)
        ensures
            out@ == InstantiationView::start(
                selector@,
                template_views(templates@),
                destination@,
                windows,
            ),
            out@.well_formed(),
    {
        let stage = match resolve_template(selector, templates) {
            Some(Resolution::Empty) => Stage::CreatingEmpty,
            Some(Resolution::Template(path)) => Stage::Checking { template: path },
            None => {
                let index = match selector {
                    TemplateSelector::Index(index) => *index,
                    _ => 0,
                };
                Stage::Finished(Outcome::Failed(InstantiateError::NoSuchEntry { index }))
            },
        };
        Instantiation { destination: destination.clone(), windows, stage }
    }

    /// The request that the caller is to carry out now.
    pub fn request(&self) -> (out: InstantiateRequest)
        ensures
            out@ == self@.request(),
            self@.well_formed(),
    {
        proof {
            use_type_invariant(self);
        }
        match &self.stage {
            Stage::CreatingEmpty => InstantiateRequest::CreateEmptyDirectory {
                path: self.destination.clone(),
            },
            Stage::Checking { template } => InstantiateRequest::CheckTemplate {
                path: template.clone(),
            },
            Stage::ReadingConfig { template } => InstantiateRequest::ReadConfig {
                path: RegisteredTemplate::config_path(template),
            },
            Stage::WritingConfig { template, persist, .. } => InstantiateRequest::WriteConfig {
                path: RegisteredTemplate::config_path(template),
                config: persist.clone(),
            },
            Stage::Copying { job, .. } => InstantiateRequest::Copy(job.request()),
            Stage::RunningScripts { scripts } => InstantiateRequest::RunScripts(
                script_command(scripts, &self.destination, self.windows),
            ),
            Stage::Finished(outcome) => InstantiateRequest::Finished(outcome.clone()),
        }
    }

    /// How the making ended: `None` while requests are still to be answered.
    pub fn outcome(&self) -> (out: Option<Outcome>)
        ensures
            match (out, self@.stage) {
                (Some(outcome), StageView::Finished(model)) => outcome@ == model,
                (None, StageView::Finished(_)) => false,
                (Some(_), _) => false,
                (None, _) => true,
            },
    {
        match &self.stage {
            Stage::Finished(outcome) => Some(outcome.clone()),
            _ => None,
        }
    }

    /// Takes the caller's reply to the current request and moves on.
    pub fn advance(self, reply: InstantiateReply) -> (next: Instantiation)
        ensures
            next@ == self@.advance(reply@),
            next@.well_formed(),
    {
        proof {
            use_type_invariant(&self);
        }
        let Instantiation { destination, windows, stage } = self;
        let stage = match stage {
            Stage::Finished(outcome) => Stage::Finished(outcome),
            stage => match (stage, reply) {
                (_, InstantiateReply::Failed) => Stage::Finished(
                    Outcome::Failed(InstantiateError::Io),
                ),
                (Stage::CreatingEmpty, InstantiateReply::DirectoryCreated) => Stage::Finished(
                    Outcome::Created { copied: false },
                ),
                (Stage::Checking { template }, InstantiateReply::TemplateChecked { present }) => {
                    if present {
                        Stage::ReadingConfig { template }
                    } else {
                        Stage::Finished(
                            Outcome::Failed(InstantiateError::TemplateNotFound { path: template }),
                        )
                    }
                },
                (Stage::ReadingConfig { template }, InstantiateReply::ConfigRead(found)) => {
                    match RegisteredTemplate::load_config(&template, found) {
                        Err(ConfigError::InvalidTarget { path }) => Stage::Finished(
                            Outcome::Failed(InstantiateError::InvalidConfig { path }),
                        ),
                        Ok(LoadedConfig { config, persist }) => match persist {
                            Some(persist) => Stage::WritingConfig { template, config, persist },
                            None => copy_stage(&template, &destination, config),
                        },
                    }
                },
                (
                    Stage::WritingConfig { template, config, persist },
                    InstantiateReply::ConfigWritten,
                ) => copy_stage(&template, &destination, config),
                (Stage::Copying { job, scripts }, InstantiateReply::Copy(answer)) => {
                    let next = job.advance(answer);
                    match next.result() {
                        None => Stage::Copying { job: next, scripts },
                        Some(Ok(_)) => after_copy(scripts),
                        Some(Err(error)) => Stage::Finished(
                            Outcome::Failed(InstantiateError::CopyFailed(error)),
                        ),
                    }
                },
                (Stage::RunningScripts { scripts }, InstantiateReply::ScriptsRan { success }) => {
                    Stage::Finished(Outcome::ScriptsRan { success })
                },
                _ => Stage::Finished(Outcome::Failed(InstantiateError::UnexpectedReply)),
            },
        };
        Instantiation { destination, windows, stage }
    }
}

impl Clone for InstantiateError {
    fn clone(&self) -> (out: Self)
        ensures
            out@ == self@,
    {
        match self {
            InstantiateError::NoSuchEntry { index } => InstantiateError::NoSuchEntry {
                index: *index,
            },
            InstantiateError::TemplateNotFound { path } => InstantiateError::TemplateNotFound {
                path: path.clone(),
            },
            InstantiateError::InvalidConfig { path } => InstantiateError::InvalidConfig {
                path: path.clone(),
            },
            InstantiateError::CopyFailed(error) => InstantiateError::CopyFailed(*error),
            InstantiateError::Io => InstantiateError::Io,
            InstantiateError::UnexpectedReply => InstantiateError::UnexpectedReply,
        }
    }
}

impl Clone for Outcome {
    fn clone(&self) -> (out: Self)
        ensures
            out@ == self@,
    {
        match self {
            Outcome::Created { copied } => Outcome::Created { copied: *copied },
            Outcome::ScriptsRan { success } => Outcome::ScriptsRan { success: *success },
            Outcome::Failed(error) => Outcome::Failed(error.clone()),
        }
    }
}

} // verus!
