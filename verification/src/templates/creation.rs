//! Creating a template: its files first, then its configuration file, and
//! last its entry in the registry.
//!
//! A [`TemplateCreation`] leads the caller through the creation of one
//! template. It hands out one [`CreationRequest`] at a time and takes the
//! caller's [`CreationReply`]. Once a reply reports a failure no further
//! request is made: a template whose files or configuration could not be
//! written is never registered.

use crate::file_system::{
    CopyError, CopyJob, CopyJobView, CopyReply, CopyReplyView, CopyRequest, CopyRequestView,
};
use crate::templates::config::{
    config_path, CreatedTemplateConfig, CreatedTemplateConfigView, RegisteredTemplate,
    RegisteredTemplateView,
};
use vstd::prelude::*;

verus! {

/// Why no template was created, or only part of one.
#[derive(Debug, PartialEq, Eq)]
pub enum CreationError {
    /// Something stands at the path `output` already.
    AlreadyExists { output: String },
    /// The copy of the template's files stopped.
    CopyFailed(CopyError),
    /// The caller reported that a request could not be carried out.
    Io,
    /// The caller answered a request with the reply to another one.
    UnexpectedReply,
}

/// Model of a [`CreationError`].
pub enum CreationErrorView {
    AlreadyExists { output: Seq<char> },
    CopyFailed(CopyError),
    Io,
    UnexpectedReply,
}

impl View for CreationError {
    type V = CreationErrorView;

    open spec fn view(&self) -> CreationErrorView {
        match self {
            CreationError::AlreadyExists { output } => CreationErrorView::AlreadyExists {
                output: output@,
            },
            CreationError::CopyFailed(error) => CreationErrorView::CopyFailed(*error),
            CreationError::Io => CreationErrorView::Io,
            CreationError::UnexpectedReply => CreationErrorView::UnexpectedReply,
        }
    }
}

impl Clone for CreationError {
    fn clone(&self) -> (out: Self)
        ensures
            out@ == self@,
    {
        match self {
            CreationError::AlreadyExists { output } => CreationError::AlreadyExists {
                output: output.clone(),
            },
            CreationError::CopyFailed(error) => CreationError::CopyFailed(*error),
            CreationError::Io => CreationError::Io,
            CreationError::UnexpectedReply => CreationError::UnexpectedReply,
        }
    }
}

/// What the user is told when no template was created.
pub open spec fn creation_error_message(error: CreationErrorView) -> Seq<char> {
    match error {
        CreationErrorView::AlreadyExists { output } => "The template \""@ + output
            + "\" already exists!"@,
        CreationErrorView::CopyFailed(CopyError::DestinationIsFile) => {
            "The destination cannot be a file whilst the source is a directory."@
        },
        _ => "Something bad happened while creating the template."@,
    }
}

impl CreationError {
    /// The status that the process exits with when no template was created:
    /// never 0.
    pub fn exit_code(&self) -> (out: i32)
        ensures
            out == 1,
    {
        1
    }

    /// What the user is told.
    pub fn message(&self) -> (out: String)
        ensures
            out@ == creation_error_message(self@),
    {
        match self {
            CreationError::AlreadyExists { output } => {
                let mut out = String::from_str("The template \"");
                out.append(output.as_str());
                out.append("\" already exists!");
                out
            },
            CreationError::CopyFailed(CopyError::DestinationIsFile) => String::from_str(
                "The destination cannot be a file whilst the source is a directory.",
            ),
            _ => String::from_str("Something bad happened while creating the template."),
        }
    }
}

/// How the creation of a template ended.
pub open spec fn outcome_view(outcome: Result<(), CreationError>) -> Result<(), CreationErrorView> {
    match outcome {
        Ok(_) => Ok(()),
        Err(error) => Err(error@),
    }
}

/// What a [`TemplateCreation`] asks its caller to do next.
#[derive(Debug, PartialEq, Eq)]
pub enum CreationRequest {
    /// Find out whether anything stands at `path`. Answered by
    /// [`CreationReply::OutputChecked`].
    CheckOutput { path: String },
    /// Create the empty directory `path`. Answered by
    /// [`CreationReply::DirectoryCreated`].
    CreateDirectory { path: String },
    /// Carry out a request of the copy. Answered by
    /// [`CreationReply::Copy`].
    Copy(CopyRequest),
    /// Write `config` to the file `path`, replacing what stands there.
    /// Answered by [`CreationReply::ConfigWritten`].
    WriteConfig { path: String, config: CreatedTemplateConfig },
    /// Add `template` to the end of the registry. Answered by
    /// [`CreationReply::Registered`].
    Register { template: RegisteredTemplate },
    /// Nothing is left to do: the template stands and is registered, or
    /// the creation stopped for the reason given.
    Finished(Result<(), CreationError>),
}

/// Model of a [`CreationRequest`].
pub enum CreationRequestView {
    CheckOutput { path: Seq<char> },
    CreateDirectory { path: Seq<char> },
    Copy(CopyRequestView),
    WriteConfig { path: Seq<char>, config: CreatedTemplateConfigView },
    Register { template: RegisteredTemplateView },
    Finished(Result<(), CreationErrorView>),
}

impl View for CreationRequest {
    type V = CreationRequestView;

    open spec fn view(&self) -> CreationRequestView {
        match self {
            CreationRequest::CheckOutput { path } => CreationRequestView::CheckOutput {
                path: path@,
            },
            CreationRequest::CreateDirectory { path } => CreationRequestView::CreateDirectory {
                path: path@,
            },
            CreationRequest::Copy(request) => CreationRequestView::Copy(request@),
            CreationRequest::WriteConfig { path, config } => CreationRequestView::WriteConfig {
                path: path@,
                config: config@,
            },
            CreationRequest::Register { template } => CreationRequestView::Register {
                template: template@,
            },
            CreationRequest::Finished(outcome) => CreationRequestView::Finished(
                outcome_view(*outcome),
            ),
        }
    }
}

/// What the caller found when it carried out a [`CreationRequest`].
#[derive(Debug, PartialEq, Eq)]
pub enum CreationReply {
    /// Whether anything stands at the output.
    OutputChecked { present: bool },
    /// The empty directory was created.
    DirectoryCreated,
    /// The reply to a request of the copy.
    Copy(CopyReply),
    /// The configuration file was written.
    ConfigWritten,
    /// The registry has the new entry.
    Registered,
    /// The request could not be carried out.
    Failed,
}

/// Model of a [`CreationReply`].
pub enum CreationReplyView {
    OutputChecked { present: bool },
    DirectoryCreated,
    Copy(CopyReplyView),
    ConfigWritten,
    Registered,
    Failed,
}

impl View for CreationReply {
    type V = CreationReplyView;

    open spec fn view(&self) -> CreationReplyView {
        match self {
            CreationReply::OutputChecked { present } => CreationReplyView::OutputChecked {
                present: *present,
            },
            CreationReply::DirectoryCreated => CreationReplyView::DirectoryCreated,
            CreationReply::Copy(reply) => CreationReplyView::Copy(reply@),
            CreationReply::ConfigWritten => CreationReplyView::ConfigWritten,
            CreationReply::Registered => CreationReplyView::Registered,
            CreationReply::Failed => CreationReplyView::Failed,
        }
    }
}

/// Where the creation of a template stands.
pub enum CreationStageView {
    /// The output is being looked at.
    Checking,
    /// The template has no source: its empty directory is being created.
    MakingDirectory,
    /// The template's files are being copied from its source.
    Copying { job: CopyJobView },
    /// The files stand: the configuration file is being written.
    WritingConfig,
    /// The configuration file stands: the template is being registered.
    Registering,
    /// All is over.
    Finished(Result<(), CreationErrorView>),
}

/// Model of a [`TemplateCreation`].
pub struct TemplateCreationView {
    /// Where the template goes.
    pub output: Seq<char>,
    /// Where its files come from; the empty text for a template without
    /// files.
    pub source: Seq<char>,
    /// Its configuration.
    pub config: CreatedTemplateConfigView,
    /// How far the creation has come.
    pub stage: CreationStageView,
}

impl TemplateCreationView {
    /// The creation of a template at `output`, newly started.
    pub open spec fn start(
        output: Seq<char>,
        source: Seq<char>,
        config: CreatedTemplateConfigView,
    ) -> TemplateCreationView {
        TemplateCreationView { output, source, config, stage: CreationStageView::Checking }
    }

    /// What holds at every stage: a copy that is under way is well formed
    /// and has a request to make.
    pub open spec fn well_formed(self) -> bool {
        self.stage matches CreationStageView::Copying { job } ==> job.well_formed() && job.result()
            is None
    }

    /// The entry that the template gets in the registry.
    pub open spec fn entry(self) -> RegisteredTemplateView {
        RegisteredTemplateView { name: self.config.name, path: self.output }
    }

    /// The request that is made at this stage.
    pub open spec fn request(self) -> CreationRequestView {
        match self.stage {
            CreationStageView::Checking => CreationRequestView::CheckOutput { path: self.output },
            CreationStageView::MakingDirectory => CreationRequestView::CreateDirectory {
                path: self.output,
            },
            CreationStageView::Copying { job } => CreationRequestView::Copy(job.request()),
            CreationStageView::WritingConfig => CreationRequestView::WriteConfig {
                path: config_path(self.output),
                config: self.config,
            },
            CreationStageView::Registering => CreationRequestView::Register {
                template: self.entry(),
            },
            CreationStageView::Finished(outcome) => CreationRequestView::Finished(outcome),
        }
    }

    /// The stage at which the creation stops for the reason `error`.
    pub open spec fn failed(error: CreationErrorView) -> CreationStageView {
        CreationStageView::Finished(Err(error))
    }

    /// The stage at which the template gets its files: an empty directory
    /// where the source is the empty text, and else the copy of the tree
    /// under the source without the paths that the configuration excludes.
    pub open spec fn files_stage(self) -> CreationStageView {
        if self.source.len() == 0 {
            CreationStageView::MakingDirectory
        } else {
            CreationStageView::Copying {
                job: CopyJobView::start(self.source, self.output, self.config.exclude_paths),
            }
        }
    }

    /// The stage that follows when the caller answers the current request
    /// with `reply`.
    ///
    /// A creation that is over stays as it is. A reply that reports a
    /// failure stops the creation, and so does one that answers another
    /// request than the one made. An output at which something stands
    /// stops it before anything is touched. Otherwise the template gets
    /// its files, each reply going to the copy where there is one, and a
    /// copy that stops stops the creation. When the files stand, the
    /// configuration file is written, and when that stands, the template
    /// is registered.
    pub open spec fn advance(self, reply: CreationReplyView) -> TemplateCreationView {
        let stage = match self.stage {
            CreationStageView::Finished(_) => self.stage,
            _ => match (self.stage, reply) {
                (_, CreationReplyView::Failed) => Self::failed(CreationErrorView::Io),
                (CreationStageView::Checking, CreationReplyView::OutputChecked { present }) => {
                    if present {
                        Self::failed(CreationErrorView::AlreadyExists { output: self.output })
                    } else {
                        self.files_stage()
                    }
                },
                (CreationStageView::MakingDirectory, CreationReplyView::DirectoryCreated) => {
                    CreationStageView::WritingConfig
                },
                (CreationStageView::Copying { job }, CreationReplyView::Copy(answer)) => {
                    let next = job.advance(answer);
                    match next.result() {
                        None => CreationStageView::Copying { job: next },
                        Some(Ok(_)) => CreationStageView::WritingConfig,
                        Some(Err(error)) => Self::failed(CreationErrorView::CopyFailed(error)),
                    }
                },
                (CreationStageView::WritingConfig, CreationReplyView::ConfigWritten) => {
                    CreationStageView::Registering
                },
                (CreationStageView::Registering, CreationReplyView::Registered) => {
                    CreationStageView::Finished(Ok(()))
                },
                _ => Self::failed(CreationErrorView::UnexpectedReply),
            },
        };
        TemplateCreationView { stage, ..self }
    }

    /// The state of the creation after the caller gave each of `replies`
    /// in turn.
    pub open spec fn after(self, replies: Seq<CreationReplyView>) -> TemplateCreationView
        decreases replies.len(),
    {
        if replies.len() == 0 {
            self
        } else {
            self.after(replies.drop_last()).advance(replies.last())
        }
    }
}

/// Whether a reply says that something could not be done: a request of the
/// creation, or a request of the copy.
pub open spec fn reports_failure(reply: CreationReplyView) -> bool {
    reply is Failed || reply == CreationReplyView::Copy(CopyReplyView::Failed)
}

/// Advancing a well-formed creation gives a well-formed creation again.
pub proof fn lemma_creation_well_formed(state: TemplateCreationView, reply: CreationReplyView)
    requires
        state.well_formed(),
    ensures
        state.advance(reply).well_formed(),
{
    if let CreationStageView::Copying { job } = state.stage {
        if let CreationReplyView::Copy(answer) = reply {
            crate::file_system::lemma_advance_well_formed(job, answer);
        }
    }
}

/// A creation that is over stays over, with the outcome it had, whatever
/// the caller replies.
pub proof fn lemma_creation_ends_for_good(
    state: TemplateCreationView,
    replies: Seq<CreationReplyView>,
)
    requires
        state.stage is Finished,
    ensures
        state.after(replies) == state,
    decreases replies.len(),
{
    if replies.len() > 0 {
        lemma_creation_ends_for_good(state, replies.drop_last());
    }
}

/// A template that exists is never touched: when something stands at the
/// output, the creation is over with its first reply, and no request
/// follows, whatever the caller replies.
pub proof fn lemma_existing_output_is_never_touched(
    output: Seq<char>,
    source: Seq<char>,
    config: CreatedTemplateConfigView,
    replies: Seq<CreationReplyView>,
)
    ensures
        TemplateCreationView::start(output, source, config).advance(
            CreationReplyView::OutputChecked { present: true },
        ).after(replies).request() == CreationRequestView::Finished(
            Err(CreationErrorView::AlreadyExists { output }),
        ),
{
    let stopped = TemplateCreationView::start(output, source, config).advance(
        CreationReplyView::OutputChecked { present: true },
    );
    lemma_creation_ends_for_good(stopped, replies);
}

/// A template whose files cannot be had is not registered: when the source
/// of a template cannot be looked at, the creation is over with that
/// reply, and no request follows, whatever the caller replies.
pub proof fn lemma_missing_source_registers_nothing(
    output: Seq<char>,
    source: Seq<char>,
    config: CreatedTemplateConfigView,
    replies: Seq<CreationReplyView>,
)
    requires
        source.len() > 0,
    ensures
        TemplateCreationView::start(output, source, config).advance(
            CreationReplyView::OutputChecked { present: false },
        ).advance(CreationReplyView::Copy(CopyReplyView::Failed)).after(replies).request()
            == CreationRequestView::Finished(
            Err(CreationErrorView::CopyFailed(CopyError::Io)),
        ),
{
    let stopped = TemplateCreationView::start(output, source, config).advance(
        CreationReplyView::OutputChecked { present: false },
    ).advance(CreationReplyView::Copy(CopyReplyView::Failed));
    lemma_creation_ends_for_good(stopped, replies);
}

/// Nothing follows a failure: as long as a creation is not over, none of
/// the replies that it was given reported a failure. So whenever a
/// template is asked to be registered, its files and its configuration
/// file were written without a failure before.
pub proof fn lemma_registers_only_after_success(
    output: Seq<char>,
    source: Seq<char>,
    config: CreatedTemplateConfigView,
    replies: Seq<CreationReplyView>,
)
    ensures
        TemplateCreationView::start(output, source, config).after(replies).well_formed(),
        TemplateCreationView::start(output, source, config).after(replies).stage !is Finished
            ==> forall|i: int| 0 <= i < replies.len() ==> !reports_failure(#[trigger] replies[i]),
        TemplateCreationView::start(output, source, config).after(replies).request() is Register
            ==> forall|i: int| 0 <= i < replies.len() ==> !reports_failure(#[trigger] replies[i]),
    decreases replies.len(),
{
    let start = TemplateCreationView::start(output, source, config);
    if replies.len() > 0 {
        let before = start.after(replies.drop_last());
        lemma_registers_only_after_success(output, source, config, replies.drop_last());
        lemma_creation_well_formed(before, replies.last());
        let now = before.advance(replies.last());
        if !(now.stage is Finished) {
            assert(!(before.stage is Finished));
            assert(!reports_failure(replies.last()));
            assert forall|i: int| 0 <= i < replies.len() implies !reports_failure(
                #[trigger] replies[i],
            ) by {
                if i < replies.len() - 1 {
                    assert(replies.drop_last()[i] == replies[i]);
                }
            }
        }
    }
}

enum CreationStage {
    Checking,
    MakingDirectory,
    Copying { job: CopyJob },
    WritingConfig,
    Registering,
    Finished(Result<(), CreationError>),
}

impl View for CreationStage {
    type V = CreationStageView;

    closed spec fn view(&self) -> CreationStageView {
        match self {
            CreationStage::Checking => CreationStageView::Checking,
            CreationStage::MakingDirectory => CreationStageView::MakingDirectory,
            CreationStage::Copying { job } => CreationStageView::Copying { job: job@ },
            CreationStage::WritingConfig => CreationStageView::WritingConfig,
            CreationStage::Registering => CreationStageView::Registering,
            CreationStage::Finished(outcome) => CreationStageView::Finished(
                outcome_view(*outcome),
            ),
        }
    }
}

/// The creation of one template, under way.
pub struct TemplateCreation {
    output: String,
    source: String,
    config: CreatedTemplateConfig,
    stage: CreationStage,
}

impl View for TemplateCreation {
    type V = TemplateCreationView;

    closed spec fn view(&self) -> TemplateCreationView {
        TemplateCreationView {
            output: self.output@,
            source: self.source@,
            config: self.config@,
            stage: self.stage@,
        }
    }
}

/// A copy of the outcome of a creation.
fn clone_outcome(outcome: &Result<(), CreationError>) -> (out: Result<(), CreationError>)
    ensures
        outcome_view(out) == outcome_view(*outcome),
{
    match outcome {
        Ok(_) => Ok(()),
        Err(error) => Err(error.clone()),
    }
}

impl CreatedTemplateConfig {
    /// Starts the creation of a template at `output` from the tree under
    /// `source`, or from nothing where `source` is the empty text, with
    /// the configuration `config`.
    pub fn create_template(
        output: &String,
        source: &String,
        config: &CreatedTemplateConfig,
    ) -> (out: TemplateCreation)
        ensures
            out@ == TemplateCreationView::start(output@, source@, config@),
            out@.well_formed(),
    {
        TemplateCreation {
            output: output.clone(),
            source: source.clone(),
            config: config.clone(),
            stage: CreationStage::Checking,
        }
    }
}

impl TemplateCreation {
    #[verifier::type_invariant]
    spec fn sound(self) -> bool {
        self@.well_formed()
    }

    /// The request that the caller is to carry out now.
    pub fn request(&self) -> (out: CreationRequest)
        ensures
            out@ == self@.request(),
            self@.well_formed(),
    {
        proof {
            use_type_invariant(self);
        }
        match &self.stage {
            CreationStage::Checking => CreationRequest::CheckOutput { path: self.output.clone() },
            CreationStage::MakingDirectory => CreationRequest::CreateDirectory {
                path: self.output.clone(),
            },
            CreationStage::Copying { job } => CreationRequest::Copy(job.request()),
            CreationStage::WritingConfig => CreationRequest::WriteConfig {
                path: RegisteredTemplate::config_path(&self.output),
                config: self.config.clone(),
            },
            CreationStage::Registering => CreationRequest::Register {
                template: RegisteredTemplate {
                    name: self.config.name.clone(),
                    path: self.output.clone(),
                },
            },
            CreationStage::Finished(outcome) => CreationRequest::Finished(clone_outcome(outcome)),
        }
    }

    /// How the creation ended: `None` while requests are still to be
    /// answered.
    pub fn outcome(&self) -> (out: Option<Result<(), CreationError>>)
        ensures
            match (out, self@.stage) {
                (Some(outcome), CreationStageView::Finished(model)) => outcome_view(outcome)
                    == model,
                (None, CreationStageView::Finished(_)) => false,
                (Some(_), _) => false,
                (None, _) => true,
            },
    {
        match &self.stage {
            CreationStage::Finished(outcome) => Some(clone_outcome(outcome)),
            _ => None,
        }
    }

    /// Takes the caller's reply to the current request and moves on.
    pub fn advance(self, reply: CreationReply) -> (next: TemplateCreation)
        ensures
            next@ == self@.advance(reply@),
            next@.well_formed(),
    {
        proof {
            use_type_invariant(&self);
            lemma_creation_well_formed(self@, reply@);
        }
        let TemplateCreation { output, source, config, stage } = self;
        let stage = match stage {
            CreationStage::Finished(outcome) => CreationStage::Finished(outcome),
            stage => match (stage, reply) {
                (_, CreationReply::Failed) => CreationStage::Finished(Err(CreationError::Io)),
                (CreationStage::Checking, CreationReply::OutputChecked { present }) => {
                    if present {
                        CreationStage::Finished(
                            Err(CreationError::AlreadyExists { output: output.clone() }),
                        )
                    } else if source.as_str().unicode_len() == 0 {
                        CreationStage::MakingDirectory
                    } else {
                        CreationStage::Copying {
                            job: CopyJob::new(&source, &output, &config.exclude_paths),
                        }
                    }
                },
                (CreationStage::MakingDirectory, CreationReply::DirectoryCreated) => {
                    CreationStage::WritingConfig
                },
                (CreationStage::Copying { job }, CreationReply::Copy(answer)) => {
                    let next = job.advance(answer);
                    match next.result() {
                        None => CreationStage::Copying { job: next },
                        Some(Ok(_)) => CreationStage::WritingConfig,
                        Some(Err(error)) => CreationStage::Finished(
                            Err(CreationError::CopyFailed(error)),
                        ),
                    }
                },
                (CreationStage::WritingConfig, CreationReply::ConfigWritten) => {
                    CreationStage::Registering
                },
                (CreationStage::Registering, CreationReply::Registered) => {
                    CreationStage::Finished(Ok(()))
                },
                _ => CreationStage::Finished(Err(CreationError::UnexpectedReply)),
            },
        };
        TemplateCreation { output, source, config, stage }
    }
}

} // verus!
