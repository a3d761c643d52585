//! The copy engine: which entries of a directory tree are copied, where to,
//! and in which order.
//!
//! The engine never touches a file system. A [`CopyJob`] hands out one
//! [`CopyRequest`] at a time; the caller performs it and reports the result
//! as a [`CopyReply`], and the job decides what comes next.

use crate::text::{clone_texts, contains_text, entry_path, join_entry, texts};
use vstd::prelude::*;

pub mod tree;

verus! {

/// One entry of a directory listing.
#[derive(Debug, PartialEq, Eq)]
pub struct DirEntry {
    /// The entry's name inside its directory.
    pub name: String,
    /// Whether the entry is itself a directory.
    pub is_dir: bool,
}

/// Model of a [`DirEntry`].
pub struct DirEntryView {
    pub name: Seq<char>,
    pub is_dir: bool,
}

impl View for DirEntry {
    type V = DirEntryView;

    open spec fn view(&self) -> DirEntryView {
        DirEntryView { name: self.name@, is_dir: self.is_dir }
    }
}

/// One entry to bring over: a file to copy, or a directory to enter.
#[derive(Debug, PartialEq, Eq)]
pub struct CopyStep {
    /// The entry's path in the source tree.
    pub from: String,
    /// The path it gets in the destination tree.
    pub to: String,
    /// Whether the entry is a directory.
    pub is_dir: bool,
}

impl Clone for DirEntry {
    fn clone(&self) -> (out: Self)
        ensures
            out == *self,
    {
        DirEntry { name: self.name.clone(), is_dir: self.is_dir }
    }
}

/// Model of a [`CopyStep`].
pub struct CopyStepView {
    pub from: Seq<char>,
    pub to: Seq<char>,
    pub is_dir: bool,
}

impl View for CopyStep {
    type V = CopyStepView;

    open spec fn view(&self) -> CopyStepView {
        CopyStepView { from: self.from@, to: self.to@, is_dir: self.is_dir }
    }
}

impl Clone for CopyStep {
    fn clone(&self) -> (out: Self)
        ensures
            out == *self,
    {
        CopyStep { from: self.from.clone(), to: self.to.clone(), is_dir: self.is_dir }
    }
}

/// The models of a listing's entries, in order.
pub open spec fn entry_views(entries: Seq<DirEntry>) -> Seq<DirEntryView> {
    entries.map_values(|e: DirEntry| e@)
}

/// The models of a sequence of steps, in order.
pub open spec fn step_views(steps: Seq<CopyStep>) -> Seq<CopyStepView> {
    steps.map_values(|s: CopyStep| s@)
}

/// The test that an entry of the directory `from` passes when its path is
/// none of `exclude`.
pub open spec fn kept(from: Seq<char>, exclude: Seq<Seq<char>>) -> spec_fn(DirEntryView) -> bool {
    |e: DirEntryView| !exclude.contains(entry_path(from, e.name))
}

/// The step that brings an entry of the directory `from` to the same name
/// inside the directory `to`.
pub open spec fn step_for(from: Seq<char>, to: Seq<char>) -> spec_fn(DirEntryView) -> CopyStepView {
    |e: DirEntryView|
        CopyStepView {
            from: entry_path(from, e.name),
            to: entry_path(to, e.name),
            is_dir: e.is_dir,
        }
}

/// What copying the directory `from` to `to` does with the entries listed in
/// it: one step for each entry whose path is not excluded, in listing order.
pub open spec fn level_plan(
    from: Seq<char>,
    to: Seq<char>,
    entries: Seq<DirEntryView>,
    exclude: Seq<Seq<char>>,
) -> Seq<CopyStepView> {
    entries.filter(kept(from, exclude)).map_values(step_for(from, to))
}

/// The plan of a listing with one more entry is the plan of the listing,
/// followed by that entry's step unless its path is excluded.
pub proof fn lemma_level_plan_push(
    from: Seq<char>,
    to: Seq<char>,
    entries: Seq<DirEntryView>,
    entry: DirEntryView,
    exclude: Seq<Seq<char>>,
)
    ensures
        level_plan(from, to, entries.push(entry), exclude) == if exclude.contains(
            entry_path(from, entry.name),
        ) {
            level_plan(from, to, entries, exclude)
        } else {
            level_plan(from, to, entries, exclude).push(step_for(from, to)(entry))
        },
{
    entries.lemma_filter_push(entry, kept(from, exclude));
    let chosen = entries.filter(kept(from, exclude));
    if !exclude.contains(entry_path(from, entry.name)) {
        assert(chosen.push(entry).map_values(step_for(from, to)) =~= chosen.map_values(
            step_for(from, to),
        ).push(step_for(from, to)(entry)));
    }
}

/// No step of a plan starts at an excluded path, and every step brings one
/// of the listed entries to its own name under the destination.
pub proof fn lemma_plan_skips_excluded(
    from: Seq<char>,
    to: Seq<char>,
    entries: Seq<DirEntryView>,
    exclude: Seq<Seq<char>>,
)
    ensures
        forall|k: int|
            0 <= k < level_plan(from, to, entries, exclude).len() ==> {
                let step = #[trigger] level_plan(from, to, entries, exclude)[k];
                &&& !exclude.contains(step.from)
                &&& exists|i: int|
                    0 <= i < entries.len() && step == step_for(from, to)(#[trigger] entries[i])
            },
    decreases entries.len(),
{
    if entries.len() > 0 {
        let shorter = entries.drop_last();
        assert(entries =~= shorter.push(entries.last()));
        lemma_level_plan_push(from, to, shorter, entries.last(), exclude);
        lemma_plan_skips_excluded(from, to, shorter, exclude);
        let plan = level_plan(from, to, entries, exclude);
        let before = level_plan(from, to, shorter, exclude);
        assert forall|k: int| 0 <= k < plan.len() implies {
            let step = #[trigger] plan[k];
            &&& !exclude.contains(step.from)
            &&& exists|i: int|
                0 <= i < entries.len() && step == step_for(from, to)(#[trigger] entries[i])
        } by {
            if k < before.len() {
                assert(plan[k] == before[k]);
                let i = choose|i: int|
                    0 <= i < shorter.len() && before[k] == step_for(from, to)(
                        #[trigger] shorter[i],
                    );
                assert(shorter[i] == entries[i]);
            } else {
                assert(plan[k] == step_for(from, to)(entries[entries.len() - 1]));
            }
        }
    } else {
        assert(entries.filter(kept(from, exclude)).len() == 0) by {
            entries.lemma_filter_len(kept(from, exclude));
        }
    }
}

/// Every listed entry whose path is not excluded has its step in the plan.
pub proof fn lemma_plan_copies_the_rest(
    from: Seq<char>,
    to: Seq<char>,
    entries: Seq<DirEntryView>,
    exclude: Seq<Seq<char>>,
)
    ensures
        forall|i: int|
            0 <= i < entries.len() && !exclude.contains(
                entry_path(from, (#[trigger] entries[i]).name),
            ) ==> level_plan(from, to, entries, exclude).contains(
                step_for(from, to)(entries[i]),
            ),
    decreases entries.len(),
{
    if entries.len() > 0 {
        let shorter = entries.drop_last();
        assert(entries =~= shorter.push(entries.last()));
        lemma_level_plan_push(from, to, shorter, entries.last(), exclude);
        lemma_plan_copies_the_rest(from, to, shorter, exclude);
        let plan = level_plan(from, to, entries, exclude);
        let before = level_plan(from, to, shorter, exclude);
        assert forall|i: int|
            0 <= i < entries.len() && !exclude.contains(
                entry_path(from, (#[trigger] entries[i]).name),
            ) implies plan.contains(step_for(from, to)(entries[i])) by {
            if i < shorter.len() {
                assert(shorter[i] == entries[i]);
                let k = choose|k: int|
                    0 <= k < before.len() && before[k] == step_for(from, to)(entries[i]);
                assert(plan[k] == before[k]);
            } else {
                assert(plan[plan.len() - 1] == step_for(from, to)(entries[i]));
            }
        }
    }
}

/// Decides what copying the directory `from` to the directory `to` does with
/// the entries found in `from`: those whose path is one of `exclude` are
/// passed over, every other one is brought to the same name under `to`.
pub fn copy_fs_objects(
    from: &String,
    to: &String,
    entries: &Vec<DirEntry>,
    exclude: &Vec<String>,
) -> (steps: Vec<CopyStep>)
    ensures
        step_views(steps@) == level_plan(from@, to@, entry_views(entries@), texts(exclude@)),
{
    let mut steps: Vec<CopyStep> = Vec::new();
    let mut at: usize = 0;
    assert(entry_views(entries@).take(0) =~= Seq::<DirEntryView>::empty());
    assert(step_views(steps@) =~= level_plan(
        from@,
        to@,
        entry_views(entries@).take(0),
        texts(exclude@),
    )) by {
        Seq::<DirEntryView>::empty().lemma_filter_len(kept(from@, texts(exclude@)));
    }
    while at < entries.len()
        invariant
            at <= entries.len(),
            step_views(steps@) == level_plan(
                from@,
                to@,
                entry_views(entries@).take(at as int),
                texts(exclude@),
            ),
        decreases entries.len() - at,
    {
        let ghost seen = entry_views(entries@).take(at as int);
        let ghost done = steps@;
        let entry = &entries[at];
        proof {
            assert(entry_views(entries@).take(at + 1) =~= seen.push(entry@));
            lemma_level_plan_push(from@, to@, seen, entry@, texts(exclude@));
        }
        let path = join_entry(from.as_str(), entry.name.as_str());
        if !contains_text(exclude, &path) {
            let step = CopyStep {
                from: path,
                to: join_entry(to.as_str(), entry.name.as_str()),
                is_dir: entry.is_dir,
            };
            steps.push(step);
            assert(step_views(steps@) =~= step_views(done).push(step_for(from@, to@)(entry@)));
        }
        at = at + 1;
    }
    assert(entry_views(entries@).take(entries.len() as int) =~= entry_views(entries@));
    steps
}

/// Why a copy stopped before it was done.
#[derive(Debug, Clone, Copy, PartialEq, Eq, Structural)]
pub enum CopyError {
    /// A directory was to be copied to a path at which a file stands.
    DestinationIsFile,
    /// The caller reported that a request could not be carried out.
    Io,
    /// The caller answered a request with the reply to another one.
    UnexpectedReply,
}

/// What stands at a path.
#[derive(Debug, Clone, Copy, PartialEq, Eq, Structural)]
pub enum PathKind {
    /// Nothing that could be looked at.
    Missing,
    /// A file.
    File,
    /// A directory.
    Directory,
    /// Something that is neither a file nor a directory.
    Other,
}

/// How far a job has come with the directory that is its next step.
#[derive(Debug, Clone, Copy, PartialEq, Eq, Structural)]
pub enum CopyPhase {
    /// Nothing was asked yet: the source is looked at first.
    Source,
    /// The source was looked at: the destination is looked at next.
    Destination { source_is_dir: bool },
    /// Nothing stands at the destination: it is being created.
    Creating { source_is_dir: bool },
    /// The destination was created: it is looked at once more.
    Confirming { source_is_dir: bool },
    /// Both ends are in order: the listing of the source is awaited.
    Listing,
}

/// What a [`CopyJob`] asks its caller to do next. A directory is entered in
/// this order: its source is looked at, then its destination, which is
/// created only where nothing stands and then looked at once more, and
/// last its entries are listed.
#[derive(Debug, PartialEq, Eq)]
pub enum CopyRequest {
    /// Find out whether `from` is a directory. Answered by
    /// [`CopyReply::Source`], or by [`CopyReply::Failed`] where nothing can
    /// be looked at.
    ProbeSource { from: String },
    /// Find out what stands at `to`. Answered by
    /// [`CopyReply::Destination`].
    ProbeDestination { to: String },
    /// Create the directory `to`, with the directories above it that are
    /// missing. Answered by [`CopyReply::Created`].
    CreateDestination { to: String },
    /// Find out what stands at `to` now that it was created. Answered by
    /// [`CopyReply::Destination`].
    ConfirmDestination { to: String },
    /// List the entries of the directory `from`. Answered by
    /// [`CopyReply::Listed`].
    List { from: String },
    /// Copy the file `from` to `to`, replacing what stands there. Answered
    /// by [`CopyReply::Copied`].
    CopyFile { from: String, to: String },
    /// Nothing is left to do: the copy is complete.
    Done,
    /// The copy has stopped for the reason given.
    Failed(CopyError),
}

/// Model of a [`CopyRequest`].
pub enum CopyRequestView {
    ProbeSource { from: Seq<char> },
    ProbeDestination { to: Seq<char> },
    CreateDestination { to: Seq<char> },
    ConfirmDestination { to: Seq<char> },
    List { from: Seq<char> },
    CopyFile { from: Seq<char>, to: Seq<char> },
    Done,
    Failed(CopyError),
}

impl View for CopyRequest {
    type V = CopyRequestView;

    open spec fn view(&self) -> CopyRequestView {
        match self {
            CopyRequest::ProbeSource { from } => CopyRequestView::ProbeSource { from: from@ },
            CopyRequest::ProbeDestination { to } => CopyRequestView::ProbeDestination { to: to@ },
            CopyRequest::CreateDestination { to } => CopyRequestView::CreateDestination {
                to: to@,
            },
            CopyRequest::ConfirmDestination { to } => CopyRequestView::ConfirmDestination {
                to: to@,
            },
            CopyRequest::List { from } => CopyRequestView::List { from: from@ },
            CopyRequest::CopyFile { from, to } => CopyRequestView::CopyFile {
                from: from@,
                to: to@,
            },
            CopyRequest::Done => CopyRequestView::Done,
            CopyRequest::Failed(error) => CopyRequestView::Failed(*error),
        }
    }
}

/// What the caller found when it carried out a [`CopyRequest`].
#[derive(Debug, PartialEq, Eq)]
pub enum CopyReply {
    /// Something stands at the source; `is_dir` says whether it is a
    /// directory.
    Source { is_dir: bool },
    /// What stands at the destination.
    Destination(PathKind),
    /// The destination was created.
    Created,
    /// The entries of the directory, in the order in which they were read.
    Listed(Vec<DirEntry>),
    /// The file was copied.
    Copied,
    /// The request could not be carried out.
    Failed,
}

/// Model of a [`CopyReply`].
pub enum CopyReplyView {
    Source { is_dir: bool },
    Destination(PathKind),
    Created,
    Listed(Seq<DirEntryView>),
    Copied,
    Failed,
}

impl View for CopyReply {
    type V = CopyReplyView;

    open spec fn view(&self) -> CopyReplyView {
        match self {
            CopyReply::Source { is_dir } => CopyReplyView::Source { is_dir: *is_dir },
            CopyReply::Destination(kind) => CopyReplyView::Destination(*kind),
            CopyReply::Created => CopyReplyView::Created,
            CopyReply::Listed(entries) => CopyReplyView::Listed(entry_views(entries@)),
            CopyReply::Copied => CopyReplyView::Copied,
            CopyReply::Failed => CopyReplyView::Failed,
        }
    }
}

/// One copy of a directory tree, under way.
///
/// The job walks the source tree depth first, in listing order: the steps of
/// a directory's entries are taken up before what was left over from the
/// directories above it.
pub struct CopyJob {
    root: String,
    exclude: Vec<String>,
    /// The steps still to take, the next one last.
    agenda: Vec<CopyStep>,
    phase: CopyPhase,
    failure: Option<CopyError>,
}

/// Model of a [`CopyJob`].
pub struct CopyJobView {
    /// The source directory that the job was started on.
    pub root: Seq<char>,
    /// The paths that are passed over.
    pub exclude: Seq<Seq<char>>,
    /// The steps still to take, the next one first.
    pub pending: Seq<CopyStepView>,
    /// How far the job has come with the first pending step, where that is
    /// a directory.
    pub phase: CopyPhase,
    /// Why the job stopped, if it did.
    pub failure: Option<CopyError>,
}

/// The model of an agenda: its steps from the last to the first.
pub open spec fn pending_of(agenda: Seq<CopyStep>) -> Seq<CopyStepView> {
    Seq::new(agenda.len(), |i: int| agenda[agenda.len() - 1 - i]@)
}

impl CopyJobView {
    /// A job newly started on copying the directory `from` to `to`.
    pub open spec fn start(from: Seq<char>, to: Seq<char>, exclude: Seq<Seq<char>>) -> CopyJobView {
        CopyJobView {
            root: from,
            exclude,
            pending: seq![CopyStepView { from, to, is_dir: true }],
            phase: CopyPhase::Source,
            failure: None,
        }
    }

    /// What holds of every job: but for the root directory itself, no
    /// pending step starts at an excluded path; and only a directory is
    /// ever entered.
    pub open spec fn well_formed(self) -> bool {
        &&& forall|k: int|
            0 <= k < self.pending.len() ==> {
                let step = #[trigger] self.pending[k];
                !self.exclude.contains(step.from) || step.from == self.root
            }
        &&& self.phase != CopyPhase::Source ==> self.pending.len() > 0 && self.pending[0].is_dir
    }

    /// The request that the job makes in this state.
    pub open spec fn request(self) -> CopyRequestView {
        if self.failure is Some {
            CopyRequestView::Failed(self.failure->0)
        } else if self.pending.len() == 0 {
            CopyRequestView::Done
        } else {
            let step = self.pending[0];
            if !step.is_dir {
                CopyRequestView::CopyFile { from: step.from, to: step.to }
            } else {
                match self.phase {
                    CopyPhase::Source => CopyRequestView::ProbeSource { from: step.from },
                    CopyPhase::Destination { .. } => CopyRequestView::ProbeDestination {
                        to: step.to,
                    },
                    CopyPhase::Creating { .. } => CopyRequestView::CreateDestination {
                        to: step.to,
                    },
                    CopyPhase::Confirming { .. } => CopyRequestView::ConfirmDestination {
                        to: step.to,
                    },
                    CopyPhase::Listing => CopyRequestView::List { from: step.from },
                }
            }
        }
    }

    /// The job stopped for the reason `error`.
    pub open spec fn stopped(self, error: CopyError) -> CopyJobView {
        CopyJobView { failure: Some(error), ..self }
    }

    /// The job at the next phase of entering a directory.
    pub open spec fn at(self, phase: CopyPhase) -> CopyJobView {
        CopyJobView { phase, ..self }
    }

    /// The job once both ends of a directory were looked at: it stops where
    /// a directory is to go to a path at which a file stands, and else the
    /// directory is listed.
    pub open spec fn settled(self, source_is_dir: bool, destination: PathKind) -> CopyJobView {
        if source_is_dir && destination == PathKind::File {
            self.stopped(CopyError::DestinationIsFile)
        } else {
            self.at(CopyPhase::Listing)
        }
    }

    /// The state that follows when the caller answers the current request
    /// with `reply`.
    ///
    /// A job that is done or has failed stays as it is. A reply that
    /// reports a failure stops the job, and so does one that answers
    /// another request than the one made. A copied file is struck off. Of
    /// a directory the source is looked at first, then the destination.
    /// Where nothing stands at the destination it is created and looked at
    /// once more, and if nothing stands there even then, the job stops. A
    /// directory that is to go where a file stands stops the job. Else the
    /// directory is listed, and is replaced by the plan of its entries,
    /// which come before everything else that is pending.
    pub open spec fn advance(self, reply: CopyReplyView) -> CopyJobView {
        if self.failure is Some || self.pending.len() == 0 {
            self
        } else if reply is Failed {
            self.stopped(CopyError::Io)
        } else if !self.pending[0].is_dir {
            match reply {
                CopyReplyView::Copied => CopyJobView { pending: self.pending.skip(1), ..self },
                _ => self.stopped(CopyError::UnexpectedReply),
            }
        } else {
            match (self.phase, reply) {
                (CopyPhase::Source, CopyReplyView::Source { is_dir }) => self.at(
                    CopyPhase::Destination { source_is_dir: is_dir },
                ),
                (
                    CopyPhase::Destination { source_is_dir },
                    CopyReplyView::Destination(kind),
                ) => if kind == PathKind::Missing {
                    self.at(CopyPhase::Creating { source_is_dir })
                } else {
                    self.settled(source_is_dir, kind)
                },
                (CopyPhase::Creating { source_is_dir }, CopyReplyView::Created) => self.at(
                    CopyPhase::Confirming { source_is_dir },
                ),
                (
                    CopyPhase::Confirming { source_is_dir },
                    CopyReplyView::Destination(kind),
                ) => if kind == PathKind::Missing {
                    self.stopped(CopyError::Io)
                } else {
                    self.settled(source_is_dir, kind)
                },
                (CopyPhase::Listing, CopyReplyView::Listed(entries)) => CopyJobView {
                    pending: level_plan(
                        self.pending[0].from,
                        self.pending[0].to,
                        entries,
                        self.exclude,
                    ) + self.pending.skip(1),
                    phase: CopyPhase::Source,
                    ..self
                },
                _ => self.stopped(CopyError::UnexpectedReply),
            }
        }
    }
}

impl CopyJobView {
    /// The state of the job after the caller gave each of `replies` in turn.
    pub open spec fn after(self, replies: Seq<CopyReplyView>) -> CopyJobView
        decreases replies.len(),
    {
        if replies.len() == 0 {
            self
        } else {
            self.after(replies.drop_last()).advance(replies.last())
        }
    }

    /// How the job ended, if it has: complete, or stopped for a reason.
    pub open spec fn result(self) -> Option<Result<(), CopyError>> {
        match self.request() {
            CopyRequestView::Done => Some(Ok(())),
            CopyRequestView::Failed(error) => Some(Err(error)),
            _ => None,
        }
    }
}

/// Advancing a well-formed job gives a well-formed job again.
pub proof fn lemma_advance_well_formed(job: CopyJobView, reply: CopyReplyView)
    requires
        job.well_formed(),
    ensures
        job.advance(reply).well_formed(),
{
    let next = job.advance(reply);
    if job.failure is None && job.pending.len() > 0 {
        if let CopyReplyView::Listed(entries) = reply {
            if job.pending[0].is_dir && job.phase == CopyPhase::Listing {
                let step = job.pending[0];
                let plan = level_plan(step.from, step.to, entries, job.exclude);
                lemma_plan_skips_excluded(step.from, step.to, entries, job.exclude);
                assert forall|k: int| 0 <= k < next.pending.len() implies {
                    let s = #[trigger] next.pending[k];
                    !next.exclude.contains(s.from) || s.from == next.root
                } by {
                    if k < plan.len() {
                        assert(next.pending[k] == plan[k]);
                    } else {
                        assert(next.pending[k] == job.pending[k - plan.len() + 1]);
                    }
                }
            }
        } else if let CopyReplyView::Copied = reply {
            if !job.pending[0].is_dir {
                assert forall|k: int| 0 <= k < next.pending.len() implies {
                    let s = #[trigger] next.pending[k];
                    !next.exclude.contains(s.from) || s.from == next.root
                } by {
                    assert(next.pending[k] == job.pending[k + 1]);
                }
            }
        }
    }
}

/// The source path that a request is about: the path that is looked at,
/// listed or copied from. The requests about a destination have none.
pub open spec fn source_of(request: CopyRequestView) -> Option<Seq<char>> {
    match request {
        CopyRequestView::ProbeSource { from } => Some(from),
        CopyRequestView::List { from } => Some(from),
        CopyRequestView::CopyFile { from, .. } => Some(from),
        _ => None,
    }
}

/// A well-formed job never asks for an excluded path to be looked at,
/// listed or copied, and asks for a destination only on behalf of a source
/// that is not excluded; the one path that may be excluded and still
/// entered is the root directory that the job was started on.
pub proof fn lemma_request_not_excluded(job: CopyJobView)
    requires
        job.well_formed(),
    ensures
        source_of(job.request()) matches Some(from) ==> !job.exclude.contains(from) || from
            == job.root,
        job.request() !is Done && job.request() !is Failed ==> job.pending.len() > 0 && (
        !job.exclude.contains(job.pending[0].from) || job.pending[0].from == job.root),
{
    if job.failure is None && job.pending.len() > 0 {
        assert(!job.exclude.contains(job.pending[0].from) || job.pending[0].from == job.root);
    }
}

/// Whatever the caller replies, and however often, a job started on a
/// directory stays well formed and keeps the root and the excluded paths
/// that it was started with.
pub proof fn lemma_run_well_formed(job: CopyJobView, replies: Seq<CopyReplyView>)
    requires
        job.well_formed(),
    ensures
        job.after(replies).well_formed(),
        job.after(replies).root == job.root,
        job.after(replies).exclude == job.exclude,
    decreases replies.len(),
{
    if replies.len() > 0 {
        lemma_run_well_formed(job, replies.drop_last());
        lemma_advance_well_formed(job.after(replies.drop_last()), replies.last());
    }
}

/// A copy never reaches into an excluded path: at no point of a job started
/// on `from`, whatever the caller replied before, does it ask for an
/// excluded path to be looked at, listed or copied. Only `from` itself is
/// entered without a look at the excluded paths.
pub proof fn lemma_never_asks_for_excluded(
    from: Seq<char>,
    to: Seq<char>,
    exclude: Seq<Seq<char>>,
    replies: Seq<CopyReplyView>,
)
    ensures
        source_of(CopyJobView::start(from, to, exclude).after(replies).request()) matches Some(
            path,
        ) ==> !exclude.contains(path) || path == from,
{
    let job = CopyJobView::start(from, to, exclude);
    lemma_run_well_formed(job, replies);
    lemma_request_not_excluded(job.after(replies));
}

/// Puts `steps` on top of `agenda`, so that they are taken in order before
/// what the agenda held.
fn stack_steps(agenda: &mut Vec<CopyStep>, steps: Vec<CopyStep>)
    ensures
        pending_of(final(agenda)@) == step_views(steps@) + pending_of(old(agenda)@),
{
    let mut steps = steps;
    let ghost plan = step_views(steps@);
    let ghost rest = pending_of(agenda@);
    assert(plan.take(steps@.len() as int) =~= plan);
    assert(pending_of(agenda@) =~= plan.skip(steps@.len() as int) + rest);
    while steps.len() > 0
        invariant
            steps@.len() <= plan.len(),
            step_views(steps@) == plan.take(steps@.len() as int),
            pending_of(agenda@) == plan.skip(steps@.len() as int) + rest,
        decreases steps.len(),
    {
        let ghost left = steps@;
        let ghost stacked = agenda@;
        let step = steps.pop().unwrap();
        agenda.push(step);
        proof {
            let n = left.len() as int;
            let target = plan.skip(n - 1) + rest;
            assert(step@ == step_views(left)[n - 1]);
            assert(plan.take(n)[n - 1] == plan[n - 1]);
            assert(step_views(steps@) =~= plan.take(n - 1));
            assert(pending_of(stacked).len() == stacked.len());
            assert((plan.skip(n) + rest).len() == plan.len() - n + rest.len());
            assert(agenda@.len() == stacked.len() + 1);
            assert(pending_of(agenda@).len() == target.len());
            assert forall|i: int| 0 <= i < target.len() implies pending_of(agenda@)[i]
                == target[i] by {
                if i == 0 {
                    assert(agenda@[agenda@.len() - 1] == step);
                    assert(target[0] == plan[n - 1]);
                } else {
                    let m = stacked.len() as int;
                    assert(agenda@[m - i] == stacked[m - 1 - (i - 1)]);
                    assert(pending_of(stacked)[i - 1] == stacked[m - 1 - (i - 1)]@);
                    assert(pending_of(stacked)[i - 1] == (plan.skip(n) + rest)[i - 1]);
                    if i - 1 < plan.len() - n {
                        assert(target[i] == plan[n - 1 + i]);
                    } else {
                        assert(target[i] == rest[i - (plan.len() - n + 1)]);
                    }
                }
            }
            assert(pending_of(agenda@) =~= target);
        }
    }
    assert(plan.skip(0) =~= plan);
}

impl View for CopyJob {
    type V = CopyJobView;

    closed spec fn view(&self) -> CopyJobView {
        CopyJobView {
            root: self.root@,
            exclude: texts(self.exclude@),
            pending: pending_of(self.agenda@),
            phase: self.phase,
            failure: self.failure,
        }
    }
}

impl CopyJob {
    #[verifier::type_invariant]
    spec fn sound(self) -> bool {
        self@.well_formed()
    }

    /// Starts the copy of the directory `from` to `to`, passing over the
    /// paths in `exclude`.
    pub fn new(from: &String, to: &String, exclude: &Vec<String>) -> (job: CopyJob)
        ensures
            job@ == CopyJobView::start(from@, to@, texts(exclude@)),
            job@.well_formed(),
    {
        let mut agenda: Vec<CopyStep> = Vec::new();
        agenda.push(CopyStep { from: from.clone(), to: to.clone(), is_dir: true });
        let job = CopyJob {
            root: from.clone(),
            exclude: clone_texts(exclude),
            agenda,
            phase: CopyPhase::Source,
            failure: None,
        };
        assert(job@.pending =~= CopyJobView::start(from@, to@, texts(exclude@)).pending);
        job
    }

    /// The request that the caller is to carry out now.
    pub fn request(&self) -> (out: CopyRequest)
        ensures
            out@ == self@.request(),
            self@.well_formed(),
    {
        proof {
            use_type_invariant(self);
        }
        if let Some(error) = self.failure {
            return CopyRequest::Failed(error);
        }
        if self.agenda.len() == 0 {
            return CopyRequest::Done;
        }
        let step = &self.agenda[self.agenda.len() - 1];
        if !step.is_dir {
            CopyRequest::CopyFile { from: step.from.clone(), to: step.to.clone() }
        } else {
            match self.phase {
                CopyPhase::Source => CopyRequest::ProbeSource { from: step.from.clone() },
                CopyPhase::Destination { .. } => CopyRequest::ProbeDestination {
                    to: step.to.clone(),
                },
                CopyPhase::Creating { .. } => CopyRequest::CreateDestination {
                    to: step.to.clone(),
                },
                CopyPhase::Confirming { .. } => CopyRequest::ConfirmDestination {
                    to: step.to.clone(),
                },
                CopyPhase::Listing => CopyRequest::List { from: step.from.clone() },
            }
        }
    }

    /// How the job ended: `None` while requests are still to be answered.
    pub fn result(&self) -> (out: Option<Result<(), CopyError>>)
        ensures
            out == self@.result(),
    {
        if let Some(error) = self.failure {
            Some(Err(error))
        } else if self.agenda.len() == 0 {
            Some(Ok(()))
        } else {
            None
        }
    }

    /// Takes the caller's reply to the current request and moves on.
    pub fn advance(self, reply: CopyReply) -> (next: CopyJob)
        ensures
            next@ == self@.advance(reply@),
            next@.well_formed(),
    {
        proof {
            use_type_invariant(&self);
            lemma_advance_well_formed(self@, reply@);
        }
        let ghost before = self@;
        let CopyJob { root, exclude, agenda, phase, failure } = self;
        let mut agenda = agenda;
        if failure.is_some() || agenda.len() == 0 {
            return CopyJob { root, exclude, agenda, phase, failure };
        }
        let ghost rest = pending_of(agenda@).skip(1);
        let is_dir = agenda[agenda.len() - 1].is_dir;
        let (phase, failure) = match (is_dir, phase, reply) {
            (_, _, CopyReply::Failed) => (phase, Some(CopyError::Io)),
            (false, _, CopyReply::Copied) => {
                agenda.pop();
                assert(pending_of(agenda@) =~= rest);
                (phase, None)
            },
            (true, CopyPhase::Source, CopyReply::Source { is_dir }) => (
                CopyPhase::Destination { source_is_dir: is_dir },
                None,
            ),
            (true, CopyPhase::Destination { source_is_dir }, CopyReply::Destination(kind)) => {
                match kind {
                    PathKind::Missing => (CopyPhase::Creating { source_is_dir }, None),
                    _ => settle(phase, source_is_dir, kind),
                }
            },
            (true, CopyPhase::Creating { source_is_dir }, CopyReply::Created) => (
                CopyPhase::Confirming { source_is_dir },
                None,
            ),
            (true, CopyPhase::Confirming { source_is_dir }, CopyReply::Destination(kind)) => {
                match kind {
                    PathKind::Missing => (phase, Some(CopyError::Io)),
                    _ => settle(phase, source_is_dir, kind),
                }
            },
            (true, CopyPhase::Listing, CopyReply::Listed(entries)) => {
                let step = agenda.pop().unwrap();
                assert(pending_of(agenda@) =~= rest);
                assert(step@ == before.pending[0]);
                let steps = copy_fs_objects(&step.from, &step.to, &entries, &exclude);
                stack_steps(&mut agenda, steps);
                (CopyPhase::Source, None)
            },
            _ => (phase, Some(CopyError::UnexpectedReply)),
        };
        CopyJob { root, exclude, agenda, phase, failure }
    }
}

/// The phase and the failure of a job once both ends of a directory were
/// looked at.
fn settle(phase: CopyPhase, source_is_dir: bool, destination: PathKind) -> (out: (
    CopyPhase,
    Option<CopyError>,
))
    ensures
        out == if source_is_dir && destination == PathKind::File {
            (phase, Some(CopyError::DestinationIsFile))
        } else {
            (CopyPhase::Listing, None::<CopyError>)
        },
{
    match destination {
        PathKind::File => {
            if source_is_dir {
                (phase, Some(CopyError::DestinationIsFile))
            } else {
                (CopyPhase::Listing, None)
            }
        },
        _ => (CopyPhase::Listing, None),
    }
}

} // verus!
