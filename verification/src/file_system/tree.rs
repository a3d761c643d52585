//! The copy of a whole tree: what a [`CopyJob`](crate::file_system::CopyJob)
//! does from its first request to its last when every request is answered
//! from one source tree that is in order, into a destination at which
//! nothing stands yet.
//!
//! A source tree is modelled by the listings of its directories, by path.
//! `made_by` says by the shape of the tree what a copy makes under the
//! destination; `lemma_faithful_trace` shows that a job answered from the
//! tree asks for exactly that, in that order, and then is done.

use crate::file_system::{
    lemma_plan_copies_the_rest, lemma_plan_skips_excluded, level_plan, step_for, CopyError,
    CopyJobView, CopyPhase, CopyReplyView, CopyRequestView, CopyStepView, DirEntryView, PathKind,
};
use crate::text::{entry_path, path_below};
use vstd::prelude::*;

verus! {

/// What `tree` lists for the directory `path`: nothing where it knows no
/// such directory.
pub open spec fn listing_of(tree: Map<Seq<char>, Seq<DirEntryView>>, path: Seq<char>) -> Seq<
    DirEntryView,
> {
    if tree.dom().contains(path) {
        tree[path]
    } else {
        Seq::empty()
    }
}

/// The steps of the entries that `tree` lists for the directory of `step`.
pub open spec fn plan_below(
    tree: Map<Seq<char>, Seq<DirEntryView>>,
    step: CopyStepView,
    exclude: Seq<Seq<char>>,
) -> Seq<CopyStepView> {
    level_plan(step.from, step.to, listing_of(tree, step.from), exclude)
}

/// Whether the part of `tree` that `steps` lead into is known and at most
/// `depth` directories deep: every directory among the steps has a listing,
/// and so has every directory that a copy reaches below it.
pub open spec fn within(
    tree: Map<Seq<char>, Seq<DirEntryView>>,
    steps: Seq<CopyStepView>,
    exclude: Seq<Seq<char>>,
    depth: nat,
) -> bool
    decreases depth, steps.len(),
{
    if steps.len() == 0 {
        true
    } else if !steps[0].is_dir {
        within(tree, steps.skip(1), exclude, depth)
    } else if depth == 0 {
        false
    } else {
        &&& tree.dom().contains(steps[0].from)
        &&& within(tree, plan_below(tree, steps[0], exclude), exclude, (depth - 1) as nat)
        &&& within(tree, steps.skip(1), exclude, depth)
    }
}

/// What taking `steps` makes under the destination, in order. A file step
/// makes the copy of the file. A directory step makes the directory, and
/// then what the steps of its entries make that are not excluded: files
/// among them are copied to the same name in the directory's destination,
/// directories are gone into in the same way.
pub open spec fn made_by(
    tree: Map<Seq<char>, Seq<DirEntryView>>,
    steps: Seq<CopyStepView>,
    exclude: Seq<Seq<char>>,
    depth: nat,
) -> Seq<CopyStepView>
    decreases depth, steps.len(),
{
    if steps.len() == 0 {
        Seq::empty()
    } else if !steps[0].is_dir {
        seq![steps[0]] + made_by(tree, steps.skip(1), exclude, depth)
    } else if depth == 0 {
        made_by(tree, steps.skip(1), exclude, depth)
    } else {
        seq![steps[0]] + made_by(
            tree,
            plan_below(tree, steps[0], exclude),
            exclude,
            (depth - 1) as nat,
        ) + made_by(tree, steps.skip(1), exclude, depth)
    }
}

/// What copying the directory `from` of `tree` to `to` makes, in order:
/// the directory `to` itself, and below it the directories and files of
/// the tree that are not excluded.
pub open spec fn tree_made(
    tree: Map<Seq<char>, Seq<DirEntryView>>,
    from: Seq<char>,
    to: Seq<char>,
    exclude: Seq<Seq<char>>,
    depth: nat,
) -> Seq<CopyStepView> {
    made_by(tree, seq![CopyStepView { from, to, is_dir: true }], exclude, depth)
}

/// The number of requests that a job makes to take `steps`: one for each
/// file, five for each directory.
pub open spec fn requests_for(
    tree: Map<Seq<char>, Seq<DirEntryView>>,
    steps: Seq<CopyStepView>,
    exclude: Seq<Seq<char>>,
    depth: nat,
) -> nat
    decreases depth, steps.len(),
{
    if steps.len() == 0 {
        0
    } else if !steps[0].is_dir {
        1 + requests_for(tree, steps.skip(1), exclude, depth)
    } else if depth == 0 {
        requests_for(tree, steps.skip(1), exclude, depth)
    } else {
        5 + requests_for(tree, plan_below(tree, steps[0], exclude), exclude, (depth - 1) as nat)
            + requests_for(tree, steps.skip(1), exclude, depth)
    }
}

/// The reply of a caller that finds the source tree in order and nothing
/// at the destination: what is to be entered is a directory, nothing
/// stands where it goes until it is created, a directory lists what the
/// tree holds for it, and a file is copied.
pub open spec fn faithful_reply(
    tree: Map<Seq<char>, Seq<DirEntryView>>,
    request: CopyRequestView,
) -> CopyReplyView {
    match request {
        CopyRequestView::ProbeSource { .. } => CopyReplyView::Source { is_dir: true },
        CopyRequestView::ProbeDestination { .. } => CopyReplyView::Destination(PathKind::Missing),
        CopyRequestView::CreateDestination { .. } => CopyReplyView::Created,
        CopyRequestView::ConfirmDestination { .. } => CopyReplyView::Destination(
            PathKind::Directory,
        ),
        CopyRequestView::List { from } => CopyReplyView::Listed(listing_of(tree, from)),
        _ => CopyReplyView::Copied,
    }
}

/// The job after its next request was answered from `tree`.
pub open spec fn answered_once(
    job: CopyJobView,
    tree: Map<Seq<char>, Seq<DirEntryView>>,
) -> CopyJobView {
    job.advance(faithful_reply(tree, job.request()))
}

/// The job after its next `count` requests were answered from `tree`.
pub open spec fn answered(
    job: CopyJobView,
    tree: Map<Seq<char>, Seq<DirEntryView>>,
    count: nat,
) -> CopyJobView
    decreases count,
{
    if count == 0 {
        job
    } else {
        answered(answered_once(job, tree), tree, (count - 1) as nat)
    }
}

/// What the job's current request makes under the destination: the copy
/// of a file, or a directory that is created.
pub open spec fn made_now(job: CopyJobView) -> Seq<CopyStepView> {
    match job.request() {
        CopyRequestView::CopyFile { .. } => seq![job.pending[0]],
        CopyRequestView::CreateDestination { .. } => seq![job.pending[0]],
        _ => Seq::empty(),
    }
}

/// What the job's next `count` requests make under the destination,
/// answered from `tree`, in order.
pub open spec fn made_in(
    job: CopyJobView,
    tree: Map<Seq<char>, Seq<DirEntryView>>,
    count: nat,
) -> Seq<CopyStepView>
    decreases count,
{
    if count == 0 {
        Seq::empty()
    } else {
        made_now(job) + made_in(answered_once(job, tree), tree, (count - 1) as nat)
    }
}

/// What fits within a depth fits within the next one, and neither what is
/// made nor the number of requests changes.
pub proof fn lemma_deeper(
    tree: Map<Seq<char>, Seq<DirEntryView>>,
    steps: Seq<CopyStepView>,
    exclude: Seq<Seq<char>>,
    depth: nat,
)
    requires
        within(tree, steps, exclude, depth),
    ensures
        within(tree, steps, exclude, depth + 1),
        made_by(tree, steps, exclude, depth + 1) == made_by(tree, steps, exclude, depth),
        requests_for(tree, steps, exclude, depth + 1) == requests_for(tree, steps, exclude, depth),
    decreases depth, steps.len(),
{
    if steps.len() > 0 {
        lemma_deeper(tree, steps.skip(1), exclude, depth);
        if steps[0].is_dir {
            lemma_deeper(tree, plan_below(tree, steps[0], exclude), exclude, (depth - 1) as nat);
        }
    }
}

/// Steps taken one after the other: both parts must fit, what the first
/// part makes comes before what the second makes, and the requests add up.
pub proof fn lemma_steps_in_a_row(
    tree: Map<Seq<char>, Seq<DirEntryView>>,
    first: Seq<CopyStepView>,
    second: Seq<CopyStepView>,
    exclude: Seq<Seq<char>>,
    depth: nat,
)
    ensures
        within(tree, first + second, exclude, depth) == (within(tree, first, exclude, depth)
            && within(tree, second, exclude, depth)),
        made_by(tree, first + second, exclude, depth) == made_by(tree, first, exclude, depth)
            + made_by(tree, second, exclude, depth),
        requests_for(tree, first + second, exclude, depth) == requests_for(
            tree,
            first,
            exclude,
            depth,
        ) + requests_for(tree, second, exclude, depth),
    decreases first.len(),
{
    if first.len() == 0 {
        assert(first + second =~= second);
        assert(made_by(tree, first, exclude, depth) + made_by(tree, second, exclude, depth)
            =~= made_by(tree, second, exclude, depth));
    } else {
        let all = first + second;
        assert(all[0] == first[0]);
        assert(all.skip(1) =~= first.skip(1) + second);
        lemma_steps_in_a_row(tree, first.skip(1), second, exclude, depth);
        let head = seq![first[0]];
        let tail = made_by(tree, first.skip(1), exclude, depth);
        let last = made_by(tree, second, exclude, depth);
        if !first[0].is_dir {
            assert(head + (tail + last) =~= (head + tail) + last);
        } else if depth > 0 {
            let inner = made_by(
                tree,
                plan_below(tree, first[0], exclude),
                exclude,
                (depth - 1) as nat,
            );
            assert(head + inner + (tail + last) =~= (head + inner + tail) + last);
        }
    }
}

/// Whether the job can go on from where it stands with answers from
/// `tree`: it has not failed, it is entering nothing but a directory, and
/// what it has pending leads into a known part of the tree that is at most
/// `depth` deep.
pub open spec fn in_order(
    job: CopyJobView,
    tree: Map<Seq<char>, Seq<DirEntryView>>,
    depth: nat,
) -> bool {
    &&& job.failure is None
    &&& job.phase != CopyPhase::Source ==> job.pending.len() > 0 && job.pending[0].is_dir
    &&& within(tree, job.pending, job.exclude, depth)
}

/// The number of requests that a job at this phase has made already for
/// the directory that it is entering.
pub open spec fn requests_made(phase: CopyPhase) -> int {
    match phase {
        CopyPhase::Source => 0,
        CopyPhase::Destination { .. } => 1,
        CopyPhase::Creating { .. } => 2,
        CopyPhase::Confirming { .. } => 3,
        CopyPhase::Listing => 4,
    }
}

/// The number of requests that the job makes from where it stands until it
/// is done, answered from `tree`.
pub open spec fn requests_left(
    job: CopyJobView,
    tree: Map<Seq<char>, Seq<DirEntryView>>,
    depth: nat,
) -> int {
    requests_for(tree, job.pending, job.exclude, depth) - requests_made(job.phase)
}

/// What the job makes from where it stands until it is done, answered
/// from `tree`: what its pending steps make, without the directory that it
/// is entering where that was created already.
pub open spec fn made_left(
    job: CopyJobView,
    tree: Map<Seq<char>, Seq<DirEntryView>>,
    depth: nat,
) -> Seq<CopyStepView> {
    let all = made_by(tree, job.pending, job.exclude, depth);
    if job.phase is Confirming || job.phase is Listing {
        all.skip(1)
    } else {
        all
    }
}

/// A job in order has requests left exactly as long as it has steps
/// pending, and it has an end only when none are left: then it is complete.
pub proof fn lemma_requests_left(
    job: CopyJobView,
    tree: Map<Seq<char>, Seq<DirEntryView>>,
    depth: nat,
)
    requires
        in_order(job, tree, depth),
    ensures
        requests_left(job, tree, depth) >= 0,
        requests_left(job, tree, depth) > 0 <==> job.pending.len() > 0,
        requests_left(job, tree, depth) > 0 <==> job.result() is None,
        requests_left(job, tree, depth) == 0 ==> job.result() == Some(Ok::<(), CopyError>(())),
{
}

/// One request answered from the tree leaves the job in order, with one
/// request less to make, and with the root and the excluded paths it had.
/// What the request made and what is left to make are together what was
/// left to make before.
pub proof fn lemma_faithful_step(
    job: CopyJobView,
    tree: Map<Seq<char>, Seq<DirEntryView>>,
    depth: nat,
)
    requires
        in_order(job, tree, depth),
        job.pending.len() > 0,
    ensures
        in_order(answered_once(job, tree), tree, depth),
        requests_left(answered_once(job, tree), tree, depth) == requests_left(job, tree, depth)
            - 1,
        answered_once(job, tree).exclude == job.exclude,
        answered_once(job, tree).root == job.root,
        made_now(job) + made_left(answered_once(job, tree), tree, depth) == made_left(
            job,
            tree,
            depth,
        ),
{
    let steps = job.pending;
    let first = steps[0];
    let next = answered_once(job, tree);
    let all = made_by(tree, steps, job.exclude, depth);
    let rest = made_by(tree, steps.skip(1), job.exclude, depth);
    if !first.is_dir {
        assert(next.pending == steps.skip(1));
        assert(made_now(job) + made_left(next, tree, depth) =~= made_left(job, tree, depth));
    } else {
        let plan = plan_below(tree, first, job.exclude);
        let inner = made_by(tree, plan, job.exclude, (depth - 1) as nat);
        assert(all == seq![first] + inner + rest);
        assert(all.skip(1) =~= inner + rest);
        match job.phase {
            CopyPhase::Listing => {
                assert(next.pending == plan + steps.skip(1));
                lemma_deeper(tree, plan, job.exclude, (depth - 1) as nat);
                lemma_steps_in_a_row(tree, plan, steps.skip(1), job.exclude, depth);
                assert(made_left(next, tree, depth) == inner + rest);
            },
            CopyPhase::Creating { .. } => {
                assert(next.pending == steps);
                assert(made_left(next, tree, depth) == all.skip(1));
                assert(seq![first] + all.skip(1) =~= all);
            },
            _ => {
                assert(next.pending == steps);
            },
        }
        assert(made_now(job) + made_left(next, tree, depth) =~= made_left(job, tree, depth));
    }
}

/// As long as requests are left, answering them from the tree leaves the
/// job in order and takes one request off for each answer.
pub proof fn lemma_faithful_run(
    job: CopyJobView,
    tree: Map<Seq<char>, Seq<DirEntryView>>,
    depth: nat,
    count: nat,
)
    requires
        in_order(job, tree, depth),
        count <= requests_left(job, tree, depth),
    ensures
        in_order(answered(job, tree, count), tree, depth),
        requests_left(answered(job, tree, count), tree, depth) == requests_left(job, tree, depth)
            - count,
        answered(job, tree, count).exclude == job.exclude,
        answered(job, tree, count).root == job.root,
    decreases count,
{
    if count > 0 {
        lemma_requests_left(job, tree, depth);
        lemma_faithful_step(job, tree, depth);
        lemma_faithful_run(answered_once(job, tree), tree, depth, (count - 1) as nat);
    }
}

/// A job in order comes to its end when each of its requests is answered
/// from the tree: after the requests that it has left it is complete, and
/// what its requests made on the way is what was left to make, in order.
pub proof fn lemma_faithful_trace(
    job: CopyJobView,
    tree: Map<Seq<char>, Seq<DirEntryView>>,
    depth: nat,
    count: nat,
)
    requires
        in_order(job, tree, depth),
        count == requests_left(job, tree, depth),
    ensures
        answered(job, tree, count).result() == Some(Ok::<(), CopyError>(())),
        made_in(job, tree, count) == made_left(job, tree, depth),
    decreases count,
{
    lemma_requests_left(job, tree, depth);
    if count > 0 {
        lemma_faithful_step(job, tree, depth);
        lemma_faithful_trace(answered_once(job, tree), tree, depth, (count - 1) as nat);
    } else {
        assert(made_left(job, tree, depth) =~= Seq::<CopyStepView>::empty());
    }
}

/// The copy of a tree, from the first request to the last: where the tree
/// under `from` is known and finitely deep and nothing stands at the
/// destination, a job started on it and answered from it ends complete,
/// having made exactly what the shape of the tree calls for, in order.
pub proof fn lemma_copy_of_tree(
    tree: Map<Seq<char>, Seq<DirEntryView>>,
    from: Seq<char>,
    to: Seq<char>,
    exclude: Seq<Seq<char>>,
    depth: nat,
)
    requires
        within(tree, seq![CopyStepView { from, to, is_dir: true }], exclude, depth),
    ensures
        ({
            let job = CopyJobView::start(from, to, exclude);
            let count = requests_for(tree, job.pending, exclude, depth);
            &&& answered(job, tree, count).result() == Some(Ok::<(), CopyError>(()))
            &&& made_in(job, tree, count) == tree_made(tree, from, to, exclude, depth)
        }),
{
    let job = CopyJobView::start(from, to, exclude);
    lemma_faithful_trace(job, tree, depth, requests_for(tree, job.pending, exclude, depth));
}

/// Nothing that is excluded is made: where no step starts at an excluded
/// path, nothing that the steps make does.
pub proof fn lemma_made_skips_excluded(
    tree: Map<Seq<char>, Seq<DirEntryView>>,
    steps: Seq<CopyStepView>,
    exclude: Seq<Seq<char>>,
    depth: nat,
)
    requires
        forall|k: int| 0 <= k < steps.len() ==> !exclude.contains((#[trigger] steps[k]).from),
    ensures
        forall|k: int|
            0 <= k < made_by(tree, steps, exclude, depth).len() ==> !exclude.contains(
                (#[trigger] made_by(tree, steps, exclude, depth)[k]).from,
            ),
    decreases depth, steps.len(),
{
    if steps.len() > 0 {
        let all = made_by(tree, steps, exclude, depth);
        let rest = made_by(tree, steps.skip(1), exclude, depth);
        assert forall|k: int| 0 <= k < steps.skip(1).len() implies !exclude.contains(
            (#[trigger] steps.skip(1)[k]).from,
        ) by {
            assert(steps.skip(1)[k] == steps[k + 1]);
        }
        lemma_made_skips_excluded(tree, steps.skip(1), exclude, depth);
        assert(!exclude.contains(steps[0].from));
        let ahead = all.len() - rest.len();
        if steps[0].is_dir && depth > 0 {
            let listing = listing_of(tree, steps[0].from);
            let plan = plan_below(tree, steps[0], exclude);
            lemma_plan_skips_excluded(steps[0].from, steps[0].to, listing, exclude);
            lemma_made_skips_excluded(tree, plan, exclude, (depth - 1) as nat);
            let inner = made_by(tree, plan, exclude, (depth - 1) as nat);
            assert(all == seq![steps[0]] + inner + rest);
            assert forall|k: int| 0 < k < ahead implies all[k] == inner[k - 1] by {}
        }
        assert forall|k: int| 0 <= k < all.len() implies !exclude.contains(
            (#[trigger] all[k]).from,
        ) by {
            if k >= ahead {
                assert(all[k] == rest[k - ahead]);
            } else if k > 0 {
                let inner = made_by(
                    tree,
                    plan_below(tree, steps[0], exclude),
                    exclude,
                    (depth - 1) as nat,
                );
                assert(all[k] == inner[k - 1]);
            }
        }
    }
}

/// Nothing that is excluded is made by the copy of a tree: the first
/// thing made is the destination of the tree itself, and nothing made
/// after it starts at an excluded path.
pub proof fn lemma_tree_made_skips_excluded(
    tree: Map<Seq<char>, Seq<DirEntryView>>,
    from: Seq<char>,
    to: Seq<char>,
    exclude: Seq<Seq<char>>,
    depth: nat,
)
    requires
        depth > 0,
    ensures
        tree_made(tree, from, to, exclude, depth).len() > 0,
        tree_made(tree, from, to, exclude, depth)[0] == (CopyStepView { from, to, is_dir: true }),
        forall|k: int|
            1 <= k < tree_made(tree, from, to, exclude, depth).len() ==> !exclude.contains(
                (#[trigger] tree_made(tree, from, to, exclude, depth)[k]).from,
            ),
{
    let root = CopyStepView { from, to, is_dir: true };
    let steps = seq![root];
    let plan = plan_below(tree, root, exclude);
    let inner = made_by(tree, plan, exclude, (depth - 1) as nat);
    let all = tree_made(tree, from, to, exclude, depth);
    assert(steps.skip(1) =~= Seq::<CopyStepView>::empty());
    assert(made_by(tree, steps.skip(1), exclude, depth) =~= Seq::<CopyStepView>::empty());
    assert(all =~= seq![root] + inner);
    lemma_plan_skips_excluded(from, to, listing_of(tree, from), exclude);
    lemma_made_skips_excluded(tree, plan, exclude, (depth - 1) as nat);
    assert forall|k: int| 1 <= k < all.len() implies !exclude.contains(
        (#[trigger] all[k]).from,
    ) by {
        assert(all[k] == inner[k - 1]);
    }
}

/// Whether `made` stands at the same place below `to` as its source does
/// below `from`: the entries that lead from `from` down to the source lead
/// from `to` down to what is made.
pub open spec fn mirrors(made: CopyStepView, from: Seq<char>, to: Seq<char>) -> bool {
    exists|names: Seq<Seq<char>>|
        made.from == #[trigger] path_below(from, names) && made.to == path_below(to, names)
}

/// Everything is made where its source is: each thing made for `steps`
/// stands at or below the destination of one of the steps, at the place
/// that its source has at or below that step's source.
pub proof fn lemma_made_mirrors_steps(
    tree: Map<Seq<char>, Seq<DirEntryView>>,
    steps: Seq<CopyStepView>,
    exclude: Seq<Seq<char>>,
    depth: nat,
)
    ensures
        forall|k: int|
            0 <= k < made_by(tree, steps, exclude, depth).len() ==> exists|i: int|
                0 <= i < steps.len() && mirrors(
                    #[trigger] made_by(tree, steps, exclude, depth)[k],
                    (#[trigger] steps[i]).from,
                    steps[i].to,
                ),
    decreases depth, steps.len(),
{
    if steps.len() > 0 {
        let all = made_by(tree, steps, exclude, depth);
        let rest = made_by(tree, steps.skip(1), exclude, depth);
        let ahead = all.len() - rest.len();
        let first = steps[0];
        lemma_made_mirrors_steps(tree, steps.skip(1), exclude, depth);
        assert(first.from == path_below(first.from, Seq::<Seq<char>>::empty()));
        assert(first.to == path_below(first.to, Seq::<Seq<char>>::empty()));
        assert(mirrors(first, first.from, first.to));
        if first.is_dir && depth > 0 {
            let listing = listing_of(tree, first.from);
            let plan = plan_below(tree, first, exclude);
            let inner = made_by(tree, plan, exclude, (depth - 1) as nat);
            lemma_made_mirrors_steps(tree, plan, exclude, (depth - 1) as nat);
            lemma_plan_skips_excluded(first.from, first.to, listing, exclude);
            assert(all == seq![first] + inner + rest);
            assert forall|k: int| 0 <= k < inner.len() implies mirrors(
                #[trigger] inner[k],
                first.from,
                first.to,
            ) by {
                let j = choose|j: int|
                    0 <= j < plan.len() && mirrors(inner[k], (#[trigger] plan[j]).from, plan[j].to);
                let below = choose|below: Seq<Seq<char>>|
                    inner[k].from == #[trigger] path_below(plan[j].from, below) && inner[k].to
                        == path_below(plan[j].to, below);
                let e = choose|e: int|
                    0 <= e < listing.len() && plan[j] == step_for(first.from, first.to)(
                        #[trigger] listing[e],
                    );
                let names = seq![listing[e].name] + below;
                assert(names.skip(1) =~= below);
                assert(inner[k].from == path_below(first.from, names));
                assert(inner[k].to == path_below(first.to, names));
            }
            assert forall|k: int| 0 < k < ahead implies all[k] == inner[k - 1] by {}
        }
        assert forall|k: int| 0 <= k < all.len() implies exists|i: int|
            0 <= i < steps.len() && mirrors(
                #[trigger] all[k],
                (#[trigger] steps[i]).from,
                steps[i].to,
            ) by {
            if k >= ahead {
                assert(all[k] == rest[k - ahead]);
                let i = choose|i: int|
                    0 <= i < steps.skip(1).len() && mirrors(
                        rest[k - ahead],
                        (#[trigger] steps.skip(1)[i]).from,
                        steps.skip(1)[i].to,
                    );
                assert(steps.skip(1)[i] == steps[i + 1]);
            } else if k == 0 {
                assert(all[0] == first);
                assert(mirrors(all[k], steps[0].from, steps[0].to));
            } else {
                let inner = made_by(
                    tree,
                    plan_below(tree, first, exclude),
                    exclude,
                    (depth - 1) as nat,
                );
                assert(all[k] == inner[k - 1]);
                assert(mirrors(all[k], steps[0].from, steps[0].to));
            }
        }
    }
}

/// Everything that the copy of a tree makes stands at the same place
/// below `to` as its source does below `from`.
pub proof fn lemma_tree_made_mirrors(
    tree: Map<Seq<char>, Seq<DirEntryView>>,
    from: Seq<char>,
    to: Seq<char>,
    exclude: Seq<Seq<char>>,
    depth: nat,
)
    ensures
        forall|k: int|
            0 <= k < tree_made(tree, from, to, exclude, depth).len() ==> mirrors(
                #[trigger] tree_made(tree, from, to, exclude, depth)[k],
                from,
                to,
            ),
{
    let root = seq![CopyStepView { from, to, is_dir: true }];
    lemma_made_mirrors_steps(tree, root, exclude, depth);
    let made = tree_made(tree, from, to, exclude, depth);
    assert forall|k: int| 0 <= k < made.len() implies mirrors(#[trigger] made[k], from, to) by {
        let i = choose|i: int|
            0 <= i < root.len() && mirrors(made[k], (#[trigger] root[i]).from, root[i].to);
        assert(root[i] == root[0]);
    }
}

/// Every step is answered for in what is made: the step itself is made,
/// and so is everything that the entries of a directory step make.
pub proof fn lemma_made_covers_steps(
    tree: Map<Seq<char>, Seq<DirEntryView>>,
    steps: Seq<CopyStepView>,
    exclude: Seq<Seq<char>>,
    depth: nat,
    k: int,
)
    requires
        0 <= k < steps.len(),
        depth > 0 || !steps[k].is_dir,
    ensures
        made_by(tree, steps, exclude, depth).contains(steps[k]),
        steps[k].is_dir ==> forall|i: int|
            0 <= i < made_by(
                tree,
                plan_below(tree, steps[k], exclude),
                exclude,
                (depth - 1) as nat,
            ).len() ==> made_by(tree, steps, exclude, depth).contains(
                #[trigger] made_by(
                    tree,
                    plan_below(tree, steps[k], exclude),
                    exclude,
                    (depth - 1) as nat,
                )[i],
            ),
    decreases steps.len(),
{
    let all = made_by(tree, steps, exclude, depth);
    let rest = made_by(tree, steps.skip(1), exclude, depth);
    let ahead = all.len() - rest.len();
    assert(forall|j: int| 0 <= j < rest.len() ==> all[ahead + j] == rest[j]);
    let inner = made_by(tree, plan_below(tree, steps[k], exclude), exclude, (depth - 1) as nat);
    if k == 0 {
        assert(all[0] == steps[0]);
        if steps[0].is_dir {
            assert forall|i: int| 0 <= i < inner.len() implies all.contains(
                #[trigger] inner[i],
            ) by {
                assert(all[1 + i] == inner[i]);
            }
        }
    } else {
        assert(steps.skip(1)[k - 1] == steps[k]);
        lemma_made_covers_steps(tree, steps.skip(1), exclude, depth, k - 1);
        let j = choose|j: int| 0 <= j < rest.len() && rest[j] == steps[k];
        assert(all[ahead + j] == rest[j]);
        if steps[k].is_dir {
            assert forall|i: int| 0 <= i < inner.len() implies all.contains(
                #[trigger] inner[i],
            ) by {
                let j = choose|j: int| 0 <= j < rest.len() && rest[j] == inner[i];
                assert(all[ahead + j] == rest[j]);
            }
        }
    }
}

/// Nothing that is not excluded is left behind: of the entries that the
/// directory `from` lists, every one whose path is not excluded is made
/// under its own name in `to`, a file as a copy and a directory as a
/// directory, and of such a directory everything is made that the copy of
/// its own tree makes.
pub proof fn lemma_nothing_left_behind(
    tree: Map<Seq<char>, Seq<DirEntryView>>,
    from: Seq<char>,
    to: Seq<char>,
    exclude: Seq<Seq<char>>,
    depth: nat,
    entry: DirEntryView,
)
    requires
        depth > 0,
        listing_of(tree, from).contains(entry),
        !exclude.contains(entry_path(from, entry.name)),
        entry.is_dir ==> depth > 1,
    ensures
        tree_made(tree, from, to, exclude, depth).contains(
            CopyStepView {
                from: entry_path(from, entry.name),
                to: entry_path(to, entry.name),
                is_dir: entry.is_dir,
            },
        ),
        entry.is_dir ==> forall|i: int|
            0 <= i < tree_made(
                tree,
                entry_path(from, entry.name),
                entry_path(to, entry.name),
                exclude,
                (depth - 1) as nat,
            ).len() ==> tree_made(tree, from, to, exclude, depth).contains(
                #[trigger] tree_made(
                    tree,
                    entry_path(from, entry.name),
                    entry_path(to, entry.name),
                    exclude,
                    (depth - 1) as nat,
                )[i],
            ),
{
    let root_step = CopyStepView { from, to, is_dir: true };
    let root = seq![root_step];
    let plan = plan_below(tree, root_step, exclude);
    let below = (depth - 1) as nat;
    let all = tree_made(tree, from, to, exclude, depth);
    let inner = made_by(tree, plan, exclude, below);
    assert(root.skip(1) =~= Seq::<CopyStepView>::empty());
    assert(made_by(tree, root.skip(1), exclude, depth) =~= Seq::<CopyStepView>::empty());
    assert(all =~= seq![root_step] + inner);
    assert(forall|j: int| 0 <= j < inner.len() ==> all[1 + j] == inner[j]);
    lemma_plan_copies_the_rest(from, to, listing_of(tree, from), exclude);
    let listing = listing_of(tree, from);
    let at = choose|at: int| 0 <= at < listing.len() && listing[at] == entry;
    let step = step_for(from, to)(listing[at]);
    let k = choose|k: int| 0 <= k < plan.len() && plan[k] == step;
    lemma_made_covers_steps(tree, plan, exclude, below, k);
    let j = choose|j: int| 0 <= j < inner.len() && inner[j] == step;
    assert(all[1 + j] == step);
    if entry.is_dir {
        let child = seq![step];
        let lower = made_by(tree, plan_below(tree, step, exclude), exclude, (below - 1) as nat);
        let made = tree_made(tree, step.from, step.to, exclude, below);
        assert(child.skip(1) =~= Seq::<CopyStepView>::empty());
        assert(made_by(tree, child.skip(1), exclude, below) =~= Seq::<CopyStepView>::empty());
        assert(made =~= seq![step] + lower);
        assert forall|i: int| 0 <= i < made.len() implies all.contains(#[trigger] made[i]) by {
            if i > 0 {
                assert(made[i] == lower[i - 1]);
                let j = choose|j: int| 0 <= j < inner.len() && inner[j] == lower[i - 1];
                assert(all[1 + j] == inner[j]);
            }
        }
    }
}

} // verus!
