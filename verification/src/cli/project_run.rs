//! A whole run: what the making of a project from a template comes to when
//! every request is answered by a world that is in order.
//!
//! The world is modelled by what the template's configuration file holds,
//! by the listings of the template's directories, and by what the shell
//! reports. `lemma_project_from_template` follows an
//! [`Instantiation`](crate::cli::project_cli::Instantiation) through such a
//! world from its first request to its outcome.

use crate::cli::project_cli::{
    InstantiateReplyView, InstantiateRequestView, InstantiationView, OutcomeView, StageView,
};
use crate::file_system::tree::{
    answered, answered_once, faithful_reply, in_order, lemma_copy_of_tree, lemma_faithful_step,
    lemma_requests_left, made_in, made_now, requests_for, requests_left, tree_made, within,
};
use crate::file_system::{CopyJobView, CopyStepView, DirEntryView};
use crate::templates::config::{CreatedTemplateConfigView, StoredConfigView};
use vstd::prelude::*;

verus! {

/// What the caller finds when it carries out the requests.
pub struct WorldView {
    /// What the template's configuration file holds, if there is one.
    pub found: Option<StoredConfigView>,
    /// The listings of the template's directories, by path.
    pub tree: Map<Seq<char>, Seq<DirEntryView>>,
    /// Whether the shell reports success.
    pub shell_succeeds: bool,
}

/// The reply of a caller to whom nothing goes wrong: what is asked for
/// stands where it should, directories and files are made and written, the
/// configuration file holds what the world says, the copy is answered from
/// the world's tree, and the shell runs.
pub open spec fn faithful_answer(
    world: WorldView,
    request: InstantiateRequestView,
) -> InstantiateReplyView {
    match request {
        InstantiateRequestView::CreateEmptyDirectory { .. } => {
            InstantiateReplyView::DirectoryCreated
        },
        InstantiateRequestView::CheckTemplate { .. } => InstantiateReplyView::TemplateChecked {
            present: true,
        },
        InstantiateRequestView::ReadConfig { .. } => InstantiateReplyView::ConfigRead(world.found),
        InstantiateRequestView::WriteConfig { .. } => InstantiateReplyView::ConfigWritten,
        InstantiateRequestView::Copy(request) => InstantiateReplyView::Copy(
            faithful_reply(world.tree, request),
        ),
        InstantiateRequestView::RunScripts(_) => InstantiateReplyView::ScriptsRan {
            success: world.shell_succeeds,
        },
        InstantiateRequestView::Finished(_) => InstantiateReplyView::Failed,
    }
}

/// The making after its next `count` requests were answered by `world`.
pub open spec fn run(state: InstantiationView, world: WorldView, count: nat) -> InstantiationView
    decreases count,
{
    if count == 0 {
        state
    } else {
        run(state.advance(faithful_answer(world, state.request())), world, (count - 1) as nat)
    }
}

/// What the making's current request makes under the destination: what
/// the copy makes, while the files are copied.
pub open spec fn made_at(state: InstantiationView) -> Seq<CopyStepView> {
    match state.stage {
        StageView::Copying { job, .. } => made_now(job),
        _ => Seq::empty(),
    }
}

/// What the making's next `count` requests make under the destination,
/// answered by `world`, in order.
pub open spec fn made_in_run(state: InstantiationView, world: WorldView, count: nat) -> Seq<
    CopyStepView,
>
    decreases count,
{
    if count == 0 {
        Seq::empty()
    } else {
        made_at(state) + made_in_run(
            state.advance(faithful_answer(world, state.request())),
            world,
            (count - 1) as nat,
        )
    }
}

/// The configuration in force for the template rooted at `template` in
/// `world`.
pub open spec fn config_in_force(
    template: Seq<char>,
    world: WorldView,
) -> CreatedTemplateConfigView {
    CreatedTemplateConfigView::loaded(template, world.found)->Ok_0.config
}

/// The number of requests that the making of a project from the template
/// rooted at `template` takes: one to look at the template, one to read its
/// configuration, one to write it where there was none, those of the copy,
/// and one to run the scripts where there are any.
pub open spec fn requests_in_all(
    template: Seq<char>,
    destination: Seq<char>,
    world: WorldView,
    depth: nat,
) -> nat {
    let config = config_in_force(template, world);
    let root = seq![CopyStepView { from: template, to: destination, is_dir: true }];
    (2 + if world.found is None {
        1nat
    } else {
        0nat
    } + requests_for(world.tree, root, config.exclude_paths, depth) + if config.scripts.len() > 0 {
        1nat
    } else {
        0nat
    }) as nat
}

/// A run in two parts: the state after both is the state after the second
/// part, begun where the first ended, and what the second part makes
/// follows what the first makes.
pub proof fn lemma_run_in_parts(
    state: InstantiationView,
    world: WorldView,
    first: nat,
    second: nat,
)
    ensures
        run(state, world, first + second) == run(run(state, world, first), world, second),
        made_in_run(state, world, first + second) == made_in_run(state, world, first) + made_in_run(
            run(state, world, first),
            world,
            second,
        ),
    decreases first,
{
    if first == 0 {
        assert(made_in_run(state, world, second) =~= Seq::<CopyStepView>::empty() + made_in_run(
            state,
            world,
            second,
        ));
    } else {
        let next = state.advance(faithful_answer(world, state.request()));
        lemma_run_in_parts(next, world, (first - 1) as nat, second);
        let head = made_in_run(next, world, (first - 1) as nat);
        let tail = made_in_run(run(next, world, (first - 1) as nat), world, second);
        assert(made_in_run(next, world, (first - 1 + second) as nat) == head + tail);
        assert(made_at(state) + (head + tail) =~= (made_at(state) + head) + tail);
    }
}

/// While the files are copied, the making follows the copy request by
/// request: as long as the copy has requests left it stays at the copy,
/// when none are left it moves on to what comes after, and what is made
/// is what the copy makes.
pub proof fn lemma_copy_phase(
    state: InstantiationView,
    job: CopyJobView,
    scripts: Seq<Seq<char>>,
    world: WorldView,
    depth: nat,
    count: nat,
)
    requires
        state.stage == (StageView::Copying { job, scripts }),
        in_order(job, world.tree, depth),
        0 < requests_left(job, world.tree, depth),
        count <= requests_left(job, world.tree, depth),
    ensures
        run(state, world, count).destination == state.destination,
        run(state, world, count).windows == state.windows,
        count < requests_left(job, world.tree, depth) ==> run(state, world, count).stage == (
        StageView::Copying { job: answered(job, world.tree, count), scripts }),
        count == requests_left(job, world.tree, depth) ==> run(state, world, count).stage
            == InstantiationView::after_copy(scripts),
        made_in_run(state, world, count) == made_in(job, world.tree, count),
    decreases count,
{
    if count > 0 {
        let next_job = answered_once(job, world.tree);
        let next = state.advance(faithful_answer(world, state.request()));
        lemma_requests_left(job, world.tree, depth);
        lemma_faithful_step(job, world.tree, depth);
        lemma_requests_left(next_job, world.tree, depth);
        if requests_left(next_job, world.tree, depth) > 0 {
            assert(next.stage == (StageView::Copying { job: next_job, scripts }));
            lemma_copy_phase(next, next_job, scripts, world, depth, (count - 1) as nat);
        } else {
            assert(next.stage == InstantiationView::after_copy(scripts));
            assert(count == 1);
            assert(run(next, world, 0) == next);
            assert(made_in_run(next, world, 0) =~= made_in(next_job, world.tree, 0));
        }
    }
}

/// A project from a template, from the first request to the outcome.
///
/// Take a making that starts by looking at the template rooted at
/// `template`, and a world in which the template's configuration loads and
/// the template's tree is known and finitely deep, and nothing stands at
/// the destination. When every request is
/// answered by that world, the making ends after the requests counted by
/// `requests_in_all`. It ends with the project ready: without a word from a
/// shell where the configuration in force has no scripts, and else with
/// what the shell reported. On the way it made exactly those directories
/// and copies of files that the shape of the tree and the excluded paths
/// in force call for, in their order, under their own names in the
/// destination.
pub proof fn lemma_project_from_template(
    start: InstantiationView,
    template: Seq<char>,
    world: WorldView,
    depth: nat,
)
    requires
        start.stage == (StageView::Checking { template }),
        CreatedTemplateConfigView::loaded(template, world.found) is Ok,
        within(
            world.tree,
            seq![CopyStepView { from: template, to: start.destination, is_dir: true }],
            config_in_force(template, world).exclude_paths,
            depth,
        ),
    ensures
        run(start, world, requests_in_all(template, start.destination, world, depth)).stage == (
        StageView::Finished(
            if config_in_force(template, world).scripts.len() == 0 {
                OutcomeView::Created { copied: true }
            } else {
                OutcomeView::ScriptsRan { success: world.shell_succeeds }
            },
        )),
        made_in_run(start, world, requests_in_all(template, start.destination, world, depth))
            == tree_made(
            world.tree,
            template,
            start.destination,
            config_in_force(template, world).exclude_paths,
            depth,
        ),
{
    let config = config_in_force(template, world);
    let job = CopyJobView::start(template, start.destination, config.exclude_paths);
    let copying = InstantiationView {
        stage: StageView::Copying { job, scripts: config.scripts },
        ..start
    };
    let before: nat = if world.found is None {
        3
    } else {
        2
    };
    let during = requests_for(world.tree, job.pending, config.exclude_paths, depth);
    let after: nat = if config.scripts.len() > 0 {
        1
    } else {
        0
    };
    // Up to the copy: the template is looked at, its configuration read and,
    // where there was none, written.
    let checked = start.advance(faithful_answer(world, start.request()));
    let read = checked.advance(faithful_answer(world, checked.request()));
    assert(run(start, world, before) == run(checked, world, (before - 1) as nat));
    assert(run(checked, world, (before - 1) as nat) == run(read, world, (before - 2) as nat));
    assert(made_in_run(start, world, before) == made_in_run(checked, world, (before - 1) as nat));
    assert(made_in_run(checked, world, (before - 1) as nat) == made_in_run(
        read,
        world,
        (before - 2) as nat,
    ));
    if world.found is None {
        let written = read.advance(faithful_answer(world, read.request()));
        assert(run(read, world, 1) == run(written, world, 0));
        assert(made_in_run(read, world, 1) == made_in_run(written, world, 0));
        assert(written == copying);
    } else {
        assert(read == copying);
    }
    assert(run(start, world, before) == copying);
    assert(made_in_run(start, world, before) =~= Seq::<CopyStepView>::empty());
    // The copy.
    lemma_copy_of_tree(world.tree, template, start.destination, config.exclude_paths, depth);
    lemma_copy_phase(copying, job, config.scripts, world, depth, during);
    let copied = run(copying, world, during);
    lemma_run_in_parts(start, world, before, during);
    assert(made_in_run(start, world, before + during) =~= tree_made(
        world.tree,
        template,
        start.destination,
        config.exclude_paths,
        depth,
    ));
    // After the copy: the scripts, where there are any.
    lemma_run_in_parts(start, world, before + during, after);
    if config.scripts.len() > 0 {
        let ran = copied.advance(faithful_answer(world, copied.request()));
        assert(run(copied, world, 1) == run(ran, world, 0));
        assert(made_in_run(copied, world, 1) == made_in_run(ran, world, 0));
        assert(made_in_run(copied, world, 1) =~= Seq::<CopyStepView>::empty());
    } else {
        assert(made_in_run(copied, world, 0) =~= Seq::<CopyStepView>::empty());
    }
    assert(requests_in_all(template, start.destination, world, depth) == before + during + after);
    assert(made_in_run(start, world, before + during) + Seq::<CopyStepView>::empty() =~= made_in_run(
        start,
        world,
        before + during,
    ));
}

} // verus!
