//! What the scheduler promises of every task.
use crate::adapter::ArchAdapter;
use crate::approvals::human_approved;
use crate::artefacts::{address, artefact_read};
use crate::error::{error_text, KernelErrorView};
use crate::kernel::KernelView;
use crate::labels::flows;
use crate::manifest::Capability;
use crate::path::{is_one_name, joined, leads_down, parts, pieces_are_plain, unified};
use crate::principal::CtxView;
use crate::register::ArtefactRefView;
use crate::scheduler::{
    approved_step, beginning, export_root_of, release_bytes, release_files, released, releasing,
    settled_run, settling, steps_to, works, works_by_inference, ReleaseFileView, StepRunView,
};
use crate::stops::is_stopped;
use crate::store::StoreView;
use crate::task::{next_step, next_step_is_first, StepKindView, StepStatusView, TaskStatus, TaskView};
use crate::tasks::{seen, subject_of, task_saved};
use vstd::prelude::*;

verus! {

/// A task that is done or failed stays as it is, whatever the node: asking again
/// runs nothing, records nothing, and gives the task back.
pub proof fn ended_task_is_left_alone<A: ArchAdapter>(
    k: KernelView<A>,
    ctx: CtxView,
    id: Seq<char>,
    after: KernelView<A>,
    r: Result<StepRunView, KernelErrorView>,
)
    requires
        seen(k.store, ctx, id) is Some,
        seen(k.store, ctx, id)->0.status == TaskStatus::Done || seen(k.store, ctx, id)->0.status
            == TaskStatus::Failed,
        steps_to(k, ctx, id, after, r),
    ensures
        after == k,
        r == Ok::<StepRunView, KernelErrorView>(StepRunView::Settled(seen(k.store, ctx, id)->0)),
{
}

/// A task above the caller's clearance is not found, and nothing of it is touched.
pub proof fn hidden_task_is_not_stepped<A: ArchAdapter>(
    k: KernelView<A>,
    ctx: CtxView,
    id: Seq<char>,
    after: KernelView<A>,
    r: Result<StepRunView, KernelErrorView>,
)
    requires
        seen(k.store, ctx, id) is None,
        steps_to(k, ctx, id, after, r),
    ensures
        after == k,
        r == Err::<StepRunView, KernelErrorView>(KernelErrorView::NotFound(id)),
{
}

/// While the node is stopped no step of a task runs: the task is marked stopped, and
/// nothing else changes.
pub proof fn stopped_node_runs_nothing<A: ArchAdapter>(
    k: KernelView<A>,
    ctx: CtxView,
    id: Seq<char>,
    after: KernelView<A>,
    r: Result<StepRunView, KernelErrorView>,
)
    requires
        is_stopped(k, "node"@),
        seen(k.store, ctx, id) is Some,
        seen(k.store, ctx, id)->0.status != TaskStatus::Done,
        seen(k.store, ctx, id)->0.status != TaskStatus::Failed,
        steps_to(k, ctx, id, after, r),
    ensures
        r == Err::<StepRunView, KernelErrorView>(KernelErrorView::Stopped("node"@)),
        after == task_saved(
            k,
            (TaskView { status: TaskStatus::Stopped, ..seen(k.store, ctx, id)->0 }),
        ),
        after.store.ledger == k.store.ledger,
        after.store.registers == k.store.registers,
{
}

/// Asking after a step that waits for a person, while nobody has approved, changes
/// nothing and records nothing.
pub proof fn polling_a_waiting_step_changes_nothing<A: ArchAdapter>(
    k: KernelView<A>,
    ctx: CtxView,
    id: Seq<char>,
    after: KernelView<A>,
    r: Result<StepRunView, KernelErrorView>,
)
    requires
        crate::kernel::filed(k.store),
        !is_stopped(k, "node"@),
        seen(k.store, ctx, id) is Some,
        ({
            let t = seen(k.store, ctx, id)->0;
            let n = next_step(t.steps) as int;
            &&& t.status != TaskStatus::Done
            &&& t.status != TaskStatus::Failed
            &&& n < t.steps.len()
            &&& t.steps[n].kind is Approve
            &&& t.steps[n].status is WaitingHuman
            &&& subject_of(k.store, ctx, id) is Ok
            &&& !human_approved(k.store, subject_of(k.store, ctx, id)->Ok_0)
        }),
        steps_to(k, ctx, id, after, r),
    ensures
        after == k,
        r == Ok::<StepRunView, KernelErrorView>(StepRunView::Settled(seen(k.store, ctx, id)->0)),
{
    let t = seen(k.store, ctx, id)->0;
    assert(t.id == id);
    assert(approved_step(k.store, ctx, id) == Ok::<(StepStatusView, u32), KernelErrorView>(
        (StepStatusView::WaitingHuman, 0u32),
    ));
}

/// Approving what a waiting step names lets the task go on: the step is done the
/// next time it is asked after.
pub proof fn approved_step_is_done<A: ArchAdapter>(
    k: KernelView<A>,
    ctx: CtxView,
    id: Seq<char>,
    after: KernelView<A>,
    r: Result<StepRunView, KernelErrorView>,
)
    requires
        crate::kernel::filed(k.store),
        !is_stopped(k, "node"@),
        seen(k.store, ctx, id) is Some,
        ({
            let t = seen(k.store, ctx, id)->0;
            let n = next_step(t.steps) as int;
            &&& t.status != TaskStatus::Done
            &&& t.status != TaskStatus::Failed
            &&& n < t.steps.len()
            &&& t.steps[n].kind is Approve
            &&& t.steps[n].status is WaitingHuman
            &&& subject_of(k.store, ctx, id) is Ok
            &&& human_approved(k.store, subject_of(k.store, ctx, id)->Ok_0)
        }),
        steps_to(k, ctx, id, after, r),
    ensures
        r is Ok,
        r->Ok_0 is Settled,
        r->Ok_0->Settled_0.steps[next_step(seen(k.store, ctx, id)->0.steps) as int].status is Done,
        after.store.tasks[id] == r->Ok_0->Settled_0,
{
    let t = seen(k.store, ctx, id)->0;
    assert(t.id == id);
    assert(approved_step(k.store, ctx, id) == Ok::<(StepStatusView, u32), KernelErrorView>(
        (StepStatusView::Done, 0u32),
    ));
}

/// A step whose arch is still starting is not failed: the task is queued again with
/// the step to be run, and nothing is on the record.
pub proof fn starting_arch_leaves_the_task_queued<A: ArchAdapter>(
    k: KernelView<A>,
    ctx: CtxView,
    id: Seq<char>,
    arch_id: Seq<char>,
    after: KernelView<A>,
    r: Result<StepRunView, KernelErrorView>,
)
    requires
        crate::kernel::sound(k),
        !is_stopped(k, "node"@),
        k.starting.contains_key(arch_id),
        seen(k.store, ctx, id) is Some,
        ({
            let t = seen(k.store, ctx, id)->0;
            let n = next_step(t.steps) as int;
            &&& t.status != TaskStatus::Done
            &&& t.status != TaskStatus::Failed
            &&& n < t.steps.len()
            &&& t.steps[n].kind == StepKindView::Plan { arch_id }
            &&& !(t.steps[n].status is WaitingHuman)
        }),
        steps_to(k, ctx, id, after, r),
    ensures
        r == Err::<StepRunView, KernelErrorView>(KernelErrorView::ArchStarting(arch_id)),
        after.store.ledger == k.store.ledger,
        after.store.tasks[id].status == TaskStatus::Queued,
        after.store.tasks[id].steps[next_step(
            seen(k.store, ctx, id)->0.steps,
        ) as int].status is Pending,
{
    let t = seen(k.store, ctx, id)->0;
    assert(t.id == id);
    let n = next_step(t.steps) as int;
    let (begun, start) = beginning(k, ctx, id);
    let task = start->task;
    assert(start is At);
    assert(task.steps[n].kind == StepKindView::Plan { arch_id });
    assert(!begun.adapters.contains_key(arch_id));
    let (worked, ran) = choose|
        worked: KernelView<A>,
        ran: Result<(StepStatusView, u32), KernelErrorView>,
    | #[trigger]
        works(begun, ctx, task, task.steps[n].kind, worked, ran) && after == settling(
            worked,
            ctx,
            task,
            n as nat,
            false,
            ran,
        ).0 && r == settled_run(
            settling(worked, ctx, task, n as nat, false, ran).1,
        );
    assert(works_by_inference(begun, ctx, task, arch_id, Capability::Plan, worked, ran));
    assert(ran == Err::<(StepStatusView, u32), KernelErrorView>(
        KernelErrorView::ArchStarting(arch_id),
    ));
    assert(worked == begun);
}

/// A step that fails says why in its row, fails its task, and says so to the caller.
pub proof fn failure_is_written_down<A>(
    k: KernelView<A>,
    ctx: CtxView,
    t: TaskView,
    i: nat,
    waiting: bool,
    e: KernelErrorView,
)
    requires
        i < t.steps.len(),
        !(e is ArchStarting),
    ensures
        ({
            let (after, r) = settling(k, ctx, t, i, waiting, Err(e));
            &&& r == Err::<TaskView, KernelErrorView>(e)
            &&& after.store.tasks.contains_key(t.id)
            &&& after.store.tasks[t.id].status == TaskStatus::Failed
            &&& after.store.tasks[t.id].steps[i as int].status == StepStatusView::Failed(
                error_text(e),
            )
        }),
{
}

/// Settling a step changes no other step of its task, and no other task.
pub proof fn settling_touches_one_step<A>(
    k: KernelView<A>,
    ctx: CtxView,
    t: TaskView,
    i: nat,
    waiting: bool,
    ran: Result<(StepStatusView, u32), KernelErrorView>,
    j: int,
    other: Seq<char>,
)
    requires
        i < t.steps.len(),
        0 <= j < t.steps.len(),
        j != i,
        other != t.id,
        k.store.tasks.contains_key(t.id),
        k.store.tasks[t.id] == t,
    ensures
        ({
            let after = settling(k, ctx, t, i, waiting, ran).0;
            &&& after.store.tasks[t.id].steps.len() == t.steps.len()
            &&& after.store.tasks[t.id].steps[j] == t.steps[j]
            &&& after.store.tasks.contains_key(other) == k.store.tasks.contains_key(other)
            &&& after.store.tasks[other] == k.store.tasks[other]
        }),
{
}

/// Only the first step that is not done is ever begun: every step before it is done,
/// and no other step of the task changes.
pub proof fn steps_run_in_order<A>(k: KernelView<A>, ctx: CtxView, id: Seq<char>, j: int)
    requires
        seen(k.store, ctx, id) is Some,
        beginning(k, ctx, id).1 is At,
        0 <= j < seen(k.store, ctx, id)->0.steps.len(),
    ensures
        ({
            let t = seen(k.store, ctx, id)->0;
            let begun = beginning(k, ctx, id).1->task;
            let n = beginning(k, ctx, id).1->step;
            &&& n == next_step(t.steps)
            &&& (j < n ==> t.steps[j].status is Done)
            &&& (j != n ==> begun.steps[j] == t.steps[j])
        }),
{
    next_step_is_first(seen(k.store, ctx, id)->0.steps);
}

/// Every file of a release is named by one plain part.
proof fn release_names_are_plain(artefacts: Seq<ArtefactRefView>, i: int, windows: bool)
    requires
        release_files(artefacts, windows) is Ok,
        0 <= i < artefacts.len(),
    ensures
        release_files(artefacts, windows)->Ok_0.len() == artefacts.len(),
        is_one_name(release_files(artefacts, windows)->Ok_0[i].name, windows),
        release_files(artefacts, windows)->Ok_0[i].hash == artefacts[i].hash,
    decreases artefacts.len(),
{
    let before = artefacts.drop_last();
    if i < before.len() {
        release_names_are_plain(before, i, windows);
        assert(before[i] == artefacts[i]);
    } else if before.len() > 0 {
        release_names_are_plain(before, 0, windows);
    }
}

/// A release goes nowhere but below the export root: its directory is a path that
/// leads down from the root, no part of a file's name goes up or elsewhere, and the
/// record has the release before anything is written.
pub proof fn release_stays_under_the_export_root<A>(
    k: KernelView<A>,
    ctx: CtxView,
    t: TaskView,
    i: nat,
    to_dir: Seq<char>,
    f: int,
)
    requires
        releasing(k, ctx, t, i, to_dir).1 is Ok,
        0 <= f < releasing(k, ctx, t, i, to_dir).1->Ok_0.files.len(),
    ensures
        ({
            let (after, r) = releasing(k, ctx, t, i, to_dir);
            let p = r->Ok_0;
            &&& leads_down(to_dir, k.store.windows)
            &&& p.dest == joined(export_root_of(k.store), to_dir, k.store.windows)
            &&& p.root == export_root_of(k.store)
            &&& is_one_name(p.files[f].name, k.store.windows)
            &&& !parts(p.files[f].name, k.store.windows).contains(".."@)
            &&& after.store.ledger.len() == k.store.ledger.len() + 1
            &&& after.store.ledger.last().kind == "artefact.released"@
        }),
{
    let p = releasing(k, ctx, t, i, to_dir).1->Ok_0;
    let reg = k.store.registers[t.register];
    assert(release_files(reg.artefacts, k.store.windows) is Ok);
    files_for_artefacts(reg.artefacts, k.store.windows);
    release_names_are_plain(reg.artefacts, f, k.store.windows);
    let name = p.files[f].name;
    let ps = parts(name, k.store.windows);
    pieces_are_plain(unified(name, k.store.windows), '/');
    reveal_strlit("..");
    reveal_strlit(".");
    assert(!ps.contains(".."@)) by {
        if ps.contains(".."@) {
            let j = ps.index_of(".."@);
            assert(ps[j] == ".."@);
            assert(".."@.len() != "."@.len());
        }
    }
}

proof fn files_for_artefacts(artefacts: Seq<ArtefactRefView>, windows: bool)
    requires
        release_files(artefacts, windows) is Ok,
    ensures
        release_files(artefacts, windows)->Ok_0.len() == artefacts.len(),
    decreases artefacts.len(),
{
    if artefacts.len() > 0 {
        files_for_artefacts(artefacts.drop_last(), windows);
    }
}

/// A refused release leaves no trace: no event, and nothing to write.
pub proof fn refused_release_leaves_no_trace<A>(
    k: KernelView<A>,
    ctx: CtxView,
    t: TaskView,
    i: nat,
    to_dir: Seq<char>,
)
    requires
        releasing(k, ctx, t, i, to_dir).1 is Err,
    ensures
        releasing(k, ctx, t, i, to_dir).0 == k,
{
}

proof fn bytes_are_those_of_the_files(
    s: StoreView,
    ctx: CtxView,
    files: Seq<ReleaseFileView>,
    n: nat,
)
    requires
        n <= files.len(),
    ensures
        ({
            let (bytes, fault) = release_bytes(s, ctx, files, n);
            &&& bytes.len() <= n
            &&& (fault is None <==> bytes.len() == n)
            &&& forall|f: int|
                0 <= f < bytes.len() ==> artefact_read(s, ctx, files[f].hash) == Ok::<
                    Seq<u8>,
                    KernelErrorView,
                >(#[trigger] bytes[f])
        }),
    decreases n,
{
    if n > 0 {
        bytes_are_those_of_the_files(s, ctx, files, (n - 1) as nat);
    }
}

/// Nothing leaves the kernel that is above the clearance of who releases it: whatever
/// bytes a release holds are those of an artefact that flows to that clearance, under
/// the address that they have.
pub proof fn released_bytes_flow_to_the_clearance<A>(
    k: KernelView<A>,
    ctx: CtxView,
    t: TaskView,
    i: nat,
    to_dir: Seq<char>,
    f: int,
)
    requires
        releasing(k, ctx, t, i, to_dir).1 is Ok,
        0 <= f < releasing(k, ctx, t, i, to_dir).1->Ok_0.bytes.len(),
    ensures
        ({
            let p = releasing(k, ctx, t, i, to_dir).1->Ok_0;
            let hash = p.files[f].hash;
            &&& p.bytes.len() <= p.files.len()
            &&& k.store.blobs.contains_key(hash)
            &&& flows(k.store.blobs[hash].label, ctx.clearance)
            &&& p.bytes[f] == k.store.blobs[hash].bytes
            &&& hash == address(k.store.blobs[hash].subject, p.bytes[f])
        }),
{
    let p = releasing(k, ctx, t, i, to_dir).1->Ok_0;
    bytes_are_those_of_the_files(k.store, ctx, p.files, p.files.len());
    assert(artefact_read(k.store, ctx, p.files[f].hash) == Ok::<Seq<u8>, KernelErrorView>(
        p.bytes[f],
    ));
}

/// A release whose artefacts could not all be read is never done.
pub proof fn partial_release_is_not_done<A>(
    k: KernelView<A>,
    ctx: CtxView,
    t: TaskView,
    i: nat,
    to_dir: Seq<char>,
    written: Result<(), KernelErrorView>,
)
    requires
        releasing(k, ctx, t, i, to_dir).1 is Ok,
    ensures
        ({
            let p = releasing(k, ctx, t, i, to_dir).1->Ok_0;
            released(p, written) is Ok <==> written is Ok && p.bytes.len() == p.files.len()
        }),
{
    let p = releasing(k, ctx, t, i, to_dir).1->Ok_0;
    bytes_are_those_of_the_files(k.store, ctx, p.files, p.files.len());
}

} // verus!
