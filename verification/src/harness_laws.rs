//! What holds of every harness run.
use crate::error::KernelErrorView;
use crate::harness::{
    attaching_file, brief_placed, collecting, config_dir, declared_at, harness_ctx,
    harness_resource, harness_settling, is_live, launching, materialising, out_names, session_of,
    swept, workspace_dir, FileReadView, HarnessLaunchView, HarnessSessionView, HarnessStartView,
    OutFileView, UnwrittenView, HARNESS_MAX_FILE_BYTES, HARNESS_MAX_RUN_BYTES,
    HARNESS_SETTLE_SLACK_MS,
};
use crate::hash::text_hash;
use crate::kernel::{register_read, KernelView};
use crate::launch::{ExitReason, HarnessRun};
use crate::leases::capped_sum;
use crate::path::{is_separator, leads_down};
use crate::principal::CtxView;
use crate::stops::is_stopped;
use crate::store::{LedgerEventView, StoreView};
use crate::task::{StepStatusView, TaskStatus};
use crate::text::begins;
use crate::workspace::{harness_level, record_json, what_is_placed_is_on_the_record};
use vstd::prelude::*;

verus! {

/// A run that was settled has no authority left, however it ended: its token resolves
/// to nothing, its lease is gone, and its task says how the step ended.
pub proof fn settled_run_has_no_authority<A>(
    k: KernelView<A>,
    ctx: CtxView,
    task_id: Seq<char>,
    launch: HarnessLaunchView,
    run: HarnessRun,
    out: Seq<OutFileView>,
    later: u64,
)
    requires
        k.store.tasks.contains_key(task_id),
        k.store.tasks[task_id].id == task_id,
        launch.step_index < k.store.tasks[task_id].steps.len(),
    ensures
        ({
            let (after, r) = harness_settling(k, ctx, task_id, launch, run, out);
            let i = launch.step_index as int;
            &&& session_of(after, launch.token, later) == Err::<HarnessSessionView, KernelErrorView>(
                KernelErrorView::I1("unknown harness token"@),
            )
            &&& !after.locks.contains_key(launch.lease_id)
            &&& !after.store.leases.contains_key(launch.lease_id)
            &&& r is Ok
            &&& after.store.tasks[task_id] == r->Ok_0
            &&& (r->Ok_0.steps[i].status is Done || r->Ok_0.steps[i].status is Failed)
            &&& (r->Ok_0.steps[i].status is Failed ==> r->Ok_0.status == TaskStatus::Failed)
        }),
{
}

/// A run that did not finish collects nothing and fails its step, and its connections
/// are on the record all the same: one event for them, and then the step's own.
pub proof fn unfinished_run_fails_and_is_recorded<A>(
    k: KernelView<A>,
    ctx: CtxView,
    task_id: Seq<char>,
    launch: HarnessLaunchView,
    run: HarnessRun,
    out: Seq<OutFileView>,
)
    requires
        run.exit_reason != ExitReason::Exited(0),
        k.store.tasks.contains_key(task_id),
        k.store.tasks[task_id].id == task_id,
        launch.step_index < k.store.tasks[task_id].steps.len(),
    ensures
        ({
            let (after, r) = harness_settling(k, ctx, task_id, launch, run, out);
            let n = k.store.ledger.len() as int;
            &&& after.store.registers == k.store.registers
            &&& after.store.blobs == k.store.blobs
            &&& r is Ok
            &&& r->Ok_0.steps[launch.step_index as int].status is Failed
            &&& after.store.ledger.len() == n + 2
            &&& after.store.ledger[n].kind == "harness.connections"@
            &&& after.store.ledger[n + 1].kind == "task.step"@
        }),
{
}

/// A run that finished and left nothing, neither attached nor as its declared output,
/// fails its step.
pub proof fn run_without_an_artefact_fails<A>(
    k: KernelView<A>,
    ctx: CtxView,
    task_id: Seq<char>,
    launch: HarnessLaunchView,
    run: HarnessRun,
    out: Seq<OutFileView>,
)
    requires
        run.exit_reason == ExitReason::Exited(0),
        k.store.tasks.contains_key(task_id),
        k.store.tasks[task_id].id == task_id,
        launch.step_index < k.store.tasks[task_id].steps.len(),
        register_read(k.store, ctx, k.store.tasks[task_id].register) is Ok,
        register_read(
            k.store,
            ctx,
            k.store.tasks[task_id].register,
        )->Ok_0.artefacts.len() <= launch.artefacts_before,
        declared_at(out_names(out), k.store.tasks[task_id].artefact_type, out.len()) is None,
    ensures
        harness_settling(k, ctx, task_id, launch, run, out).1 is Ok,
        harness_settling(
            k,
            ctx,
            task_id,
            launch,
            run,
            out,
        ).1->Ok_0.steps[launch.step_index as int].status is Failed,
        harness_settling(k, ctx, task_id, launch, run, out).0.store.blobs == k.store.blobs,
{
}

/// What a harness attached itself is not attached again, and what is under `OUT` is
/// then left alone.
pub proof fn attached_artefact_is_not_attached_twice<A>(
    k: KernelView<A>,
    ctx: CtxView,
    task_id: Seq<char>,
    launch: HarnessLaunchView,
    out: Seq<OutFileView>,
)
    requires
        k.store.tasks.contains_key(task_id),
        !(k.harness_tokens.contains_key(text_hash(launch.token)) && k.harness_tokens[text_hash(
            launch.token,
        )].oversize is Some),
        register_read(k.store, ctx, k.store.tasks[task_id].register) is Ok,
        register_read(
            k.store,
            ctx,
            k.store.tasks[task_id].register,
        )->Ok_0.artefacts.len() > launch.artefacts_before,
    ensures
        collecting(k, ctx, task_id, launch, out).0 == k,
        collecting(k, ctx, task_id, launch, out).1 is Ok,
{
}

/// While a run of a task is live no second one begins, and the attempt leaves the
/// first as it was.
pub proof fn one_run_of_a_task_at_a_time<A>(
    k: KernelView<A>,
    ctx: CtxView,
    task_id: Seq<char>,
    name: Seq<char>,
    timeout_ms: u64,
    run: Seq<char>,
    token: Seq<char>,
)
    requires
        is_live(k, task_id),
        !is_stopped(k, "node"@),
    ensures
        launching(k, ctx, task_id, name, timeout_ms, run, token).1 is Err,
        launching(k, ctx, task_id, name, timeout_ms, run, token).0 == k,
{
}

/// A launched run is live, and until its lease is over its token stands for the
/// machine that holds the lease, at the clearance of harnesses and for that task
/// alone.
pub proof fn launched_token_resolves_to_the_harness<A>(
    k: KernelView<A>,
    ctx: CtxView,
    task_id: Seq<char>,
    name: Seq<char>,
    timeout_ms: u64,
    run: Seq<char>,
    token: Seq<char>,
    now: u64,
)
    requires
        crate::kernel::filed(k.store),
        launching(k, ctx, task_id, name, timeout_ms, run, token).1 is Ok,
        now < capped_sum(ctx.now_ms, capped_sum(timeout_ms, HARNESS_SETTLE_SLACK_MS)),
    ensures
        ({
            let (after, r) = launching(k, ctx, task_id, name, timeout_ms, run, token);
            let s = r->Ok_0;
            &&& is_live(after, task_id)
            &&& s.launch.token == token
            &&& session_of(after, token, now) == Ok::<HarnessSessionView, KernelErrorView>(
                HarnessSessionView {
                    ctx: harness_ctx(k, s.launch.lease_id, ctx.partition, now),
                    task_id,
                    register: s.task.register,
                },
            )
        }),
{
    let (after, r) = launching(k, ctx, task_id, name, timeout_ms, run, token);
    let key = text_hash(token);
    assert(after.harness_tokens.contains_key(key));
    assert(after.harness_tokens[key].task_id == task_id);
    let lease_id = r->Ok_0.launch.lease_id;
    assert(after.store.leases.contains_key(lease_id));
    assert(after.store.leases[lease_id].resource == harness_resource(task_id));
}

/// A session never sees more than a harness may: it has the clearance of harnesses,
/// whatever the caller's own.
pub proof fn session_has_the_harness_clearance<A>(k: KernelView<A>, token: Seq<char>, now: u64)
    requires
        session_of(k, token, now) is Ok,
    ensures
        session_of(k, token, now)->Ok_0.ctx.clearance == harness_level(),
        session_of(k, token, now)->Ok_0.ctx.principal is Machine,
{
}

/// No file above the limit for one is attached, no run attaches more than its limit,
/// and a file past either is remembered.
pub proof fn attached_files_stay_within_the_limits<A>(
    k: KernelView<A>,
    token: Seq<char>,
    now: u64,
    kind: Seq<char>,
    rel: Seq<char>,
    file: FileReadView,
)
    requires
        session_of(k, token, now) is Ok,
    ensures
        ({
            let (after, r) = attaching_file(k, token, now, kind, rel, file);
            let state = after.harness_tokens[text_hash(token)];
            &&& (r is Ok ==> file.len is Ok && file.len->Ok_0 <= HARNESS_MAX_FILE_BYTES
                && state.bytes_attached <= HARNESS_MAX_RUN_BYTES)
            &&& (file.len is Ok && file.len->Ok_0 > HARNESS_MAX_FILE_BYTES && leads_down(
                rel,
                k.store.windows,
            ) ==> r is Err && state.oversize is Some)
        }),
{
}

/// A run that tried to attach too much fails its step, naming the file.
pub proof fn oversize_file_fails_the_step<A>(
    k: KernelView<A>,
    ctx: CtxView,
    task_id: Seq<char>,
    launch: HarnessLaunchView,
    run: HarnessRun,
    out: Seq<OutFileView>,
)
    requires
        run.exit_reason == ExitReason::Exited(0),
        k.harness_tokens.contains_key(text_hash(launch.token)),
        k.harness_tokens[text_hash(launch.token)].oversize is Some,
        k.store.tasks.contains_key(task_id),
        launch.step_index < k.store.tasks[task_id].steps.len(),
    ensures
        harness_settling(k, ctx, task_id, launch, run, out).1 is Ok,
        harness_settling(
            k,
            ctx,
            task_id,
            launch,
            run,
            out,
        ).1->Ok_0.steps[launch.step_index as int].status == StepStatusView::Failed(
            "harness attached more than the limit allows: "@ + k.harness_tokens[text_hash(
                launch.token,
            )].oversize->0,
        ),
{
}

/// Once an earlier process's harnesses are swept away no token resolves and no lease
/// of a harness is left; every other lease stays.
pub proof fn nothing_of_a_harness_survives_a_sweep<A>(
    k: KernelView<A>,
    token: Seq<char>,
    now: u64,
    id: Seq<char>,
)
    ensures
        session_of(swept(k), token, now) is Err,
        swept(k).store.leases.contains_key(id) <==> k.store.leases.contains_key(id) && !begins(
            k.store.leases[id].resource,
            "harness:"@,
        ),
        swept(k).store.leases.contains_key(id) ==> swept(k).store.leases[id] == k.store.leases[id],
{
}

/// The configuration of a run, which holds its token, is not in the run's workspace.
pub proof fn configuration_is_outside_the_workspace(s: StoreView, task_id: Seq<char>, sep: char)
    requires
        is_separator(sep, s.windows),
    ensures
        !begins(config_dir(s, task_id), workspace_dir(s, task_id).push(sep)),
{
    let w = workspace_dir(s, task_id);
    let c = config_dir(s, task_id);
    reveal_strlit(".mcp");
    assert(c =~= w + ".mcp"@);
    let inside = w.push(sep);
    if begins(c, inside) {
        assert(inside[w.len() as int] == sep);
        assert(c[w.len() as int] == '.');
        assert(c.take(inside.len() as int)[w.len() as int] == c[w.len() as int]);
    }
}

/// A run starts only when all that belongs in its workspace is there, and then each
/// artefact of its brief is on the record, in order, before the step is running.
pub proof fn run_starts_with_its_brief_on_the_record<A>(
    k: KernelView<A>,
    ctx: CtxView,
    start: HarnessStartView,
    written: Result<(), UnwrittenView>,
)
    requires
        materialising(k, ctx, start, written).1 is Ok,
    ensures
        start.plan.fault is None,
        written is Ok,
        ({
            let ledger = materialising(k, ctx, start, written).0.store.ledger;
            let before = k.store.ledger.len();
            &&& ledger.len() == before + start.plan.brief.len()
            &&& forall|i: int|
                0 <= i < start.plan.brief.len() ==> #[trigger] ledger[before + i] == (
                LedgerEventView {
                    kind: "infer.projected"@,
                    wall_ms: ctx.now_ms,
                    payload: record_json(start.plan.brief[i].record),
                })
        }),
{
    what_is_placed_is_on_the_record(
        k,
        start.plan.brief,
        brief_placed(start.plan, written),
        ctx.now_ms,
    );
}

/// A workspace that is not there leaves the run no authority: its token resolves to
/// nothing and its lease is gone. What was placed in it all the same is on the record.
pub proof fn run_without_a_workspace_has_no_authority<A>(
    k: KernelView<A>,
    ctx: CtxView,
    start: HarnessStartView,
    written: Result<(), UnwrittenView>,
    later: u64,
)
    requires
        materialising(k, ctx, start, written).1 is Err,
    ensures
        ({
            let after = materialising(k, ctx, start, written).0;
            &&& session_of(after, start.launch.token, later) is Err
            &&& !after.store.leases.contains_key(start.launch.lease_id)
            &&& !after.locks.contains_key(start.launch.lease_id)
            &&& after.store.tasks == k.store.tasks
            &&& after.store.ledger.len() == k.store.ledger.len() + brief_placed(start.plan, written)
        }),
{
    what_is_placed_is_on_the_record(
        k,
        start.plan.brief,
        brief_placed(start.plan, written),
        ctx.now_ms,
    );
}

} // verus!
