//! What is on the record stays there.
use crate::adapter::{AdapterErrorView, ArchAdapter, CompletionView};
use crate::approvals::{approving, minting, verified_approving};
use crate::arches::{mounting, unmounting, Remount};
use crate::artefacts::attaching;
use crate::boot::{
    booting, every_task, forced, report_json, report_of, version_loaded, BootReportView,
};
use crate::devices::{node_key_enrolling, passkey_enrolling, passkey_updating};
use crate::dispatch::{
    answered, method_in, presented_of, step_answer, ConfigView, GivenView, Method,
};
use crate::dispatch_laws::Exchange;
use crate::error::KernelErrorView;
use crate::governance::{automating, exporting, promoting, renewing};
use crate::harness::{
    attaching_file, brief_placed, collecting, connections_json, connections_of,
    harness_settling, launching, materialising, FileReadView, HarnessLaunchView,
    HarnessStartView, OutFileView, UnwrittenView,
};
use crate::infer::{answer_limit, answering, asking, infers, InferOutcomeView};
use crate::json::JsonView;
use crate::kernel::{with_event, KernelView};
use crate::labels::{Label, Scope};
use crate::launch::HarnessRun;
use crate::leases::leasing;
use crate::manifest::Capability;
use crate::methods::needed;
use crate::mount::MountSpecView;
use crate::principal::{ApprovalView, CtxView};
use crate::recovery::recovery_only_adds_events;
use crate::rpc::{ctx_of, RpcErrorView};
use crate::scheduler::{
    beginning, drafted, ran_of, releasing, settled_run, settling, steps_to, works, StartView,
    StepRunView,
};
use crate::stops::{resuming, stopping};
use crate::store::{GateVerdictView, ModuleManifestView, StoreView};
use crate::task::{StepKindView, StepStatusView, TaskView};
use crate::tasks::creating;
use crate::workspace::what_is_placed_is_on_the_record;
use vstd::prelude::*;

verus! {

/// Whether everything that was on the record is still there, in its place.
pub open spec fn only_adds(before: StoreView, after: StoreView) -> bool {
    &&& before.ledger.len() <= after.ledger.len()
    &&& forall|i: int|
        0 <= i < before.ledger.len() ==> #[trigger] after.ledger[i] == before.ledger[i]
}

/// What can be done to a kernel without asking an arch.
pub enum Operation {
    Approve { ctx: CtxView, approval: ApprovalView },
    RecordApproval { now: u64, approval: ApprovalView, proof_kind: Seq<char> },
    Mint { ctx: CtxView, task_id: Seq<char>, ttl_ms: u64, nonce: Seq<char> },
    Stop { ctx: CtxView, scope: Seq<char> },
    Resume { ctx: CtxView, stop_id: Seq<char> },
    Lease { ctx: CtxView, resource: Seq<char>, ttl_ms: u64 },
    Automate { ctx: CtxView, business: Seq<char>, module: Seq<char> },
    Renew { business: Seq<char>, device: Seq<char>, expires_at_ms: u64 },
    Promote {
        ctx: CtxView,
        manifest: ModuleManifestView,
        checked: Result<(), Seq<char>>,
        verdicts: Seq<GateVerdictView>,
    },
    Export { ctx: CtxView, hash: Seq<char>, to_scope: Scope, verdicts: Seq<GateVerdictView> },
    EnrollNode { key: Seq<u8>, now: u64 },
    EnrollPasskey { device: Seq<char>, credential: JsonView, now: u64 },
    UpdatePasskey { device: Seq<char>, credential: JsonView },
    Create {
        ctx: CtxView,
        goal: Seq<char>,
        artefact_type: Seq<char>,
        label: Label,
        steps: Seq<StepKindView>,
    },
    Attach { ctx: CtxView, register: Seq<char>, kind: Seq<char>, bytes: Seq<u8> },
    Unmount { arch_id: Seq<char>, now: u64 },
    Launch {
        ctx: CtxView,
        task_id: Seq<char>,
        name: Seq<char>,
        timeout_ms: u64,
        run: Seq<char>,
        token: Seq<char>,
    },
    Materialise { ctx: CtxView, start: HarnessStartView, written: Result<(), UnwrittenView> },
    AttachFile {
        token: Seq<char>,
        now: u64,
        kind: Seq<char>,
        path: Seq<char>,
        file: FileReadView,
    },
    Settle {
        ctx: CtxView,
        task_id: Seq<char>,
        launch: HarnessLaunchView,
        ended: HarnessRun,
        out: Seq<OutFileView>,
    },
    SettleStep {
        ctx: CtxView,
        task: TaskView,
        step: nat,
        waiting: bool,
        ran: Result<(StepStatusView, u32), KernelErrorView>,
    },
    Boot { now: u64, later: u64 },
    ForceBoot { report: BootReportView, now: u64 },
}

/// The kernel after one operation.
pub open spec fn performed<A>(k: KernelView<A>, op: Operation) -> KernelView<A> {
    match op {
        Operation::Approve { ctx, approval } => approving(k, ctx, approval).0,
        Operation::RecordApproval { now, approval, proof_kind } => verified_approving(
            k,
            now,
            approval,
            proof_kind,
        ).0,
        Operation::Mint { ctx, task_id, ttl_ms, nonce } => minting(
            k,
            ctx,
            task_id,
            ttl_ms,
            nonce,
        ).0,
        Operation::Stop { ctx, scope } => stopping(k, ctx, scope).0,
        Operation::Resume { ctx, stop_id } => resuming(k, ctx, stop_id).0,
        Operation::Lease { ctx, resource, ttl_ms } => leasing(k, ctx, resource, ttl_ms).0,
        Operation::Automate { ctx, business, module } => automating(k, ctx, business, module).0,
        Operation::Renew { business, device, expires_at_ms } => renewing(
            k,
            business,
            device,
            expires_at_ms,
        ),
        Operation::Promote { ctx, manifest, checked, verdicts } => promoting(
            k,
            ctx,
            manifest,
            checked,
            verdicts,
        ).0,
        Operation::Export { ctx, hash, to_scope, verdicts } => exporting(
            k,
            ctx,
            hash,
            to_scope,
            verdicts,
        ).0,
        Operation::EnrollNode { key, now } => node_key_enrolling(k, key, now).0,
        Operation::EnrollPasskey { device, credential, now } => passkey_enrolling(
            k,
            device,
            credential,
            now,
        ).0,
        Operation::UpdatePasskey { device, credential } => passkey_updating(
            k,
            device,
            credential,
        ).0,
        Operation::Create { ctx, goal, artefact_type, label, steps } => creating(
            k,
            ctx,
            goal,
            artefact_type,
            label,
            steps,
        ).0,
        Operation::Attach { ctx, register, kind, bytes } => attaching(
            k,
            ctx,
            register,
            kind,
            bytes,
        ).0,
        Operation::Unmount { arch_id, now } => unmounting(k, arch_id, now).0,
        Operation::Launch { ctx, task_id, name, timeout_ms, run, token } => launching(
            k,
            ctx,
            task_id,
            name,
            timeout_ms,
            run,
            token,
        ).0,
        Operation::Materialise { ctx, start, written } => materialising(
            k,
            ctx,
            start,
            written,
        ).0,
        Operation::AttachFile { token, now, kind, path, file } => attaching_file(
            k,
            token,
            now,
            kind,
            path,
            file,
        ).0,
        Operation::Settle { ctx, task_id, launch, ended, out } => harness_settling(
            k,
            ctx,
            task_id,
            launch,
            ended,
            out,
        ).0,
        Operation::SettleStep { ctx, task, step, waiting, ran } => settling(
            k,
            ctx,
            task,
            step,
            waiting,
            ran,
        ).0,
        Operation::Boot { now, later } => booting(k, now, later).0,
        Operation::ForceBoot { report, now } => forced(k, report, now),
    }
}

proof fn attaching_only_adds<A>(
    k: KernelView<A>,
    ctx: CtxView,
    reg_id: Seq<char>,
    kind: Seq<char>,
    bytes: Seq<u8>,
)
    ensures
        only_adds(k.store, attaching(k, ctx, reg_id, kind, bytes).0.store),
{
}

proof fn launching_only_adds<A>(
    k: KernelView<A>,
    ctx: CtxView,
    task_id: Seq<char>,
    name: Seq<char>,
    timeout_ms: u64,
    run: Seq<char>,
    token: Seq<char>,
)
    ensures
        only_adds(k.store, launching(k, ctx, task_id, name, timeout_ms, run, token).0.store),
{
}

proof fn settling_a_run_only_adds<A>(
    k: KernelView<A>,
    ctx: CtxView,
    task_id: Seq<char>,
    launch: HarnessLaunchView,
    run: HarnessRun,
    out: Seq<OutFileView>,
)
    ensures
        only_adds(k.store, harness_settling(k, ctx, task_id, launch, run, out).0.store),
{
    let watched = with_event(
        k,
        "harness.connections"@,
        ctx.now_ms,
        connections_json(connections_of(task_id, launch, run)),
    );
    assert(only_adds(k.store, watched.store));
    assert(only_adds(watched.store, collecting(watched, ctx, task_id, launch, out).0.store));
}

proof fn approving_only_adds<A>(k: KernelView<A>, ctx: CtxView, a: ApprovalView)
    ensures
        only_adds(k.store, approving(k, ctx, a).0.store),
{
}

proof fn recording_only_adds<A>(
    k: KernelView<A>,
    now: u64,
    a: ApprovalView,
    proof_kind: Seq<char>,
)
    ensures
        only_adds(k.store, verified_approving(k, now, a, proof_kind).0.store),
{
}

proof fn creating_only_adds<A>(
    k: KernelView<A>,
    ctx: CtxView,
    goal: Seq<char>,
    artefact_type: Seq<char>,
    label: Label,
    kinds: Seq<StepKindView>,
)
    ensures
        only_adds(k.store, creating(k, ctx, goal, artefact_type, label, kinds).0.store),
{
}

proof fn attaching_a_file_only_adds<A>(
    k: KernelView<A>,
    token: Seq<char>,
    now: u64,
    kind: Seq<char>,
    path: Seq<char>,
    file: FileReadView,
)
    ensures
        only_adds(k.store, attaching_file(k, token, now, kind, path, file).0.store),
{
}

proof fn settling_a_step_only_adds<A>(
    k: KernelView<A>,
    ctx: CtxView,
    task: TaskView,
    step: nat,
    waiting: bool,
    ran: Result<(StepStatusView, u32), KernelErrorView>,
)
    ensures
        only_adds(k.store, settling(k, ctx, task, step, waiting, ran).0.store),
{
}

proof fn booting_only_adds<A>(k: KernelView<A>, now: u64, later: u64)
    ensures
        only_adds(k.store, booting(k, now, later).0.store),
{
    let versioned = KernelView {
        store: StoreView { policies_version: Some(version_loaded(k.store)), ..k.store },
        ..k
    };
    let logged = with_event(versioned, "boot"@, now, report_json(report_of(k)));
    recovery_only_adds_events(logged, every_task(k.store), later);
}

/// Nothing that is done takes anything off the record, or changes what is on it.
pub proof fn operation_only_adds<A>(k: KernelView<A>, op: Operation)
    ensures
        only_adds(k.store, performed(k, op).store),
{
    match op {
        Operation::Approve { ctx, approval } => {
            approving_only_adds(k, ctx, approval);
        },
        Operation::RecordApproval { now, approval, proof_kind } => {
            recording_only_adds(k, now, approval, proof_kind);
        },
        Operation::Create { ctx, goal, artefact_type, label, steps } => {
            creating_only_adds(k, ctx, goal, artefact_type, label, steps);
        },
        Operation::Attach { ctx, register, kind, bytes } => {
            attaching_only_adds(k, ctx, register, kind, bytes);
        },
        Operation::Launch { ctx, task_id, name, timeout_ms, run, token } => {
            launching_only_adds(k, ctx, task_id, name, timeout_ms, run, token);
        },
        Operation::Materialise { ctx, start, written } => {
            what_is_placed_is_on_the_record(
                k,
                start.plan.brief,
                brief_placed(start.plan, written),
                ctx.now_ms,
            );
        },
        Operation::AttachFile { token, now, kind, path, file } => {
            attaching_a_file_only_adds(k, token, now, kind, path, file);
        },
        Operation::Settle { ctx, task_id, launch, ended, out } => {
            settling_a_run_only_adds(k, ctx, task_id, launch, ended, out);
        },
        Operation::SettleStep { ctx, task, step, waiting, ran } => {
            settling_a_step_only_adds(k, ctx, task, step, waiting, ran);
        },
        Operation::Boot { now, later } => {
            booting_only_adds(k, now, later);
        },
        _ => {},
    }
}

/// Mounting an arch only adds to the record.
pub proof fn mounting_only_adds<A: ArchAdapter>(
    k: KernelView<A>,
    adapter: A,
    checked: Result<(), Seq<char>>,
    spec: MountSpecView,
    remount: Remount,
    now: u64,
)
    ensures
        only_adds(k.store, mounting(k, adapter, checked, spec, remount, now).0.store),
{
}

/// Asking an arch only adds to the record, whatever it answers.
pub proof fn inference_only_adds<A: ArchAdapter>(
    k: KernelView<A>,
    ctx: CtxView,
    arch_id: Seq<char>,
    capability: Capability,
    reg_id: Seq<char>,
    after: KernelView<A>,
    r: Result<InferOutcomeView, KernelErrorView>,
)
    requires
        infers(k, ctx, arch_id, capability, reg_id, after, r),
    ensures
        only_adds(k.store, after.store),
{
    let (asked, q) = asking(k, ctx, arch_id, capability, reg_id);
    assert(only_adds(k.store, asked.store));
    if q is Ok {
        let a = q->Ok_0;
        let (answer, now) = choose|answer: Result<CompletionView, AdapterErrorView>, now: u64|
            k.adapters[arch_id].may_answer(a.prompt, answer_limit(a.budget) as nat, answer) && (
            after,
            r,
        ) == #[trigger] answering(asked, ctx, a, answer, now);
        assert(only_adds(asked.store, answering(asked, ctx, a, answer, now).0.store));
    }
}

proof fn work_only_adds<A: ArchAdapter>(
    k: KernelView<A>,
    ctx: CtxView,
    t: TaskView,
    kind: StepKindView,
    after: KernelView<A>,
    ran: Result<(StepStatusView, u32), KernelErrorView>,
)
    requires
        works(k, ctx, t, kind, after, ran),
    ensures
        only_adds(k.store, after.store),
{
    match kind {
        StepKindView::Plan { arch_id } => {
            let o = choose|o: Result<InferOutcomeView, KernelErrorView>|
                ran == ran_of(o) && #[trigger] infers(
                    k,
                    ctx,
                    arch_id,
                    Capability::Plan,
                    t.register,
                    after,
                    o,
                );
            inference_only_adds(k, ctx, arch_id, Capability::Plan, t.register, after, o);
        },
        StepKindView::Judge { arch_id } => {
            let o = choose|o: Result<InferOutcomeView, KernelErrorView>|
                ran == ran_of(o) && #[trigger] infers(
                    k,
                    ctx,
                    arch_id,
                    Capability::Judge,
                    t.register,
                    after,
                    o,
                );
            inference_only_adds(k, ctx, arch_id, Capability::Judge, t.register, after, o);
        },
        StepKindView::Draft { arch_id } => {
            let (mid, o) = choose|mid: KernelView<A>, o: Result<InferOutcomeView, KernelErrorView>|
                (after, ran) == drafted(mid, ctx, arch_id, t.register, t.artefact_type, o)
                    && #[trigger] infers(
                    k,
                    ctx,
                    arch_id,
                    Capability::Generate,
                    t.register,
                    mid,
                    o,
                );
            inference_only_adds(k, ctx, arch_id, Capability::Generate, t.register, mid, o);
            assert(only_adds(mid.store, after.store));
        },
        _ => {},
    }
}

/// Running a step only adds to the record, whatever the step is and whatever an arch
/// answers.
pub proof fn step_only_adds<A: ArchAdapter>(
    k: KernelView<A>,
    ctx: CtxView,
    task_id: Seq<char>,
    after: KernelView<A>,
    r: Result<StepRunView, KernelErrorView>,
)
    requires
        steps_to(k, ctx, task_id, after, r),
    ensures
        only_adds(k.store, after.store),
{
    let (begun, start) = beginning(k, ctx, task_id);
    assert(only_adds(k.store, begun.store));
    if let StartView::At { task, step, waiting } = start {
        match task.steps[step as int].kind {
            StepKindView::Release { to_dir } => {
                let (planned, p) = releasing(begun, ctx, task, step, to_dir);
                assert(only_adds(begun.store, planned.store));
                if p is Err {
                    operation_only_adds(
                        planned,
                        Operation::SettleStep { ctx, task, step, waiting, ran: Err(p->Err_0) },
                    );
                }
            },
            kind => {
                let (worked, ran) = choose|
                    worked: KernelView<A>,
                    ran: Result<(StepStatusView, u32), KernelErrorView>,
                | #[trigger]
                    works(begun, ctx, task, kind, worked, ran) && after == settling(
                        worked,
                        ctx,
                        task,
                        step,
                        waiting,
                        ran,
                    ).0 && r == settled_run(
                        settling(worked, ctx, task, step, waiting, ran).1,
                    );
                work_only_adds(begun, ctx, task, kind, worked, ran);
                operation_only_adds(
                    worked,
                    Operation::SettleStep { ctx, task, step, waiting, ran },
                );
            },
        }
    }
}

#[verifier::rlimit(60)]
proof fn answer_only_adds<A: ArchAdapter>(
    k: KernelView<A>,
    m: Method,
    ctx: Result<CtxView, RpcErrorView>,
    p: JsonView,
    cfg: ConfigView,
    given: GivenView<A>,
)
    ensures
        only_adds(k.store, answered(k, m, ctx, p, cfg, given).0.store),
{
    match m {
        Method::BootInfo | Method::PasskeyLs | Method::ArchLs | Method::LedgerTail
        | Method::LedgerVerify | Method::HarnessReadRegister | Method::HarnessLog | Method::WebLink
        | Method::HarnessRun | Method::NsLs | Method::TaskSubject | Method::TaskShow
        | Method::TaskLs | Method::Top => {
            assert(answered(k, m, ctx, p, cfg, given).0 == k);
        },
        _ => {},
    }
}

/// No request takes anything off the record, or changes what is on it.
pub proof fn request_only_adds<A: ArchAdapter>(x: Exchange<A>)
    requires
        x.happens(),
    ensures
        only_adds(x.kernel.store, x.after.store),
{
    let k = x.kernel;
    let p = x.request.params;
    let (rest, presented) = presented_of(x.open, x.request.presence, x.given.now);
    let ctx = ctx_of(k, presented, x.given.now);
    match method_in(x.request.method) {
        Some(Method::TaskStep) => {
            if ctx is Ok && needed(p, "task_id"@) is Ok && x.after != k {
                let c = ctx->Ok_0;
                let id = needed(p, "task_id"@)->Ok_0;
                let o = choose|o: Result<StepRunView, KernelErrorView>|
                    x.answer == step_answer(c, o) && #[trigger] steps_to(k, c, id, x.after, o);
                step_only_adds(k, c, id, x.after, o);
            }
        },
        Some(Method::ArchMountMock) => {},
        Some(m) => {
            answer_only_adds(k, m, ctx, p, x.config, x.given);
        },
        None => {},
    }
}

/// However many requests come one after the other, what was on the record before the
/// first is there after the last.
pub proof fn requests_only_add<A: ArchAdapter>(xs: Seq<Exchange<A>>)
    requires
        xs.len() > 0,
        forall|i: int| 0 <= i < xs.len() ==> (#[trigger] xs[i]).happens(),
        forall|i: int|
            0 < i < xs.len() ==> (#[trigger] xs[i]).kernel == xs[i - 1].after,
    ensures
        only_adds(xs.first().kernel.store, xs.last().after.store),
    decreases xs.len(),
{
    request_only_adds(xs.last());
    if xs.len() > 1 {
        let rest = xs.drop_last();
        requests_only_add(rest);
        assert(xs.last().kernel == rest.last().after);
    }
}

} // verus!
