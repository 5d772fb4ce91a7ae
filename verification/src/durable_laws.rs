//! What the store's answers make of each operation: kept, it is the operation itself; not kept,
//! it is refused and leaves nothing that a restart would not find.
use crate::adapter::{AdapterErrorView, ArchAdapter, CompletionView};
use crate::approvals::verified_approving;
use crate::artefacts::attaching;
use crate::boot::{booting, forced, BootReportView};
use crate::devices::{key_enrolled, passkey_enrolling, passkey_updating};
use crate::durable::{
    forced_answered, promoting_answered, settling_answered, WroteView,
};
use crate::durable_rows::{
    automating_answered, booting_answered, creating_answered, exporting_answered,
    passkey_enrolling_answered, passkey_updating_answered, renewing_answered, submitting_answered,
    verified_approving_answered, writing_answered, SubmitAnswersView,
};
use crate::durable_runs::{
    answering_answered, asking_answered, attaching_answered, collecting_answered,
    key_enrolling_answered, launching_answered, leasing_answered, materialising_answered,
    releasing_answered, revoked_answered, AnswerAnswersView, AttachAnswersView, LeaseAnswersView,
};
use crate::error::KernelErrorView;
use crate::governance::{automating, exporting, promoting, renewing};
use crate::harness::{
    collecting, launching, materialising, revoked, HarnessLaunchView, HarnessStartView, OutFileView,
    UnwrittenView,
};
use crate::infer::{answering, asking, AskedView};
use crate::json::JsonView;
use crate::kernel::{register_written, submitted, KernelView};
use crate::labels::{Label, Scope};
use crate::leases::leasing;
use crate::manifest::Capability;
use crate::principal::{ApprovalView, CtxView};
use crate::register::RegisterView;
use crate::scheduler::{releasing, settling};
use crate::store::{GateVerdictView, ModuleManifestView};
use crate::task::{StepKindView, StepStatusView, TaskView};
use crate::tasks::creating;
use vstd::prelude::*;

verus! {

/// Where the store keeps everything, a row is written as the operation writes it.
pub proof fn kept_rows_are_as_if_unasked<A>(
    k: KernelView<A>,
    ctx: CtxView,
    reg: RegisterView,
    goal: Seq<char>,
    artefact_type: Seq<char>,
    label: Label,
    kinds: Seq<StepKindView>,
    w: SubmitAnswersView,
)
    requires
        w.first is Ok && w.second is Ok && w.row is Ok && w.logged is Ok,
    ensures
        writing_answered(k, ctx, reg, Ok(()), Ok(())) == (
            register_written(k, ctx, reg),
            Ok::<(), KernelErrorView>(()),
        ),
        submitting_answered(k, ctx, goal, label, w) == submitted(k, ctx, goal, label),
        creating_answered(k, ctx, goal, artefact_type, label, kinds, w, Ok(())) == creating(
            k,
            ctx,
            goal,
            artefact_type,
            label,
            kinds,
        ),
{
}

/// Where the store keeps everything, what is promoted, run, exported, renewed, enrolled or
/// approved is what the operation makes of it.
pub proof fn kept_authority_is_as_if_unasked<A>(
    k: KernelView<A>,
    ctx: CtxView,
    a: ApprovalView,
    m: ModuleManifestView,
    checked: Result<(), Seq<char>>,
    vs: Seq<GateVerdictView>,
    one: Seq<char>,
    other: Seq<char>,
    scope: Scope,
    credential: JsonView,
    vk: Seq<u8>,
    now: u64,
)
    ensures
        promoting_answered(k, ctx, m, checked, vs, Ok(()), Ok(())) == promoting(
            k,
            ctx,
            m,
            checked,
            vs,
        ),
        automating_answered(k, ctx, one, other, Ok(())) == automating(k, ctx, one, other),
        exporting_answered(k, ctx, one, scope, vs, Ok(())) == exporting(k, ctx, one, scope, vs),
        renewing_answered(k, one, other, now, Ok(())) == (
            renewing(k, one, other, now),
            Ok::<(), KernelErrorView>(()),
        ),
        passkey_enrolling_answered(k, one, credential, now, Ok(()), Ok(())) == passkey_enrolling(
            k,
            one,
            credential,
            now,
        ),
        passkey_updating_answered(k, one, credential, Ok(())) == passkey_updating(
            k,
            one,
            credential,
        ),
        key_enrolling_answered(k, one, vk, now, Ok(()), Ok(())) == (
            key_enrolled(k, one, vk, now),
            Ok::<(), KernelErrorView>(()),
        ),
        verified_approving_answered(k, now, a, one, Ok(()), Ok(())) == verified_approving(
            k,
            now,
            a,
            one,
        ),
{
}

/// Where the store keeps everything, a node boots, forces its boot and settles a step as the
/// operation does.
pub proof fn kept_boot_is_as_if_unasked<A>(
    k: KernelView<A>,
    ctx: CtxView,
    now: u64,
    later: u64,
    report: BootReportView,
    t: TaskView,
    i: nat,
    waiting: bool,
    ran: Result<(StepStatusView, u32), KernelErrorView>,
)
    ensures
        booting_answered(k, now, later, Ok(()), Ok(())) == (
            booting(k, now, later).0,
            Ok::<BootReportView, KernelErrorView>(booting(k, now, later).1),
        ),
        forced_answered(k, report, now, Ok(())) == (
            forced(k, report, now),
            Ok::<(), KernelErrorView>(()),
        ),
        settling_answered(k, ctx, t, i, waiting, ran, Ok(()), Ok(())) == settling(
            k,
            ctx,
            t,
            i,
            waiting,
            ran,
        ),
{
}

/// Where the store keeps everything, what a run attaches, leaves and gives up is what the
/// operation makes of it.
pub proof fn kept_artefacts_are_as_if_unasked<A>(
    k: KernelView<A>,
    ctx: CtxView,
    id: Seq<char>,
    kind: Seq<char>,
    bytes: Seq<u8>,
    launch: HarnessLaunchView,
    out: Seq<OutFileView>,
    w: AttachAnswersView,
)
    requires
        w.blob is Ok && w.row is Ok && w.written is Ok,
    ensures
        attaching_answered(k, ctx, id, kind, bytes, w) == attaching(k, ctx, id, kind, bytes),
        collecting_answered(k, ctx, id, launch, out, w) == collecting(k, ctx, id, launch, out),
        revoked_answered(k, id, kind, Ok(())) == revoked(k, id, kind),
{
}

/// Where the store keeps everything, a lease is granted, a run launched and its workspace made
/// as the operation does.
pub proof fn kept_launch_is_as_if_unasked<A>(
    k: KernelView<A>,
    ctx: CtxView,
    resource: Seq<char>,
    ttl_ms: u64,
    name: Seq<char>,
    run: Seq<char>,
    token: Seq<char>,
    start: HarnessStartView,
    written: Result<(), UnwrittenView>,
    w: LeaseAnswersView,
)
    requires
        w.row is Ok && w.cleared is Ok && w.fence is Ok && w.logged is Ok,
    ensures
        leasing_answered(k, ctx, resource, ttl_ms, w).1 == leasing(k, ctx, resource, ttl_ms).1,
        leasing(k, ctx, resource, ttl_ms).1 is Ok ==> leasing_answered(
            k,
            ctx,
            resource,
            ttl_ms,
            w,
        ).0 == leasing(k, ctx, resource, ttl_ms).0,
        launching_answered(k, ctx, resource, name, ttl_ms, run, token, Ok(()), w).1 is Ok
            ==> launching_answered(k, ctx, resource, name, ttl_ms, run, token, Ok(()), w)
            == launching(k, ctx, resource, name, ttl_ms, run, token),
        materialising_answered(k, ctx, start, written, None, Ok(())) == materialising(
            k,
            ctx,
            start,
            written,
        ),
{
}

/// Where the store keeps everything, a prompt is made, its answer taken in and a release begun
/// as the operation does.
pub proof fn kept_inference_is_as_if_unasked<A: ArchAdapter>(
    k: KernelView<A>,
    ctx: CtxView,
    arch_id: Seq<char>,
    capability: Capability,
    reg_id: Seq<char>,
    asked: AskedView,
    answer: Result<CompletionView, AdapterErrorView>,
    now: u64,
    w: AnswerAnswersView,
    t: TaskView,
    i: nat,
    to_dir: Seq<char>,
)
    requires
        w.completed is Ok && w.counted is Ok && w.row is Ok && w.written is Ok,
    ensures
        asking_answered(k, ctx, arch_id, capability, reg_id, Ok(()), Ok(())).1 == asking(
            k,
            ctx,
            arch_id,
            capability,
            reg_id,
        ).1,
        asking(k, ctx, arch_id, capability, reg_id).1 is Ok ==> asking_answered(
            k,
            ctx,
            arch_id,
            capability,
            reg_id,
            Ok(()),
            Ok(()),
        ).0 == asking(k, ctx, arch_id, capability, reg_id).0,
        answering_answered(k, ctx, asked, answer, now, w) == answering(k, ctx, asked, answer, now),
        releasing_answered(k, ctx, t, i, to_dir, Ok(())).1 == releasing(k, ctx, t, i, to_dir).1,
        releasing(k, ctx, t, i, to_dir).1 is Ok ==> releasing_answered(
            k,
            ctx,
            t,
            i,
            to_dir,
            Ok(()),
        ).0 == releasing(k, ctx, t, i, to_dir).0,
{
}

/// What could not be kept at all is refused, and nothing is different for it: no register is
/// written, no key or passkey is enrolled, and no business is live for longer.
pub proof fn what_is_not_kept_is_refused<A>(
    k: KernelView<A>,
    ctx: CtxView,
    reg: RegisterView,
    one: Seq<char>,
    other: Seq<char>,
    credential: JsonView,
    vk: Seq<u8>,
    now: u64,
    why: Seq<char>,
    logged: WroteView,
)
    ensures
        writing_answered(k, ctx, reg, Err(why), logged).1 is Err,
        writing_answered(k, ctx, reg, Err(why), logged).0 == k,
        renewing_answered(k, one, other, now, Err(why)).1 is Err,
        renewing_answered(k, one, other, now, Err(why)).0 == k,
        key_enrolling_answered(k, one, vk, now, Err(why), logged).1 is Err,
        key_enrolling_answered(k, one, vk, now, Err(why), logged).0 == k,
        passkey_enrolling_answered(k, one, credential, now, Err(why), logged).1 is Err,
        passkey_enrolling_answered(k, one, credential, now, Err(why), logged).0.store.devices
            == k.store.devices,
        passkey_updating_answered(k, one, credential, Err(why)).1 is Err,
        passkey_updating_answered(k, one, credential, Err(why)).0 == k,
{
}

} // verus!
