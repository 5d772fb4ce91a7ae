//! What becomes of an operation when the store cannot keep what it is handed.
use crate::adapter::ArchAdapter;
use crate::approvals::{
    approval_fault, approval_record, approval_recorded, approving, human_approved, spending,
};
use crate::arches::{mounting, unmounting, MountOutcome, MountOutcomeView, Remount};
use crate::boot::{forced, BootReport, BootReportView};
use crate::error::{error_text, KernelError, KernelErrorView};
use crate::governance::{has_passed, promoting};
use crate::json::{text, Fields, JsonView};
use crate::kernel::{
    exhausted, id_text, ids_differ, outcome, sound_with_fewer_arches, with_event, KernelView,
    RealKernel, Slot,
};
use crate::manifest::arch_id_of;
use crate::model::{all, verdict_view, Duplicate};
use crate::mount::{MountSpec, MountSpecView};
use crate::principal::{Approval, ApprovalKind, ApprovalView, Ctx, CtxView};
use crate::scheduler::{ran_view, settling, step_event_json};
use crate::stops::{done, lifted, not_a_person, resuming, stopping};
use crate::store::{
    GateKind, GateVerdict, GateVerdictView, ModuleManifest, ModuleManifestView, ResumeEventView,
    StopEvent, StopEventView, StoreView,
};
use crate::task::{StepStatus, StepStatusView, Task, TaskView};
use crate::text::cat3;
use crate::wire::approval_to_json;
use vstd::prelude::*;

verus! {

/// Whether the store kept what it was handed, or why it could not.
pub type Wrote = Result<(), String>;

/// What a [`Wrote`] says.
pub type WroteView = Result<(), Seq<char>>;

/// What a call is told that could not be kept.
pub open spec fn not_kept(w: WroteView) -> KernelErrorView {
    KernelErrorView::Store(w->Err_0)
}

pub(crate) fn failed(w: Wrote) -> (r: KernelError)
    requires
        w is Err,
    ensures
        r@ == not_kept(verdict_view(w)),
{
    match w {
        Err(why) => KernelError::Store(why),
        Ok(()) => KernelError::Store(String::new()),
    }
}

/// The kernel with one more id used up.
pub open spec fn numbered<A>(k: KernelView<A>) -> KernelView<A> {
    KernelView { store: StoreView { counter: (k.store.counter + 1) as u64, ..k.store }, ..k }
}

/// Stopping a scope, with what the store said to the counter, to the stop and to the
/// event. What is in force is never ahead of what is kept.
pub open spec fn stopping_answered<A>(
    k: KernelView<A>,
    ctx: CtxView,
    scope: Seq<char>,
    counted: WroteView,
    kept: WroteView,
    logged: WroteView,
) -> (KernelView<A>, Result<Seq<char>, KernelErrorView>) {
    if !(ctx.principal is Human) {
        (k, Err(not_a_person()))
    } else if k.store.counter == u64::MAX {
        (k, Err(exhausted()))
    } else if counted is Err {
        (numbered(k), Err(not_kept(counted)))
    } else if kept is Err {
        (numbered(k), Err(not_kept(kept)))
    } else {
        let id = id_text("stop"@, k.node_id, (k.store.counter + 1) as nat);
        let e = StopEventView { id, scope, issuer: ctx.principal, hlc_ms: ctx.now_ms };
        let n = numbered(k);
        let stopped = KernelView {
            store: StoreView { stops: k.store.stops.insert(id, e), ..n.store },
            stops: k.stops.insert(id, e),
            ..n
        };
        if logged is Err {
            (stopped, Err(not_kept(logged)))
        } else {
            (with_event(stopped, "stop"@, ctx.now_ms, JsonView::Text(id)), Ok(id))
        }
    }
}

/// Lifting a stop, with what the store said to the counter, to the event and to the
/// resume. The record comes first.
pub open spec fn resuming_answered<A>(
    k: KernelView<A>,
    ctx: CtxView,
    stop_id: Seq<char>,
    counted: WroteView,
    logged: WroteView,
    kept: WroteView,
) -> (KernelView<A>, Result<(), KernelErrorView>) {
    if !(ctx.principal is Human) {
        (k, Err(not_a_person()))
    } else if !k.stops.contains_key(stop_id) {
        (k, Err(KernelErrorView::Stop("unknown stop"@)))
    } else if k.store.counter == u64::MAX {
        (k, Err(exhausted()))
    } else if counted is Err {
        (numbered(k), Err(not_kept(counted)))
    } else if logged is Err {
        (numbered(k), Err(not_kept(logged)))
    } else {
        let id = id_text("resume"@, k.node_id, (k.store.counter + 1) as nat);
        let e = ResumeEventView {
            id,
            cites: stop_id,
            issuer: ctx.principal,
            hlc_ms: ctx.now_ms,
        };
        let noted = with_event(numbered(k), "resume"@, ctx.now_ms, JsonView::Text(stop_id));
        if kept is Err {
            (noted, Err(not_kept(kept)))
        } else {
            (
                KernelView {
                    store: StoreView { resumes: k.store.resumes.insert(id, e), ..noted.store },
                    resumes: k.resumes.insert(id, e),
                    ..noted
                },
                Ok(()),
            )
        }
    }
}

/// Putting an approval on the record and keeping it, with what the store said to each.
pub open spec fn recording_answered<A>(
    k: KernelView<A>,
    now_ms: u64,
    a: ApprovalView,
    proof_kind: Seq<char>,
    logged: WroteView,
    kept: WroteView,
) -> (KernelView<A>, Result<(), KernelErrorView>) {
    if logged is Err {
        (k, Err(not_kept(logged)))
    } else if kept is Err {
        (
            with_event(k, "approval.recorded"@, now_ms, approval_record(a, proof_kind)),
            Err(not_kept(kept)),
        )
    } else {
        (approval_recorded(k, now_ms, a, proof_kind), Ok(()))
    }
}

/// Approving, with what the store said.
pub open spec fn approving_answered<A>(
    k: KernelView<A>,
    ctx: CtxView,
    a: ApprovalView,
    logged: WroteView,
    kept: WroteView,
) -> (KernelView<A>, Result<(), KernelErrorView>) {
    if a.kind == ApprovalKind::Human && a.challenge is None {
        (k, Err(KernelErrorView::I1("a human approval answers a minted challenge"@)))
    } else {
        let (spent, verdict) = if a.kind == ApprovalKind::Human {
            spending(k, a.challenge->0, ctx.now_ms)
        } else {
            (k, Ok(Seq::empty()))
        };
        match verdict {
            Err(e) => (spent, Err(e)),
            Ok(_) => match approval_fault(k.devices, ctx.principal, a) {
                Some(e) => (spent, Err(e)),
                None => recording_answered(spent, ctx.now_ms, a, "device-key"@, logged, kept),
            },
        }
    }
}

/// Promoting a module, with what the store said to the event and to the module.
pub open spec fn promoting_answered<A>(
    k: KernelView<A>,
    ctx: CtxView,
    m: ModuleManifestView,
    checked: Result<(), Seq<char>>,
    vs: Seq<GateVerdictView>,
    logged: WroteView,
    kept: WroteView,
) -> (KernelView<A>, Result<(), KernelErrorView>) {
    match promoting(k, ctx, m, checked, vs) {
        (_, Err(e)) => (k, Err(e)),
        (promoted, Ok(())) => if logged is Err {
            (k, Err(not_kept(logged)))
        } else if kept is Err {
            (
                with_event(
                    k,
                    "module.promoted"@,
                    ctx.now_ms,
                    JsonView::Text(m.content_hash),
                ),
                Err(not_kept(kept)),
            )
        } else {
            (promoted, Ok(()))
        },
    }
}

/// Recording a forced boot, with what the store said. The record comes before the mark.
pub open spec fn forced_answered<A>(
    k: KernelView<A>,
    r: BootReportView,
    now: u64,
    logged: WroteView,
) -> (KernelView<A>, Result<(), KernelErrorView>) {
    if logged is Err {
        (k, Err(not_kept(logged)))
    } else {
        (forced(k, r, now), Ok(()))
    }
}

/// The kernel without an arch, and nothing said of it on the record.
pub open spec fn without_arch<A>(k: KernelView<A>, id: Seq<char>) -> KernelView<A> {
    KernelView {
        store: StoreView {
            arches: k.store.arches.remove(id),
            mounts: k.store.mounts.remove(id),
            ..k.store
        },
        adapters: k.adapters.remove(id),
        unavailable: k.unavailable.remove(id),
        starting: k.starting.remove(id),
        budgets: k.budgets.remove(id),
        ..k
    }
}

/// Unmounting an arch, with what the store said to the removal and to the event. What
/// is kept goes first.
pub open spec fn unmounting_answered<A>(
    k: KernelView<A>,
    id: Seq<char>,
    now: u64,
    removed: WroteView,
    logged: WroteView,
) -> (KernelView<A>, Result<Option<A>, Seq<char>>) {
    if removed is Err {
        (k, Err(removed->Err_0))
    } else if logged is Err {
        (without_arch(k, id), Err(error_text(not_kept(logged))))
    } else {
        (unmounting(k, id, now).0, Ok(unmounting(k, id, now).1))
    }
}

/// Mounting an adapter, with what the store said to the arch and its spec, which are kept
/// together, and to the event. Nothing is mounted that is not kept.
pub open spec fn mounting_answered<A: ArchAdapter>(
    k: KernelView<A>,
    adapter: A,
    checked: Result<(), Seq<char>>,
    spec: MountSpecView,
    remount: Remount,
    now: u64,
    kept: WroteView,
    logged: WroteView,
) -> (KernelView<A>, Result<MountOutcomeView<A>, Seq<char>>) {
    let id = arch_id_of(adapter.declared().identity);
    match mounting(k, adapter, checked, spec, remount, now) {
        (_, Err(why)) => (k, Err(why)),
        (after, Ok(o)) => if k.adapters.contains_key(id) && remount == Remount::Keep {
            (k, Ok(o))
        } else if kept is Err {
            (k, Err(kept->Err_0))
        } else if k.adapters.contains_key(id) || logged is Ok {
            (after, Ok(o))
        } else {
            (
                KernelView { store: StoreView { ledger: k.store.ledger, ..after.store }, ..after },
                Err(error_text(not_kept(logged))),
            )
        },
    }
}

/// Settling a step, with what the store said to the event and to the row. The record
/// comes before the row; a step that failed has no event.
pub open spec fn settling_answered<A>(
    k: KernelView<A>,
    ctx: CtxView,
    t: TaskView,
    i: nat,
    waiting: bool,
    ran: Result<(StepStatusView, u32), KernelErrorView>,
    logged: WroteView,
    saved: WroteView,
) -> (KernelView<A>, Result<TaskView, KernelErrorView>) {
    let (after, r) = settling(k, ctx, t, i, waiting, ran);
    if waiting && ran matches Ok((StepStatusView::WaitingHuman, _)) {
        (k, Ok(t))
    } else if ran is Ok && logged is Err {
        (k, Err(not_kept(logged)))
    } else if saved is Err {
        (
            KernelView { store: StoreView { ledger: after.store.ledger, ..k.store }, ..k },
            Err(not_kept(saved)),
        )
    } else {
        (after, r)
    }
}

impl<A> RealKernel<A> {
    pub(crate) fn use_up_an_id(&mut self)
        requires
            old(self).wf(),
            old(self)@.store.counter < u64::MAX,
        ensures
            final(self).wf(),
            final(self)@ == numbered(old(self)@),
    {
        self.store.counter = self.store.counter + 1;
    }

    /// Stop a scope, where the store said this to the counter, to the stop and to the
    /// event.
    pub fn stop_answered(
        &mut self,
        ctx: &Ctx,
        scope: &str,
        counted: Wrote,
        kept: Wrote,
        logged: Wrote,
    ) -> (r: Result<String, KernelError>)
        requires
            old(self).wf(),
        ensures
            final(self).wf(),
            (final(self)@, outcome(r)) == stopping_answered(
                old(self)@,
                ctx@,
                scope@,
                verdict_view(counted),
                verdict_view(kept),
                verdict_view(logged),
            ),
    {
        if !ctx.principal.is_human() {
            return Err(KernelError::I1("this call requires a human principal".to_owned()));
        }
        if self.store.counter == u64::MAX {
            return Err(KernelError::Store("the id counter is exhausted".to_owned()));
        }
        if counted.is_err() {
            self.use_up_an_id();
            return Err(failed(counted));
        }
        if kept.is_err() {
            self.use_up_an_id();
            return Err(failed(kept));
        }
        if logged.is_ok() {
            return self.stop(ctx, scope);
        }
        let n: u64 = self.store.counter + 1;
        let id = self.id_at("stop", n);
        let e = StopEvent {
            id: id.dup(),
            scope: scope.to_owned(),
            issuer: ctx.principal.dup(),
            hlc_ms: ctx.now_ms,
        };
        self.store.counter = n;
        self.store.stops.insert(id.as_str(), e.dup());
        self.stops.insert(id.as_str(), e);
        proof {
            assert forall|m: nat| m > n implies !self@.stops.contains_key(
                #[trigger] id_text("stop"@, self@.node_id, m),
            ) by {
                if id_text("stop"@, self@.node_id, m) == id@ {
                    ids_differ("stop"@, self@.node_id, m, n as nat);
                }
            }
        }
        Err(failed(logged))
    }

    /// Lift a stop, where the store said this to the counter, to the event and to the
    /// resume.
    pub fn resume_answered(
        &mut self,
        ctx: &Ctx,
        stop_id: &str,
        counted: Wrote,
        logged: Wrote,
        kept: Wrote,
    ) -> (r: Result<(), KernelError>)
        requires
            old(self).wf(),
        ensures
            final(self).wf(),
            (final(self)@, done(r)) == resuming_answered(
                old(self)@,
                ctx@,
                stop_id@,
                verdict_view(counted),
                verdict_view(logged),
                verdict_view(kept),
            ),
    {
        if !ctx.principal.is_human() {
            return Err(KernelError::I1("this call requires a human principal".to_owned()));
        }
        if !self.stops.has(stop_id) {
            return Err(KernelError::Stop("unknown stop".to_owned()));
        }
        if self.store.counter == u64::MAX {
            return Err(KernelError::Store("the id counter is exhausted".to_owned()));
        }
        if counted.is_err() {
            self.use_up_an_id();
            return Err(failed(counted));
        }
        if logged.is_err() {
            self.use_up_an_id();
            return Err(failed(logged));
        }
        if kept.is_ok() {
            return self.resume(ctx, stop_id);
        }
        self.use_up_an_id();
        self.record_event("resume", ctx.now_ms, text(stop_id));
        Err(failed(kept))
    }

    pub(crate) fn record_approval_answered(
        &mut self,
        now_ms: u64,
        approval: &Approval,
        proof_kind: &str,
        logged: Wrote,
        kept: Wrote,
    ) -> (r: Result<(), KernelError>)
        requires
            old(self).wf(),
        ensures
            final(self).wf(),
            (final(self)@, done(r)) == recording_answered(
                old(self)@,
                now_ms,
                approval@,
                proof_kind@,
                verdict_view(logged),
                verdict_view(kept),
            ),
    {
        if logged.is_err() {
            return Err(failed(logged));
        }
        if kept.is_err() {
            let mut f = Fields::new();
            f.put("approval", approval_to_json(approval));
            f.put_text("proof", proof_kind);
            assert(f@ =~= approval_record(approval@, proof_kind@)->Object_0);
            self.record_event("approval.recorded", now_ms, f.object());
            return Err(failed(kept));
        }
        self.record_approval(now_ms, approval, proof_kind);
        Ok(())
    }

    /// Record an approval, where the store said this to the event and to the approval.
    pub fn approve_answered(
        &mut self,
        ctx: &Ctx,
        approval: Approval,
        logged: Wrote,
        kept: Wrote,
    ) -> (r: Result<(), KernelError>)
        requires
            old(self).wf(),
        ensures
            final(self).wf(),
            (final(self)@, done(r)) == approving_answered(
                old(self)@,
                ctx@,
                approval@,
                verdict_view(logged),
                verdict_view(kept),
            ),
    {
        if approval.kind == ApprovalKind::Human {
            let challenge = match &approval.challenge {
                None => return Err(
                    KernelError::I1("a human approval answers a minted challenge".to_owned()),
                ),
                Some(c) => c.dup(),
            };
            if let Err(e) = self.spend_approval_challenge(&challenge, ctx.now_ms) {
                return Err(e);
            }
        }
        if let Some(e) = self.fault_of(&ctx.principal, &approval) {
            return Err(e);
        }
        self.record_approval_answered(ctx.now_ms, &approval, "device-key", logged, kept)
    }

    /// Promote a module, where the store said this to the event and to the module.
    pub fn promote_answered(
        &mut self,
        ctx: &Ctx,
        module: &ModuleManifest,
        checked: Result<(), String>,
        verdicts: &Vec<GateVerdict>,
        logged: Wrote,
        kept: Wrote,
    ) -> (r: Result<(), KernelError>)
        requires
            old(self).wf(),
        ensures
            final(self).wf(),
            (final(self)@, done(r)) == promoting_answered(
                old(self)@,
                ctx@,
                module@,
                verdict_view(checked),
                all(verdicts@),
                verdict_view(logged),
                verdict_view(kept),
            ),
    {
        if logged.is_ok() && kept.is_ok() {
            return self.promote(ctx, module, checked, verdicts);
        }
        if let Err(why) = checked {
            return Err(KernelError::Module(why));
        }
        let subject = module.content_hash.as_str();
        if !has_passed(verdicts, GateKind::AnnexIii, subject) {
            return Err(KernelError::Gate("annex_iii verdict required for promotion".to_owned()));
        }
        let unattended = match module.auto_approve_allowed {
            Some(allowed) => allowed,
            None => false,
        };
        if !unattended && !self.has_human_approval(subject) {
            return Err(
                KernelError::I1(
                    cat3("promotion of ", module.name.as_str(), " requires a human approval"),
                ),
            );
        }
        if logged.is_err() {
            return Err(failed(logged));
        }
        self.record_event("module.promoted", ctx.now_ms, text(subject));
        Err(failed(kept))
    }

    /// Record a forced boot, where the store said this to the event.
    pub fn record_forced_boot_answered(&mut self, report: &BootReport, now: u64, logged: Wrote) -> (r:
        Result<(), KernelError>)
        requires
            old(self).wf(),
        ensures
            final(self).wf(),
            (final(self)@, done(r)) == forced_answered(
                old(self)@,
                report@,
                now,
                verdict_view(logged),
            ),
    {
        if logged.is_err() {
            return Err(failed(logged));
        }
        self.record_forced_boot_at(report, now);
        Ok(())
    }

    /// Settle a step, where the store said this to the event and to the row.
    pub fn settle_step_answered(
        &mut self,
        ctx: &Ctx,
        task: Task,
        i: usize,
        waiting: bool,
        ran: Result<(StepStatus, u32), KernelError>,
        logged: Wrote,
        saved: Wrote,
    ) -> (r: Result<Task, KernelError>)
        requires
            old(self).wf(),
            i < task.steps@.len(),
        ensures
            final(self).wf(),
            (final(self)@, outcome(r)) == settling_answered(
                old(self)@,
                ctx@,
                task@,
                i as nat,
                waiting,
                ran_view(ran),
                verdict_view(logged),
                verdict_view(saved),
            ),
    {
        if waiting {
            if let Ok((StepStatus::WaitingHuman, _)) = &ran {
                return Ok(task);
            }
        }
        if ran.is_ok() && logged.is_err() {
            return Err(failed(logged));
        }
        if saved.is_err() {
            if ran.is_ok() {
                self.record_event("task.step", ctx.now_ms, step_event_json(task.id.as_str(), i));
            }
            return Err(failed(saved));
        }
        self.settle_step(ctx, task, i, waiting, ran)
    }
}

impl<A: ArchAdapter> RealKernel<A> {
    /// Unmount an arch, where the store said this to the removal and to the event.
    pub fn unmount_answered(&mut self, arch_id: &str, now: u64, removed: Wrote, logged: Wrote) -> (r:
        Result<Option<A>, String>)
        requires
            old(self).wf(),
        ensures
            final(self).wf(),
            final(self)@ == unmounting_answered(
                old(self)@,
                arch_id@,
                now,
                verdict_view(removed),
                verdict_view(logged),
            ).0,
            match unmounting_answered(
                old(self)@,
                arch_id@,
                now,
                verdict_view(removed),
                verdict_view(logged),
            ).1 {
                Ok(a) => r == Ok::<Option<A>, String>(a),
                Err(why) => r is Err && r->Err_0@ == why,
            },
    {
        if let Err(why) = removed {
            return Err(why);
        }
        if logged.is_ok() {
            return Ok(self.unmount_at(arch_id, now));
        }
        let _ = self.store.arches.remove(arch_id);
        let _ = self.store.mounts.remove(arch_id);
        let _ = self.adapters.remove(arch_id);
        let _ = self.unavailable.remove(arch_id);
        let _ = self.starting.remove(arch_id);
        let _ = self.budgets.remove(arch_id);
        proof {
            sound_with_fewer_arches(old(self)@, self@);
        }
        Err(failed(logged).text())
    }

    /// Mount an adapter, where the store said this to the arch and its spec, and to the
    /// event.
    pub fn mount_answered(
        &mut self,
        adapter: A,
        checked: Result<(), String>,
        spec: MountSpec,
        remount: Remount,
        now: u64,
        kept: Wrote,
        logged: Wrote,
    ) -> (r: Result<MountOutcome<A>, String>)
        requires
            old(self).wf(),
        ensures
            final(self).wf(),
            final(self)@ == mounting_answered(
                old(self)@,
                adapter,
                verdict_view(checked),
                spec@,
                remount,
                now,
                verdict_view(kept),
                verdict_view(logged),
            ).0,
            match mounting_answered(
                old(self)@,
                adapter,
                verdict_view(checked),
                spec@,
                remount,
                now,
                verdict_view(kept),
                verdict_view(logged),
            ).1 {
                Ok(o) => r is Ok && r->Ok_0@ == o,
                Err(why) => r is Err && r->Err_0@ == why,
            },
    {
        if kept.is_ok() && logged.is_ok() {
            return self.mount_with_at(adapter, checked, spec, remount, now);
        }
        if let Err(why) = checked {
            return Err(why);
        }
        let m = adapter.manifest().dup();
        if let Err(why) = spec.validate() {
            return Err(why);
        }
        let id = m.arch_id();
        if self.conflicting(id.as_str(), &m) {
            return Err(
                cat3(
                    "arch ",
                    id.as_str(),
                    " is already mounted with a different manifest; unmount first",
                ),
            );
        }
        let there = self.adapters.has(id.as_str());
        if there && remount == Remount::Keep {
            return Ok(MountOutcome { arch_id: id, replaced: None, already_mounted: true });
        }
        if let Err(why) = kept {
            return Err(why);
        }
        if there {
            return self.mount_with_at(adapter, Ok(()), spec, remount, now);
        }
        let budget: u32 = adapter.context_budget();
        self.keep_mount(id.as_str(), m, spec);
        let _ = self.unavailable.remove(id.as_str());
        let _ = self.starting.remove(id.as_str());
        self.budgets.insert(id.as_str(), budget);
        self.adapters.insert(id.as_str(), Slot { adapter });
        Err(failed(logged).text())
    }
}

/// Where the store keeps everything, each of these is the operation itself.
pub proof fn kept_is_as_if_unasked<A: ArchAdapter>(
    k: KernelView<A>,
    ctx: CtxView,
    what: Seq<char>,
    a: ApprovalView,
    adapter: A,
    spec: MountSpecView,
    remount: Remount,
    now: u64,
)
    ensures
        stopping_answered(k, ctx, what, Ok(()), Ok(()), Ok(())) == stopping(k, ctx, what),
        resuming_answered(k, ctx, what, Ok(()), Ok(()), Ok(())) == resuming(k, ctx, what),
        approving_answered(k, ctx, a, Ok(()), Ok(())) == approving(k, ctx, a),
        unmounting_answered(k, what, now, Ok(()), Ok(())) == (
            unmounting(k, what, now).0,
            Ok::<Option<A>, Seq<char>>(unmounting(k, what, now).1),
        ),
        mounting_answered(k, adapter, Ok(()), spec, remount, now, Ok(()), Ok(())) == mounting(
            k,
            adapter,
            Ok(()),
            spec,
            remount,
            now,
        ),
{
}

/// A resume that is reported as failed has lifted nothing, whatever the store said.
pub proof fn failed_resume_lifts_nothing<A>(
    k: KernelView<A>,
    ctx: CtxView,
    stop_id: Seq<char>,
    counted: WroteView,
    logged: WroteView,
    kept: WroteView,
    any: Seq<char>,
)
    requires
        resuming_answered(k, ctx, stop_id, counted, logged, kept).1 is Err,
    ensures
        lifted(resuming_answered(k, ctx, stop_id, counted, logged, kept).0, any) == lifted(k, any),
{
    let after = resuming_answered(k, ctx, stop_id, counted, logged, kept).0;
    assert(after.resumes == k.resumes);
}

/// A stop is in force only when it is kept, so a restart finds every stop that this
/// process believes in. One that could not be kept is not in force, and one that is kept
/// is in force although it could not be put on the record.
pub proof fn stop_in_force_is_kept<A>(
    k: KernelView<A>,
    ctx: CtxView,
    scope: Seq<char>,
    counted: WroteView,
    kept: WroteView,
    logged: WroteView,
)
    requires
        k.stops == k.store.stops,
    ensures
        ({
            let (after, r) = stopping_answered(k, ctx, scope, counted, kept, logged);
            &&& after.stops == after.store.stops
            &&& counted is Err || kept is Err ==> r is Err && after.stops == k.stops
            &&& r is Ok ==> counted is Ok && kept is Ok && logged is Ok
            &&& ctx.principal is Human && k.store.counter < u64::MAX && counted is Ok && kept is Ok
                ==> after.stops.contains_key(
                id_text("stop"@, k.node_id, (k.store.counter + 1) as nat),
            )
        }),
{
}

/// An approval that is reported as failed approves nothing, whatever the store said.
pub proof fn failed_approval_approves_nothing<A>(
    k: KernelView<A>,
    ctx: CtxView,
    a: ApprovalView,
    logged: WroteView,
    kept: WroteView,
    subject: Seq<char>,
)
    requires
        approving_answered(k, ctx, a, logged, kept).1 is Err,
    ensures
        human_approved(approving_answered(k, ctx, a, logged, kept).0.store, subject)
            == human_approved(k.store, subject),
{
    let after = approving_answered(k, ctx, a, logged, kept).0;
    assert(after.store.approvals == k.store.approvals);
}

/// What is promoted is on the record, and what is reported as not promoted is not hot.
pub proof fn promoted_is_on_the_record<A>(
    k: KernelView<A>,
    ctx: CtxView,
    m: ModuleManifestView,
    checked: Result<(), Seq<char>>,
    vs: Seq<GateVerdictView>,
    logged: WroteView,
    kept: WroteView,
)
    ensures
        ({
            let (after, r) = promoting_answered(k, ctx, m, checked, vs, logged, kept);
            &&& r is Err ==> after.store.hot == k.store.hot
            &&& r is Ok ==> after.store.ledger.len() == k.store.ledger.len() + 1
                && after.store.ledger.last().kind == "module.promoted"@
        }),
{
}

/// An arch that could not be removed from what is kept is still mounted, and one that
/// could not be kept is not mounted.
pub proof fn arches_follow_what_is_kept<A: ArchAdapter>(
    k: KernelView<A>,
    adapter: A,
    checked: Result<(), Seq<char>>,
    spec: MountSpecView,
    remount: Remount,
    id: Seq<char>,
    now: u64,
    wrote: WroteView,
    logged: WroteView,
)
    requires
        wrote is Err,
    ensures
        unmounting_answered(k, id, now, wrote, logged).0 == k,
        unmounting_answered(k, id, now, wrote, logged).1 is Err,
        mounting_answered(k, adapter, checked, spec, remount, now, wrote, logged).0 == k,
{
}

/// A forced boot is marked only once it is on the record.
pub proof fn forced_boot_is_on_the_record<A>(
    k: KernelView<A>,
    r: BootReportView,
    now: u64,
    logged: WroteView,
)
    requires
        !k.forced_boot,
    ensures
        ({
            let (after, said) = forced_answered(k, r, now, logged);
            &&& after.forced_boot <==> said is Ok
            &&& said is Err ==> after == k
            &&& said is Ok ==> after.store.ledger.last().kind == "boot.forced"@
        }),
{
}

/// A row never says that a step ran unless the record says so too.
pub proof fn row_never_runs_ahead_of_the_record<A>(
    k: KernelView<A>,
    ctx: CtxView,
    t: TaskView,
    i: nat,
    waiting: bool,
    ran: Result<(StepStatusView, u32), KernelErrorView>,
    logged: WroteView,
    saved: WroteView,
)
    ensures
        ({
            let (after, r) = settling_answered(k, ctx, t, i, waiting, ran, logged, saved);
            &&& ran is Ok && after.store.tasks != k.store.tasks ==> {
                &&& logged is Ok
                &&& after.store.ledger.len() == k.store.ledger.len() + 1
                &&& after.store.ledger.last().kind == "task.step"@
            }
            &&& saved is Err ==> after.store.tasks == k.store.tasks
            &&& r is Ok ==> ran is Ok
        }),
{
}

} // verus!
