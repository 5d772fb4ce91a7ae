//! What becomes of a task, a register, a passkey and an automation when the store cannot
//! keep what it is handed.
use crate::adapter::ArchAdapter;
use crate::approvals::{human_approved, spending, verified_approving};
use crate::boot::{booting, version_loaded, BootReport, BootReportView};
use crate::devices::{passkey_enrolling, passkey_updating};
use crate::durable::{failed, not_kept, numbered, recording_answered, Wrote, WroteView};
use crate::error::{KernelError, KernelErrorView};
use crate::governance::{automating, automation_fault, exporting, has_passed, renewing};
use crate::json::{Json, JsonView};
use crate::kernel::{
    new_register, outcome, register_written, sound_with_fewer_arches, submitted, KernelView,
    RealKernel,
};
use crate::labels::{Label, Scope};
use crate::model::{all, verdict_view, Duplicate};
use crate::principal::{Approval, ApprovalView, Ctx, CtxView};
use crate::register::{Register, RegisterView};
use crate::scheduler::{steps_to, StepRun, StepRunView};
use crate::stops::{done, is_stopped};
use crate::store::{DeviceRow, GateKind, GateVerdict, GateVerdictView, StoreView};
use crate::task::{next_step, StepKind, StepKindView, StepStatus, Task, TaskStatus, TaskView};
use crate::tasks::{creating, plain_kind, seen, validate_artefact_kind};
use crate::text::{begins_with, cat, same};
use vstd::prelude::*;
use vstd::string::*;

verus! {

/// Writing a register, with what the store said to it and to the event of that.
pub open spec fn writing_answered<A>(
    k: KernelView<A>,
    ctx: CtxView,
    reg: RegisterView,
    row: WroteView,
    logged: WroteView,
) -> (KernelView<A>, Result<(), KernelErrorView>) {
    let after = register_written(k, ctx, reg);
    if row is Err {
        (k, Err(not_kept(row)))
    } else if logged is Err {
        (
            KernelView { store: StoreView { ledger: k.store.ledger, ..after.store }, ..k },
            Err(not_kept(logged)),
        )
    } else {
        (after, Ok(()))
    }
}

/// What the store said to a task that is submitted: to the counter, which gives the id of
/// the register and that of the task, to the register and to the event.
#[derive(Debug)]
pub struct SubmitAnswers {
    pub first: Wrote,
    pub second: Wrote,
    pub row: Wrote,
    pub logged: Wrote,
}

/// What a [`SubmitAnswers`] says.
pub struct SubmitAnswersView {
    pub first: WroteView,
    pub second: WroteView,
    pub row: WroteView,
    pub logged: WroteView,
}

impl View for SubmitAnswers {
    type V = SubmitAnswersView;

    open spec fn view(&self) -> SubmitAnswersView {
        SubmitAnswersView {
            first: verdict_view(self.first),
            second: verdict_view(self.second),
            row: verdict_view(self.row),
            logged: verdict_view(self.logged),
        }
    }
}

/// Submitting a task, with what the store said. An id that was counted is used up.
pub open spec fn submitting_answered<A>(
    k: KernelView<A>,
    ctx: CtxView,
    goal: Seq<char>,
    label: Label,
    w: SubmitAnswersView,
) -> (KernelView<A>, Result<Seq<char>, KernelErrorView>) {
    let (after, r) = submitted(k, ctx, goal, label);
    if r is Err {
        (k, r)
    } else if w.first is Err {
        (numbered(k), Err(not_kept(w.first)))
    } else if w.second is Err {
        (numbered(numbered(k)), Err(not_kept(w.second)))
    } else if w.row is Err {
        (numbered(numbered(k)), Err(not_kept(w.row)))
    } else if w.logged is Err {
        (
            KernelView { store: StoreView { ledger: k.store.ledger, ..after.store }, ..k },
            Err(not_kept(w.logged)),
        )
    } else {
        (after, r)
    }
}

/// Creating a task, with what the store said to its submission and to its row.
pub open spec fn creating_answered<A>(
    k: KernelView<A>,
    ctx: CtxView,
    goal: Seq<char>,
    artefact_type: Seq<char>,
    label: Label,
    kinds: Seq<StepKindView>,
    w: SubmitAnswersView,
    saved: WroteView,
) -> (KernelView<A>, Result<TaskView, KernelErrorView>) {
    let (after, r) = creating(k, ctx, goal, artefact_type, label, kinds);
    let (sent, submission) = submitting_answered(k, ctx, goal, label, w);
    if !plain_kind(artefact_type) {
        (k, r)
    } else if submission is Err {
        (sent, Err(submission->Err_0))
    } else if r is Ok && saved is Err {
        (sent, Err(not_kept(saved)))
    } else {
        (after, r)
    }
}

/// Whether running a task's next step begins with writing its row: it is stopped, it is
/// over, or a step of it starts.
pub open spec fn writes_its_row<A>(k: KernelView<A>, ctx: CtxView, task_id: Seq<char>) -> bool {
    match seen(k.store, ctx, task_id) {
        None => false,
        Some(t) => {
            let n = next_step(t.steps);
            t.status != TaskStatus::Done && t.status != TaskStatus::Failed && (is_stopped(
                k,
                "node"@,
            ) || n >= t.steps.len() || (!(t.steps[n as int].kind is Harness)
                && !(t.steps[n as int].status is WaitingHuman)))
        },
    }
}

/// Running an automation, with what the store said to its event. One that is not on the
/// record did not run.
pub open spec fn automating_answered<A>(
    k: KernelView<A>,
    ctx: CtxView,
    business: Seq<char>,
    module: Seq<char>,
    logged: WroteView,
) -> (KernelView<A>, Result<(), KernelErrorView>) {
    if !(ctx.principal is Human) && automation_fault(k, business, ctx.now_ms) is None
        && logged is Err {
        (k, Err(not_kept(logged)))
    } else {
        automating(k, ctx, business, module)
    }
}

/// Exporting a module, with what the store said to its event. One that is not on the
/// record does not leave.
pub open spec fn exporting_answered<A>(
    k: KernelView<A>,
    ctx: CtxView,
    module_hash: Seq<char>,
    to_scope: Scope,
    vs: Seq<GateVerdictView>,
    logged: WroteView,
) -> (KernelView<A>, Result<(), KernelErrorView>) {
    let (after, r) = exporting(k, ctx, module_hash, to_scope, vs);
    if r is Ok && logged is Err {
        (k, Err(not_kept(logged)))
    } else {
        (after, r)
    }
}

/// Renewing the lease of attention of a business, with what the store said.
pub open spec fn renewing_answered<A>(
    k: KernelView<A>,
    business: Seq<char>,
    device: Seq<char>,
    expires_at_ms: u64,
    kept: WroteView,
) -> (KernelView<A>, Result<(), KernelErrorView>) {
    if kept is Err {
        (k, Err(not_kept(kept)))
    } else {
        (renewing(k, business, device, expires_at_ms), Ok(()))
    }
}

/// Enrolling a passkey, with what the store said to its row and to the event.
pub open spec fn passkey_enrolling_answered<A>(
    k: KernelView<A>,
    device_id: Seq<char>,
    credential: JsonView,
    now: u64,
    kept: WroteView,
    logged: WroteView,
) -> (KernelView<A>, Result<(), KernelErrorView>) {
    let (after, r) = passkey_enrolling(k, device_id, credential, now);
    if r is Err {
        (k, r)
    } else if kept is Err {
        (k, Err(not_kept(kept)))
    } else if logged is Err {
        (
            KernelView { store: StoreView { ledger: k.store.ledger, ..after.store }, ..k },
            Err(not_kept(logged)),
        )
    } else {
        (after, r)
    }
}

/// Replacing the credential of a passkey, with what the store said.
pub open spec fn passkey_updating_answered<A>(
    k: KernelView<A>,
    device_id: Seq<char>,
    credential: JsonView,
    kept: WroteView,
) -> (KernelView<A>, Result<(), KernelErrorView>) {
    let (after, r) = passkey_updating(k, device_id, credential);
    if r is Ok && kept is Err {
        (k, Err(not_kept(kept)))
    } else {
        (after, r)
    }
}

/// Recording an approval that was verified, with what the store said to the event and to
/// the approval. The challenge is spent either way.
pub open spec fn verified_approving_answered<A>(
    k: KernelView<A>,
    now_ms: u64,
    a: ApprovalView,
    proof_kind: Seq<char>,
    logged: WroteView,
    kept: WroteView,
) -> (KernelView<A>, Result<(), KernelErrorView>) {
    let (after, r) = verified_approving(k, now_ms, a, proof_kind);
    if r is Err {
        (after, r)
    } else {
        recording_answered(
            spending(k, a.challenge->0, now_ms).0,
            now_ms,
            a,
            proof_kind,
            logged,
            kept,
        )
    }
}

/// Booting, with what the store said to the version of the policies and to the report on
/// the record. Nothing that was left running is touched before the record has the boot.
pub open spec fn booting_answered<A>(
    k: KernelView<A>,
    now: u64,
    later: u64,
    versioned: WroteView,
    logged: WroteView,
) -> (KernelView<A>, Result<BootReportView, KernelErrorView>) {
    if k.store.policies_version is None && versioned is Err {
        (k, Err(not_kept(versioned)))
    } else if logged is Err {
        (
            KernelView {
                store: StoreView {
                    policies_version: Some(version_loaded(k.store)),
                    ..k.store
                },
                ..k
            },
            Err(not_kept(logged)),
        )
    } else {
        let (after, report) = booting(k, now, later);
        (after, Ok(report))
    }
}

impl<A> RealKernel<A> {
    /// Write a register, where the store said this to it and to the event.
    pub fn write_register_answered(
        &mut self,
        ctx: &Ctx,
        reg: Register,
        row: Wrote,
        logged: Wrote,
    ) -> (r: Result<(), KernelError>)
        requires
            old(self).wf(),
        ensures
            final(self).wf(),
            (final(self)@, done(r)) == writing_answered(
                old(self)@,
                ctx@,
                reg@,
                verdict_view(row),
                verdict_view(logged),
            ),
    {
        if row.is_err() {
            return Err(failed(row));
        }
        if logged.is_ok() {
            return self.write_register(ctx, reg);
        }
        let id = reg.id.dup();
        self.store.registers.insert(id.as_str(), reg);
        proof {
            sound_with_fewer_arches(old(self)@, self@);
        }
        Err(failed(logged))
    }

    /// Submit a task, where the store said this.
    pub fn submit_task_answered(
        &mut self,
        ctx: &Ctx,
        goal: &str,
        label: Label,
        w: SubmitAnswers,
    ) -> (r: Result<String, KernelError>)
        requires
            old(self).wf(),
        ensures
            final(self).wf(),
            (final(self)@, outcome(r)) == submitting_answered(
                old(self)@,
                ctx@,
                goal@,
                label,
                w@,
            ),
    {
        if self.store.counter > u64::MAX - 2 {
            return self.submit_task(ctx, goal, label);
        }
        if w.first.is_err() {
            self.use_up_an_id();
            return Err(failed(w.first));
        }
        if w.second.is_err() || w.row.is_err() {
            self.use_up_an_id();
            self.use_up_an_id();
            return if w.second.is_err() {
                Err(failed(w.second))
            } else {
                Err(failed(w.row))
            };
        }
        if w.logged.is_ok() {
            return self.submit_task(ctx, goal, label);
        }
        let n: u64 = self.store.counter;
        let id = self.id_at("reg", n + 1);
        let task_id = self.id_at("task", n + 2);
        let reg = new_register(id.dup(), task_id, goal, label);
        self.store.counter = n + 2;
        self.store.registers.insert(id.as_str(), reg);
        Err(failed(w.logged))
    }

    /// Create a task, where the store said this to its submission and to its row.
    pub fn create_task_answered(
        &mut self,
        ctx: &Ctx,
        goal: &str,
        artefact_type: &str,
        label: Label,
        steps: Vec<StepKind>,
        w: SubmitAnswers,
        saved: Wrote,
    ) -> (r: Result<Task, KernelError>)
        requires
            old(self).wf(),
        ensures
            final(self).wf(),
            (final(self)@, outcome(r)) == creating_answered(
                old(self)@,
                ctx@,
                goal@,
                artefact_type@,
                label,
                all(steps@),
                w@,
                verdict_view(saved),
            ),
    {
        if w.first.is_ok() && w.second.is_ok() && w.row.is_ok() && w.logged.is_ok()
            && saved.is_ok() {
            return self.create_task(ctx, goal, artefact_type, label, steps);
        }
        if let Err(e) = validate_artefact_kind(artefact_type) {
            return Err(e);
        }
        let id = match self.submit_task_answered(ctx, goal, label, w) {
            Err(e) => return Err(e),
            Ok(id) => id,
        };
        match self.read_register(ctx, id.as_str()) {
            Err(e) => Err(e),
            Ok(_) => Err(failed(saved)),
        }
    }

    /// Run an automation of a business, where the store said this to its event.
    pub fn run_automation_answered(
        &mut self,
        ctx: &Ctx,
        business: &str,
        module: &str,
        logged: Wrote,
    ) -> (r: Result<(), KernelError>)
        requires
            old(self).wf(),
        ensures
            final(self).wf(),
            (final(self)@, done(r)) == automating_answered(
                old(self)@,
                ctx@,
                business@,
                module@,
                verdict_view(logged),
            ),
    {
        let scope = cat("business:", business);
        if !ctx.principal.is_human() && !self.stopped(scope.as_str()) && self.is_attended(
            business,
            ctx.now_ms,
        ) && logged.is_err() {
            return Err(failed(logged));
        }
        self.run_automation(ctx, business, module)
    }

    /// Export a module, where the store said this to its event.
    pub fn export_answered(
        &mut self,
        ctx: &Ctx,
        module_hash: &str,
        to_scope: Scope,
        verdicts: &Vec<GateVerdict>,
        logged: Wrote,
    ) -> (r: Result<(), KernelError>)
        requires
            old(self).wf(),
        ensures
            final(self).wf(),
            (final(self)@, done(r)) == exporting_answered(
                old(self)@,
                ctx@,
                module_hash@,
                to_scope,
                all(verdicts@),
                verdict_view(logged),
            ),
    {
        let may = (to_scope != Scope::Public && to_scope != Scope::Vertical) || has_passed(
            verdicts,
            GateKind::Declassification,
            module_hash,
        );
        if may && logged.is_err() {
            return Err(failed(logged));
        }
        self.export(ctx, module_hash, to_scope, verdicts)
    }

    /// Renew the lease of attention of a business, where the store said this.
    pub fn renew_liveness_answered(
        &mut self,
        business: &str,
        device_id: &str,
        expires_at_ms: u64,
        kept: Wrote,
    ) -> (r: Result<(), KernelError>)
        requires
            old(self).wf(),
        ensures
            final(self).wf(),
            (final(self)@, done(r)) == renewing_answered(
                old(self)@,
                business@,
                device_id@,
                expires_at_ms,
                verdict_view(kept),
            ),
    {
        if kept.is_err() {
            return Err(failed(kept));
        }
        self.renew_liveness_persisted(business, device_id, expires_at_ms)
    }

    /// Enrol a passkey, where the store said this to its row and to the event.
    pub fn enroll_passkey_answered(
        &mut self,
        device_id: &str,
        credential: Json,
        now_ms: u64,
        kept: Wrote,
        logged: Wrote,
    ) -> (r: Result<(), KernelError>)
        requires
            old(self).wf(),
        ensures
            final(self).wf(),
            (final(self)@, done(r)) == passkey_enrolling_answered(
                old(self)@,
                device_id@,
                credential@,
                now_ms,
                verdict_view(kept),
                verdict_view(logged),
            ),
    {
        let new = begins_with(device_id, "passkey:") && device_id.unicode_len()
            > "passkey:".unicode_len() && !self.store.devices.has(device_id);
        if !new || (kept.is_ok() && logged.is_ok()) {
            return self.enroll_passkey(device_id, credential, now_ms);
        }
        if kept.is_err() {
            return Err(failed(kept));
        }
        let row = DeviceRow {
            vk_hex: String::new(),
            trust_class: "passkey".to_owned(),
            passkey: Some(credential),
            enrolled_ms: now_ms,
        };
        self.store.devices.insert(device_id, row);
        Err(failed(logged))
    }

    /// Replace the credential of an enrolled passkey, where the store said this.
    pub fn update_passkey_answered(&mut self, device_id: &str, credential: Json, kept: Wrote) -> (r:
        Result<(), KernelError>)
        requires
            old(self).wf(),
        ensures
            final(self).wf(),
            (final(self)@, done(r)) == passkey_updating_answered(
                old(self)@,
                device_id@,
                credential@,
                verdict_view(kept),
            ),
    {
        let there = match self.store.devices.get(device_id) {
            Some(row) => same(row.trust_class.as_str(), "passkey"),
            None => false,
        };
        if there && kept.is_err() {
            return Err(failed(kept));
        }
        self.update_passkey(device_id, credential)
    }

    /// Record an approval whose ceremony was verified, where the store said this to the
    /// event and to the approval.
    pub fn record_verified_human_approval_answered(
        &mut self,
        now_ms: u64,
        approval: Approval,
        proof_kind: &str,
        logged: Wrote,
        kept: Wrote,
    ) -> (r: Result<(), KernelError>)
        requires
            old(self).wf(),
        ensures
            final(self).wf(),
            (final(self)@, done(r)) == verified_approving_answered(
                old(self)@,
                now_ms,
                approval@,
                proof_kind@,
                verdict_view(logged),
                verdict_view(kept),
            ),
    {
        if let Err(e) = self.take_verified(now_ms, &approval) {
            return Err(e);
        }
        self.record_approval_answered(now_ms, &approval, proof_kind, logged, kept)
    }

    fn begins_with_its_row(&self, ctx: &Ctx, task_id: &str) -> (r: bool)
        requires
            self.wf(),
        ensures
            r == writes_its_row(self@, ctx@, task_id@),
    {
        let t = match self.task(ctx, task_id) {
            Some(t) => t,
            None => return false,
        };
        if t.status == TaskStatus::Done || t.status == TaskStatus::Failed {
            return false;
        }
        if self.stopped("node") {
            return true;
        }
        let i: usize = t.next();
        if i == t.steps.len() {
            return true;
        }
        let harness = match t.steps[i].kind {
            StepKind::Harness { .. } => true,
            _ => false,
        };
        let waiting = match t.steps[i].status {
            StepStatus::WaitingHuman => true,
            _ => false,
        };
        !harness && !waiting
    }
}

impl<A: ArchAdapter> RealKernel<A> {
    /// Boot at this time, where the store said this to the version of the policies and to
    /// the report on the record.
    pub fn boot_answered(&mut self, now: u64, later: u64, versioned: Wrote, logged: Wrote) -> (r:
        Result<BootReport, KernelError>)
        requires
            old(self).wf(),
        ensures
            final(self).wf(),
            (final(self)@, outcome(r)) == booting_answered(
                old(self)@,
                now,
                later,
                verdict_view(versioned),
                verdict_view(logged),
            ),
    {
        if self.store.policies_version.is_none() && versioned.is_err() {
            return Err(failed(versioned));
        }
        if logged.is_err() {
            let _ = self.load_policies_version();
            return Err(failed(logged));
        }
        Ok(self.boot_at(now, later))
    }

    /// Run the next step of a task, where the store said this to the row that the step
    /// begins with. A step whose start could not be kept is not run.
    pub fn run_task_step_answered(&mut self, ctx: &Ctx, task_id: &str, saved: Wrote) -> (r: Result<
        StepRun,
        KernelError,
    >)
        requires
            old(self).wf(),
        ensures
            final(self).wf(),
            saved is Err && writes_its_row(old(self)@, ctx@, task_id@) ==> final(self)@ == old(
                self,
            )@ && outcome(r) == Err::<StepRunView, KernelErrorView>(not_kept(verdict_view(saved))),
            saved is Ok || !writes_its_row(old(self)@, ctx@, task_id@) ==> steps_to(
                old(self)@,
                ctx@,
                task_id@,
                final(self)@,
                outcome(r),
            ),
    {
        if saved.is_err() && self.begins_with_its_row(ctx, task_id) {
            return Err(failed(saved));
        }
        self.run_task_step(ctx, task_id)
    }
}

/// An id that was counted for a task that could not be kept is not given out again, and
/// the record says nothing of it.
pub proof fn unkept_task_uses_up_its_id<A>(
    k: KernelView<A>,
    ctx: CtxView,
    goal: Seq<char>,
    label: Label,
    w: SubmitAnswersView,
)
    requires
        submitted(k, ctx, goal, label).1 is Ok,
        submitting_answered(k, ctx, goal, label, w).1 is Err,
    ensures
        submitting_answered(k, ctx, goal, label, w).0.store.counter > k.store.counter,
        submitting_answered(k, ctx, goal, label, w).0.store.ledger == k.store.ledger,
        submitting_answered(k, ctx, goal, label, w).0.store.tasks == k.store.tasks,
{
}

/// A verified approval that is reported as failed approves nothing.
pub proof fn failed_verified_approval_approves_nothing<A>(
    k: KernelView<A>,
    now_ms: u64,
    a: ApprovalView,
    proof_kind: Seq<char>,
    logged: WroteView,
    kept: WroteView,
    subject: Seq<char>,
)
    requires
        verified_approving_answered(k, now_ms, a, proof_kind, logged, kept).1 is Err,
    ensures
        human_approved(
            verified_approving_answered(k, now_ms, a, proof_kind, logged, kept).0.store,
            subject,
        ) == human_approved(k.store, subject),
{
    let after = verified_approving_answered(k, now_ms, a, proof_kind, logged, kept).0;
    assert(after.store.approvals == k.store.approvals);
}

/// A boot that the record does not have ends nothing that was left running, and gives no
/// report.
pub proof fn unrecorded_boot_touches_nothing<A>(
    k: KernelView<A>,
    now: u64,
    later: u64,
    versioned: WroteView,
    logged: WroteView,
)
    requires
        logged is Err,
    ensures
        ({
            let (after, r) = booting_answered(k, now, later, versioned, logged);
            &&& r is Err
            &&& after.store.ledger == k.store.ledger
            &&& after.store.tasks == k.store.tasks
            &&& after.store.leases == k.store.leases
            &&& after.locks == k.locks
            &&& after.harness_tokens == k.harness_tokens
        }),
{
}

/// What ran or left is on the record.
pub proof fn automation_and_export_are_on_the_record<A>(
    k: KernelView<A>,
    ctx: CtxView,
    business: Seq<char>,
    module: Seq<char>,
    to_scope: Scope,
    vs: Seq<GateVerdictView>,
    logged: WroteView,
)
    ensures
        logged is Err ==> automating_answered(k, ctx, business, module, logged).0 == k,
        logged is Err && !(ctx.principal is Human) ==> automating_answered(
            k,
            ctx,
            business,
            module,
            logged,
        ).1 is Err,
        logged is Err ==> exporting_answered(k, ctx, module, to_scope, vs, logged).0 == k
            && exporting_answered(k, ctx, module, to_scope, vs, logged).1 is Err,
{
}

} // verus!
