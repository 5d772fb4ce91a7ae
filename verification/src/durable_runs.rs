//! What becomes of an inference and of a harness's run when the store cannot keep what it
//! is handed.
use crate::adapter::{
    answer_view, AdapterError, AdapterErrorView, ArchAdapter, Completion, CompletionView,
};
use crate::artefacts::{address_of, attaching};
use crate::devices::{key_enrolled, key_row};
use crate::durable::{failed, not_kept, Wrote, WroteView};
use crate::error::{error_text, KernelError, KernelErrorView};
use crate::harness::{
    brief_placed, connections_json, connections_of, connections_record, ended_row, harness_ended,
    harness_resource, harness_settling, harness_step_json, harness_step_to_json, harvest,
    is_plain_name, launch_fault, launching, materialising, not_materialised, plain_name, revoked,
    run_ctx, session_of, sound_with_fewer_leases, workspace_fault, written_view, HarnessLaunch,
    HarnessLaunchView, HarnessStart, HarnessStartView, OutFile, OutFileView, Unwritten,
    UnwrittenView, HARNESS_SETTLE_SLACK_MS,
};
use crate::hash::{hash_text, text_hash};
use crate::infer::{
    adapter_failed, adapter_fault, answering, asking, call_to_json, Asked, AskedView,
    InferOutcome, InferOutcomeView,
};
use crate::ir::raise;
use crate::kernel::{
    outcome, sound, sound_with_fewer_arches, with_event, DeviceKey, Inferred, KernelView, RealKernel,
};
use crate::json::text;
use crate::launch::{exit_label, ExitReason, HarnessRun};
use crate::leases::{capped_sum, clear_slot, last_fence, leasing};
use crate::manifest::Capability;
use crate::model::{all, opt, verdict_view, Duplicate};
use crate::outside::hex_encode;
use crate::principal::{Ctx, CtxView};
use crate::register::{ArtefactRef, ArtefactRefView};
use crate::scheduler::{plan_files, releasing, Releasing, ReleasingView};
use crate::stops::{done, is_stopped};
use crate::store::{
    Blob, BlobEnvelope, BlobEnvelopeView, DeviceRow, Lease, LeaseView, StoreView,
};
use crate::task::{Task, TaskStatus, TaskView};
use crate::tasks::{seen, task_saved, validate_artefact_kind};
use crate::text::cat;
use crate::workspace::{brief_noted, what_is_placed_is_on_the_record};
use vstd::prelude::*;
use vstd::slice::slice_to_vec;
use vstd::string::*;

verus! {

/// What the store said to an artefact that is attached: to its bytes, to the register
/// that refers to it, and to the event of that.
#[derive(Debug)]
pub struct AttachAnswers {
    pub blob: Wrote,
    pub row: Wrote,
    pub written: Wrote,
}

/// What an [`AttachAnswers`] says.
pub struct AttachAnswersView {
    pub blob: WroteView,
    pub row: WroteView,
    pub written: WroteView,
}

impl View for AttachAnswers {
    type V = AttachAnswersView;

    open spec fn view(&self) -> AttachAnswersView {
        AttachAnswersView {
            blob: verdict_view(self.blob),
            row: verdict_view(self.row),
            written: verdict_view(self.written),
        }
    }
}

/// Attaching bytes to a register, with what the store said.
pub open spec fn attaching_answered<A>(
    k: KernelView<A>,
    ctx: CtxView,
    reg_id: Seq<char>,
    kind: Seq<char>,
    bytes: Seq<u8>,
    w: AttachAnswersView,
) -> (KernelView<A>, Result<BlobEnvelopeView, KernelErrorView>) {
    let (after, r) = attaching(k, ctx, reg_id, kind, bytes);
    if r is Err {
        (k, r)
    } else if w.blob is Err {
        (k, Err(not_kept(w.blob)))
    } else if w.row is Err {
        (
            KernelView { store: StoreView { blobs: after.store.blobs, ..k.store }, ..k },
            Err(not_kept(w.row)),
        )
    } else if w.written is Err {
        (
            KernelView { store: StoreView { ledger: k.store.ledger, ..after.store }, ..k },
            Err(not_kept(w.written)),
        )
    } else {
        (after, r)
    }
}

/// What the store said while a run was settled: to its connections, to what was attached,
/// to the step's event, to the removal of its lease and to the row.
#[derive(Debug)]
pub struct SettleAnswers {
    pub recorded: Wrote,
    pub attached: AttachAnswers,
    pub logged: Wrote,
    pub released: Wrote,
    pub saved: Wrote,
}

/// What a [`SettleAnswers`] says.
pub struct SettleAnswersView {
    pub recorded: WroteView,
    pub attached: AttachAnswersView,
    pub logged: WroteView,
    pub released: WroteView,
    pub saved: WroteView,
}

impl View for SettleAnswers {
    type V = SettleAnswersView;

    open spec fn view(&self) -> SettleAnswersView {
        SettleAnswersView {
            recorded: verdict_view(self.recorded),
            attached: self.attached@,
            logged: verdict_view(self.logged),
            released: verdict_view(self.released),
            saved: verdict_view(self.saved),
        }
    }
}

/// Collecting what a run left, with what the store said.
pub open spec fn collecting_answered<A>(
    k: KernelView<A>,
    ctx: CtxView,
    task_id: Seq<char>,
    launch: HarnessLaunchView,
    out: Seq<OutFileView>,
    w: AttachAnswersView,
) -> (KernelView<A>, Result<(), Seq<char>>) {
    let t = k.store.tasks[task_id];
    match harvest(k, ctx, task_id, launch, out) {
        Err(why) => (k, Err(why)),
        Ok(None) => (k, Ok(())),
        Ok(Some(bytes)) => match attaching_answered(
            k,
            ctx,
            t.register,
            t.artefact_type,
            bytes,
            w,
        ) {
            (after, Err(e)) => (after, Err(error_text(e))),
            (after, Ok(_)) => (after, Ok(())),
        },
    }
}

/// Taking the authority of a run back, with what the store said to the removal of its
/// lease: what is in force ends either way.
pub open spec fn revoked_answered<A>(
    k: KernelView<A>,
    lease_id: Seq<char>,
    token: Seq<char>,
    released: WroteView,
) -> KernelView<A> {
    let after = revoked(k, lease_id, token);
    if released is Err {
        KernelView { store: k.store, ..after }
    } else {
        after
    }
}

/// Settling a run, with what the store said. Whatever it said, every part is gone through:
/// an answer that something was not kept is given after the run has lost its authority,
/// never instead.
pub open spec fn harness_settling_answered<A>(
    k: KernelView<A>,
    ctx: CtxView,
    task_id: Seq<char>,
    launch: HarnessLaunchView,
    run: HarnessRun,
    out: Seq<OutFileView>,
    w: SettleAnswersView,
) -> (KernelView<A>, Result<TaskView, KernelErrorView>) {
    let exit = exit_label(run.exit_reason);
    let watched = if w.recorded is Ok {
        with_event(
            k,
            "harness.connections"@,
            ctx.now_ms,
            connections_json(connections_of(task_id, launch, run)),
        )
    } else {
        k
    };
    let (collected, verdict) = if run.exit_reason == ExitReason::Exited(0) {
        collecting_answered(watched, ctx, task_id, launch, out, w.attached)
    } else {
        (watched, Err("harness run ended: "@ + exit))
    };
    let noted = if w.logged is Ok {
        with_event(
            collected,
            "task.step"@,
            ctx.now_ms,
            harness_step_json(
                task_id,
                launch.step_index,
                verdict is Ok,
                run.governed,
                exit,
                run.duration_ms,
            ),
        )
    } else {
        collected
    };
    let over = revoked_answered(noted, launch.lease_id, launch.token, w.released);
    let t = harness_ended(
        k.store.tasks[task_id],
        launch.step_index as int,
        verdict,
        ctx.now_ms,
    );
    let there = k.store.tasks.contains_key(task_id);
    let after = if there && w.saved is Ok {
        task_saved(over, t)
    } else {
        over
    };
    (
        after,
        if w.recorded is Err {
            Err(not_kept(w.recorded))
        } else if w.logged is Err {
            Err(not_kept(w.logged))
        } else if !there {
            Err(KernelErrorView::NotFound(task_id))
        } else if w.saved is Err {
            Err(not_kept(w.saved))
        } else {
            Ok(t)
        },
    )
}

/// A file of the brief whose event could not be kept, by its place in the brief, and why.
#[derive(Debug)]
pub struct Unnoted {
    pub file: usize,
    pub why: String,
}

/// What an [`Unnoted`] says.
pub struct UnnotedView {
    pub file: nat,
    pub why: Seq<char>,
}

impl View for Unnoted {
    type V = UnnotedView;

    open spec fn view(&self) -> UnnotedView {
        UnnotedView { file: self.file as nat, why: self.why@ }
    }
}

/// What becomes of a launch once its workspace was written, or was not, with what the
/// store said: `unnoted` is the file of the brief whose event could not be kept, and why.
pub open spec fn materialising_answered<A>(
    k: KernelView<A>,
    ctx: CtxView,
    start: HarnessStartView,
    written: Result<(), UnwrittenView>,
    unnoted: Option<UnnotedView>,
    saved: WroteView,
) -> (KernelView<A>, Result<HarnessLaunchView, KernelErrorView>) {
    let placed = brief_placed(start.plan, written);
    if unnoted is Some && unnoted->0.file < placed {
        (
            revoked(
                brief_noted(k, start.plan.brief, unnoted->0.file, ctx.now_ms),
                start.launch.lease_id,
                start.launch.token,
            ),
            Err(
                not_materialised(
                    "log projection: "@ + error_text(KernelErrorView::Store(unnoted->0.why)),
                ),
            ),
        )
    } else if workspace_fault(start.plan, written) is None && saved is Err {
        (
            revoked(
                brief_noted(k, start.plan.brief, placed, ctx.now_ms),
                start.launch.lease_id,
                start.launch.token,
            ),
            Err(not_kept(saved)),
        )
    } else {
        materialising(k, ctx, start, written)
    }
}

/// Making a prompt, with what the store said to the event of its being cut and to that of
/// its being about to be sent. What is not on the record is not sent.
pub open spec fn asking_answered<A: ArchAdapter>(
    k: KernelView<A>,
    ctx: CtxView,
    arch_id: Seq<char>,
    capability: Capability,
    reg_id: Seq<char>,
    cut: WroteView,
    requested: WroteView,
) -> (KernelView<A>, Result<AskedView, KernelErrorView>) {
    match asking(k, ctx, arch_id, capability, reg_id) {
        (_, Err(e)) => (k, Err(e)),
        (after, Ok(a)) => if a.projected && cut is Err {
            (k, Err(not_kept(cut)))
        } else if requested is Err {
            (
                KernelView {
                    store: StoreView { ledger: after.store.ledger.drop_last(), ..k.store },
                    ..k
                },
                Err(not_kept(requested)),
            )
        } else {
            (after, Ok(a))
        },
    }
}

/// What the store said to an answer: to its event, to the counters, to the register and
/// to the event of that.
#[derive(Debug)]
pub struct AnswerAnswers {
    pub completed: Wrote,
    pub counted: Wrote,
    pub row: Wrote,
    pub written: Wrote,
}

/// What an [`AnswerAnswers`] says.
pub struct AnswerAnswersView {
    pub completed: WroteView,
    pub counted: WroteView,
    pub row: WroteView,
    pub written: WroteView,
}

impl View for AnswerAnswers {
    type V = AnswerAnswersView;

    open spec fn view(&self) -> AnswerAnswersView {
        AnswerAnswersView {
            completed: verdict_view(self.completed),
            counted: verdict_view(self.counted),
            row: verdict_view(self.row),
            written: verdict_view(self.written),
        }
    }
}

/// What becomes of an arch's answer, with what the store said. It is on the record before
/// anything else is done with it.
pub open spec fn answering_answered<A>(
    k: KernelView<A>,
    ctx: CtxView,
    asked: AskedView,
    answer: Result<CompletionView, AdapterErrorView>,
    now: u64,
    w: AnswerAnswersView,
) -> (KernelView<A>, Result<InferOutcomeView, KernelErrorView>) {
    match answer {
        Err(e) => (k, Err(adapter_fault(asked.arch_id, e))),
        Ok(c) => {
            let (after, r) = answering(k, ctx, asked, answer, now);
            let logged = after.store.ledger.drop_last();
            let noted = KernelView {
                store: StoreView { ledger: logged, ..k.store },
                infer_log: after.infer_log,
                ..k
            };
            let counted_in = KernelView {
                store: StoreView { stats: after.store.stats, ..noted.store },
                ..noted
            };
            if w.completed is Err {
                (k, Err(not_kept(w.completed)))
            } else if w.counted is Err {
                (noted, Err(not_kept(w.counted)))
            } else if w.row is Err {
                (counted_in, Err(not_kept(w.row)))
            } else if w.written is Err {
                (
                    KernelView {
                        store: StoreView { registers: after.store.registers, ..counted_in.store },
                        ..counted_in
                    },
                    Err(not_kept(w.written)),
                )
            } else {
                (after, r)
            }
        },
    }
}

/// Planning a release, with what the store said to its event. Nothing is handed out that
/// is not on the record.
pub open spec fn releasing_answered<A>(
    k: KernelView<A>,
    ctx: CtxView,
    t: TaskView,
    i: nat,
    to_dir: Seq<char>,
    logged: WroteView,
) -> (KernelView<A>, Result<ReleasingView, KernelErrorView>) {
    match releasing(k, ctx, t, i, to_dir) {
        (_, Err(e)) => (k, Err(e)),
        (after, Ok(p)) => if logged is Err {
            (k, Err(not_kept(logged)))
        } else {
            (after, Ok(p))
        },
    }
}

/// What the store said to a lease: to its row, to the removal of the rows it replaces, to
/// its fence and to its event. `left` are the rows that were not removed.
#[derive(Debug)]
pub struct LeaseAnswers {
    pub row: Wrote,
    pub cleared: Wrote,
    pub left: Vec<String>,
    pub fence: Wrote,
    pub logged: Wrote,
}

/// What a [`LeaseAnswers`] says.
pub struct LeaseAnswersView {
    pub row: WroteView,
    pub cleared: WroteView,
    pub left: Seq<Seq<char>>,
    pub fence: WroteView,
    pub logged: WroteView,
}

impl View for LeaseAnswers {
    type V = LeaseAnswersView;

    open spec fn view(&self) -> LeaseAnswersView {
        LeaseAnswersView {
            row: verdict_view(self.row),
            cleared: verdict_view(self.cleared),
            left: all(self.left@),
            fence: verdict_view(self.fence),
            logged: verdict_view(self.logged),
        }
    }
}

/// These rows, with those of `ids` that were there before and are not there now.
pub open spec fn with_left(
    now: Map<Seq<char>, LeaseView>,
    before: Map<Seq<char>, LeaseView>,
    ids: Seq<Seq<char>>,
) -> Map<Seq<char>, LeaseView> {
    Map::new(
        |id: Seq<char>| now.contains_key(id) || (ids.contains(id) && before.contains_key(id)),
        |id: Seq<char>|
            if now.contains_key(id) {
                now[id]
            } else {
                before[id]
            },
    )
}

/// Leasing a resource, with what the store said. The lease and its fence are in force as
/// soon as they are granted: what cannot be kept is never given out again.
pub open spec fn leasing_answered<A>(
    k: KernelView<A>,
    ctx: CtxView,
    resource: Seq<char>,
    ttl_ms: u64,
    w: LeaseAnswersView,
) -> (KernelView<A>, Result<LeaseView, KernelErrorView>) {
    let (after, r) = leasing(k, ctx, resource, ttl_ms);
    if r is Err {
        (k, r)
    } else if w.row is Err {
        (KernelView { store: k.store, ..after }, Err(not_kept(w.row)))
    } else if w.cleared is Err {
        (
            KernelView {
                store: StoreView {
                    leases: with_left(after.store.leases, k.store.leases, w.left),
                    ..k.store
                },
                ..after
            },
            Err(not_kept(w.cleared)),
        )
    } else if w.fence is Err {
        (
            KernelView {
                store: StoreView { leases: after.store.leases, ..k.store },
                ..after
            },
            Err(not_kept(w.fence)),
        )
    } else if w.logged is Err {
        (
            KernelView {
                store: StoreView { ledger: k.store.ledger, ..after.store },
                ..after
            },
            Err(not_kept(w.logged)),
        )
    } else {
        (after, r)
    }
}

/// Whether a launch of a task that is not over gets as far as asking whether the node is
/// stopped.
pub open spec fn asks_for_a_stop<A>(k: KernelView<A>, ctx: CtxView, task_id: Seq<char>) -> bool {
    plain_name(task_id) && match seen(k.store, ctx, task_id) {
        None => false,
        Some(t) => t.status != TaskStatus::Done && t.status != TaskStatus::Failed,
    }
}

/// Launching a harness step, with what the store said to the row of a task that is
/// stopped and to the lease of the run.
pub open spec fn launching_answered<A>(
    k: KernelView<A>,
    ctx: CtxView,
    task_id: Seq<char>,
    name: Seq<char>,
    timeout_ms: u64,
    run: Seq<char>,
    token: Seq<char>,
    stopped: WroteView,
    w: LeaseAnswersView,
) -> (KernelView<A>, Result<HarnessStartView, KernelErrorView>) {
    let asked = asks_for_a_stop(k, ctx, task_id);
    let halted = is_stopped(k, "node"@);
    let leased = leasing_answered(
        k,
        run_ctx(k, ctx, run),
        harness_resource(task_id),
        capped_sum(timeout_ms, HARNESS_SETTLE_SLACK_MS),
        w,
    );
    if asked && halted && stopped is Err {
        (k, Err(not_kept(stopped)))
    } else if asked && !halted && launch_fault(
        k,
        k.store.tasks[task_id],
        task_id,
        name,
    ) is None && leased.1 is Err {
        (leased.0, Err(leased.1->Err_0))
    } else {
        launching(k, ctx, task_id, name, timeout_ms, run, token)
    }
}

/// Enrolling a device's key, with what the store said to the row and to the event.
pub open spec fn key_enrolling_answered<A>(
    k: KernelView<A>,
    device_id: Seq<char>,
    vk: Seq<u8>,
    now: u64,
    kept: WroteView,
    logged: WroteView,
) -> (KernelView<A>, Result<(), KernelErrorView>) {
    let after = key_enrolled(k, device_id, vk, now);
    if kept is Err {
        (k, Err(not_kept(kept)))
    } else if logged is Err {
        (
            KernelView { store: StoreView { ledger: k.store.ledger, ..after.store }, ..after },
            Err(not_kept(logged)),
        )
    } else {
        (after, Ok(()))
    }
}

impl<A> RealKernel<A> {
    /// Attach bytes to a register, where the store said this.
    pub fn attach_artefact_answered(
        &mut self,
        ctx: &Ctx,
        reg_id: &str,
        kind: &str,
        bytes: &[u8],
        w: AttachAnswers,
    ) -> (r: Result<BlobEnvelope, KernelError>)
        requires
            old(self).wf(),
        ensures
            final(self).wf(),
            (final(self)@, outcome(r)) == attaching_answered(
                old(self)@,
                ctx@,
                reg_id@,
                kind@,
                bytes@,
                w@,
            ),
    {
        if w.blob.is_ok() && w.row.is_ok() && w.written.is_ok() {
            return self.attach_artefact(ctx, reg_id, kind, bytes);
        }
        if let Err(e) = validate_artefact_kind(kind) {
            return Err(e);
        }
        let mut reg = match self.read_register(ctx, reg_id) {
            Err(e) => return Err(e),
            Ok(reg) => reg,
        };
        if w.blob.is_err() {
            return Err(failed(w.blob));
        }
        let subject = cat("task:", reg.task_id.as_str());
        let hash = address_of(subject.as_str(), bytes);
        let blob = Blob { subject, label: reg.label, bytes: slice_to_vec(bytes) };
        self.store.blobs.insert(hash.as_str(), blob);
        if w.row.is_err() {
            return Err(failed(w.row));
        }
        let ghost before = reg@.artefacts;
        let ghost named = hash@;
        reg.artefacts.push(ArtefactRef { hash, kind: kind.to_owned() });
        assert(reg@.artefacts =~= before.push(ArtefactRefView { hash: named, kind: kind@ }));
        let id = reg.id.dup();
        self.store.registers.insert(id.as_str(), reg);
        Err(failed(w.written))
    }

    fn collect_answered(
        &mut self,
        ctx: &Ctx,
        task_id: &str,
        launch: &HarnessLaunch,
        out: &Vec<OutFile>,
        w: AttachAnswers,
    ) -> (r: Result<(), String>)
        requires
            old(self).wf(),
        ensures
            final(self).wf(),
            (final(self)@, verdict_view(r)) == collecting_answered(
                old(self)@,
                ctx@,
                task_id@,
                launch@,
                all(out@),
                w@,
            ),
    {
        let bytes = match self.to_collect(ctx, task_id, launch, out) {
            Err(why) => return Err(why),
            Ok(None) => return Ok(()),
            Ok(Some(bytes)) => bytes,
        };
        let t = match self.store.tasks.get(task_id) {
            Some(t) => t.dup(),
            None => return Err(String::new()),
        };
        match self.attach_artefact_answered(
            ctx,
            t.register.as_str(),
            t.artefact_type.as_str(),
            bytes.as_slice(),
            w,
        ) {
            Ok(_) => Ok(()),
            Err(e) => Err(e.text()),
        }
    }

    fn revoke_answered(&mut self, lease_id: &str, token: &str, released: &Wrote)
        requires
            old(self).wf(),
        ensures
            final(self).wf(),
            final(self)@ == revoked_answered(
                old(self)@,
                lease_id@,
                token@,
                verdict_view(*released),
            ),
    {
        if released.is_ok() {
            self.revoke_harness_run(lease_id, token);
            return;
        }
        let key = hash_text(token);
        let _ = self.harness_tokens.remove(key.as_str());
        let _ = self.locks.remove(lease_id);
        proof {
            sound_with_fewer_leases(old(self)@, self@);
        }
    }

    /// Settle a run, where the store said this.
    pub fn harness_settle_answered(
        &mut self,
        ctx: &Ctx,
        task_id: &str,
        launch: &HarnessLaunch,
        run: &HarnessRun,
        out: &Vec<OutFile>,
        w: SettleAnswers,
    ) -> (r: Result<Task, KernelError>)
        requires
            old(self).wf(),
            old(self)@.store.tasks.contains_key(task_id@) ==> launch.step_index < old(
                self,
            )@.store.tasks[task_id@].steps.len(),
        ensures
            final(self).wf(),
            (final(self)@, outcome(r)) == harness_settling_answered(
                old(self)@,
                ctx@,
                task_id@,
                launch@,
                *run,
                all(out@),
                w@,
            ),
    {
        let i: usize = launch.step_index;
        let exit = run.exit_reason.label();
        if w.recorded.is_ok() {
            let rec = connections_record(task_id, launch, run);
            self.record_harness_connection(ctx.now_ms, &rec);
        }
        let verdict: Result<(), String> = if run.exit_reason.is_success() {
            self.collect_answered(ctx, task_id, launch, out, w.attached)
        } else {
            Err(cat("harness run ended: ", exit.as_str()))
        };
        assert(self@.store.tasks == old(self)@.store.tasks);
        if w.logged.is_ok() {
            let payload = harness_step_to_json(
                task_id,
                i,
                verdict.is_ok(),
                run.governed,
                exit.as_str(),
                run.duration_ms,
            );
            self.record_event("task.step", ctx.now_ms, payload);
        }
        self.revoke_answered(launch.lease_id.as_str(), launch.token.as_str(), &w.released);
        let found = match self.store.tasks.get(task_id) {
            Some(t) => Some(t.dup()),
            None => None,
        };
        let ended: Option<Task> = match found {
            None => None,
            Some(row) => {
                assert(row@ == old(self)@.store.tasks[task_id@]);
                assert(row@.steps.len() == row.steps@.len());
                let t = ended_row(row, i, verdict, ctx.now_ms);
                if w.saved.is_ok() {
                    self.save_task(&t);
                }
                Some(t)
            },
        };
        if w.recorded.is_err() {
            return Err(failed(w.recorded));
        }
        if w.logged.is_err() {
            return Err(failed(w.logged));
        }
        match ended {
            None => Err(KernelError::NotFound(task_id.to_owned())),
            Some(t) => if w.saved.is_err() {
                Err(failed(w.saved))
            } else {
                Ok(t)
            },
        }
    }

    /// Launch a harness step under this name and this token, where the store said this to
    /// the row of a task that is stopped and to the lease of the run.
    pub fn harness_launch_answered(
        &mut self,
        ctx: &Ctx,
        task_id: &str,
        name: &str,
        timeout_ms: u64,
        run: &str,
        token: &str,
        stopped: Wrote,
        w: LeaseAnswers,
    ) -> (r: Result<HarnessStart, KernelError>)
        requires
            old(self).wf(),
        ensures
            final(self).wf(),
            (final(self)@, outcome(r)) == launching_answered(
                old(self)@,
                ctx@,
                task_id@,
                name@,
                timeout_ms,
                run@,
                token@,
                verdict_view(stopped),
                w@,
            ),
            r matches Ok(s) ==> s.launch.step_index < s.task.steps@.len(),
    {
        let found = if is_plain_name(task_id) {
            self.task(ctx, task_id)
        } else {
            None
        };
        if let Some(t) = found {
            if t.status != TaskStatus::Done && t.status != TaskStatus::Failed {
                let halted = self.stopped("node");
                if halted && stopped.is_err() {
                    return Err(failed(stopped));
                }
                let unkept = w.row.is_err() || w.cleared.is_err() || w.fence.is_err()
                    || w.logged.is_err();
                if !halted && unkept && self.check_launch(&t, task_id, name).is_none() {
                    let holder = self.run_holder(ctx, run);
                    let resource = cat("harness:", task_id);
                    let ttl: u64 = timeout_ms.saturating_add(HARNESS_SETTLE_SLACK_MS);
                    return match self.lease_answered(&holder, resource.as_str(), ttl, w) {
                        Err(e) => Err(e),
                        Ok(_) => Err(KernelError::NotFound(task_id.to_owned())),
                    };
                }
            }
        }
        self.harness_launch_as(ctx, task_id, name, timeout_ms, run, token)
    }

    /// Take in that a workspace was written, or why it was not, where the store said this:
    /// `unnoted` is the file of the brief whose event could not be kept, and why.
    pub fn harness_materialised_answered(
        &mut self,
        ctx: &Ctx,
        start: HarnessStart,
        written: Result<(), Unwritten>,
        unnoted: Option<Unnoted>,
        saved: Wrote,
    ) -> (r: Result<HarnessLaunch, KernelError>)
        requires
            old(self).wf(),
            start.launch.step_index < start.task.steps@.len(),
        ensures
            final(self).wf(),
            (final(self)@, outcome(r)) == materialising_answered(
                old(self)@,
                ctx@,
                start@,
                written_view(written),
                opt(unnoted),
                verdict_view(saved),
            ),
    {
        let total: usize = start.plan.brief.len();
        assert(all(start.plan.brief@).len() == total);
        let placed: usize = match &written {
            Err(u) => if u.brief < total {
                u.brief
            } else {
                total
            },
            Ok(()) => total,
        };
        if let Some(u) = unnoted {
            if u.file < placed {
                self.log_projections(ctx.now_ms, &start.plan.brief, u.file);
                self.revoke_harness_run(
                    start.launch.lease_id.as_str(),
                    start.launch.token.as_str(),
                );
                let said = KernelError::Store(u.why).text();
                let inner = cat("log projection: ", said.as_str());
                return Err(
                    KernelError::Gate(cat("materialise harness workspace: ", inner.as_str())),
                );
            }
        }
        if written.is_ok() && start.plan.fault.is_none() && saved.is_err() {
            self.log_projections(ctx.now_ms, &start.plan.brief, placed);
            self.revoke_harness_run(
                start.launch.lease_id.as_str(),
                start.launch.token.as_str(),
            );
            return Err(failed(saved));
        }
        self.harness_materialised(ctx, start, written)
    }

    /// Take in an arch's answer, where the store said this.
    pub fn infer_answer_kept(
        &mut self,
        ctx: &Ctx,
        asked: Asked,
        answer: Result<Completion, AdapterError>,
        now: u64,
        w: AnswerAnswers,
    ) -> (r: Result<InferOutcome, KernelError>)
        requires
            old(self).wf(),
        ensures
            final(self).wf(),
            (final(self)@, outcome(r)) == answering_answered(
                old(self)@,
                ctx@,
                asked@,
                answer_view(answer),
                now,
                w@,
            ),
    {
        if w.completed.is_ok() && w.counted.is_ok() && w.row.is_ok() && w.written.is_ok() {
            return self.infer_answered(ctx, asked, answer, now);
        }
        let c = match answer {
            Err(e) => return Err(adapter_failed(asked.arch_id.as_str(), &e)),
            Ok(c) => c,
        };
        if w.completed.is_err() {
            return Err(failed(w.completed));
        }
        let tokens_in: u32 = match c.tokens_in_measured {
            Some(n) => n,
            None => asked.estimated,
        };
        let ghost after = answering(old(self)@, ctx@, asked@, answer_view(Ok(c)), now).0;
        let payload = call_to_json(
            asked.arch_id.as_str(),
            asked.register.id.as_str(),
            "completed",
            tokens_in,
            c.tokens_in_measured.is_some(),
            &c.cost_list_usd,
            &c.details,
        );
        self.record_event("infer", now, payload);
        assert(self@.store.ledger =~= after.store.ledger.drop_last());
        let ghost before = all(self.infer_log@);
        let entry = Inferred { arch_id: asked.arch_id.dup(), label: asked.register.label };
        let ghost said = entry@;
        self.infer_log.push(entry);
        assert(all(self.infer_log@) =~= before.push(said));
        if w.counted.is_err() {
            return Err(failed(w.counted));
        }
        self.bump_stats(
            asked.arch_id.as_str(),
            tokens_in,
            c.tokens_in_measured,
            &c.cost_list_usd,
            asked.projected,
        );
        if w.row.is_err() {
            return Err(failed(w.row));
        }
        let mut reg = asked.register;
        raise(&mut reg, asked.role.as_str(), c.text.as_str());
        let id = reg.id.dup();
        self.store.registers.insert(id.as_str(), reg);
        Err(failed(w.written))
    }

    /// Plan a release, where the store said this to its event.
    pub fn plan_release_answered(
        &mut self,
        ctx: &Ctx,
        t: &Task,
        i: usize,
        to_dir: &str,
        logged: Wrote,
    ) -> (r: Result<Releasing, KernelError>)
        requires
            old(self).wf(),
        ensures
            final(self).wf(),
            (final(self)@, outcome(r)) == releasing_answered(
                old(self)@,
                ctx@,
                t@,
                i as nat,
                to_dir@,
                verdict_view(logged),
            ),
    {
        if logged.is_ok() {
            return self.plan_release(ctx, t, i, to_dir);
        }
        let reg = match self.read_register(ctx, t.register.as_str()) {
            Err(e) => return Err(e),
            Ok(reg) => reg,
        };
        if let Err(e) = self.release_dest(to_dir) {
            return Err(e);
        }
        if let Err(e) = plan_files(&reg.artefacts, self.store.windows) {
            return Err(e);
        }
        Err(failed(logged))
    }

    /// Lease a resource, where the store said this.
    pub fn lease_answered(
        &mut self,
        ctx: &Ctx,
        resource: &str,
        ttl_ms: u64,
        w: LeaseAnswers,
    ) -> (r: Result<Lease, KernelError>)
        requires
            old(self).wf(),
        ensures
            final(self).wf(),
            (final(self)@, outcome(r)) == leasing_answered(
                old(self)@,
                ctx@,
                resource@,
                ttl_ms,
                w@,
            ),
    {
        let l = match self.grant(ctx, resource, ttl_ms) {
            Err(e) => return Err(e),
            Ok(l) => l,
        };
        if w.row.is_err() {
            return Err(failed(w.row));
        }
        if w.cleared.is_err() {
            let rows = self.rows_of(&w.left);
            let ghost before = self@.store.leases;
            clear_slot(&mut self.store.leases, resource, ctx.partition.as_str());
            self.store.leases.insert(l.id.as_str(), l.dup());
            let ghost now = self@.store.leases;
            self.put_back(&rows);
            proof {
                let after = self@.store.leases;
                assert forall|id: Seq<char>| after.contains_key(id) implies with_left(
                    now,
                    before,
                    all(w.left@),
                ).contains_key(id) && after[id] == with_left(now, before, all(w.left@))[id] by {
                    if !now.contains_key(id) {
                        let j = choose|j: int|
                            0 <= j < rows@.len() && (#[trigger] rows@[j])@.id == id && after[id]
                                == rows@[j]@;
                        assert(all(w.left@).contains(rows@[j]@.id));
                    }
                }
                assert forall|id: Seq<char>|
                    with_left(now, before, all(w.left@)).contains_key(
                        id,
                    ) implies after.contains_key(id) by {
                    if !now.contains_key(id) {
                        let j = choose|j: int|
                            0 <= j < rows@.len() && (#[trigger] rows@[j])@.id == id;
                        assert(after.contains_key(rows@[j]@.id));
                    }
                }
                assert(after =~= with_left(now, before, all(w.left@)));
            }
            return Err(failed(w.cleared));
        }
        clear_slot(&mut self.store.leases, resource, ctx.partition.as_str());
        self.store.leases.insert(l.id.as_str(), l.dup());
        if w.fence.is_err() {
            return Err(failed(w.fence));
        }
        self.store.fences.insert(resource, l.fence);
        if w.logged.is_err() {
            return Err(failed(w.logged));
        }
        self.record_event("lease.granted", ctx.now_ms, text(l.id.as_str()));
        Ok(l)
    }

    fn put_back(&mut self, rows: &Vec<Lease>)
        requires
            old(self).wf(),
        ensures
            final(self).wf(),
            final(self)@ == (KernelView {
                store: StoreView { leases: final(self)@.store.leases, ..old(self)@.store },
                ..old(self)@
            }),
            ({
                let before = old(self)@.store.leases;
                let after = final(self)@.store.leases;
                &&& forall|id: Seq<char>| #[trigger]
                    before.contains_key(id) ==> after.contains_key(id) && after[id] == before[id]
                &&& forall|j: int|
                    0 <= j < rows@.len() ==> after.contains_key((#[trigger] rows@[j])@.id)
                &&& forall|id: Seq<char>| #[trigger]
                    after.contains_key(id) && !before.contains_key(id) ==> exists|j: int|
                        0 <= j < rows@.len() && (#[trigger] rows@[j])@.id == id && after[id]
                            == rows@[j]@
            }),
    {
        let ghost start = self@;
        let mut i: usize = 0;
        while i < rows.len()
            invariant
                self.wf(),
                i <= rows@.len(),
                start == old(self)@,
                sound(start),
                self@ == (KernelView {
                    store: StoreView { leases: self@.store.leases, ..start.store },
                    ..start
                }),
                forall|id: Seq<char>| #[trigger]
                    start.store.leases.contains_key(id) ==> self@.store.leases.contains_key(id)
                        && self@.store.leases[id] == start.store.leases[id],
                forall|j: int|
                    0 <= j < i ==> self@.store.leases.contains_key((#[trigger] rows@[j])@.id),
                forall|id: Seq<char>|
                    #[trigger] self@.store.leases.contains_key(id)
                        && !start.store.leases.contains_key(id) ==> exists|j: int|
                        0 <= j < i && (#[trigger] rows@[j])@.id == id && self@.store.leases[id]
                            == rows@[j]@,
            decreases rows@.len() - i,
        {
            let ghost now = self@.store.leases;
            let row = rows[i].dup();
            assert(row@ == rows@[i as int]@);
            if !self.store.leases.has(rows[i].id.as_str()) {
                self.store.leases.insert(rows[i].id.as_str(), row);
                assert forall|id: Seq<char>| #[trigger]
                    start.store.leases.contains_key(id) implies self@.store.leases.contains_key(id)
                    && self@.store.leases[id] == start.store.leases[id] by {
                    assert(now.contains_key(id));
                }
                proof {
                    sound_with_fewer_arches(start, self@);
                }
                assert forall|id: Seq<char>|
                    #[trigger] self@.store.leases.contains_key(id)
                        && !start.store.leases.contains_key(id) implies exists|j: int|
                    0 <= j < i + 1 && (#[trigger] rows@[j])@.id == id && self@.store.leases[id]
                        == rows@[j]@ by {
                    if id != rows@[i as int]@.id {
                        assert(now.contains_key(id));
                        let j = choose|j: int|
                            0 <= j < i && (#[trigger] rows@[j])@.id == id && now[id] == rows@[j]@;
                        assert(rows@[j]@.id == id);
                    } else {
                        assert(self@.store.leases[id] == rows@[i as int]@);
                    }
                }
            }
            i += 1;
        }
    }

    fn rows_of(&self, ids: &Vec<String>) -> (r: Vec<Lease>)
        requires
            self.wf(),
        ensures
            forall|j: int|
                0 <= j < r@.len() ==> self@.store.leases.contains_key((#[trigger] r@[j])@.id)
                    && self@.store.leases[r@[j]@.id] == r@[j]@ && all(ids@).contains(r@[j]@.id),
            forall|id: Seq<char>|
                all(ids@).contains(id) && self@.store.leases.contains_key(id) ==> exists|j: int|
                    0 <= j < r@.len() && (#[trigger] r@[j])@.id == id,
    {
        let mut rows: Vec<Lease> = Vec::new();
        let ghost names = all(ids@);
        let mut i: usize = 0;
        while i < ids.len()
            invariant
                self.wf(),
                i <= ids@.len(),
                names == all(ids@),
                forall|j: int|
                    0 <= j < rows@.len() ==> self@.store.leases.contains_key(
                        (#[trigger] rows@[j])@.id,
                    ) && self@.store.leases[rows@[j]@.id] == rows@[j]@ && names.contains(
                        rows@[j]@.id,
                    ),
                forall|n: int|
                    0 <= n < i && self@.store.leases.contains_key(#[trigger] names[n])
                        ==> exists|j: int| 0 <= j < rows@.len() && (#[trigger] rows@[j])@.id
                        == names[n],
            decreases ids@.len() - i,
        {
            let ghost so_far = rows@;
            assert(names[i as int] == ids@[i as int]@);
            if let Some(row) = self.store.leases.get(ids[i].as_str()) {
                let row = row.dup();
                assert(row@.id == names[i as int]);
                rows.push(row);
                assert(rows@[so_far.len() as int]@.id == names[i as int]);
                assert forall|n: int|
                    0 <= n < i + 1 && self@.store.leases.contains_key(
                        #[trigger] names[n],
                    ) implies exists|j: int| 0 <= j < rows@.len() && (#[trigger] rows@[j])@.id
                    == names[n] by {
                    if n < i {
                        let j = choose|j: int|
                            0 <= j < so_far.len() && (#[trigger] so_far[j])@.id == names[n];
                        assert(rows@[j]@.id == names[n]);
                    }
                }
            }
            i += 1;
        }
        assert forall|id: Seq<char>|
            names.contains(id) && self@.store.leases.contains_key(id) implies exists|j: int|
            0 <= j < rows@.len() && (#[trigger] rows@[j])@.id == id by {
            let n = choose|n: int| 0 <= n < names.len() && names[n] == id;
            assert(self@.store.leases.contains_key(names[n]));
        }
        rows
    }

    /// Enrol a device's key, where the store said this to the row and to the event.
    pub fn enroll_device_answered(
        &mut self,
        device_id: &str,
        vk: [u8; 32],
        now: u64,
        kept: Wrote,
        logged: Wrote,
    ) -> (r: Result<(), KernelError>)
        requires
            old(self).wf(),
        ensures
            final(self).wf(),
            (final(self)@, done(r)) == key_enrolling_answered(
                old(self)@,
                device_id@,
                vk@,
                now,
                verdict_view(kept),
                verdict_view(logged),
            ),
    {
        if kept.is_err() {
            return Err(failed(kept));
        }
        if logged.is_ok() {
            return self.enroll_device_at(device_id, vk, now);
        }
        let row = DeviceRow {
            vk_hex: hex_encode(vk.as_slice()),
            trust_class: "full".to_owned(),
            passkey: None,
            enrolled_ms: now,
        };
        assert(row@ =~= key_row(vk@, now));
        self.store.devices.insert(device_id, row);
        self.devices.insert(device_id, DeviceKey { vk });
        proof {
            sound_with_fewer_arches(old(self)@, self@);
        }
        Err(failed(logged))
    }
}

impl<A: ArchAdapter> RealKernel<A> {
    /// Make a register into a prompt for an arch, where the store said this to the event of
    /// its being cut and to that of its being about to be sent.
    pub fn infer_ask_answered(
        &mut self,
        ctx: &Ctx,
        arch_id: &str,
        capability: Capability,
        reg_id: &str,
        cut: Wrote,
        requested: Wrote,
    ) -> (r: Result<Asked, KernelError>)
        requires
            old(self).wf(),
        ensures
            final(self).wf(),
            (final(self)@, outcome(r)) == asking_answered(
                old(self)@,
                ctx@,
                arch_id@,
                capability,
                reg_id@,
                verdict_view(cut),
                verdict_view(requested),
            ),
    {
        let ghost after = asking(old(self)@, ctx@, arch_id@, capability, reg_id@).0;
        let (asked, tokens) = match self.prepare(ctx, arch_id, capability, reg_id) {
            Ok(p) => p,
            Err(e) => return Err(e),
        };
        if asked.projected {
            if cut.is_err() {
                return Err(failed(cut));
            }
            self.note_projection(ctx, &asked, tokens);
        }
        if requested.is_err() {
            assert(self@.store.ledger =~= after.store.ledger.drop_last());
            return Err(failed(requested));
        }
        self.note_request(ctx, reg_id, &asked);
        Ok(asked)
    }
}

/// Whatever the store says while a run is settled, the run has no authority afterwards: its
/// token resolves to nothing and its lease is not in force.
pub proof fn every_exit_settles<A>(
    k: KernelView<A>,
    ctx: CtxView,
    task_id: Seq<char>,
    launch: HarnessLaunchView,
    run: HarnessRun,
    out: Seq<OutFileView>,
    w: SettleAnswersView,
    later: u64,
)
    ensures
        ({
            let (after, r) = harness_settling_answered(k, ctx, task_id, launch, run, out, w);
            &&& session_of(after, launch.token, later) is Err
            &&& !after.harness_tokens.contains_key(text_hash(launch.token))
            &&& !after.locks.contains_key(launch.lease_id)
            &&& (w.released is Ok ==> !after.store.leases.contains_key(launch.lease_id))
            &&& (r is Ok ==> w.recorded is Ok && w.logged is Ok && w.saved is Ok)
            &&& (w.saved is Ok && k.store.tasks.contains_key(task_id) && launch.step_index
                < k.store.tasks[task_id].steps.len() ==> ({
                let row = after.store.tasks[k.store.tasks[task_id].id];
                let ended = row.steps[launch.step_index as int].status;
                ended is Done || ended is Failed
            }))
        }),
{
}

/// A run whose lease could not be kept is given no token.
pub proof fn unkept_lease_arms_nothing<A>(
    k: KernelView<A>,
    ctx: CtxView,
    task_id: Seq<char>,
    name: Seq<char>,
    timeout_ms: u64,
    run: Seq<char>,
    token: Seq<char>,
    stopped: WroteView,
    w: LeaseAnswersView,
)
    requires
        w.row is Err || w.cleared is Err || w.fence is Err || w.logged is Err,
    ensures
        ({
            let (after, r) = launching_answered(
                k,
                ctx,
                task_id,
                name,
                timeout_ms,
                run,
                token,
                stopped,
                w,
            );
            r is Err && after.harness_tokens == k.harness_tokens
        }),
{
}

/// Where the store keeps everything, a run is settled as if it had not been asked.
pub proof fn kept_run_is_settled_as_ever<A>(
    k: KernelView<A>,
    ctx: CtxView,
    task_id: Seq<char>,
    launch: HarnessLaunchView,
    run: HarnessRun,
    out: Seq<OutFileView>,
    w: SettleAnswersView,
)
    requires
        w.recorded is Ok,
        w.attached.blob is Ok,
        w.attached.row is Ok,
        w.attached.written is Ok,
        w.logged is Ok,
        w.released is Ok,
        w.saved is Ok,
    ensures
        harness_settling_answered(k, ctx, task_id, launch, run, out, w) == harness_settling(
            k,
            ctx,
            task_id,
            launch,
            run,
            out,
        ),
{
}

/// A run whose start could not be kept, or whose brief could not be put on the record, has
/// no authority, and its task is as it was.
pub proof fn unkept_start_has_no_authority<A>(
    k: KernelView<A>,
    ctx: CtxView,
    start: HarnessStartView,
    written: Result<(), UnwrittenView>,
    unnoted: Option<UnnotedView>,
    saved: WroteView,
    later: u64,
)
    requires
        materialising_answered(k, ctx, start, written, unnoted, saved).1 is Err,
    ensures
        ({
            let after = materialising_answered(k, ctx, start, written, unnoted, saved).0;
            &&& session_of(after, start.launch.token, later) is Err
            &&& !after.store.leases.contains_key(start.launch.lease_id)
            &&& !after.locks.contains_key(start.launch.lease_id)
            &&& after.store.tasks == k.store.tasks
        }),
{
    let placed = brief_placed(start.plan, written);
    what_is_placed_is_on_the_record(k, start.plan.brief, placed, ctx.now_ms);
    if unnoted is Some && unnoted->0.file < placed {
        what_is_placed_is_on_the_record(k, start.plan.brief, unnoted->0.file, ctx.now_ms);
    }
}

/// A prompt is sent only when the record says so, and an answer is in the register only
/// when the record says that it came.
pub proof fn inference_never_runs_ahead_of_the_record<A: ArchAdapter>(
    k: KernelView<A>,
    ctx: CtxView,
    arch_id: Seq<char>,
    capability: Capability,
    reg_id: Seq<char>,
    cut: WroteView,
    requested: WroteView,
    asked: AskedView,
    answer: Result<CompletionView, AdapterErrorView>,
    now: u64,
    w: AnswerAnswersView,
)
    ensures
        ({
            let (after, r) = asking_answered(k, ctx, arch_id, capability, reg_id, cut, requested);
            &&& r is Ok ==> requested is Ok && after.store.ledger.last().kind == "infer"@
            &&& requested is Err ==> r is Err
            &&& after.store.registers == k.store.registers
        }),
        ({
            let (after, r) = answering_answered(k, ctx, asked, answer, now, w);
            &&& w.completed is Err ==> after == k
            &&& after.store.registers != k.store.registers ==> w.completed is Ok && answer is Ok
                && after.store.ledger[k.store.ledger.len() as int].kind == "infer"@
        }),
{
}

/// A fence that was given out is spent, whatever the store says: the next lease of the
/// resource is above it.
pub proof fn unkept_fence_is_spent<A>(
    k: KernelView<A>,
    ctx: CtxView,
    resource: Seq<char>,
    ttl_ms: u64,
    w: LeaseAnswersView,
)
    requires
        leasing(k, ctx, resource, ttl_ms).1 is Ok,
    ensures
        ({
            let (after, r) = leasing_answered(k, ctx, resource, ttl_ms, w);
            let l = leasing(k, ctx, resource, ttl_ms).1->Ok_0;
            &&& last_fence(after.home, resource) == l.fence
            &&& l.fence > last_fence(k.home, resource)
            &&& after.locks.contains_key(l.id) && after.locks[l.id] == l
            &&& r is Ok <==> w.row is Ok && w.cleared is Ok && w.fence is Ok && w.logged is Ok
            &&& r is Ok ==> (after, r) == leasing(k, ctx, resource, ttl_ms)
        }),
{
}

/// No bytes are handed out for a release that the record does not have.
pub proof fn unrecorded_release_hands_out_nothing<A>(
    k: KernelView<A>,
    ctx: CtxView,
    t: TaskView,
    i: nat,
    to_dir: Seq<char>,
    logged: WroteView,
)
    ensures
        releasing_answered(k, ctx, t, i, to_dir, logged).1 is Ok ==> logged is Ok
            && releasing_answered(k, ctx, t, i, to_dir, logged).0.store.ledger.last().kind
            == "artefact.released"@,
        logged is Err ==> releasing_answered(k, ctx, t, i, to_dir, logged).0 == k,
{
}

} // verus!
