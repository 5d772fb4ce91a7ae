//! Running a harness step: its lease and its token, what it may attach, and how it is
//! settled.
use crate::artefacts::{address, address_of, attaching, task_subject};
use crate::error::{error_text, KernelError, KernelErrorView};
use crate::hash::{hash_text, text_hash};
use crate::json::{texts_json, texts_to_json, Fields, Json, JsonView};
use crate::kernel::{
    outcome, register_read, sound, with_event, HarnessTokenState, HarnessTokenStateView, KernelView,
    RealKernel,
};
use crate::launch::{exit_label, ExitReason, HarnessRun};
use crate::leases::{capped_sum, expired, leasing};
use crate::model::{all, dup_all, opt, verdict_view, Duplicate, Same};
use crate::outside::{
    debug_of, debug_text, fresh_key_text, fresh_uuid, is_key_text, is_uuid_text,
};
use crate::path::{is_below, join_path, joined, leads_down};
use crate::principal::{Ctx, CtxView, Principal, PrincipalView};
use crate::register::{ArtefactRef, ArtefactRefView};
use crate::scheduler::with_step;
use crate::stops::is_stopped;
use crate::store::{BlobEnvelope, BlobEnvelopeView, Lease, LeaseView, StoreView};
use crate::table::Table;
use crate::task::{
    all_done, next_step, status_name, status_text, StepKind, StepKindView, StepStatus,
    StepStatusView, StepView, Task, TaskStatus, TaskView,
};
use crate::tasks::{alphanumeric, is_alphanumeric, seen, task_saved};
use crate::text::{
    before, begins, begins_with, cat, cat3, cat4, cat5, chars_of, comes_before, decimal,
    decimal_text, same,
};
use crate::workspace::{
    brief_noted, harness_clearance, harness_level, readings_of, workspace_of, Workspace,
    WorkspacePlan, WorkspacePlanView,
};
use vstd::prelude::*;
use vstd::slice::slice_to_vec;
use vstd::string::*;

verus! {

/// What a harness is told to do.
pub const HARNESS_PROMPT: &'static str = "You are the drafting harness. Read TASK.md, PLAN.md and BRIEF/. Write the proposal to OUT/proposal.md, then call vk_attach_artefact with kind=proposal and path=OUT/proposal.md, then call vk_request_approval.";

/// How much longer than the run its lease lasts, so that it can be settled.
pub const HARNESS_SETTLE_SLACK_MS: u64 = 300_000;

/// How large one file of a harness may be.
pub const HARNESS_MAX_FILE_BYTES: u64 = 2_097_152;

/// How much one run may attach.
pub const HARNESS_MAX_RUN_BYTES: u64 = 16_777_216;

/// How often the connections of a run are sampled.
pub const HARNESS_SAMPLE_EVERY_MS: u64 = 500;

/// A character that the id of a task with a workspace may have.
pub open spec fn plain_char(c: char) -> bool {
    alphanumeric(c) || c == '-' || c == '_'
}

/// Whether an id can name a directory.
pub open spec fn plain_name(id: Seq<char>) -> bool {
    id.len() > 0 && forall|i: int| 0 <= i < id.len() ==> plain_char(#[trigger] id[i])
}

/// The workspace of a task.
pub open spec fn workspace_dir(s: StoreView, task_id: Seq<char>) -> Seq<char> {
    joined(joined(s.state_dir, "harness"@, s.windows), task_id, s.windows)
}

/// Where the configuration of a task's run is: beside the workspace, never in it.
pub open spec fn config_dir(s: StoreView, task_id: Seq<char>) -> Seq<char> {
    joined(joined(s.state_dir, "harness"@, s.windows), task_id + ".mcp"@, s.windows)
}

/// The resource that a run of a task holds.
pub open spec fn harness_resource(task_id: Seq<char>) -> Seq<char> {
    "harness:"@ + task_id
}

/// The kernel with a live token.
pub open spec fn minted<A>(
    k: KernelView<A>,
    lease_id: Seq<char>,
    task_id: Seq<char>,
    token: Seq<char>,
) -> KernelView<A> {
    KernelView {
        harness_tokens: k.harness_tokens.insert(
            text_hash(token),
            HarnessTokenStateView { lease_id, task_id, bytes_attached: 0, oversize: None },
        ),
        ..k
    }
}

/// The kernel once a run has no authority any more: its token is forgotten, its lease
/// released and its row gone.
pub open spec fn revoked<A>(k: KernelView<A>, lease_id: Seq<char>, token: Seq<char>) -> KernelView<A> {
    KernelView {
        harness_tokens: k.harness_tokens.remove(text_hash(token)),
        locks: k.locks.remove(lease_id),
        store: StoreView { leases: k.store.leases.remove(lease_id), ..k.store },
        ..k
    }
}

/// Whether a run of a task is live.
pub open spec fn is_live<A>(k: KernelView<A>, task_id: Seq<char>) -> bool {
    exists|key: Seq<char>| #[trigger]
        k.harness_tokens.contains_key(key) && k.harness_tokens[key].task_id == task_id
}

/// A step as a refusal names it.
pub open spec fn kind_text(kind: StepKindView) -> Seq<char> {
    match kind {
        StepKindView::Plan { arch_id } => "Plan { arch_id: "@ + debug_text(arch_id) + " }"@,
        StepKindView::Draft { arch_id } => "Draft { arch_id: "@ + debug_text(arch_id) + " }"@,
        StepKindView::Judge { arch_id } => "Judge { arch_id: "@ + debug_text(arch_id) + " }"@,
        StepKindView::Harness { name } => "Harness { name: "@ + debug_text(name) + " }"@,
        StepKindView::Approve => "Approve"@,
        StepKindView::Release { to_dir } => "Release { to_dir: "@ + debug_text(to_dir) + " }"@,
    }
}

/// Who a harness is: the machine that holds this lease, at the clearance of harnesses.
pub open spec fn harness_ctx<A>(
    k: KernelView<A>,
    lease_id: Seq<char>,
    partition: Seq<char>,
    now_ms: u64,
) -> CtxView {
    CtxView {
        principal: PrincipalView::Machine { node_id: k.node_id, lease_id },
        clearance: harness_level(),
        partition,
        now_ms,
    }
}

/// Who holds the lease of one run: a principal of its own, so that no two runs are
/// one holder.
pub open spec fn run_ctx<A>(k: KernelView<A>, ctx: CtxView, run: Seq<char>) -> CtxView {
    CtxView {
        principal: PrincipalView::Machine {
            node_id: k.node_id,
            lease_id: "harness-run:"@ + run,
        },
        ..ctx
    }
}

/// What a run needs: where it happens, its lease and its token, and how the register
/// stood before it.
pub struct HarnessLaunch {
    pub workspace: String,
    pub config_dir: String,
    pub lease_id: String,
    /// The run's secret.
    pub token: String,
    pub prompt: String,
    pub name: String,
    pub step_index: usize,
    pub artefacts_before: usize,
}

/// What a [`HarnessLaunch`] says.
#[verifier::ext_equal]
pub struct HarnessLaunchView {
    pub workspace: Seq<char>,
    pub config_dir: Seq<char>,
    pub lease_id: Seq<char>,
    pub token: Seq<char>,
    pub prompt: Seq<char>,
    pub name: Seq<char>,
    pub step_index: nat,
    pub artefacts_before: nat,
}

impl View for HarnessLaunch {
    type V = HarnessLaunchView;

    open spec fn view(&self) -> HarnessLaunchView {
        HarnessLaunchView {
            workspace: self.workspace@,
            config_dir: self.config_dir@,
            lease_id: self.lease_id@,
            token: self.token@,
            prompt: self.prompt@,
            name: self.name@,
            step_index: self.step_index as nat,
            artefacts_before: self.artefacts_before as nat,
        }
    }
}

/// A run whose workspace is still to be written.
pub struct HarnessStart {
    pub launch: HarnessLaunch,
    pub plan: WorkspacePlan,
    pub task: Task,
}

/// What a [`HarnessStart`] says.
#[verifier::ext_equal]
pub struct HarnessStartView {
    pub launch: HarnessLaunchView,
    pub plan: WorkspacePlanView,
    pub task: TaskView,
}

impl View for HarnessStart {
    type V = HarnessStartView;

    open spec fn view(&self) -> HarnessStartView {
        HarnessStartView { launch: self.launch@, plan: self.plan@, task: self.task@ }
    }
}

/// Why a harness step cannot be run now, if it cannot; a stopped node is not among
/// these.
pub open spec fn launch_fault<A>(
    k: KernelView<A>,
    t: TaskView,
    task_id: Seq<char>,
    name: Seq<char>,
) -> Option<KernelErrorView> {
    let n = next_step(t.steps) as int;
    if n >= t.steps.len() {
        Some(KernelErrorView::Gate("task "@ + task_id + " has no steps left to run"@))
    } else if !(t.steps[n].kind is Harness) {
        Some(
            KernelErrorView::Gate(
                "the next step of task "@ + task_id + " is not a harness step: "@ + kind_text(
                    t.steps[n].kind,
                ),
            ),
        )
    } else if t.steps[n].kind->name != name {
        Some(
            KernelErrorView::Gate(
                "task "@ + task_id + "'s harness step is named "@ + debug_text(
                    t.steps[n].kind->name,
                ) + ", not "@ + debug_text(name),
            ),
        )
    } else if t.steps[n].status is Running || is_live(k, task_id) {
        Some(KernelErrorView::Gate("harness already running for task "@ + task_id))
    } else {
        None
    }
}

/// What is said when a workspace could not be made.
pub open spec fn not_materialised(why: Seq<char>) -> KernelErrorView {
    KernelErrorView::Gate("materialise harness workspace: "@ + why)
}

/// Launching a harness step: checked, leased, given a token, and its workspace
/// planned. Where there is nothing it may see, its authority is taken back at once.
pub open spec fn launching<A>(
    k: KernelView<A>,
    ctx: CtxView,
    task_id: Seq<char>,
    name: Seq<char>,
    timeout_ms: u64,
    run: Seq<char>,
    token: Seq<char>,
) -> (KernelView<A>, Result<HarnessStartView, KernelErrorView>) {
    if !plain_name(task_id) {
        (
            k,
            Err(KernelErrorView::Gate("task id "@ + debug_text(task_id) + " is not a plain name"@)),
        )
    } else {
        match seen(k.store, ctx, task_id) {
            None => (k, Err(KernelErrorView::NotFound(task_id))),
            Some(t) => if t.status == TaskStatus::Done || t.status == TaskStatus::Failed {
                (
                    k,
                    Err(
                        KernelErrorView::Gate(
                            "task "@ + task_id + " is already "@ + status_text(t.status),
                        ),
                    ),
                )
            } else if is_stopped(k, "node"@) {
                (
                    task_saved(k, TaskView { status: TaskStatus::Stopped, ..t }),
                    Err(KernelErrorView::Stopped("node"@)),
                )
            } else {
                match launch_fault(k, t, task_id, name) {
                    Some(e) => (k, Err(e)),
                    None => match leasing(
                        k,
                        run_ctx(k, ctx, run),
                        harness_resource(task_id),
                        capped_sum(timeout_ms, HARNESS_SETTLE_SLACK_MS),
                    ) {
                        (after, Err(e)) => (after, Err(e)),
                        (leased, Ok(lease)) => {
                            let armed = minted(leased, lease.id, task_id, token);
                            let hctx = harness_ctx(k, lease.id, ctx.partition, ctx.now_ms);
                            let reg = k.store.registers[t.register];
                            match workspace_of(readings_of(armed.store), hctx, t.register) {
                                Err(why) => (
                                    revoked(armed, lease.id, token),
                                    Err(not_materialised(why)),
                                ),
                                Ok(plan) => (
                                    armed,
                                    Ok(
                                        HarnessStartView {
                                            launch: HarnessLaunchView {
                                                workspace: workspace_dir(k.store, task_id),
                                                config_dir: config_dir(k.store, task_id),
                                                lease_id: lease.id,
                                                token,
                                                prompt: HARNESS_PROMPT@,
                                                name,
                                                step_index: next_step(t.steps),
                                                artefacts_before: reg.artefacts.len(),
                                            },
                                            plan,
                                            task: t,
                                        },
                                    ),
                                ),
                            }
                        },
                    },
                }
            },
        }
    }
}

/// A workspace that was not written to the end.
#[derive(Debug)]
pub struct Unwritten {
    /// How many files of the brief were written before that.
    pub brief: usize,
    pub why: String,
}

/// What an [`Unwritten`] says.
#[verifier::ext_equal]
pub struct UnwrittenView {
    pub brief: nat,
    pub why: Seq<char>,
}

impl View for Unwritten {
    type V = UnwrittenView;

    open spec fn view(&self) -> UnwrittenView {
        UnwrittenView { brief: self.brief as nat, why: self.why@ }
    }
}

/// What is said of whether a workspace was written.
pub open spec fn written_view(r: Result<(), Unwritten>) -> Result<(), UnwrittenView> {
    match r {
        Ok(()) => Ok(()),
        Err(u) => Err(u@),
    }
}

/// How many files of a brief are within the harness's reach.
pub open spec fn brief_placed(plan: WorkspacePlanView, written: Result<(), UnwrittenView>) -> nat {
    match written {
        Err(u) => if u.brief < plan.brief.len() {
            u.brief
        } else {
            plan.brief.len()
        },
        Ok(()) => plan.brief.len(),
    }
}

/// Why a workspace is not there, if it is not: it could not be written, or what belongs
/// in it could not be read.
pub open spec fn workspace_fault(plan: WorkspacePlanView, written: Result<(), UnwrittenView>) -> Option<
    Seq<char>,
> {
    match written {
        Err(u) => Some(u.why),
        Ok(()) => plan.fault,
    }
}

/// What becomes of a launch once its workspace was written, or was not: what was placed
/// in it is on the record, and the step is running, or the run has no authority any more.
pub open spec fn materialising<A>(
    k: KernelView<A>,
    ctx: CtxView,
    start: HarnessStartView,
    written: Result<(), UnwrittenView>,
) -> (KernelView<A>, Result<HarnessLaunchView, KernelErrorView>) {
    let noted = brief_noted(k, start.plan.brief, brief_placed(start.plan, written), ctx.now_ms);
    match workspace_fault(start.plan, written) {
        Some(why) => (
            revoked(noted, start.launch.lease_id, start.launch.token),
            Err(not_materialised(why)),
        ),
        None => {
            let i = start.launch.step_index as int;
            let running = with_step(
                start.task,
                i,
                StepView {
                    status: StepStatusView::Running,
                    started_ms: Some(ctx.now_ms),
                    ..start.task.steps[i]
                },
                TaskStatus::Running,
            );
            (task_saved(noted, running), Ok(start.launch))
        },
    }
}

/// Who a token stands for, and what it may act on.
#[derive(Debug)]
pub struct HarnessSession {
    pub ctx: Ctx,
    pub task_id: String,
    pub register: String,
}

/// What a [`HarnessSession`] says.
#[verifier::ext_equal]
pub struct HarnessSessionView {
    pub ctx: CtxView,
    pub task_id: Seq<char>,
    pub register: Seq<char>,
}

impl View for HarnessSession {
    type V = HarnessSessionView;

    open spec fn view(&self) -> HarnessSessionView {
        HarnessSessionView { ctx: self.ctx@, task_id: self.task_id@, register: self.register@ }
    }
}

/// The session of a token: refused when the token is unknown, its lease is gone or
/// over, or is not one of a harness.
pub open spec fn session_of<A>(k: KernelView<A>, token: Seq<char>, now: u64) -> Result<
    HarnessSessionView,
    KernelErrorView,
> {
    let key = text_hash(token);
    if !k.harness_tokens.contains_key(key) {
        Err(KernelErrorView::I1("unknown harness token"@))
    } else {
        let state = k.harness_tokens[key];
        let lease = k.store.leases[state.lease_id];
        if !k.store.leases.contains_key(state.lease_id) {
            Err(KernelErrorView::I1("harness token's lease is gone"@))
        } else if expired(lease, now) {
            Err(KernelErrorView::I1("expired harness token"@))
        } else if lease.resource != harness_resource(state.task_id) {
            Err(KernelErrorView::I1("token is not a harness lease"@))
        } else if !k.store.tasks.contains_key(state.task_id) {
            Err(KernelErrorView::NotFound(state.task_id))
        } else {
            Ok(
                HarnessSessionView {
                    ctx: harness_ctx(k, state.lease_id, lease.partition, now),
                    task_id: state.task_id,
                    register: k.store.tasks[state.task_id].register,
                },
            )
        }
    }
}

/// Where a file of a task's workspace is, if the path stays in it.
pub open spec fn file_path(s: StoreView, task_id: Seq<char>, rel: Seq<char>) -> Result<
    Seq<char>,
    KernelErrorView,
> {
    if leads_down(rel, s.windows) {
        Ok(joined(workspace_dir(s, task_id), rel, s.windows))
    } else {
        Err(
            KernelErrorView::Gate(
                "workspace path "@ + debug_text(rel)
                    + " must be a relative subpath of the workspace"@,
            ),
        )
    }
}

/// A file as it was found: its length, and its bytes. What could not be read has the
/// reason in its place.
#[derive(Debug)]
pub struct FileRead {
    pub len: Result<u64, String>,
    pub bytes: Result<Vec<u8>, String>,
}

/// What a [`FileRead`] says.
pub struct FileReadView {
    pub len: Result<u64, Seq<char>>,
    pub bytes: Result<Seq<u8>, Seq<char>>,
}

impl View for FileRead {
    type V = FileReadView;

    open spec fn view(&self) -> FileReadView {
        FileReadView {
            len: match self.len {
                Ok(n) => Ok(n),
                Err(e) => Err(e@),
            },
            bytes: match self.bytes {
                Ok(b) => Ok(b@),
                Err(e) => Err(e@),
            },
        }
    }
}

/// What is said of a file that is too large.
pub open spec fn file_too_large(what: Seq<char>, len: u64) -> Seq<char> {
    what + " is "@ + decimal(len as nat) + " bytes, above the "@ + decimal(
        HARNESS_MAX_FILE_BYTES as nat,
    ) + "-byte limit for one file"@
}

/// How a file breaks the limits of a run, if it does.
pub open spec fn breach(rel: Seq<char>, len: u64, attached: u64) -> Option<Seq<char>> {
    if len > HARNESS_MAX_FILE_BYTES {
        Some(file_too_large(rel, len))
    } else if attached + len > HARNESS_MAX_RUN_BYTES {
        Some(
            rel + " ("@ + decimal(len as nat) + " bytes) would take the run past the "@ + decimal(
                HARNESS_MAX_RUN_BYTES as nat,
            ) + "-byte limit"@,
        )
    } else {
        None
    }
}

/// The kernel with what a token stands for changed.
pub open spec fn with_token<A>(
    k: KernelView<A>,
    key: Seq<char>,
    state: HarnessTokenStateView,
) -> KernelView<A> {
    KernelView { harness_tokens: k.harness_tokens.insert(key, state), ..k }
}

/// Attaching a file of the workspace for a harness: within the limits, and at the
/// clearance of harnesses. A file past a limit is refused and remembered.
pub open spec fn attaching_file<A>(
    k: KernelView<A>,
    token: Seq<char>,
    now: u64,
    kind: Seq<char>,
    rel: Seq<char>,
    file: FileReadView,
) -> (KernelView<A>, Result<BlobEnvelopeView, KernelErrorView>) {
    let key = text_hash(token);
    let state = k.harness_tokens[key];
    match session_of(k, token, now) {
        Err(e) => (k, Err(e)),
        Ok(session) => match file_path(k.store, session.task_id, rel) {
            Err(e) => (k, Err(e)),
            Ok(_) => match file.len {
                Err(why) => (k, Err(KernelErrorView::NotFound(rel + ": "@ + why))),
                Ok(len) => match breach(rel, len, state.bytes_attached) {
                    Some(why) => (
                        with_token(
                            k,
                            key,
                            HarnessTokenStateView {
                                oversize: match state.oversize {
                                    Some(first) => Some(first),
                                    None => Some(rel),
                                },
                                ..state
                            },
                        ),
                        Err(KernelErrorView::Gate(why)),
                    ),
                    None => match file.bytes {
                        Err(why) => (k, Err(KernelErrorView::NotFound(rel + ": "@ + why))),
                        Ok(bytes) => match attaching(k, session.ctx, session.register, kind, bytes) {
                            (after, Err(e)) => (after, Err(e)),
                            (after, Ok(env)) => (
                                with_token(
                                    after,
                                    key,
                                    HarnessTokenStateView {
                                        bytes_attached: (state.bytes_attached + len) as u64,
                                        ..state
                                    },
                                ),
                                Ok(env),
                            ),
                        },
                    },
                },
            },
        },
    }
}

/// A file that a run left under `OUT`: its name, and what was found of it.
#[derive(Debug)]
pub struct OutFile {
    pub name: String,
    pub file: FileRead,
}

/// What an [`OutFile`] says.
pub struct OutFileView {
    pub name: Seq<char>,
    pub file: FileReadView,
}

impl View for OutFile {
    type V = OutFileView;

    open spec fn view(&self) -> OutFileView {
        OutFileView { name: self.name@, file: self.file@ }
    }
}

/// Whether a name is that of the output a task declares.
pub open spec fn is_declared(name: Seq<char>, artefact_type: Seq<char>) -> bool {
    name == artefact_type || begins(name, artefact_type + "."@)
}

/// Which of the first `n` names is the declared output: the first of them in order.
pub open spec fn declared_at(
    names: Seq<Seq<char>>,
    artefact_type: Seq<char>,
    n: nat,
) -> Option<int>
    decreases n,
{
    if n == 0 {
        None
    } else {
        let found = declared_at(names, artefact_type, (n - 1) as nat);
        let name = names[n - 1];
        if is_declared(name, artefact_type) && (found is None || before(name, names[found->0])) {
            Some(n - 1)
        } else {
            found
        }
    }
}

/// The declared output comes before every other file that could be it, and nothing
/// that is not declared is it.
pub proof fn declared_output_is_the_first(names: Seq<Seq<char>>, artefact_type: Seq<char>, n: nat)
    requires
        n <= names.len(),
    ensures
        match declared_at(names, artefact_type, n) {
            Some(i) => {
                &&& 0 <= i < n
                &&& is_declared(names[i], artefact_type)
                &&& forall|j: int|
                    0 <= j < n && is_declared(#[trigger] names[j], artefact_type) ==> !before(
                        names[j],
                        names[i],
                    )
            },
            None => forall|j: int|
                0 <= j < n ==> !is_declared(#[trigger] names[j], artefact_type),
        },
    decreases n,
{
    if n > 0 {
        declared_output_is_the_first(names, artefact_type, (n - 1) as nat);
        let found = declared_at(names, artefact_type, (n - 1) as nat);
        let name = names[n - 1];
        crate::text::before_irreflexive(name);
        if is_declared(name, artefact_type) && found is Some && before(name, names[found->0]) {
            assert forall|j: int|
                0 <= j < n && is_declared(#[trigger] names[j], artefact_type) implies !before(
                names[j],
                name,
            ) by {
                if j < n - 1 && before(names[j], name) {
                    crate::text::before_transitive(names[j], name, names[found->0]);
                }
            }
        }
    }
}

/// Which of these names is the output that a task declares.
pub fn declared_output(names: &Vec<String>, artefact_type: &str) -> (r: Option<usize>)
    ensures
        match r {
            Some(i) => declared_at(all(names@), artefact_type@, names@.len()) == Some(i as int),
            None => declared_at(all(names@), artefact_type@, names@.len()) is None,
        },
        r matches Some(i) ==> i < names@.len(),
{
    let start = cat(artefact_type, ".");
    let ghost views = all(names@);
    let mut found: Option<usize> = None;
    let mut i: usize = 0;
    while i < names.len()
        invariant
            i <= names@.len(),
            views == all(names@),
            start@ == artefact_type@ + "."@,
            match found {
                Some(f) => f < i && declared_at(views, artefact_type@, i as nat) == Some(f as int),
                None => declared_at(views, artefact_type@, i as nat) is None,
            },
        decreases names@.len() - i,
    {
        assert(views[i as int] == names@[i as int]@);
        let name = names[i].as_str();
        if same(name, artefact_type) || begins_with(name, start.as_str()) {
            match found {
                None => {
                    found = Some(i);
                },
                Some(f) => {
                    assert(views[f as int] == names@[f as int]@);
                    if comes_before(name, names[f].as_str()) {
                        found = Some(i);
                    }
                },
            }
        }
        i += 1;
    }
    found
}

/// The names of files.
pub open spec fn out_names(out: Seq<OutFileView>) -> Seq<Seq<char>> {
    out.map_values(|f: OutFileView| f.name)
}

/// Whether a register refers to this address.
pub open spec fn refers_to(artefacts: Seq<ArtefactRefView>, hash: Seq<char>) -> bool {
    exists|i: int| 0 <= i < artefacts.len() && (#[trigger] artefacts[i]).hash == hash
}

/// What is to be attached of what a run left, if anything is, or why the run fails: what
/// it attached itself is the task's artefact, and otherwise its declared output is.
pub open spec fn harvest<A>(
    k: KernelView<A>,
    ctx: CtxView,
    task_id: Seq<char>,
    launch: HarnessLaunchView,
    out: Seq<OutFileView>,
) -> Result<Option<Seq<u8>>, Seq<char>> {
    let key = text_hash(launch.token);
    if k.harness_tokens.contains_key(key) && k.harness_tokens[key].oversize is Some {
        Err(
            "harness attached more than the limit allows: "@ + k.harness_tokens[key].oversize->0,
        )
    } else if !k.store.tasks.contains_key(task_id) {
        Err("task "@ + task_id + " is gone"@)
    } else {
        let t = k.store.tasks[task_id];
        match register_read(k.store, ctx, t.register) {
            Err(e) => Err(error_text(e)),
            Ok(reg) => if reg.artefacts.len() > launch.artefacts_before {
                Ok(None)
            } else {
                match declared_at(out_names(out), t.artefact_type, out.len()) {
                    None => Err("harness produced no artefact"@),
                    Some(i) => {
                        let name = out[i].name;
                        let len = match out[i].file.len {
                            Ok(n) => n,
                            Err(_) => 0,
                        };
                        if len > HARNESS_MAX_FILE_BYTES {
                            Err(file_too_large("OUT/"@ + name, len))
                        } else {
                            match out[i].file.bytes {
                                Err(why) => Err("read OUT/"@ + name + ": "@ + why),
                                Ok(bytes) => if refers_to(
                                    reg.artefacts,
                                    address(task_subject(reg.task_id), bytes),
                                ) {
                                    Ok(None)
                                } else {
                                    Ok(Some(bytes))
                                },
                            }
                        }
                    },
                }
            },
        }
    }
}

/// What is recorded of the connections of a run.
pub(crate) fn connections_record(task_id: &str, launch: &HarnessLaunch, run: &HarnessRun) -> (r:
    HarnessConnectionsRecord)
    ensures
        r@ == connections_of(task_id@, launch@, *run),
{
    let rec = HarnessConnectionsRecord {
        task_id: task_id.to_owned(),
        step_index: launch.step_index,
        lease_id: launch.lease_id.dup(),
        harness: launch.name.dup(),
        connections: dup_all(&run.connections),
        samples: run.samples,
        sample_every_ms: HARNESS_SAMPLE_EVERY_MS,
        governed: run.governed,
        exit: run.exit_reason.label(),
        duration_ms: run.duration_ms,
    };
    assert(rec@ =~= connections_of(task_id@, launch@, *run));
    rec
}

/// The row of a task whose harness step ended so.
pub(crate) fn ended_row(task: Task, i: usize, verdict: Result<(), String>, now: u64) -> (r: Task)
    requires
        i < task.steps@.len(),
    ensures
        r@ == harness_ended(task@, i as int, verdict_view(verdict), now),
{
    let mut t = task;
    let ghost said = verdict_view(verdict);
    let mut s = t.steps[i].dup();
    let failed = verdict.is_err();
    s.status = match verdict {
        Ok(()) => StepStatus::Done,
        Err(why) => StepStatus::Failed(why),
    };
    s.ended_ms = Some(now);
    let ghost step = s@;
    let ghost steps = all(t.steps@);
    t.steps.set(i, s);
    assert(all(t.steps@) =~= steps.update(i as int, step));
    t.status = if failed {
        TaskStatus::Failed
    } else if t.finished() {
        TaskStatus::Done
    } else {
        TaskStatus::Running
    };
    assert(t@ =~= harness_ended(task@, i as int, said, now));
    t
}

/// Collecting what a run left.
pub open spec fn collecting<A>(
    k: KernelView<A>,
    ctx: CtxView,
    task_id: Seq<char>,
    launch: HarnessLaunchView,
    out: Seq<OutFileView>,
) -> (KernelView<A>, Result<(), Seq<char>>) {
    let t = k.store.tasks[task_id];
    match harvest(k, ctx, task_id, launch, out) {
        Err(why) => (k, Err(why)),
        Ok(None) => (k, Ok(())),
        Ok(Some(bytes)) => match attaching(k, ctx, t.register, t.artefact_type, bytes) {
            (after, Err(e)) => (after, Err(error_text(e))),
            (after, Ok(_)) => (after, Ok(())),
        },
    }
}

/// What one run was connected to, as the record has it.
#[derive(Debug)]
pub struct HarnessConnectionsRecord {
    pub task_id: String,
    pub step_index: usize,
    pub lease_id: String,
    pub harness: String,
    pub connections: Vec<String>,
    pub samples: usize,
    pub sample_every_ms: u64,
    pub governed: bool,
    pub exit: String,
    pub duration_ms: u64,
}

/// What a [`HarnessConnectionsRecord`] says.
#[verifier::ext_equal]
pub struct HarnessConnectionsRecordView {
    pub task_id: Seq<char>,
    pub step_index: nat,
    pub lease_id: Seq<char>,
    pub harness: Seq<char>,
    pub connections: Seq<Seq<char>>,
    pub samples: nat,
    pub sample_every_ms: u64,
    pub governed: bool,
    pub exit: Seq<char>,
    pub duration_ms: u64,
}

impl View for HarnessConnectionsRecord {
    type V = HarnessConnectionsRecordView;

    open spec fn view(&self) -> HarnessConnectionsRecordView {
        HarnessConnectionsRecordView {
            task_id: self.task_id@,
            step_index: self.step_index as nat,
            lease_id: self.lease_id@,
            harness: self.harness@,
            connections: all(self.connections@),
            samples: self.samples as nat,
            sample_every_ms: self.sample_every_ms,
            governed: self.governed,
            exit: self.exit@,
            duration_ms: self.duration_ms,
        }
    }
}

/// What the record says of the connections of a run.
pub open spec fn connections_json(c: HarnessConnectionsRecordView) -> JsonView {
    JsonView::Object(
        seq![
            ("task_id"@, JsonView::Text(c.task_id)),
            ("step_index"@, JsonView::Unsigned(c.step_index)),
            ("lease_id"@, JsonView::Text(c.lease_id)),
            ("harness"@, JsonView::Text(c.harness)),
            ("connections"@, texts_json(c.connections)),
            ("samples"@, JsonView::Unsigned(c.samples)),
            ("sample_every_ms"@, JsonView::Unsigned(c.sample_every_ms as nat)),
            ("governed"@, JsonView::Bool(c.governed)),
            ("exit"@, JsonView::Text(c.exit)),
            ("duration_ms"@, JsonView::Unsigned(c.duration_ms as nat)),
        ],
    )
}

fn connections_to_json(c: &HarnessConnectionsRecord) -> (r: Json)
    ensures
        r@ == connections_json(c@),
{
    let mut f = Fields::new();
    f.put_text("task_id", c.task_id.as_str());
    f.put("step_index", Json::Unsigned(c.step_index as u64));
    f.put_text("lease_id", c.lease_id.as_str());
    f.put_text("harness", c.harness.as_str());
    f.put("connections", texts_to_json(&c.connections));
    f.put("samples", Json::Unsigned(c.samples as u64));
    f.put("sample_every_ms", Json::Unsigned(c.sample_every_ms));
    f.put("governed", Json::Bool(c.governed));
    f.put_text("exit", c.exit.as_str());
    f.put("duration_ms", Json::Unsigned(c.duration_ms));
    assert(f@ =~= connections_json(c@)->Object_0);
    f.object()
}

/// What the record says of a harness step that ended.
pub open spec fn harness_step_json(
    task_id: Seq<char>,
    i: nat,
    done: bool,
    governed: bool,
    exit: Seq<char>,
    duration_ms: u64,
) -> JsonView {
    JsonView::Object(
        seq![
            ("task_id"@, JsonView::Text(task_id)),
            ("step"@, JsonView::Unsigned(i)),
            (
                "status"@,
                JsonView::Text(
                    if done {
                        "done"@
                    } else {
                        "failed"@
                    },
                ),
            ),
            ("governed"@, JsonView::Bool(governed)),
            ("exit"@, JsonView::Text(exit)),
            ("duration_ms"@, JsonView::Unsigned(duration_ms as nat)),
        ],
    )
}

pub(crate) fn harness_step_to_json(
    task_id: &str,
    i: usize,
    done: bool,
    governed: bool,
    exit: &str,
    duration_ms: u64,
) -> (r: Json)
    ensures
        r@ == harness_step_json(task_id@, i as nat, done, governed, exit@, duration_ms),
{
    let mut f = Fields::new();
    f.put_text("task_id", task_id);
    f.put("step", Json::Unsigned(i as u64));
    f.put_text(
        "status",
        if done {
            "done"
        } else {
            "failed"
        },
    );
    f.put("governed", Json::Bool(governed));
    f.put_text("exit", exit);
    f.put("duration_ms", Json::Unsigned(duration_ms));
    assert(f@ =~= harness_step_json(
        task_id@,
        i as nat,
        done,
        governed,
        exit@,
        duration_ms,
    )->Object_0);
    f.object()
}

/// The record of a run's connections.
pub open spec fn connections_of(
    task_id: Seq<char>,
    launch: HarnessLaunchView,
    run: HarnessRun,
) -> HarnessConnectionsRecordView {
    HarnessConnectionsRecordView {
        task_id,
        step_index: launch.step_index,
        lease_id: launch.lease_id,
        harness: launch.name,
        connections: all(run.connections@),
        samples: run.samples as nat,
        sample_every_ms: HARNESS_SAMPLE_EVERY_MS,
        governed: run.governed,
        exit: exit_label(run.exit_reason),
        duration_ms: run.duration_ms,
    }
}

/// A task whose harness step has ended.
pub open spec fn harness_ended(t: TaskView, i: int, verdict: Result<(), Seq<char>>, now: u64) -> TaskView {
    let s = StepView {
        status: match verdict {
            Ok(()) => StepStatusView::Done,
            Err(why) => StepStatusView::Failed(why),
        },
        ended_ms: Some(now),
        ..t.steps[i]
    };
    with_step(
        t,
        i,
        s,
        if verdict is Err {
            TaskStatus::Failed
        } else if all_done(t.steps.update(i, s)) {
            TaskStatus::Done
        } else {
            TaskStatus::Running
        },
    )
}

/// Settling a run, however it ended: what it was connected to is recorded first, what
/// it left is collected only if it finished, the step's event follows, its authority
/// is taken back, and the step is done or says why it failed.
pub open spec fn harness_settling<A>(
    k: KernelView<A>,
    ctx: CtxView,
    task_id: Seq<char>,
    launch: HarnessLaunchView,
    run: HarnessRun,
    out: Seq<OutFileView>,
) -> (KernelView<A>, Result<TaskView, KernelErrorView>) {
    let exit = exit_label(run.exit_reason);
    let watched = with_event(
        k,
        "harness.connections"@,
        ctx.now_ms,
        connections_json(connections_of(task_id, launch, run)),
    );
    let (collected, verdict) = if run.exit_reason == ExitReason::Exited(0) {
        collecting(watched, ctx, task_id, launch, out)
    } else {
        (watched, Err("harness run ended: "@ + exit))
    };
    let noted = with_event(
        collected,
        "task.step"@,
        ctx.now_ms,
        harness_step_json(
            task_id,
            launch.step_index,
            verdict is Ok,
            run.governed,
            exit,
            run.duration_ms,
        ),
    );
    let over = revoked(noted, launch.lease_id, launch.token);
    if k.store.tasks.contains_key(task_id) {
        let t = harness_ended(
            k.store.tasks[task_id],
            launch.step_index as int,
            verdict,
            ctx.now_ms,
        );
        (task_saved(over, t), Ok(t))
    } else {
        (over, Err(KernelErrorView::NotFound(task_id)))
    }
}

/// The leases that are not of a harness.
pub open spec fn without_harnesses(m: Map<Seq<char>, LeaseView>) -> Map<Seq<char>, LeaseView> {
    Map::new(
        |key: Seq<char>| m.contains_key(key) && !begins(m[key].resource, "harness:"@),
        |key: Seq<char>| m[key],
    )
}

/// The kernel once everything that a harness of an earlier process held is gone.
pub open spec fn swept<A>(k: KernelView<A>) -> KernelView<A> {
    KernelView {
        store: StoreView { leases: without_harnesses(k.store.leases), ..k.store },
        locks: k.locks.remove_keys(
            k.store.leases.dom().difference(without_harnesses(k.store.leases).dom()),
        ),
        harness_tokens: Map::empty(),
        ..k
    }
}

pub(crate) fn is_plain_name(id: &str) -> (r: bool)
    ensures
        r == plain_name(id@),
{
    let v = chars_of(id);
    let mut i: usize = 0;
    while i < v.len()
        invariant
            i <= v@.len(),
            v@ == id@,
            forall|j: int| 0 <= j < i ==> plain_char(#[trigger] v@[j]),
        decreases v@.len() - i,
    {
        let c = v[i];
        if !(is_alphanumeric(c) || c == '-' || c == '_') {
            return false;
        }
        i += 1;
    }
    v.len() > 0
}

fn kind_name(kind: &StepKind) -> (r: String)
    ensures
        r@ == kind_text(kind@),
{
    match kind {
        StepKind::Plan { arch_id } => {
            let d = debug_of(arch_id.as_str());
            cat3("Plan { arch_id: ", d.as_str(), " }")
        },
        StepKind::Draft { arch_id } => {
            let d = debug_of(arch_id.as_str());
            cat3("Draft { arch_id: ", d.as_str(), " }")
        },
        StepKind::Judge { arch_id } => {
            let d = debug_of(arch_id.as_str());
            cat3("Judge { arch_id: ", d.as_str(), " }")
        },
        StepKind::Harness { name } => {
            let d = debug_of(name.as_str());
            cat3("Harness { name: ", d.as_str(), " }")
        },
        StepKind::Approve => "Approve".to_owned(),
        StepKind::Release { to_dir } => {
            let d = debug_of(to_dir.as_str());
            cat3("Release { to_dir: ", d.as_str(), " }")
        },
    }
}

fn too_large(what: &str, len: u64) -> (r: String)
    ensures
        r@ == file_too_large(what@, len),
{
    let n = decimal_text(len);
    let m = decimal_text(HARNESS_MAX_FILE_BYTES);
    cat5(
        what,
        " is ",
        n.as_str(),
        " bytes, above the ",
        cat(m.as_str(), "-byte limit for one file").as_str(),
    )
}

fn find_breach(rel: &str, len: u64, attached: u64) -> (r: Option<String>)
    ensures
        opt(r) == breach(rel@, len, attached),
{
    if len > HARNESS_MAX_FILE_BYTES {
        return Some(too_large(rel, len));
    }
    if attached > HARNESS_MAX_RUN_BYTES || attached + len > HARNESS_MAX_RUN_BYTES {
        let n = decimal_text(len);
        let m = decimal_text(HARNESS_MAX_RUN_BYTES);
        return Some(
            cat5(
                rel,
                " (",
                n.as_str(),
                " bytes) would take the run past the ",
                cat(m.as_str(), "-byte limit").as_str(),
            ),
        );
    }
    None
}

fn is_referred_to(artefacts: &Vec<ArtefactRef>, hash: &str) -> (r: bool)
    ensures
        r == refers_to(all(artefacts@), hash@),
{
    let mut i: usize = 0;
    while i < artefacts.len()
        invariant
            i <= artefacts@.len(),
            forall|j: int| 0 <= j < i ==> (#[trigger] all(artefacts@)[j]).hash != hash@,
        decreases artefacts@.len() - i,
    {
        assert(all(artefacts@)[i as int] == artefacts@[i as int]@);
        if same(artefacts[i].hash.as_str(), hash) {
            return true;
        }
        i += 1;
    }
    false
}

fn names_of(out: &Vec<OutFile>) -> (r: Vec<String>)
    ensures
        all(r@) == out_names(all(out@)),
        r@.len() == out@.len(),
{
    let mut r: Vec<String> = Vec::new();
    let mut i: usize = 0;
    while i < out.len()
        invariant
            i <= out@.len(),
            r@.len() == i,
            forall|j: int| 0 <= j < i ==> (#[trigger] r@[j])@ == out@[j]@.name,
        decreases out@.len() - i,
    {
        r.push(out[i].name.dup());
        i += 1;
    }
    assert(all(r@) =~= out_names(all(out@)));
    r
}

impl<A> RealKernel<A> {
    /// The workspace of a task.
    pub fn harness_workspace_dir(&self, task_id: &str) -> (r: String)
        ensures
            r@ == workspace_dir(self@.store, task_id@),
    {
        let base = join_path(self.store.state_dir.as_str(), "harness", self.store.windows);
        join_path(base.as_str(), task_id, self.store.windows)
    }

    /// Where the configuration of a task's run is: beside the workspace.
    pub fn harness_config_dir(&self, task_id: &str) -> (r: String)
        ensures
            r@ == config_dir(self@.store, task_id@),
    {
        let base = join_path(self.store.state_dir.as_str(), "harness", self.store.windows);
        let name = cat(task_id, ".mcp");
        join_path(base.as_str(), name.as_str(), self.store.windows)
    }

    /// Whether a run of a task is live.
    pub fn harness_running(&self, task_id: &str) -> (r: bool)
        requires
            self.wf(),
        ensures
            r == is_live(self@, task_id@),
    {
        let mut i: usize = 0;
        while i < self.harness_tokens.len()
            invariant
                self.wf(),
                i <= self.harness_tokens.keys().len(),
                forall|j: int|
                    0 <= j < i ==> self@.harness_tokens[#[trigger] self.harness_tokens.keys()[j]].task_id
                        != task_id@,
            decreases self.harness_tokens.keys().len() - i,
        {
            if same(self.harness_tokens.value_at(i).task_id.as_str(), task_id) {
                proof {
                    self.harness_tokens.keys_are_domain();
                    assert(self@.harness_tokens.contains_key(
                        self.harness_tokens.keys()[i as int],
                    ));
                }
                return true;
            }
            i += 1;
        }
        proof {
            self.harness_tokens.keys_are_domain();
            assert forall|key: Seq<char>| #[trigger]
                self@.harness_tokens.contains_key(key) implies self@.harness_tokens[key].task_id
                != task_id@ by {
                let j = self.harness_tokens.keys().index_of(key);
                assert(self.harness_tokens.keys()[j] == key);
            }
        }
        false
    }

    fn mint_harness_token(&mut self, lease_id: &str, task_id: &str, token: &str)
        requires
            old(self).wf(),
        ensures
            final(self).wf(),
            final(self)@ == minted(old(self)@, lease_id@, task_id@, token@),
    {
        let key = hash_text(token);
        self.harness_tokens.insert(
            key.as_str(),
            HarnessTokenState {
                lease_id: lease_id.to_owned(),
                task_id: task_id.to_owned(),
                bytes_attached: 0,
                oversize: None,
            },
        );
        proof {
            crate::kernel::sound_without_the_rest(old(self)@, self@);
        }
    }

    /// Take the authority of a run back.
    pub(crate) fn revoke_harness_run(&mut self, lease_id: &str, token: &str)
        requires
            old(self).wf(),
        ensures
            final(self).wf(),
            final(self)@ == revoked(old(self)@, lease_id@, token@),
    {
        let key = hash_text(token);
        let _ = self.harness_tokens.remove(key.as_str());
        let _ = self.locks.remove(lease_id);
        let _ = self.store.leases.remove(lease_id);
        proof {
            sound_with_fewer_leases(old(self)@, self@);
        }
    }

    /// Who holds the lease of a run.
    pub(crate) fn run_holder(&self, ctx: &Ctx, run: &str) -> (r: Ctx)
        ensures
            r@ == run_ctx(self@, ctx@, run@),
    {
        let holder = Ctx {
            principal: Principal::Machine {
                node_id: self.node_id.dup(),
                lease_id: cat("harness-run:", run),
            },
            clearance: ctx.clearance,
            partition: ctx.partition.dup(),
            now_ms: ctx.now_ms,
        };
        assert(holder@ =~= run_ctx(self@, ctx@, run@));
        holder
    }

    /// The lease a run of a task holds, under a principal of its own.
    pub fn harness_lease_as(&mut self, ctx: &Ctx, task_id: &str, ttl_ms: u64, run: &str) -> (r:
        Result<Lease, KernelError>)
        requires
            old(self).wf(),
        ensures
            final(self).wf(),
            (final(self)@, outcome(r)) == leasing(
                old(self)@,
                run_ctx(old(self)@, ctx@, run@),
                harness_resource(task_id@),
                ttl_ms,
            ),
    {
        let holder = self.run_holder(ctx, run);
        let resource = cat("harness:", task_id);
        self.lease(&holder, resource.as_str(), ttl_ms)
    }

    /// The lease a run of a task holds, under a principal that is new to this node.
    pub fn harness_lease(&mut self, ctx: &Ctx, task_id: &str, ttl_ms: u64) -> (r: Result<
        Lease,
        KernelError,
    >)
        requires
            old(self).wf(),
        ensures
            final(self).wf(),
            exists|run: Seq<char>|
                is_uuid_text(run) && (final(self)@, outcome(r)) == leasing(
                    old(self)@,
                    #[trigger] run_ctx(old(self)@, ctx@, run),
                    harness_resource(task_id@),
                    ttl_ms,
                ),
    {
        let run = fresh_uuid();
        self.harness_lease_as(ctx, task_id, ttl_ms, run.as_str())
    }

    pub(crate) fn check_launch(&self, t: &Task, task_id: &str, name: &str) -> (r: Option<KernelError>)
        requires
            self.wf(),
        ensures
            opt(r) == launch_fault(self@, t@, task_id@, name@),
    {
        let i: usize = t.next();
        if i == t.steps.len() {
            return Some(KernelError::Gate(cat3("task ", task_id, " has no steps left to run")));
        }
        assert(t@.steps[i as int] == t.steps@[i as int]@);
        match &t.steps[i].kind {
            StepKind::Harness { name: named } => {
                if !same(named.as_str(), name) {
                    let d = debug_of(named.as_str());
                    let e = debug_of(name);
                    let head = cat4("task ", task_id, "'s harness step is named ", d.as_str());
                    return Some(KernelError::Gate(cat3(head.as_str(), ", not ", e.as_str())));
                }
            },
            other => {
                let what = kind_name(other);
                return Some(
                    KernelError::Gate(
                        cat4(
                            "the next step of task ",
                            task_id,
                            " is not a harness step: ",
                            what.as_str(),
                        ),
                    ),
                );
            },
        }
        if t.steps[i].status.is_running() || self.harness_running(task_id) {
            return Some(KernelError::Gate(cat("harness already running for task ", task_id)));
        }
        None
    }

    /// Launch a harness step, with this name for the run and this token.
    pub fn harness_launch_as(
        &mut self,
        ctx: &Ctx,
        task_id: &str,
        name: &str,
        timeout_ms: u64,
        run: &str,
        token: &str,
    ) -> (r: Result<HarnessStart, KernelError>)
        requires
            old(self).wf(),
        ensures
            final(self).wf(),
            (final(self)@, outcome(r)) == launching(
                old(self)@,
                ctx@,
                task_id@,
                name@,
                timeout_ms,
                run@,
                token@,
            ),
            r matches Ok(s) ==> s.launch.step_index < s.task.steps@.len(),
    {
        if !is_plain_name(task_id) {
            let d = debug_of(task_id);
            return Err(KernelError::Gate(cat3("task id ", d.as_str(), " is not a plain name")));
        }
        let mut t = match self.task(ctx, task_id) {
            Some(t) => t,
            None => return Err(KernelError::NotFound(task_id.to_owned())),
        };
        if t.status == TaskStatus::Done || t.status == TaskStatus::Failed {
            return Err(
                KernelError::Gate(cat4("task ", task_id, " is already ", status_name(t.status))),
            );
        }
        if self.stopped("node") {
            t.status = TaskStatus::Stopped;
            self.save_task(&t);
            return Err(KernelError::Stopped("node".to_owned()));
        }
        if let Some(e) = self.check_launch(&t, task_id, name) {
            return Err(e);
        }
        let i: usize = t.next();
        let ttl: u64 = if timeout_ms > u64::MAX - HARNESS_SETTLE_SLACK_MS {
            u64::MAX
        } else {
            timeout_ms + HARNESS_SETTLE_SLACK_MS
        };
        let reg = match self.read_register(ctx, t.register.as_str()) {
            Ok(reg) => reg,
            Err(e) => return Err(e),
        };
        let artefacts_before: usize = reg.artefacts.len();
        assert(all(reg.artefacts@).len() == artefacts_before);
        let lease = match self.harness_lease_as(ctx, task_id, ttl, run) {
            Ok(lease) => lease,
            Err(e) => return Err(e),
        };
        self.mint_harness_token(lease.id.as_str(), task_id, token);
        let hctx = Ctx {
            principal: Principal::Machine {
                node_id: self.node_id.dup(),
                lease_id: lease.id.dup(),
            },
            clearance: harness_clearance(),
            partition: ctx.partition.dup(),
            now_ms: ctx.now_ms,
        };
        assert(hctx@ =~= harness_ctx(old(self)@, lease@.id, ctx@.partition, ctx@.now_ms));
        match Workspace::materialise(self, &hctx, t.register.as_str()) {
            Err(why) => {
                self.revoke_harness_run(lease.id.as_str(), token);
                Err(KernelError::Gate(cat("materialise harness workspace: ", why.as_str())))
            },
            Ok(plan) => {
                let launch = HarnessLaunch {
                    workspace: self.harness_workspace_dir(task_id),
                    config_dir: self.harness_config_dir(task_id),
                    lease_id: lease.id,
                    token: token.to_owned(),
                    prompt: HARNESS_PROMPT.to_owned(),
                    name: name.to_owned(),
                    step_index: i,
                    artefacts_before,
                };
                Ok(HarnessStart { launch, plan, task: t })
            },
        }
    }

    /// Launch a harness step: a name for the run and a token that nobody has had.
    pub fn harness_launch(&mut self, ctx: &Ctx, task_id: &str, name: &str, timeout_ms: u64) -> (r:
        Result<HarnessStart, KernelError>)
        requires
            old(self).wf(),
        ensures
            final(self).wf(),
            exists|run: Seq<char>, token: Seq<char>|
                (final(self)@, outcome(r)) == #[trigger] launching(
                    old(self)@,
                    ctx@,
                    task_id@,
                    name@,
                    timeout_ms,
                    run,
                    token,
                ) && is_uuid_text(run) && is_key_text(token),
            r matches Ok(s) ==> s.launch.step_index < s.task.steps@.len(),
    {
        let run = fresh_uuid();
        let token = fresh_key_text();
        self.harness_launch_as(ctx, task_id, name, timeout_ms, run.as_str(), token.as_str())
    }

    /// Take in that a workspace was written, or why it was not. What was placed in it
    /// goes on the record either way.
    pub fn harness_materialised(
        &mut self,
        ctx: &Ctx,
        start: HarnessStart,
        written: Result<(), Unwritten>,
    ) -> (r: Result<HarnessLaunch, KernelError>)
        requires
            old(self).wf(),
            start.launch.step_index < start.task.steps@.len(),
        ensures
            final(self).wf(),
            (final(self)@, outcome(r)) == materialising(
                old(self)@,
                ctx@,
                start@,
                written_view(written),
            ),
    {
        let total: usize = start.plan.brief.len();
        assert(all(start.plan.brief@).len() == total);
        let placed: usize = match &written {
            Err(u) => if u.brief < total {
                u.brief
            } else {
                total
            },
            Ok(()) => total,
        };
        self.log_projections(ctx.now_ms, &start.plan.brief, placed);
        let fault = match written {
            Err(u) => Some(u.why),
            Ok(()) => start.plan.fault,
        };
        match fault {
            Some(why) => {
                self.revoke_harness_run(
                    start.launch.lease_id.as_str(),
                    start.launch.token.as_str(),
                );
                Err(KernelError::Gate(cat("materialise harness workspace: ", why.as_str())))
            },
            None => {
                let mut t = start.task;
                let i: usize = start.launch.step_index;
                let ghost steps = all(t.steps@);
                let mut s = t.steps[i].dup();
                s.status = StepStatus::Running;
                s.started_ms = Some(ctx.now_ms);
                let ghost said = s@;
                t.steps.set(i, s);
                assert(all(t.steps@) =~= steps.update(i as int, said));
                t.status = TaskStatus::Running;
                self.save_task(&t);
                Ok(start.launch)
            },
        }
    }

    /// The session of a token, at this time.
    pub fn harness_session(&self, token: &str, now_ms: u64) -> (r: Result<
        HarnessSession,
        KernelError,
    >)
        requires
            self.wf(),
        ensures
            outcome(r) == session_of(self@, token@, now_ms),
    {
        let key = hash_text(token);
        let state = match self.harness_tokens.get(key.as_str()) {
            Some(state) => state,
            None => return Err(KernelError::I1("unknown harness token".to_owned())),
        };
        let lease = match self.store.leases.get(state.lease_id.as_str()) {
            Some(lease) => lease,
            None => return Err(KernelError::I1("harness token's lease is gone".to_owned())),
        };
        if lease.expired(now_ms) {
            return Err(KernelError::I1("expired harness token".to_owned()));
        }
        let resource = cat("harness:", state.task_id.as_str());
        if !lease.resource.same_as(&resource) {
            return Err(KernelError::I1("token is not a harness lease".to_owned()));
        }
        let task = match self.store.tasks.get(state.task_id.as_str()) {
            Some(task) => task,
            None => return Err(KernelError::NotFound(state.task_id.dup())),
        };
        Ok(
            HarnessSession {
                ctx: Ctx {
                    principal: Principal::Machine {
                        node_id: self.node_id.dup(),
                        lease_id: state.lease_id.dup(),
                    },
                    clearance: harness_clearance(),
                    partition: lease.partition.dup(),
                    now_ms,
                },
                task_id: state.task_id.dup(),
                register: task.register.dup(),
            },
        )
    }

    /// Where a file of a task's workspace is, if the path stays in it.
    pub fn harness_file_path(&self, task_id: &str, rel: &str) -> (r: Result<String, KernelError>)
        ensures
            outcome(r) == file_path(self@.store, task_id@, rel@),
    {
        if is_below(rel, self.store.windows) {
            let dir = self.harness_workspace_dir(task_id);
            Ok(join_path(dir.as_str(), rel, self.store.windows))
        } else {
            let d = debug_of(rel);
            Err(
                KernelError::Gate(
                    cat3(
                        "workspace path ",
                        d.as_str(),
                        " must be a relative subpath of the workspace",
                    ),
                ),
            )
        }
    }

    /// Read a file of a task's workspace, from what was found of it.
    pub fn read_harness_file(&self, task_id: &str, rel: &str, file: FileRead) -> (r: Result<
        Vec<u8>,
        KernelError,
    >)
        ensures
            outcome(r) == (match file_path(self@.store, task_id@, rel@) {
                Err(e) => Err(e),
                Ok(path) => match file@.len {
                    Err(why) => Err(KernelErrorView::NotFound(path + ": "@ + why)),
                    Ok(len) => if len > HARNESS_MAX_FILE_BYTES {
                        Err(KernelErrorView::Gate(file_too_large(rel@, len)))
                    } else {
                        match file@.bytes {
                            Err(why) => Err(KernelErrorView::NotFound(path + ": "@ + why)),
                            Ok(bytes) => Ok(bytes),
                        }
                    },
                },
            }),
    {
        let path = match self.harness_file_path(task_id, rel) {
            Ok(path) => path,
            Err(e) => return Err(e),
        };
        match file.len {
            Err(why) => Err(KernelError::NotFound(cat3(path.as_str(), ": ", why.as_str()))),
            Ok(len) => {
                if len > HARNESS_MAX_FILE_BYTES {
                    return Err(KernelError::Gate(too_large(rel, len)));
                }
                match file.bytes {
                    Err(why) => Err(KernelError::NotFound(cat3(path.as_str(), ": ", why.as_str()))),
                    Ok(bytes) => Ok(bytes),
                }
            },
        }
    }

    /// Attach a file of the workspace for the harness that has this token, from what
    /// was found of the file.
    pub fn harness_attach_file(
        &mut self,
        token: &str,
        now_ms: u64,
        kind: &str,
        rel: &str,
        file: FileRead,
    ) -> (r: Result<BlobEnvelope, KernelError>)
        requires
            old(self).wf(),
        ensures
            final(self).wf(),
            (final(self)@, outcome(r)) == attaching_file(
                old(self)@,
                token@,
                now_ms,
                kind@,
                rel@,
                file@,
            ),
    {
        let session = match self.harness_session(token, now_ms) {
            Ok(session) => session,
            Err(e) => return Err(e),
        };
        if let Err(e) = self.harness_file_path(session.task_id.as_str(), rel) {
            return Err(e);
        }
        let len: u64 = match file.len {
            Ok(len) => len,
            Err(why) => return Err(KernelError::NotFound(cat3(rel, ": ", why.as_str()))),
        };
        let key = hash_text(token);
        let mut state = match self.harness_tokens.get(key.as_str()) {
            Some(state) => state.dup(),
            None => return Err(KernelError::I1("unknown harness token".to_owned())),
        };
        if let Some(why) = find_breach(rel, len, state.bytes_attached) {
            if state.oversize.is_none() {
                state.oversize = Some(rel.to_owned());
            }
            self.harness_tokens.insert(key.as_str(), state);
            proof {
                crate::kernel::sound_without_the_rest(old(self)@, self@);
            }
            return Err(KernelError::Gate(why));
        }
        let bytes = match file.bytes {
            Ok(bytes) => bytes,
            Err(why) => return Err(KernelError::NotFound(cat3(rel, ": ", why.as_str()))),
        };
        match self.attach_artefact(
            &session.ctx,
            session.register.as_str(),
            kind,
            bytes.as_slice(),
        ) {
            Err(e) => Err(e),
            Ok(env) => {
                let ghost mid = self@;
                state.bytes_attached = state.bytes_attached + len;
                self.harness_tokens.insert(key.as_str(), state);
                proof {
                    crate::kernel::sound_without_the_rest(mid, self@);
                }
                Ok(env)
            },
        }
    }

    /// Record what a run was connected to.
    pub fn record_harness_connection(&mut self, now_ms: u64, rec: &HarnessConnectionsRecord)
        requires
            old(self).wf(),
        ensures
            final(self).wf(),
            final(self)@ == with_event(
                old(self)@,
                "harness.connections"@,
                now_ms,
                connections_json(rec@),
            ),
    {
        self.record_event("harness.connections", now_ms, connections_to_json(rec));
    }

    pub(crate) fn to_collect(
        &self,
        ctx: &Ctx,
        task_id: &str,
        launch: &HarnessLaunch,
        out: &Vec<OutFile>,
    ) -> (r: Result<Option<Vec<u8>>, String>)
        requires
            self.wf(),
        ensures
            match harvest(self@, ctx@, task_id@, launch@, all(out@)) {
                Ok(bytes) => r is Ok && opt(r->Ok_0) == bytes,
                Err(why) => r is Err && r->Err_0@ == why,
            },
    {
        let key = hash_text(launch.token.as_str());
        if let Some(state) = self.harness_tokens.get(key.as_str()) {
            if let Some(file) = &state.oversize {
                return Err(
                    cat("harness attached more than the limit allows: ", file.as_str()),
                );
            }
        }
        let t = match self.store.tasks.get(task_id) {
            Some(t) => t.dup(),
            None => return Err(cat3("task ", task_id, " is gone")),
        };
        let reg = match self.read_register(ctx, t.register.as_str()) {
            Ok(reg) => reg,
            Err(e) => return Err(e.text()),
        };
        assert(all(reg.artefacts@).len() == reg.artefacts@.len());
        if reg.artefacts.len() > launch.artefacts_before {
            return Ok(None);
        }
        let names = names_of(out);
        let i: usize = match declared_output(&names, t.artefact_type.as_str()) {
            Some(i) => i,
            None => return Err("harness produced no artefact".to_owned()),
        };
        assert(all(out@)[i as int] == out@[i as int]@);
        let name = out[i].name.as_str();
        let len: u64 = match &out[i].file.len {
            Ok(n) => *n,
            Err(_) => 0,
        };
        if len > HARNESS_MAX_FILE_BYTES {
            return Err(too_large(cat("OUT/", name).as_str(), len));
        }
        let bytes = match &out[i].file.bytes {
            Ok(bytes) => bytes,
            Err(why) => return Err(cat4("read OUT/", name, ": ", why.as_str())),
        };
        let subject = cat("task:", reg.task_id.as_str());
        let hash = address_of(subject.as_str(), bytes.as_slice());
        if is_referred_to(&reg.artefacts, hash.as_str()) {
            return Ok(None);
        }
        let copied = slice_to_vec(bytes.as_slice());
        assert(copied@ =~= bytes@);
        Ok(Some(copied))
    }

    fn collect_harness_output(
        &mut self,
        ctx: &Ctx,
        task_id: &str,
        launch: &HarnessLaunch,
        out: &Vec<OutFile>,
    ) -> (r: Result<(), String>)
        requires
            old(self).wf(),
        ensures
            final(self).wf(),
            (final(self)@, verdict_view(r)) == collecting(
                old(self)@,
                ctx@,
                task_id@,
                launch@,
                all(out@),
            ),
    {
        let bytes = match self.to_collect(ctx, task_id, launch, out) {
            Err(why) => return Err(why),
            Ok(None) => return Ok(()),
            Ok(Some(bytes)) => bytes,
        };
        let t = match self.store.tasks.get(task_id) {
            Some(t) => t.dup(),
            None => return Err(cat3("task ", task_id, " is gone")),
        };
        match self.attach_artefact(
            ctx,
            t.register.as_str(),
            t.artefact_type.as_str(),
            bytes.as_slice(),
        ) {
            Ok(_) => Ok(()),
            Err(e) => Err(e.text()),
        }
    }

    /// Settle a run: what it was, and what it left under `OUT`.
    pub fn harness_settle(
        &mut self,
        ctx: &Ctx,
        task_id: &str,
        launch: &HarnessLaunch,
        run: &HarnessRun,
        out: &Vec<OutFile>,
    ) -> (r: Result<Task, KernelError>)
        requires
            old(self).wf(),
            old(self)@.store.tasks.contains_key(task_id@) ==> launch.step_index < old(
                self,
            )@.store.tasks[task_id@].steps.len(),
        ensures
            final(self).wf(),
            (final(self)@, outcome(r)) == harness_settling(
                old(self)@,
                ctx@,
                task_id@,
                launch@,
                *run,
                all(out@),
            ),
    {
        let i: usize = launch.step_index;
        let exit = run.exit_reason.label();
        let rec = connections_record(task_id, launch, run);
        self.record_harness_connection(ctx.now_ms, &rec);
        let verdict: Result<(), String> = if run.exit_reason.is_success() {
            self.collect_harness_output(ctx, task_id, launch, out)
        } else {
            Err(cat("harness run ended: ", exit.as_str()))
        };
        proof {
            collecting_keeps_the_tasks(
                with_event(
                    old(self)@,
                    "harness.connections"@,
                    ctx@.now_ms,
                    connections_json(rec@),
                ),
                ctx@,
                task_id@,
                launch@,
                all(out@),
            );
        }
        let payload = harness_step_to_json(
            task_id,
            i,
            verdict.is_ok(),
            run.governed,
            exit.as_str(),
            run.duration_ms,
        );
        self.record_event("task.step", ctx.now_ms, payload);
        self.revoke_harness_run(launch.lease_id.as_str(), launch.token.as_str());
        let row = match self.store.tasks.get(task_id) {
            Some(t) => t.dup(),
            None => return Err(KernelError::NotFound(task_id.to_owned())),
        };
        assert(row@ == old(self)@.store.tasks[task_id@]);
        assert(row@.steps.len() == row.steps@.len());
        let t = ended_row(row, i, verdict, ctx.now_ms);
        self.save_task(&t);
        Ok(t)
    }

    fn harness_lease_keys(&self) -> (r: Vec<String>)
        requires
            self.wf(),
        ensures
            all(r@).to_set() == self@.store.leases.dom().difference(
                without_harnesses(self@.store.leases).dom(),
            ),
    {
        let mut r: Vec<String> = Vec::new();
        let mut i: usize = 0;
        proof {
            self.store.leases.keys_are_domain();
        }
        while i < self.store.leases.len()
            invariant
                self.wf(),
                i <= self.store.leases.keys().len(),
                forall|key: Seq<char>| #[trigger]
                    all(r@).contains(key) <==> exists|j: int|
                        0 <= j < i && #[trigger] self.store.leases.keys()[j] == key && begins(
                            self@.store.leases[key].resource,
                            "harness:"@,
                        ),
            decreases self.store.leases.keys().len() - i,
        {
            let key = self.store.leases.key_at(i);
            let ghost was = all(r@);
            if begins_with(self.store.leases.value_at(i).resource.as_str(), "harness:") {
                r.push(key.dup());
                assert(all(r@) =~= was.push(key@));
                assert forall|x: Seq<char>| #[trigger] all(r@).contains(x) <==> was.contains(x) || x
                    == key@ by {
                    if was.contains(x) {
                        let j = was.index_of(x);
                        assert(all(r@)[j] == x);
                    }
                    assert(all(r@)[was.len() as int] == key@);
                    if all(r@).contains(x) && x != key@ {
                        let j = all(r@).index_of(x);
                        assert(was[j] == x);
                    }
                }
            }
            i += 1;
        }
        proof {
            self.store.leases.keys_are_domain();
            let gone = self@.store.leases.dom().difference(
                without_harnesses(self@.store.leases).dom(),
            );
            assert forall|key: Seq<char>| all(r@).to_set().contains(key) <==> #[trigger] gone.contains(
                key,
            ) by {
                assert(all(r@).to_set().contains(key) <==> all(r@).contains(key));
                if gone.contains(key) {
                    assert(self@.store.leases.contains_key(key));
                    let j = self.store.leases.keys().index_of(key);
                    assert(self.store.leases.keys()[j] == key);
                }
            }
            assert(all(r@).to_set() =~= gone);
        }
        r
    }

    /// Forget everything that a harness of an earlier process held: its lease, and its
    /// token.
    pub fn sweep_harness_state(&mut self)
        requires
            old(self).wf(),
        ensures
            final(self).wf(),
            final(self)@ == swept(old(self)@),
    {
        let keys = self.harness_lease_keys();
        self.locks.remove_each(&keys);
        self.store.leases.remove_each(&keys);
        self.harness_tokens = Table::new();
        proof {
            assert(self@.store.leases =~= without_harnesses(old(self)@.store.leases));
            sound_with_fewer_leases(old(self)@, self@);
        }
    }
}

/// Taking leases and locks away from a sound kernel leaves a sound one.
pub(crate) proof fn sound_with_fewer_leases<A>(a: KernelView<A>, b: KernelView<A>)
    requires
        sound(a),
        a.node_id == b.node_id,
        b.store == (StoreView { leases: b.store.leases, ..a.store }),
        forall|key: Seq<char>| #[trigger]
            b.store.leases.contains_key(key) ==> a.store.leases.contains_key(key)
                && b.store.leases[key] == a.store.leases[key],
        forall|key: Seq<char>| #[trigger]
            b.locks.contains_key(key) ==> a.locks.contains_key(key) && b.locks[key]
                == a.locks[key],
        a.adapters == b.adapters,
        a.starting == b.starting,
        a.unavailable == b.unavailable,
        a.stops == b.stops,
        a.resumes == b.resumes,
    ensures
        sound(b),
{
}

/// Collecting what a run left changes no task.
proof fn collecting_keeps_the_tasks<A>(
    k: KernelView<A>,
    ctx: CtxView,
    task_id: Seq<char>,
    launch: HarnessLaunchView,
    out: Seq<OutFileView>,
)
    ensures
        collecting(k, ctx, task_id, launch, out).0.store.tasks == k.store.tasks,
{
}

} // verus!
