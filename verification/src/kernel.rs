//! The kernel of one node: its durable rows, and what it holds only while it runs.
use crate::error::{KernelError, KernelErrorView};
use crate::json::{text, Json, JsonView};
use crate::labels::{flows, Label};
use crate::manifest::{ArchManifest, ArchManifestView};
use crate::model::{all, dup_opt, opt, Duplicate};
use crate::mount::{MountSpec, MountSpecView};
use crate::principal::{Challenge, ChallengeView, Ctx, CtxView};
use crate::register::{Register, RegisterView};
use crate::store::{
    Lease, LeaseView, LedgerEvent, LedgerEventView, ResumeEvent, ResumeEventView, StopEvent,
    StopEventView, Store, StoreView,
};
use crate::table::Table;
use crate::text::{cat, cat3, cat5, decimal, decimal_injective, decimal_text, same};
use vstd::prelude::*;

verus! {

/// A mounted arch that can be called.
pub struct Slot<A> {
    pub adapter: A,
}

impl<A> View for Slot<A> {
    type V = A;

    open spec fn view(&self) -> A {
        self.adapter
    }
}

/// An arch whose adapter is still being made: the manifest it must come back as,
/// and what to make it from.
#[derive(Debug)]
pub struct PendingMount {
    pub manifest: ArchManifest,
    pub spec: MountSpec,
}

/// What a [`PendingMount`] says.
#[verifier::ext_equal]
pub struct PendingMountView {
    pub manifest: ArchManifestView,
    pub spec: MountSpecView,
}

impl View for PendingMount {
    type V = PendingMountView;

    open spec fn view(&self) -> PendingMountView {
        PendingMountView {
            manifest: self.manifest@,
            spec: self.spec@,
        }
    }
}

impl Duplicate for PendingMount {
    fn dup(&self) -> (r: Self) {
        PendingMount {
            manifest: self.manifest.dup(),
            spec: self.spec.dup(),
        }
    }
}

/// An arch that is mounted and cannot be called, and why.
#[derive(Debug)]
pub struct UnavailableArch {
    pub manifest: ArchManifest,
    pub reason: String,
}

/// What a [`UnavailableArch`] says.
#[verifier::ext_equal]
pub struct UnavailableArchView {
    pub manifest: ArchManifestView,
    pub reason: Seq<char>,
}

impl View for UnavailableArch {
    type V = UnavailableArchView;

    open spec fn view(&self) -> UnavailableArchView {
        UnavailableArchView {
            manifest: self.manifest@,
            reason: self.reason@,
        }
    }
}

impl Duplicate for UnavailableArch {
    fn dup(&self) -> (r: Self) {
        UnavailableArch {
            manifest: self.manifest.dup(),
            reason: self.reason.dup(),
        }
    }
}

/// A live harness run: the lease and the task its token stands for, how much it
/// has attached, and the file it tried to attach past a limit.
#[derive(Debug)]
pub struct HarnessTokenState {
    pub lease_id: String,
    pub task_id: String,
    pub bytes_attached: u64,
    pub oversize: Option<String>,
}

/// What a [`HarnessTokenState`] says.
#[verifier::ext_equal]
pub struct HarnessTokenStateView {
    pub lease_id: Seq<char>,
    pub task_id: Seq<char>,
    pub bytes_attached: u64,
    pub oversize: Option<Seq<char>>,
}

impl View for HarnessTokenState {
    type V = HarnessTokenStateView;

    open spec fn view(&self) -> HarnessTokenStateView {
        HarnessTokenStateView {
            lease_id: self.lease_id@,
            task_id: self.task_id@,
            bytes_attached: self.bytes_attached,
            oversize: opt(self.oversize),
        }
    }
}

impl Duplicate for HarnessTokenState {
    fn dup(&self) -> (r: Self) {
        HarnessTokenState {
            lease_id: self.lease_id.dup(),
            task_id: self.task_id.dup(),
            bytes_attached: self.bytes_attached,
            oversize: dup_opt(&self.oversize),
        }
    }
}

/// A minted challenge that no approval has spent yet, and its task.
#[derive(Debug)]
pub struct PendingApproval {
    pub task_id: String,
    pub challenge: Challenge,
}

/// What a [`PendingApproval`] says.
#[verifier::ext_equal]
pub struct PendingApprovalView {
    pub task_id: Seq<char>,
    pub challenge: ChallengeView,
}

impl View for PendingApproval {
    type V = PendingApprovalView;

    open spec fn view(&self) -> PendingApprovalView {
        PendingApprovalView {
            task_id: self.task_id@,
            challenge: self.challenge@,
        }
    }
}

impl Duplicate for PendingApproval {
    fn dup(&self) -> (r: Self) {
        PendingApproval {
            task_id: self.task_id.dup(),
            challenge: self.challenge.dup(),
        }
    }
}

/// The key a device signs with.
#[derive(Debug)]
pub struct DeviceKey {
    pub vk: [u8; 32],
}

impl View for DeviceKey {
    type V = Seq<u8>;

    open spec fn view(&self) -> Seq<u8> {
        self.vk@
    }
}

/// One inference that was made: the arch, and the label of what it was shown.
#[derive(Debug)]
pub struct Inferred {
    pub arch_id: String,
    pub label: Label,
}

impl View for Inferred {
    type V = (Seq<char>, Label);

    open spec fn view(&self) -> (Seq<char>, Label) {
        (self.arch_id@, self.label)
    }
}

impl Duplicate for Inferred {
    fn dup(&self) -> (r: Self) {
        Inferred { arch_id: self.arch_id.dup(), label: self.label }
    }
}

/// What was found of the record when it was opened: whether its chain verifies,
/// whether it still reaches the head that was last recorded, and whether an
/// unfinished last line had to be dropped.
#[derive(Clone, Copy, Debug, PartialEq, Eq, Structural)]
pub struct RecordState {
    pub chain_ok: bool,
    pub head_ok: bool,
    pub recovered_partial_line: bool,
}

/// The kernel.
pub struct RealKernel<A> {
    pub node_id: String,
    pub store: Store,
    /// The arches that can be called.
    pub adapters: Table<Slot<A>>,
    /// The arches whose adapter is still being made.
    pub starting: Table<PendingMount>,
    /// The arches that are mounted and cannot be called.
    pub unavailable: Table<UnavailableArch>,
    /// The context budget of each arch.
    pub budgets: Table<u32>,
    /// The leases that are in force.
    pub locks: Table<Lease>,
    /// The last fence of each resource.
    pub home: Table<u64>,
    /// The device keys that can be checked.
    pub devices: Table<DeviceKey>,
    /// The stops that were made.
    pub stops: Table<StopEvent>,
    /// The resumes that lifted one of them.
    pub resumes: Table<ResumeEvent>,
    /// The live harness runs, under the hash of each run's token.
    pub harness_tokens: Table<HarnessTokenState>,
    /// The challenges that no approval has spent, by nonce.
    pub approval_challenges: Table<PendingApproval>,
    /// The inferences made, in order.
    pub infer_log: Vec<Inferred>,
    /// Whether this run serves although its record does not hold.
    pub forced_boot: bool,
    pub record: RecordState,
}

/// What the kernel holds.
#[verifier::ext_equal]
pub struct KernelView<A> {
    pub node_id: Seq<char>,
    pub store: StoreView,
    pub adapters: Map<Seq<char>, A>,
    pub starting: Map<Seq<char>, PendingMountView>,
    pub unavailable: Map<Seq<char>, UnavailableArchView>,
    pub budgets: Map<Seq<char>, u32>,
    pub locks: Map<Seq<char>, LeaseView>,
    pub home: Map<Seq<char>, u64>,
    pub devices: Map<Seq<char>, Seq<u8>>,
    pub stops: Map<Seq<char>, StopEventView>,
    pub resumes: Map<Seq<char>, ResumeEventView>,
    pub harness_tokens: Map<Seq<char>, HarnessTokenStateView>,
    pub approval_challenges: Map<Seq<char>, PendingApprovalView>,
    pub infer_log: Seq<(Seq<char>, Label)>,
    pub forced_boot: bool,
    pub record: RecordState,
}

impl<A> View for RealKernel<A> {
    type V = KernelView<A>;

    open spec fn view(&self) -> KernelView<A> {
        KernelView {
            node_id: self.node_id@,
            store: self.store@,
            adapters: self.adapters@,
            starting: self.starting@,
            unavailable: self.unavailable@,
            budgets: self.budgets@,
            locks: self.locks@,
            home: self.home@,
            devices: self.devices@,
            stops: self.stops@,
            resumes: self.resumes@,
            harness_tokens: self.harness_tokens@,
            approval_challenges: self.approval_challenges@,
            infer_log: all(self.infer_log@),
            forced_boot: self.forced_boot,
            record: self.record,
        }
    }
}

/// Whether the rows of a store are filed under their own ids.
pub open spec fn filed(s: StoreView) -> bool {
    &&& forall|k: Seq<char>| #[trigger] s.tasks.contains_key(k) ==> s.tasks[k].id == k
    &&& forall|k: Seq<char>| #[trigger] s.registers.contains_key(k) ==> s.registers[k].id == k
    &&& forall|k: Seq<char>| #[trigger] s.leases.contains_key(k) ==> s.leases[k].id == k
}

/// Whether a store can be opened by this node: rows are filed under their own ids,
/// every resume cites a stop that was made, and no stop or resume has an id that is
/// still to be given out.
pub open spec fn kept(s: StoreView, node: Seq<char>) -> bool {
    &&& filed(s)
    &&& forall|r: Seq<char>| #[trigger]
        s.resumes.contains_key(r) ==> s.stops.contains_key(s.resumes[r].cites)
    &&& forall|n: nat|
        n > s.counter ==> !s.stops.contains_key(#[trigger] id_text("stop"@, node, n))
    &&& forall|n: nat|
        n > s.counter ==> !s.resumes.contains_key(#[trigger] id_text("resume"@, node, n))
}

/// Whether a kernel is sound: rows are filed under their own ids, an arch is in at
/// most one of the three states, what was stopped and resumed is what is kept of it,
/// every resume cites a stop that was made, and no
/// stop or resume has an id that is still to be given out.
pub open spec fn sound<A>(k: KernelView<A>) -> bool {
    &&& filed(k.store)
    &&& forall|id: Seq<char>| #[trigger]
        k.adapters.contains_key(id) ==> !k.starting.contains_key(id) && !k.unavailable.contains_key(
            id,
        )
    &&& forall|id: Seq<char>| #[trigger]
        k.starting.contains_key(id) ==> !k.unavailable.contains_key(id)
    &&& forall|id: Seq<char>| #[trigger] k.locks.contains_key(id) ==> k.locks[id].id == id
    &&& k.stops == k.store.stops
    &&& k.resumes == k.store.resumes
    &&& forall|r: Seq<char>| #[trigger]
        k.resumes.contains_key(r) ==> k.stops.contains_key(k.resumes[r].cites)
    &&& forall|n: nat|
        n > k.store.counter ==> !k.stops.contains_key(#[trigger] id_text("stop"@, k.node_id, n))
    &&& forall|n: nat|
        n > k.store.counter ==> !k.resumes.contains_key(
            #[trigger] id_text("resume"@, k.node_id, n),
        )
}

/// What makes a kernel sound is not in its challenges, its tokens, its budgets or
/// its devices.
pub proof fn sound_without_the_rest<A>(a: KernelView<A>, b: KernelView<A>)
    requires
        sound(a),
        a.node_id == b.node_id,
        a.store == b.store,
        a.adapters == b.adapters,
        a.starting == b.starting,
        a.unavailable == b.unavailable,
        a.locks == b.locks,
        a.stops == b.stops,
        a.resumes == b.resumes,
    ensures
        sound(b),
{
}

/// Taking arches away from a sound kernel leaves a sound one.
pub proof fn sound_with_fewer_arches<A>(a: KernelView<A>, b: KernelView<A>)
    requires
        sound(a),
        filed(b.store),
        a.node_id == b.node_id,
        a.store.counter == b.store.counter,
        a.store.stops == b.store.stops,
        a.store.resumes == b.store.resumes,
        b.adapters.dom().subset_of(a.adapters.dom()),
        b.starting.dom().subset_of(a.starting.dom()),
        b.unavailable.dom().subset_of(a.unavailable.dom()),
        a.locks == b.locks,
        a.stops == b.stops,
        a.resumes == b.resumes,
    ensures
        sound(b),
{
    assert forall|id: Seq<char>| #[trigger] b.adapters.contains_key(id) implies !b.starting.contains_key(
        id,
    ) && !b.unavailable.contains_key(id) by {
        assert(a.adapters.contains_key(id));
    }
    assert forall|id: Seq<char>| #[trigger] b.starting.contains_key(id) implies !b.unavailable.contains_key(
        id,
    ) by {
        assert(a.starting.contains_key(id));
    }
}

/// What a sound kernel keeps can be opened again.
pub proof fn sound_store_is_kept<A>(k: KernelView<A>)
    requires
        sound(k),
    ensures
        kept(k.store, k.node_id),
{
}

/// Two numbers give two ids.
pub proof fn ids_differ(prefix: Seq<char>, node: Seq<char>, m: nat, n: nat)
    requires
        id_text(prefix, node, m) == id_text(prefix, node, n),
    ensures
        m == n,
{
    let head = prefix + "-"@ + node + "-"@;
    let a = head + decimal(m);
    let b = head + decimal(n);
    assert(a.skip(head.len() as int) =~= decimal(m));
    assert(b.skip(head.len() as int) =~= decimal(n));
    decimal_injective(m, n);
}

impl<A> RealKernel<A> {
    /// The tables are in order and the kernel is sound.
    pub open spec fn wf(&self) -> bool {
        &&& self.store.wf()
        &&& self.adapters.wf()
        &&& self.starting.wf()
        &&& self.unavailable.wf()
        &&& self.budgets.wf()
        &&& self.locks.wf()
        &&& self.home.wf()
        &&& self.devices.wf()
        &&& self.stops.wf()
        &&& self.resumes.wf()
        &&& self.harness_tokens.wf()
        &&& self.approval_challenges.wf()
        &&& sound(self@)
    }
}

/// The event kinds this kernel may write.
pub open spec fn allowed_kind(kind: Seq<char>) -> bool {
    ||| kind == "boot"@
    ||| kind == "boot.forced"@
    ||| kind == "arch.mounted"@
    ||| kind == "arch.unmounted"@
    ||| kind == "device.enrolled"@
    ||| kind == "approval.recorded"@
    ||| kind == "task.submitted"@
    ||| kind == "task.step"@
    ||| kind == "register.written"@
    ||| kind == "infer"@
    ||| kind == "infer.projected"@
    ||| kind == "lease.granted"@
    ||| kind == "stop"@
    ||| kind == "resume"@
    ||| kind == "automation.ran"@
    ||| kind == "module.promoted"@
    ||| kind == "module.exported"@
    ||| kind == "artefact.released"@
    ||| kind == "harness.connections"@
}

fn is_allowed_kind(kind: &str) -> (r: bool)
    ensures
        r == allowed_kind(kind@),
{
    same(kind, "boot") || same(kind, "boot.forced") || same(kind, "arch.mounted") || same(kind, "arch.unmounted") || same(kind, "device.enrolled") || same(kind, "approval.recorded") || same(kind, "task.submitted") || same(kind, "task.step") || same(kind, "register.written") || same(kind, "infer") || same(kind, "infer.projected") || same(kind, "lease.granted") || same(kind, "stop") || same(kind, "resume") || same(kind, "automation.ran") || same(kind, "module.promoted") || same(kind, "module.exported") || same(kind, "artefact.released") || same(kind, "harness.connections")
}

/// What a result says.
pub open spec fn outcome<T: View>(r: Result<T, KernelError>) -> Result<T::V, KernelErrorView> {
    match r {
        Ok(t) => Ok(t@),
        Err(e) => Err(e@),
    }
}

/// The kernel with one more event on its record.
pub open spec fn with_event<A>(
    k: KernelView<A>,
    kind: Seq<char>,
    wall_ms: u64,
    payload: JsonView,
) -> KernelView<A> {
    KernelView {
        store: StoreView {
            ledger: k.store.ledger.push(LedgerEventView { kind, wall_ms, payload }),
            ..k.store
        },
        ..k
    }
}

/// The id with this number.
pub open spec fn id_text(prefix: Seq<char>, node: Seq<char>, n: nat) -> Seq<char> {
    prefix + "-"@ + node + "-"@ + decimal(n)
}

/// What is said when no id is left.
pub open spec fn exhausted() -> KernelErrorView {
    KernelErrorView::Store("the id counter is exhausted"@)
}

/// The register a submitted task starts with.
pub open spec fn fresh_register(
    id: Seq<char>,
    task_id: Seq<char>,
    goal: Seq<char>,
    label: Label,
) -> RegisterView {
    RegisterView {
        id,
        task_id,
        label,
        goal,
        constraints: Seq::empty(),
        evidence: Seq::empty(),
        decisions: Seq::empty(),
        open_questions: Seq::empty(),
        artefacts: Seq::empty(),
    }
}

/// Submitting a task: a register of its own under a fresh id, and a fresh id for
/// the task.
pub open spec fn submitted<A>(
    k: KernelView<A>,
    ctx: CtxView,
    goal: Seq<char>,
    label: Label,
) -> (KernelView<A>, Result<Seq<char>, KernelErrorView>) {
    if k.store.counter > u64::MAX - 2 {
        (k, Err(exhausted()))
    } else {
        let n = k.store.counter;
        let id = id_text("reg"@, k.node_id, (n + 1) as nat);
        let task_id = id_text("task"@, k.node_id, (n + 2) as nat);
        let reg = fresh_register(id, task_id, goal, label);
        let stored = KernelView {
            store: StoreView {
                counter: (n + 2) as u64,
                registers: k.store.registers.insert(id, reg),
                ..k.store
            },
            ..k
        };
        (with_event(stored, "task.submitted"@, ctx.now_ms, JsonView::Text(id)), Ok(id))
    }
}

/// What a caller is told of a register: it is not there, it is above the
/// caller's clearance, or this is it.
pub open spec fn register_read(
    s: StoreView,
    ctx: CtxView,
    id: Seq<char>,
) -> Result<RegisterView, KernelErrorView> {
    if !s.registers.contains_key(id) {
        Err(KernelErrorView::NotFound(id))
    } else if !flows(s.registers[id].label, ctx.clearance) {
        Err(KernelErrorView::I2("register "@ + id + " exceeds caller clearance"@))
    } else {
        Ok(s.registers[id])
    }
}

/// The kernel after a register was written: the row under the register's id, and
/// an event.
pub open spec fn register_written<A>(
    k: KernelView<A>,
    ctx: CtxView,
    reg: RegisterView,
) -> KernelView<A> {
    let stored = KernelView {
        store: StoreView { registers: k.store.registers.insert(reg.id, reg), ..k.store },
        ..k
    };
    with_event(stored, "register.written"@, ctx.now_ms, JsonView::Text(reg.id))
}

/// A register that holds nothing but its goal.
pub(crate) fn new_register(id: String, task_id: String, goal: &str, label: Label) -> (r: Register)
    ensures
        r@ == fresh_register(id@, task_id@, goal@, label),
{
    let reg = Register {
        id,
        task_id,
        label,
        goal: goal.to_owned(),
        constraints: Vec::new(),
        evidence: Vec::new(),
        decisions: Vec::new(),
        open_questions: Vec::new(),
        artefacts: Vec::new(),
    };
    assert(reg@ =~= fresh_register(id@, task_id@, goal@, label));
    reg
}

impl<A> RealKernel<A> {
    /// Put one event on the record.
    pub(crate) fn record_event(&mut self, kind: &str, wall_ms: u64, payload: Json)
        requires
            old(self).wf(),
            allowed_kind(kind@),
        ensures
            final(self).wf(),
            final(self)@ == with_event(old(self)@, kind@, wall_ms, payload@),
    {
        let ghost before = all(self.store.ledger@);
        let event = LedgerEvent { kind: kind.to_owned(), wall_ms, payload };
        let ghost said = event@;
        self.store.ledger.push(event);
        assert(all(self.store.ledger@) =~= before.push(said));
    }

    /// Put one event on the record. A kind that is not on the list is refused,
    /// and nothing is written.
    pub fn log(&mut self, kind: &str, wall_ms: u64, payload: Json) -> (r: Result<(), KernelError>)
        requires
            old(self).wf(),
        ensures
            final(self).wf(),
            allowed_kind(kind@) ==> r is Ok && final(self)@ == with_event(
                old(self)@,
                kind@,
                wall_ms,
                payload@,
            ),
            !allowed_kind(kind@) ==> final(self)@ == old(self)@ && r is Err && r->Err_0@
                == KernelErrorView::Store("ledger kind not allowed: "@ + kind@),
    {
        if is_allowed_kind(kind) {
            self.record_event(kind, wall_ms, payload);
            Ok(())
        } else {
            Err(KernelError::Store(cat("ledger kind not allowed: ", kind)))
        }
    }

    /// The id with number `n`.
    pub(crate) fn id_at(&self, prefix: &str, n: u64) -> (r: String)
        ensures
            r@ == id_text(prefix@, self@.node_id, n as nat),
    {
        let digits = decimal_text(n);
        cat5(prefix, "-", self.node_id.as_str(), "-", digits.as_str())
    }

    /// Submit a task: a register for it, under a fresh id.
    pub fn submit_task(&mut self, ctx: &Ctx, goal: &str, label: Label) -> (r: Result<
        String,
        KernelError,
    >)
        requires
            old(self).wf(),
        ensures
            final(self).wf(),
            (final(self)@, outcome(r)) == submitted(old(self)@, ctx@, goal@, label),
    {
        if self.store.counter > u64::MAX - 2 {
            return Err(KernelError::Store("the id counter is exhausted".to_owned()));
        }
        let n: u64 = self.store.counter;
        let id = self.id_at("reg", n + 1);
        let task_id = self.id_at("task", n + 2);
        let reg = new_register(id.dup(), task_id, goal, label);
        self.store.counter = n + 2;
        self.store.registers.insert(id.as_str(), reg);
        self.record_event("task.submitted", ctx.now_ms, text(id.as_str()));
        Ok(id)
    }

    /// Read a register, as `ctx` may see it.
    pub fn read_register(&self, ctx: &Ctx, id: &str) -> (r: Result<Register, KernelError>)
        requires
            self.wf(),
        ensures
            outcome(r) == register_read(self@.store, ctx@, id@),
    {
        match self.store.registers.get(id) {
            None => Err(KernelError::NotFound(id.to_owned())),
            Some(reg) => {
                if !reg.label.flows_to(&ctx.clearance) {
                    Err(KernelError::I2(cat3("register ", id, " exceeds caller clearance")))
                } else {
                    Ok(reg.dup())
                }
            },
        }
    }

    /// Write a register in place of the one with its id.
    pub fn write_register(&mut self, ctx: &Ctx, reg: Register) -> (r: Result<(), KernelError>)
        requires
            old(self).wf(),
        ensures
            final(self).wf(),
            r is Ok,
            final(self)@ == register_written(old(self)@, ctx@, reg@),
    {
        let id = reg.id.dup();
        self.store.registers.insert(id.as_str(), reg);
        self.record_event("register.written", ctx.now_ms, text(id.as_str()));
        Ok(())
    }
}

} // verus!
