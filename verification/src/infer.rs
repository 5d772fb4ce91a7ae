//! Inference: from a register to an arch and back, with the call on the record on
//! both sides.
use crate::adapter::{
    answer_view, AdapterError, AdapterErrorView, ArchAdapter, Completion, CompletionView,
};
use crate::error::{KernelError, KernelErrorView};
use crate::ir::{lower, lowered, raise, raised};
use crate::json::{text, Fields, Items, Json, JsonView};
use crate::kernel::{
    outcome, register_read, register_written, with_event, Inferred, KernelView, RealKernel,
};
use crate::labels::flows;
use crate::leases::capped_sum;
use crate::manifest::Capability;
use crate::model::{all, dup_all, opt, Duplicate};
use crate::outside::now_ms;
use crate::principal::{Ctx, CtxView};
use crate::projection::{project, projects_to};
use crate::projection_laws::{
    counts_by_length, projection_is_unique, projection_stays_within_budget,
};
use crate::register::{Register, RegisterView};
use crate::store::{ArchStats, ArchStatsView, StoreView};
use crate::text::{cat4, decimal, decimal_text};
use vstd::prelude::*;

verus! {

/// What a register is lowered for.
pub open spec fn role_of(c: Capability) -> Seq<char> {
    match c {
        Capability::Plan => "plan"@,
        Capability::Judge => "judge"@,
        Capability::Generate => "draft"@,
    }
}

fn role_name(c: Capability) -> (r: &'static str)
    ensures
        r@ == role_of(c),
{
    match c {
        Capability::Plan => "plan",
        Capability::Judge => "judge",
        Capability::Generate => "draft",
    }
}

/// What a prompt is cut to for a budget; nothing when even what it cannot do
/// without does not fit.
pub open spec fn fitted<A: ArchAdapter>(a: A, prompt: Seq<char>, budget: nat) -> Option<Seq<char>> {
    choose|r: Option<Seq<char>>| projects_to(a, prompt, budget, r)
}

/// What a projection gives is what the prompt is cut to.
pub proof fn projection_is_what_fits<A: ArchAdapter>(
    a: A,
    prompt: Seq<char>,
    budget: nat,
    r: Option<Seq<char>>,
)
    requires
        projects_to(a, prompt, budget, r),
    ensures
        fitted(a, prompt, budget) == r,
{
    projection_is_unique(a, prompt, budget, r, fitted(a, prompt, budget));
}

/// Why an arch cannot be asked, if it cannot.
pub open spec fn arch_fault<A>(k: KernelView<A>, arch_id: Seq<char>) -> Option<KernelErrorView> {
    if k.adapters.contains_key(arch_id) {
        None
    } else if k.starting.contains_key(arch_id) {
        Some(KernelErrorView::ArchStarting(arch_id))
    } else if k.unavailable.contains_key(arch_id) {
        Some(KernelErrorView::ArchUnavailable(k.unavailable[arch_id].reason))
    } else {
        Some(KernelErrorView::NotFound(arch_id))
    }
}

/// How much context an arch gets.
pub open spec fn budget_of<A: ArchAdapter>(k: KernelView<A>, arch_id: Seq<char>) -> u32 {
    if k.budgets.contains_key(arch_id) {
        k.budgets[arch_id]
    } else {
        k.adapters[arch_id].budget() as u32
    }
}

/// What is said when nothing that may be sent fits.
pub open spec fn too_small(arch_id: Seq<char>, budget: nat, reg_id: Seq<char>) -> KernelErrorView {
    KernelErrorView::I4Prime(
        "arch "@ + arch_id + " has "@ + decimal(budget)
            + " tokens of context, too few for the role and goal of register "@ + reg_id
            + "; refusing rather than sending a mutilated prompt"@,
    )
}

/// What is said when a register may not be shown to an arch.
pub open spec fn above_the_arch(reg_id: Seq<char>, name: Seq<char>) -> KernelErrorView {
    KernelErrorView::I2("register "@ + reg_id + " exceeds the clearance of arch "@ + name)
}

/// A prompt on its way to an arch.
#[derive(Debug)]
pub struct Asked {
    pub arch_id: String,
    pub register: Register,
    pub role: String,
    pub prompt: String,
    pub budget: u32,
    /// How many tokens the prompt is taken to be.
    pub estimated: u32,
    /// Whether the prompt was cut to fit.
    pub projected: bool,
}

/// What an [`Asked`] says.
#[verifier::ext_equal]
pub struct AskedView {
    pub arch_id: Seq<char>,
    pub register: RegisterView,
    pub role: Seq<char>,
    pub prompt: Seq<char>,
    pub budget: u32,
    pub estimated: u32,
    pub projected: bool,
}

impl View for Asked {
    type V = AskedView;

    open spec fn view(&self) -> AskedView {
        AskedView {
            arch_id: self.arch_id@,
            register: self.register@,
            role: self.role@,
            prompt: self.prompt@,
            budget: self.budget,
            estimated: self.estimated,
            projected: self.projected,
        }
    }
}

/// What an inference gave.
#[derive(Debug)]
pub struct InferOutcome {
    pub arch_id: String,
    pub projected: bool,
    pub tokens_in: u32,
}

/// What an [`InferOutcome`] says.
#[verifier::ext_equal]
pub struct InferOutcomeView {
    pub arch_id: Seq<char>,
    pub projected: bool,
    pub tokens_in: u32,
}

impl View for InferOutcome {
    type V = InferOutcomeView;

    open spec fn view(&self) -> InferOutcomeView {
        InferOutcomeView {
            arch_id: self.arch_id@,
            projected: self.projected,
            tokens_in: self.tokens_in,
        }
    }
}

/// The start of what a call puts on the record.
pub open spec fn call_members(
    arch_id: Seq<char>,
    reg_id: Seq<char>,
    phase: Seq<char>,
    tokens_in: u32,
    measured: bool,
) -> Seq<(Seq<char>, JsonView)> {
    seq![
        ("arch_id"@, JsonView::Text(arch_id)),
        ("register"@, JsonView::Text(reg_id)),
        ("phase"@, JsonView::Text(phase)),
        ("tokens_in"@, JsonView::Unsigned(tokens_in as nat)),
        ("measured"@, JsonView::Bool(measured)),
    ]
}

/// A member that is there only when it has a value.
pub open spec fn if_there(name: Seq<char>, v: Option<JsonView>) -> Seq<(Seq<char>, JsonView)> {
    match v {
        Some(value) => seq![(name, value)],
        None => Seq::empty(),
    }
}

/// What a call puts on the record: which arch ran which register, and what the
/// arch measured of the call, where it measured anything.
pub open spec fn call_json(
    arch_id: Seq<char>,
    reg_id: Seq<char>,
    phase: Seq<char>,
    tokens_in: u32,
    measured: bool,
    cost: Option<Seq<char>>,
    details: Option<JsonView>,
) -> JsonView {
    JsonView::Object(
        call_members(arch_id, reg_id, phase, tokens_in, measured) + if_there(
            "cost_list_usd"@,
            match cost {
                Some(digits) => Some(JsonView::Real(digits)),
                None => None,
            },
        ) + if_there("details"@, details),
    )
}

pub(crate) fn call_to_json(
    arch_id: &str,
    reg_id: &str,
    phase: &str,
    tokens_in: u32,
    measured: bool,
    cost: &Option<String>,
    details: &Option<Json>,
) -> (r: Json)
    ensures
        r@ == call_json(arch_id@, reg_id@, phase@, tokens_in, measured, opt(*cost), opt(*details)),
{
    let mut f = Fields::new();
    f.put_text("arch_id", arch_id);
    f.put_text("register", reg_id);
    f.put_text("phase", phase);
    f.put("tokens_in", Json::Unsigned(tokens_in as u64));
    f.put("measured", Json::Bool(measured));
    let ghost head = call_members(arch_id@, reg_id@, phase@, tokens_in, measured);
    assert(f@ =~= head);
    if let Some(digits) = cost {
        f.put("cost_list_usd", Json::Real(digits.clone()));
    }
    if let Some(d) = details {
        f.put("details", d.copy());
    }
    assert(f@ =~= call_json(
        arch_id@,
        reg_id@,
        phase@,
        tokens_in,
        measured,
        opt(*cost),
        opt(*details),
    )->Object_0);
    f.object()
}

/// What a projection puts on the record.
pub open spec fn projection_json(arch_id: Seq<char>, tokens: nat, budget: nat) -> JsonView {
    JsonView::Array(
        seq![
            JsonView::Text(arch_id),
            JsonView::Unsigned(tokens),
            JsonView::Unsigned(budget),
        ],
    )
}

fn projection_to_json(arch_id: &str, tokens: u32, budget: u32) -> (r: Json)
    ensures
        r@ == projection_json(arch_id@, tokens as nat, budget as nat),
{
    let mut items = Items::new();
    items.add(text(arch_id));
    items.add(Json::Unsigned(tokens as u64));
    items.add(Json::Unsigned(budget as u64));
    assert(items@ =~= projection_json(arch_id@, tokens as nat, budget as nat)->Array_0);
    items.array()
}

/// Asking an arch about a register: every refusal comes before anything is
/// recorded, and what is sent is recorded before it is.
pub open spec fn asking<A: ArchAdapter>(
    k: KernelView<A>,
    ctx: CtxView,
    arch_id: Seq<char>,
    capability: Capability,
    reg_id: Seq<char>,
) -> (KernelView<A>, Result<AskedView, KernelErrorView>) {
    match arch_fault(k, arch_id) {
        Some(e) => (k, Err(e)),
        None => match register_read(k.store, ctx, reg_id) {
            Err(e) => (k, Err(e)),
            Ok(reg) => {
                let a = k.adapters[arch_id];
                let role = role_of(capability);
                let prompt = lowered(reg, role);
                let tokens = a.tokens(prompt);
                let budget = budget_of(k, arch_id);
                let projected = tokens > budget;
                if !flows(reg.label, a.declared().clearance) {
                    (k, Err(above_the_arch(reg_id, a.declared().name)))
                } else if projected && fitted(a, prompt, budget as nat) is None {
                    (k, Err(too_small(arch_id, budget as nat, reg_id)))
                } else {
                    let sent = if projected {
                        fitted(a, prompt, budget as nat)->0
                    } else {
                        prompt
                    };
                    let noted = if projected {
                        with_event(
                            k,
                            "infer.projected"@,
                            ctx.now_ms,
                            projection_json(arch_id, tokens, budget as nat),
                        )
                    } else {
                        k
                    };
                    let estimated = a.tokens(sent) as u32;
                    (
                        with_event(
                            noted,
                            "infer"@,
                            ctx.now_ms,
                            call_json(
                                arch_id,
                                reg_id,
                                "requested"@,
                                estimated,
                                false,
                                None,
                                None,
                            ),
                        ),
                        Ok(
                            AskedView {
                                arch_id,
                                register: reg,
                                role,
                                prompt: sent,
                                budget,
                                estimated,
                                projected,
                            },
                        ),
                    )
                }
            },
        },
    }
}

/// The record once it says that a prompt was cut.
pub open spec fn projection_noted<A>(
    k: KernelView<A>,
    ctx: CtxView,
    a: AskedView,
    tokens: u32,
) -> KernelView<A> {
    if a.projected {
        with_event(
            k,
            "infer.projected"@,
            ctx.now_ms,
            projection_json(a.arch_id, tokens as nat, a.budget as nat),
        )
    } else {
        k
    }
}

/// The record once it says that an arch is about to be asked.
pub open spec fn request_noted<A>(
    k: KernelView<A>,
    ctx: CtxView,
    reg_id: Seq<char>,
    a: AskedView,
    tokens: u32,
) -> KernelView<A> {
    with_event(
        projection_noted(k, ctx, a, tokens),
        "infer"@,
        ctx.now_ms,
        call_json(a.arch_id, reg_id, "requested"@, a.estimated, false, None, None),
    )
}

/// The counters of an arch after one more call.
pub open spec fn counted(
    s: ArchStatsView,
    tokens_in: u32,
    measured: Option<u32>,
    cost: Option<Seq<char>>,
    projected: bool,
) -> ArchStatsView {
    ArchStatsView {
        calls: capped_sum(s.calls, 1),
        tokens_in: capped_sum(s.tokens_in, tokens_in as u64),
        tokens_in_measured: capped_sum(
            s.tokens_in_measured,
            match measured {
                Some(n) => n as u64,
                None => 0,
            },
        ),
        projected: capped_sum(
            s.projected,
            if projected {
                1
            } else {
                0
            },
        ),
        costs: match cost {
            Some(digits) => s.costs.push(digits),
            None => s.costs,
        },
    }
}

/// The counters of an arch that has not been called.
pub open spec fn no_calls() -> ArchStatsView {
    ArchStatsView {
        calls: 0,
        tokens_in: 0,
        tokens_in_measured: 0,
        projected: 0,
        costs: Seq::empty(),
    }
}

/// The counters of an arch.
pub open spec fn stats_of(s: StoreView, arch_id: Seq<char>) -> ArchStatsView {
    if s.stats.contains_key(arch_id) {
        s.stats[arch_id]
    } else {
        no_calls()
    }
}

/// What an arch's refusal is to a caller.
pub open spec fn adapter_fault(arch_id: Seq<char>, e: AdapterErrorView) -> KernelErrorView {
    match e {
        AdapterErrorView::I4Prime { needed, ceiling } => KernelErrorView::I4Prime(
            "arch "@ + arch_id + ": "@ + ("the prompt needs "@ + decimal(needed as nat)
                + " tokens and the context holds "@ + decimal(ceiling as nat)),
        ),
        AdapterErrorView::Other(why) => KernelErrorView::Store(
            "arch "@ + arch_id + " failed: "@ + why,
        ),
    }
}

/// What becomes of an arch's answer: it is on the record before it is in the
/// register, and an arch's own count stands before the estimate.
pub open spec fn answering<A>(
    k: KernelView<A>,
    ctx: CtxView,
    asked: AskedView,
    answer: Result<CompletionView, AdapterErrorView>,
    now: u64,
) -> (KernelView<A>, Result<InferOutcomeView, KernelErrorView>) {
    match answer {
        Err(e) => (k, Err(adapter_fault(asked.arch_id, e))),
        Ok(c) => {
            let tokens_in = match c.tokens_in_measured {
                Some(n) => n,
                None => asked.estimated,
            };
            let logged = with_event(
                k,
                "infer"@,
                now,
                call_json(
                    asked.arch_id,
                    asked.register.id,
                    "completed"@,
                    tokens_in,
                    c.tokens_in_measured is Some,
                    c.cost_list_usd,
                    c.details,
                ),
            );
            let counted_in = KernelView {
                infer_log: k.infer_log.push((asked.arch_id, asked.register.label)),
                store: StoreView {
                    stats: k.store.stats.insert(
                        asked.arch_id,
                        counted(
                            stats_of(k.store, asked.arch_id),
                            tokens_in,
                            c.tokens_in_measured,
                            c.cost_list_usd,
                            asked.projected,
                        ),
                    ),
                    ..logged.store
                },
                ..logged
            };
            (
                register_written(counted_in, ctx, raised(asked.register, asked.role, c.text)),
                Ok(
                    InferOutcomeView {
                        arch_id: asked.arch_id,
                        projected: asked.projected,
                        tokens_in,
                    },
                ),
            )
        },
    }
}

/// How long an answer may be.
pub open spec fn answer_limit(budget: u32) -> u32 {
    if budget < 1024 {
        budget
    } else {
        1024
    }
}

/// Whether asking an arch about a register may take the kernel from `k` to `after`
/// with this result: a refusal comes before anything happens, and otherwise the arch
/// gave some answer that it may give.
pub open spec fn infers<A: ArchAdapter>(
    k: KernelView<A>,
    ctx: CtxView,
    arch_id: Seq<char>,
    capability: Capability,
    reg_id: Seq<char>,
    after: KernelView<A>,
    r: Result<InferOutcomeView, KernelErrorView>,
) -> bool {
    match asking(k, ctx, arch_id, capability, reg_id) {
        (_, Err(e)) => after == k && r == Err::<InferOutcomeView, KernelErrorView>(e),
        (asked_k, Ok(a)) => exists|answer: Result<CompletionView, AdapterErrorView>, now: u64|
            k.adapters[arch_id].may_answer(a.prompt, answer_limit(a.budget) as nat, answer) && (
            after,
            r,
        ) == #[trigger] answering(asked_k, ctx, a, answer, now),
    }
}

pub(crate) fn adapter_failed(arch_id: &str, e: &AdapterError) -> (r: KernelError)
    ensures
        r@ == adapter_fault(arch_id@, e@),
{
    match e {
        AdapterError::I4Prime { needed, ceiling } => {
            let n = decimal_text(*needed as u64);
            let c = decimal_text(*ceiling as u64);
            let why = cat4(
                "the prompt needs ",
                n.as_str(),
                " tokens and the context holds ",
                c.as_str(),
            );
            KernelError::I4Prime(cat4("arch ", arch_id, ": ", why.as_str()))
        },
        AdapterError::Other(why) => KernelError::Store(
            cat4("arch ", arch_id, " failed: ", why.as_str()),
        ),
    }
}

fn capped_add(a: u64, b: u64) -> (r: u64)
    ensures
        r == capped_sum(a, b),
{
    if a > u64::MAX - b {
        u64::MAX
    } else {
        a + b
    }
}

impl<A> RealKernel<A> {
    /// Add one call to the counters of an arch.
    pub(crate) fn bump_stats(
        &mut self,
        arch_id: &str,
        tokens_in: u32,
        measured: Option<u32>,
        cost: &Option<String>,
        projected: bool,
    )
        requires
            old(self).wf(),
        ensures
            final(self).wf(),
            final(self)@ == (KernelView {
                store: StoreView {
                    stats: old(self)@.store.stats.insert(
                        arch_id@,
                        counted(
                            stats_of(old(self)@.store, arch_id@),
                            tokens_in,
                            measured,
                            opt(*cost),
                            projected,
                        ),
                    ),
                    ..old(self)@.store
                },
                ..old(self)@
            }),
    {
        let before = match self.store.stats.get(arch_id) {
            Some(s) => s.dup(),
            None => {
                let s = ArchStats {
                    calls: 0,
                    tokens_in: 0,
                    tokens_in_measured: 0,
                    projected: 0,
                    costs: Vec::new(),
                };
                assert(s@ =~= no_calls());
                s
            },
        };
        let measured_in: u64 = match measured {
            Some(n) => n as u64,
            None => 0,
        };
        let was_cut: u64 = if projected {
            1
        } else {
            0
        };
        let mut costs = dup_all(&before.costs);
        let ghost costs_before = all(costs@);
        if let Some(digits) = cost {
            costs.push(digits.clone());
            assert(all(costs@) =~= costs_before.push(digits@));
        }
        let after = ArchStats {
            calls: capped_add(before.calls, 1),
            tokens_in: capped_add(before.tokens_in, tokens_in as u64),
            tokens_in_measured: capped_add(before.tokens_in_measured, measured_in),
            projected: capped_add(before.projected, was_cut),
            costs,
        };
        self.store.stats.insert(arch_id, after);
    }

    pub(crate) fn note_projection(&mut self, ctx: &Ctx, asked: &Asked, tokens: u32)
        requires
            old(self).wf(),
            asked.projected,
        ensures
            final(self).wf(),
            final(self)@ == projection_noted(old(self)@, ctx@, asked@, tokens),
    {
        self.record_event(
            "infer.projected",
            ctx.now_ms,
            projection_to_json(asked.arch_id.as_str(), tokens, asked.budget),
        );
    }

    pub(crate) fn note_request(&mut self, ctx: &Ctx, reg_id: &str, asked: &Asked)
        requires
            old(self).wf(),
        ensures
            final(self).wf(),
            final(self)@ == with_event(
                old(self)@,
                "infer"@,
                ctx@.now_ms,
                call_json(
                    asked@.arch_id,
                    reg_id@,
                    "requested"@,
                    asked@.estimated,
                    false,
                    None,
                    None,
                ),
            ),
    {
        self.record_event(
            "infer",
            ctx.now_ms,
            call_to_json(
                asked.arch_id.as_str(),
                reg_id,
                "requested",
                asked.estimated,
                false,
                &None,
                &None,
            ),
        );
    }

    /// Take in an arch's answer to what it was asked, which came at this time.
    pub fn infer_answered(
        &mut self,
        ctx: &Ctx,
        asked: Asked,
        answer: Result<Completion, AdapterError>,
        now: u64,
    ) -> (r: Result<InferOutcome, KernelError>)
        requires
            old(self).wf(),
        ensures
            final(self).wf(),
            (final(self)@, outcome(r)) == answering(
                old(self)@,
                ctx@,
                asked@,
                answer_view(answer),
                now,
            ),
    {
        match answer {
            Err(e) => Err(adapter_failed(asked.arch_id.as_str(), &e)),
            Ok(c) => {
                let tokens_in: u32 = match c.tokens_in_measured {
                    Some(n) => n,
                    None => asked.estimated,
                };
                let payload = call_to_json(
                    asked.arch_id.as_str(),
                    asked.register.id.as_str(),
                    "completed",
                    tokens_in,
                    c.tokens_in_measured.is_some(),
                    &c.cost_list_usd,
                    &c.details,
                );
                self.record_event("infer", now, payload);
                let ghost before = all(self.infer_log@);
                let entry = Inferred { arch_id: asked.arch_id.dup(), label: asked.register.label };
                let ghost said = entry@;
                self.infer_log.push(entry);
                assert(all(self.infer_log@) =~= before.push(said));
                self.bump_stats(
                    asked.arch_id.as_str(),
                    tokens_in,
                    c.tokens_in_measured,
                    &c.cost_list_usd,
                    asked.projected,
                );
                let mut reg = asked.register;
                raise(&mut reg, asked.role.as_str(), c.text.as_str());
                let _ = self.write_register(ctx, reg);
                Ok(InferOutcome { arch_id: asked.arch_id, projected: asked.projected, tokens_in })
            },
        }
    }

    /// The inferences that were made, in order.
    pub fn infer_log(&self) -> (r: &Vec<Inferred>)
        ensures
            all(r@) == self@.infer_log,
    {
        &self.infer_log
    }
}

impl<A: ArchAdapter> RealKernel<A> {
    /// Make a register into a prompt for an arch, and count what the whole prompt was.
    pub(crate) fn prepare(
        &self,
        ctx: &Ctx,
        arch_id: &str,
        capability: Capability,
        reg_id: &str,
    ) -> (r: Result<(Asked, u32), KernelError>)
        requires
            self.wf(),
        ensures
            match asking(self@, ctx@, arch_id@, capability, reg_id@).1 {
                Err(e) => r is Err && r->Err_0@ == e,
                Ok(a) => r is Ok && r->Ok_0.0@ == a && asking(
                    self@,
                    ctx@,
                    arch_id@,
                    capability,
                    reg_id@,
                ).0 == request_noted(self@, ctx@, reg_id@, a, r->Ok_0.1),
            },
            r is Ok && counts_by_length(self@.adapters[arch_id@]) ==> self@.adapters[arch_id@].tokens(
                r->Ok_0.0.prompt@,
            ) <= r->Ok_0.0.budget,
    {
        if !self.adapters.has(arch_id) {
            if self.starting.has(arch_id) {
                return Err(KernelError::ArchStarting(arch_id.to_owned()));
            }
            return match self.unavailable.get(arch_id) {
                Some(down) => Err(KernelError::ArchUnavailable(down.reason.dup())),
                None => Err(KernelError::NotFound(arch_id.to_owned())),
            };
        }
        let reg = match self.read_register(ctx, reg_id) {
            Ok(reg) => reg,
            Err(e) => return Err(e),
        };
        let a = match self.adapters.get(arch_id) {
            Some(slot) => &slot.adapter,
            None => return Err(KernelError::NotFound(arch_id.to_owned())),
        };
        let m = a.manifest();
        if !reg.label.flows_to(&m.clearance) {
            return Err(
                KernelError::I2(
                    cat4("register ", reg_id, " exceeds the clearance of arch ", m.name.as_str()),
                ),
            );
        }
        let role = role_name(capability);
        let prompt = lower(&reg, role);
        let tokens: u32 = a.count_tokens(prompt.as_str());
        let budget: u32 = match self.budgets.get(arch_id) {
            Some(n) => *n,
            None => a.context_budget(),
        };
        let projected = tokens > budget;
        let sent = if projected {
            let cut = project(prompt.as_str(), budget, a);
            proof {
                projection_is_what_fits(*a, prompt@, budget as nat, opt(cut));
                if counts_by_length(*a) {
                    projection_stays_within_budget(*a, prompt@, budget as nat, opt(cut));
                }
            }
            match cut {
                Some(s) => s,
                None => {
                    let n = decimal_text(budget as u64);
                    let head = cat4("arch ", arch_id, " has ", n.as_str());
                    return Err(
                        KernelError::I4Prime(
                            cat4(
                                head.as_str(),
                                " tokens of context, too few for the role and goal of register ",
                                reg_id,
                                "; refusing rather than sending a mutilated prompt",
                            ),
                        ),
                    );
                },
            }
        } else {
            prompt
        };
        let estimated: u32 = a.count_tokens(sent.as_str());
        let asked = Asked {
            arch_id: arch_id.to_owned(),
            register: reg,
            role: role.to_owned(),
            prompt: sent,
            budget,
            estimated,
            projected,
        };
        Ok((asked, tokens))
    }

    /// Make a register into a prompt for an arch, and record that it is about to be
    /// asked.
    pub fn infer_ask(
        &mut self,
        ctx: &Ctx,
        arch_id: &str,
        capability: Capability,
        reg_id: &str,
    ) -> (r: Result<Asked, KernelError>)
        requires
            old(self).wf(),
        ensures
            final(self).wf(),
            (final(self)@, outcome(r)) == asking(old(self)@, ctx@, arch_id@, capability, reg_id@),
            r is Ok && counts_by_length(old(self)@.adapters[arch_id@]) ==> old(
                self,
            )@.adapters[arch_id@].tokens(r->Ok_0.prompt@) <= r->Ok_0.budget,
    {
        let (asked, tokens) = match self.prepare(ctx, arch_id, capability, reg_id) {
            Ok(p) => p,
            Err(e) => return Err(e),
        };
        if asked.projected {
            self.note_projection(ctx, &asked, tokens);
        }
        self.note_request(ctx, reg_id, &asked);
        Ok(asked)
    }

    /// Ask an arch about a register, and put its answer into the register.
    pub fn infer(
        &mut self,
        ctx: &Ctx,
        arch_id: &str,
        capability: Capability,
        reg_id: &str,
    ) -> (r: Result<InferOutcome, KernelError>)
        requires
            old(self).wf(),
        ensures
            final(self).wf(),
            infers(old(self)@, ctx@, arch_id@, capability, reg_id@, final(self)@, outcome(r)),
    {
        let asked = match self.infer_ask(ctx, arch_id, capability, reg_id) {
            Ok(asked) => asked,
            Err(e) => return Err(e),
        };
        let limit: u32 = if asked.budget < 1024 {
            asked.budget
        } else {
            1024
        };
        let answer = match self.adapters.get(arch_id) {
            Some(slot) => slot.adapter.complete(asked.prompt.as_str(), limit),
            None => Err(AdapterError::Other(arch_id.to_owned())),
        };
        let ghost said = answer_view(answer);
        let ghost sent = asked@;
        let ghost k = self@;
        let now: u64 = now_ms();
        let r = self.infer_answered(ctx, asked, answer, now);
        assert((self@, outcome(r)) == answering(k, ctx@, sent, said, now));
        r
    }
}

/// A register is shown to an arch only when its label flows to the arch's clearance,
/// and to a caller's.
pub proof fn inference_stays_within_clearance<A: ArchAdapter>(
    k: KernelView<A>,
    ctx: CtxView,
    arch_id: Seq<char>,
    capability: Capability,
    reg_id: Seq<char>,
)
    requires
        asking(k, ctx, arch_id, capability, reg_id).1 is Ok,
    ensures
        k.adapters.contains_key(arch_id),
        k.store.registers.contains_key(reg_id),
        flows(k.store.registers[reg_id].label, k.adapters[arch_id].declared().clearance),
        flows(k.store.registers[reg_id].label, ctx.clearance),
{
}

/// What is refused before it is sent leaves the kernel as it was: nothing is on the
/// record, and nothing in the log of inferences.
pub proof fn refused_inference_leaves_no_trace<A: ArchAdapter>(
    k: KernelView<A>,
    ctx: CtxView,
    arch_id: Seq<char>,
    capability: Capability,
    reg_id: Seq<char>,
)
    requires
        asking(k, ctx, arch_id, capability, reg_id).1 is Err,
    ensures
        asking(k, ctx, arch_id, capability, reg_id).0 == k,
{
}

/// A prompt was cut exactly when the record says so, and what is sent fits.
pub proof fn projection_is_on_the_record<A: ArchAdapter>(
    k: KernelView<A>,
    ctx: CtxView,
    arch_id: Seq<char>,
    capability: Capability,
    reg_id: Seq<char>,
)
    requires
        asking(k, ctx, arch_id, capability, reg_id).1 is Ok,
    ensures
        ({
            let (after, asked) = asking(k, ctx, arch_id, capability, reg_id);
            let n = k.store.ledger.len() as int;
            &&& after.store.ledger.len() == n + (if asked->Ok_0.projected {
                2int
            } else {
                1int
            })
            &&& asked->Ok_0.projected <==> after.store.ledger[n].kind == "infer.projected"@
            &&& after.store.ledger.last().kind == "infer"@
        }),
{
    reveal_strlit("infer");
    reveal_strlit("infer.projected");
    assert("infer"@.len() != "infer.projected"@.len());
}

/// An answer is on the record before it is in the register: the call's event comes
/// before the event of the write.
pub proof fn answer_is_recorded_before_it_is_written<A>(
    k: KernelView<A>,
    ctx: CtxView,
    asked: AskedView,
    c: CompletionView,
    now: u64,
)
    ensures
        ({
            let after = answering(k, ctx, asked, Ok(c), now).0;
            let n = k.store.ledger.len() as int;
            &&& after.store.ledger.len() == n + 2
            &&& after.store.ledger[n].kind == "infer"@
            &&& after.store.ledger[n + 1].kind == "register.written"@
            &&& after.infer_log == k.infer_log.push((asked.arch_id, asked.register.label))
        }),
{
}

} // verus!
