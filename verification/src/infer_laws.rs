//! What an inference asks, what it leaves behind, and what it is counted as.
use crate::adapter::{AdapterErrorView, ArchAdapter, CompletionView};
use crate::error::KernelErrorView;
use crate::infer::{
    answering, asking, call_json, infers, stats_of, AskedView, InferOutcomeView,
};
use crate::ir::lowered;
use crate::json::{bool_field, member, number_field, text_field, JsonView};
use crate::kernel::KernelView;
use crate::manifest::Capability;
use crate::principal::CtxView;
use crate::reading_laws::{member_is_found, nothing_is_found};
use crate::register::RegisterView;
use crate::store::{empty_store, LedgerEventView, StoreView};
use crate::text::trimmed;
use vstd::prelude::*;

verus! {

/// What the record says of a call can be read off it: the arch, the register, how far the
/// call had come, the tokens, and whether the arch measured them.
pub proof fn call_is_told_in_full(
    arch_id: Seq<char>,
    reg_id: Seq<char>,
    phase: Seq<char>,
    tokens_in: u32,
    measured: bool,
    cost: Option<Seq<char>>,
    details: Option<JsonView>,
)
    ensures
        ({
            let told = call_json(arch_id, reg_id, phase, tokens_in, measured, cost, details);
            &&& text_field(told, "arch_id"@) == Some(arch_id)
            &&& text_field(told, "register"@) == Some(reg_id)
            &&& text_field(told, "phase"@) == Some(phase)
            &&& number_field(told, "tokens_in"@) == Some(tokens_in as nat)
            &&& bool_field(told, "measured"@) == Some(measured)
            &&& cost_said(told) == cost
            &&& crate::json::field(told, "details"@) == details
        }),
{
    let ms = call_json(arch_id, reg_id, phase, tokens_in, measured, cost, details)->Object_0;
    reveal_strlit("arch_id");
    reveal_strlit("register");
    reveal_strlit("phase");
    reveal_strlit("tokens_in");
    reveal_strlit("measured");
    assert(member(ms, "arch_id"@) == Some(ms[0].1)) by {
        member_is_found(ms, 0);
    }
    assert(member(ms, "register"@) == Some(ms[1].1)) by {
        assert("arch_id"@.len() != "register"@.len());
        member_is_found(ms, 1);
    }
    assert(member(ms, "phase"@) == Some(ms[2].1)) by {
        assert("arch_id"@.len() != "phase"@.len());
        assert("register"@.len() != "phase"@.len());
        member_is_found(ms, 2);
    }
    assert(member(ms, "tokens_in"@) == Some(ms[3].1)) by {
        assert("arch_id"@.len() != "tokens_in"@.len());
        assert("register"@.len() != "tokens_in"@.len());
        assert("phase"@.len() != "tokens_in"@.len());
        member_is_found(ms, 3);
    }
    assert(member(ms, "measured"@) == Some(ms[4].1)) by {
        assert("arch_id"@.len() != "measured"@.len());
        assert("register"@[0] != "measured"@[0]);
        assert("phase"@.len() != "measured"@.len());
        assert("tokens_in"@.len() != "measured"@.len());
        member_is_found(ms, 4);
    }
    reveal_strlit("cost_list_usd");
    reveal_strlit("details");
    let (c, d) = ("cost_list_usd"@, "details"@);
    assert(c.len() == 13 && d.len() == 7);
    assert(ms[0].0.len() == 7 && ms[0].0[0] == 'a');
    assert(ms[1].0.len() == 8 && ms[2].0.len() == 5 && ms[3].0.len() == 9 && ms[4].0.len() == 8);
    assert(d[0] == 'd');
    if cost is Some {
        assert(ms[5] == (c, JsonView::Real(cost->0)));
        member_is_found(ms, 5);
        if details is Some {
            assert(ms[6] == (d, details->0));
            member_is_found(ms, 6);
        } else {
            assert(ms.len() == 6);
            nothing_is_found(ms, d);
        }
    } else {
        if details is Some {
            assert(ms[5] == (d, details->0));
            member_is_found(ms, 5);
        } else {
            assert(ms.len() == 5);
            nothing_is_found(ms, d);
        }
        assert forall|i: int| 0 <= i < ms.len() implies (#[trigger] ms[i]).0 != c by {
            assert(ms[i].0.len() != 13);
        }
        nothing_is_found(ms, c);
    }
}

/// The price that the record says a call had, if it says one.
pub open spec fn cost_said(told: JsonView) -> Option<Seq<char>> {
    match crate::json::field(told, "cost_list_usd"@) {
        Some(JsonView::Real(digits)) => Some(digits),
        _ => None,
    }
}

/// Whether an event says that an arch answered.
pub open spec fn tells_of_an_answer(e: LedgerEventView, arch_id: Seq<char>) -> bool {
    &&& e.kind == "infer"@
    &&& text_field(e.payload, "phase"@) == Some("completed"@)
    &&& text_field(e.payload, "arch_id"@) == Some(arch_id)
}

/// The tokens that an event says a call took.
pub open spec fn tokens_said(e: LedgerEventView) -> nat {
    match number_field(e.payload, "tokens_in"@) {
        Some(n) => n,
        None => 0,
    }
}

/// How often the record says that an arch answered.
pub open spec fn calls_on_record(ledger: Seq<LedgerEventView>, arch_id: Seq<char>) -> nat
    decreases ledger.len(),
{
    if ledger.len() == 0 {
        0
    } else {
        calls_on_record(ledger.drop_last(), arch_id) + (if tells_of_an_answer(ledger.last(), arch_id) {
            1nat
        } else {
            0
        })
    }
}

/// What the tokens that the record says an arch was sent come to.
pub open spec fn tokens_on_record(ledger: Seq<LedgerEventView>, arch_id: Seq<char>) -> nat
    decreases ledger.len(),
{
    if ledger.len() == 0 {
        0
    } else {
        tokens_on_record(ledger.drop_last(), arch_id) + (if tells_of_an_answer(
            ledger.last(),
            arch_id,
        ) {
            tokens_said(ledger.last())
        } else {
            0
        })
    }
}

/// What those of them come to that the arch measured.
pub open spec fn measured_on_record(ledger: Seq<LedgerEventView>, arch_id: Seq<char>) -> nat
    decreases ledger.len(),
{
    if ledger.len() == 0 {
        0
    } else {
        measured_on_record(ledger.drop_last(), arch_id) + (if tells_of_an_answer(
            ledger.last(),
            arch_id,
        ) && bool_field(ledger.last().payload, "measured"@) == Some(true) {
            tokens_said(ledger.last())
        } else {
            0
        })
    }
}

/// The prices that the record says the calls of an arch had, in order.
pub open spec fn costs_on_record(ledger: Seq<LedgerEventView>, arch_id: Seq<char>) -> Seq<Seq<char>>
    decreases ledger.len(),
{
    if ledger.len() == 0 {
        Seq::empty()
    } else {
        let before = costs_on_record(ledger.drop_last(), arch_id);
        match cost_said(ledger.last().payload) {
            Some(digits) if tells_of_an_answer(ledger.last(), arch_id) => before.push(digits),
            _ => before,
        }
    }
}

/// A count as it is kept: the largest number where it does not fit.
pub open spec fn as_kept(n: nat) -> u64 {
    if n > u64::MAX {
        u64::MAX
    } else {
        n as u64
    }
}

/// Whether the counters of an arch are what the record says of its calls: how many there
/// were, the sum of their tokens, the sum of those that were measured, and every price.
pub open spec fn counted_as_recorded(s: StoreView, arch_id: Seq<char>) -> bool {
    let stats = stats_of(s, arch_id);
    &&& stats.calls == as_kept(calls_on_record(s.ledger, arch_id))
    &&& stats.tokens_in == as_kept(tokens_on_record(s.ledger, arch_id))
    &&& stats.tokens_in_measured == as_kept(measured_on_record(s.ledger, arch_id))
    &&& stats.costs == costs_on_record(s.ledger, arch_id)
}

/// Nothing is counted of an arch on a store that holds nothing yet.
pub proof fn empty_store_is_counted(state_dir: Seq<char>, windows: bool, arch_id: Seq<char>)
    ensures
        counted_as_recorded(empty_store(state_dir, windows), arch_id),
{
}

proof fn one_more_event(ledger: Seq<LedgerEventView>, e: LedgerEventView, arch_id: Seq<char>)
    ensures
        !tells_of_an_answer(e, arch_id) ==> {
            &&& calls_on_record(ledger.push(e), arch_id) == calls_on_record(ledger, arch_id)
            &&& tokens_on_record(ledger.push(e), arch_id) == tokens_on_record(ledger, arch_id)
            &&& measured_on_record(ledger.push(e), arch_id) == measured_on_record(ledger, arch_id)
            &&& costs_on_record(ledger.push(e), arch_id) == costs_on_record(ledger, arch_id)
        },
        tells_of_an_answer(e, arch_id) ==> {
            &&& calls_on_record(ledger.push(e), arch_id) == calls_on_record(ledger, arch_id) + 1
            &&& tokens_on_record(ledger.push(e), arch_id) == tokens_on_record(ledger, arch_id)
                + tokens_said(e)
            &&& measured_on_record(ledger.push(e), arch_id) == measured_on_record(ledger, arch_id)
                + (if bool_field(e.payload, "measured"@) == Some(true) {
                tokens_said(e)
            } else {
                0
            })
            &&& costs_on_record(ledger.push(e), arch_id) == match cost_said(e.payload) {
                Some(digits) => costs_on_record(ledger, arch_id).push(digits),
                None => costs_on_record(ledger, arch_id),
            }
        },
{
    assert(ledger.push(e).drop_last() =~= ledger);
    assert(ledger.push(e).last() == e);
}

/// What was measured is never more than what was counted.
pub proof fn measured_is_part_of_the_count(ledger: Seq<LedgerEventView>, arch_id: Seq<char>)
    ensures
        measured_on_record(ledger, arch_id) <= tokens_on_record(ledger, arch_id),
    decreases ledger.len(),
{
    if ledger.len() > 0 {
        measured_is_part_of_the_count(ledger.drop_last(), arch_id);
    }
}

/// The counters of every arch go on being the sums of what the record says of its calls,
/// whatever an arch answers: one answered call is one more call, and its tokens come on top
/// of those before.
pub proof fn counters_are_sums_of_the_record<A>(
    k: KernelView<A>,
    ctx: CtxView,
    asked: AskedView,
    answer: Result<CompletionView, AdapterErrorView>,
    now: u64,
    arch_id: Seq<char>,
)
    requires
        counted_as_recorded(k.store, arch_id),
    ensures
        counted_as_recorded(answering(k, ctx, asked, answer, now).0.store, arch_id),
        stats_of(answering(k, ctx, asked, answer, now).0.store, arch_id).tokens_in >= stats_of(
            k.store,
            arch_id,
        ).tokens_in,
        stats_of(answering(k, ctx, asked, answer, now).0.store, arch_id).tokens_in_measured
            <= stats_of(answering(k, ctx, asked, answer, now).0.store, arch_id).tokens_in,
{
    let after = answering(k, ctx, asked, answer, now).0.store;
    measured_is_part_of_the_count(after.ledger, arch_id);
    if let Ok(c) = answer {
        let ledger = k.store.ledger;
        let tokens_in = match c.tokens_in_measured {
            Some(n) => n,
            None => asked.estimated,
        };
        call_is_told_in_full(
            asked.arch_id,
            asked.register.id,
            "completed"@,
            tokens_in,
            c.tokens_in_measured is Some,
            c.cost_list_usd,
            c.details,
        );
        let call = after.ledger[ledger.len() as int];
        let written = after.ledger[ledger.len() as int + 1];
        assert(after.ledger =~= ledger.push(call).push(written));
        one_more_event(ledger, call, arch_id);
        one_more_event(ledger.push(call), written, arch_id);
        reveal_strlit("infer");
        reveal_strlit("register.written");
        assert("infer"@.len() != "register.written"@.len());
        assert(!tells_of_an_answer(written, arch_id));
        assert(tells_of_an_answer(call, arch_id) <==> arch_id == asked.arch_id);
        if arch_id != asked.arch_id {
            assert(stats_of(after, arch_id) == stats_of(k.store, arch_id));
        }
    }
}

/// What asking an arch puts on the record counts as no call: it has not answered yet.
pub proof fn asking_counts_nothing<A: ArchAdapter>(
    k: KernelView<A>,
    ctx: CtxView,
    arch_id: Seq<char>,
    capability: Capability,
    reg_id: Seq<char>,
    counted: Seq<char>,
)
    requires
        counted_as_recorded(k.store, counted),
    ensures
        counted_as_recorded(asking(k, ctx, arch_id, capability, reg_id).0.store, counted),
{
    let (after, r) = asking(k, ctx, arch_id, capability, reg_id);
    if r is Ok {
        let a = r->Ok_0;
        call_is_told_in_full(arch_id, reg_id, "requested"@, a.estimated, false, None, None);
        reveal_strlit("infer");
        reveal_strlit("infer.projected");
        reveal_strlit("requested");
        reveal_strlit("completed");
        assert("infer"@.len() != "infer.projected"@.len());
        assert("requested"@[0] != "completed"@[0]);
        let ledger = k.store.ledger;
        let last = after.store.ledger.last();
        assert(!tells_of_an_answer(last, counted));
        if a.projected {
            let cut = after.store.ledger[ledger.len() as int];
            one_more_event(ledger, cut, counted);
            one_more_event(ledger.push(cut), last, counted);
            assert(after.store.ledger =~= ledger.push(cut).push(last));
        } else {
            one_more_event(ledger, last, counted);
            assert(after.store.ledger =~= ledger.push(last));
        }
        assert(stats_of(after.store, counted) == stats_of(k.store, counted));
    }
}

/// Some answers, one after the other: what was asked each time, what came back and when.
pub struct Answered {
    pub asked: AskedView,
    pub answer: Result<CompletionView, AdapterErrorView>,
    pub now: u64,
}

/// The kernel after these answers.
pub open spec fn after_answers<A>(k: KernelView<A>, ctx: CtxView, calls: Seq<Answered>) -> KernelView<A>
    decreases calls.len(),
{
    if calls.len() == 0 {
        k
    } else {
        let c = calls.last();
        answering(after_answers(k, ctx, calls.drop_last()), ctx, c.asked, c.answer, c.now).0
    }
}

/// The tokens of one answer to an arch: what the arch measured, or else the estimate; none
/// where it was another arch, or did not answer.
pub open spec fn tokens_of(c: Answered, arch_id: Seq<char>) -> nat {
    match c.answer {
        Ok(completion) if c.asked.arch_id == arch_id => match completion.tokens_in_measured {
            Some(n) => n as nat,
            None => c.asked.estimated as nat,
        },
        _ => 0,
    }
}

/// What the tokens of these answers come to.
pub open spec fn tokens_of_all(calls: Seq<Answered>, arch_id: Seq<char>) -> nat
    decreases calls.len(),
{
    if calls.len() == 0 {
        0
    } else {
        tokens_of_all(calls.drop_last(), arch_id) + tokens_of(calls.last(), arch_id)
    }
}

/// How many of these answers an arch gave.
pub open spec fn answers_of(calls: Seq<Answered>, arch_id: Seq<char>) -> nat
    decreases calls.len(),
{
    if calls.len() == 0 {
        0
    } else {
        answers_of(calls.drop_last(), arch_id) + (if calls.last().answer is Ok
            && calls.last().asked.arch_id == arch_id {
            1nat
        } else {
            0
        })
    }
}

/// How many of the prompts of these answers were cut to fit.
pub open spec fn cut_of(calls: Seq<Answered>, arch_id: Seq<char>) -> nat
    decreases calls.len(),
{
    if calls.len() == 0 {
        0
    } else {
        cut_of(calls.drop_last(), arch_id) + (if calls.last().answer is Ok
            && calls.last().asked.arch_id == arch_id && calls.last().asked.projected {
            1nat
        } else {
            0
        })
    }
}

/// After any number of answers, in any order and from any arches, the counters of each arch
/// have grown by how many it gave, by the sum of their tokens, and by how many of their
/// prompts were cut.
pub proof fn counters_grow_by_every_call<A>(
    k: KernelView<A>,
    ctx: CtxView,
    calls: Seq<Answered>,
    arch_id: Seq<char>,
)
    ensures
        ({
            let was = stats_of(k.store, arch_id);
            let is = stats_of(after_answers(k, ctx, calls).store, arch_id);
            &&& is.calls == as_kept((was.calls + answers_of(calls, arch_id)) as nat)
            &&& is.tokens_in == as_kept((was.tokens_in + tokens_of_all(calls, arch_id)) as nat)
            &&& is.projected == as_kept((was.projected + cut_of(calls, arch_id)) as nat)
        }),
    decreases calls.len(),
{
    if calls.len() > 0 {
        counters_grow_by_every_call(k, ctx, calls.drop_last(), arch_id);
        let mid = after_answers(k, ctx, calls.drop_last());
        let c = calls.last();
        if c.answer is Ok {
            let after = answering(mid, ctx, c.asked, c.answer, c.now).0;
            if arch_id != c.asked.arch_id {
                assert(stats_of(after.store, arch_id) == stats_of(mid.store, arch_id));
            }
        }
    }
}

/// What an arch is asked: about the register that was named, for the role that was meant,
/// with all of its prompt wherever that is within the arch's context. The context is what
/// was set for the arch, or else its own; and the record says what is sent before it is.
pub proof fn arch_is_asked_what_was_meant<A: ArchAdapter>(
    k: KernelView<A>,
    ctx: CtxView,
    arch_id: Seq<char>,
    capability: Capability,
    reg_id: Seq<char>,
)
    requires
        asking(k, ctx, arch_id, capability, reg_id).1 is Ok,
    ensures
        ({
            let (after, r) = asking(k, ctx, arch_id, capability, reg_id);
            let a = r->Ok_0;
            let arch = k.adapters[arch_id];
            let whole = lowered(k.store.registers[reg_id], a.role);
            let said = after.store.ledger.last();
            &&& a.arch_id == arch_id
            &&& a.register == k.store.registers[reg_id]
            &&& a.role == match capability {
                Capability::Plan => "plan"@,
                Capability::Generate => "draft"@,
                Capability::Judge => "judge"@,
            }
            &&& k.budgets.contains_key(arch_id) ==> a.budget == k.budgets[arch_id]
            &&& !k.budgets.contains_key(arch_id) && arch.budget() <= u32::MAX ==> a.budget
                == arch.budget()
            &&& a.projected <==> arch.tokens(whole) > a.budget
            &&& !a.projected ==> a.prompt == whole
            &&& arch.tokens(a.prompt) <= u32::MAX ==> a.estimated == arch.tokens(a.prompt)
            &&& said.kind == "infer"@
            &&& said.wall_ms == ctx.now_ms
            &&& text_field(said.payload, "arch_id"@) == Some(arch_id)
            &&& text_field(said.payload, "register"@) == Some(reg_id)
            &&& text_field(said.payload, "phase"@) == Some("requested"@)
            &&& number_field(said.payload, "tokens_in"@) == Some(a.estimated as nat)
            &&& bool_field(said.payload, "measured"@) == Some(false)
            &&& after == (KernelView {
                store: StoreView { ledger: after.store.ledger, ..k.store },
                ..k
            })
        }),
{
    let a = asking(k, ctx, arch_id, capability, reg_id).1->Ok_0;
    call_is_told_in_full(arch_id, reg_id, "requested"@, a.estimated, false, None, None);
}

/// An arch is asked whenever it can be called, the register may be seen by who asks and by
/// the arch, and the prompt is within its context; and what it is missing otherwise is said:
/// it is starting, it is unavailable and why, or there is none of that name.
pub proof fn arch_that_can_be_asked_is<A: ArchAdapter>(
    k: KernelView<A>,
    ctx: CtxView,
    arch_id: Seq<char>,
    capability: Capability,
    reg_id: Seq<char>,
)
    ensures
        ({
            let r = asking(k, ctx, arch_id, capability, reg_id).1;
            let arch = k.adapters[arch_id];
            let reg = k.store.registers[reg_id];
            &&& !k.adapters.contains_key(arch_id) && k.starting.contains_key(arch_id) ==> r == Err::<
                AskedView,
                KernelErrorView,
            >(KernelErrorView::ArchStarting(arch_id))
            &&& !k.adapters.contains_key(arch_id) && !k.starting.contains_key(arch_id)
                && k.unavailable.contains_key(arch_id) ==> r == Err::<AskedView, KernelErrorView>(
                KernelErrorView::ArchUnavailable(k.unavailable[arch_id].reason),
            )
            &&& !k.adapters.contains_key(arch_id) && !k.starting.contains_key(arch_id)
                && !k.unavailable.contains_key(arch_id) ==> r == Err::<AskedView, KernelErrorView>(
                KernelErrorView::NotFound(arch_id),
            )
            &&& k.adapters.contains_key(arch_id) && !k.store.registers.contains_key(reg_id) ==> r
                == Err::<AskedView, KernelErrorView>(KernelErrorView::NotFound(reg_id))
            &&& k.adapters.contains_key(arch_id) && k.store.registers.contains_key(reg_id)
                && !crate::labels::flows(reg.label, ctx.clearance) ==> r is Err && r->Err_0 is I2
            &&& k.adapters.contains_key(arch_id) && k.store.registers.contains_key(reg_id)
                && !crate::labels::flows(reg.label, arch.declared().clearance) ==> r is Err
                && r->Err_0 is I2
            &&& k.adapters.contains_key(arch_id) && k.store.registers.contains_key(reg_id)
                && crate::labels::flows(reg.label, ctx.clearance) && crate::labels::flows(
                reg.label,
                arch.declared().clearance,
            ) && k.budgets.contains_key(arch_id) && arch.tokens(
                lowered(
                    reg,
                    match capability {
                        Capability::Plan => "plan"@,
                        Capability::Generate => "draft"@,
                        Capability::Judge => "judge"@,
                    },
                ),
            ) <= k.budgets[arch_id] ==> r is Ok
        }),
{
}

/// What an arch's answer leaves behind: one new entry on the register it was asked about,
/// which says the role and the answer; the call on the record with the tokens that are
/// reported; and nothing else.
pub proof fn answer_is_written_where_it_belongs<A>(
    k: KernelView<A>,
    ctx: CtxView,
    asked: AskedView,
    c: CompletionView,
    now: u64,
)
    ensures
        ({
            let (after, r) = answering(k, ctx, asked, Ok(c), now);
            let reg = asked.register;
            let said = asked.role + ": "@ + trimmed(c.text);
            let call = after.store.ledger[k.store.ledger.len() as int];
            &&& r is Ok
            &&& r->Ok_0.arch_id == asked.arch_id
            &&& r->Ok_0.projected == asked.projected
            &&& c.tokens_in_measured is Some ==> r->Ok_0.tokens_in == c.tokens_in_measured->0
            &&& c.tokens_in_measured is None ==> r->Ok_0.tokens_in == asked.estimated
            &&& after.store.registers.contains_key(reg.id)
            &&& asked.role == "judge"@ ==> after.store.registers[reg.id] == (RegisterView {
                open_questions: reg.open_questions.push(said),
                ..reg
            })
            &&& asked.role != "judge"@ ==> after.store.registers[reg.id] == (RegisterView {
                decisions: reg.decisions.push(said),
                ..reg
            })
            &&& forall|id: Seq<char>|
                id != reg.id ==> (#[trigger] after.store.registers.contains_key(id)
                    == k.store.registers.contains_key(id) && after.store.registers[id]
                    == k.store.registers[id])
            &&& call.wall_ms == now
            &&& text_field(call.payload, "arch_id"@) == Some(asked.arch_id)
            &&& text_field(call.payload, "register"@) == Some(reg.id)
            &&& text_field(call.payload, "phase"@) == Some("completed"@)
            &&& number_field(call.payload, "tokens_in"@) == Some(r->Ok_0.tokens_in as nat)
            &&& bool_field(call.payload, "measured"@) == Some(c.tokens_in_measured is Some)
            &&& cost_said(call.payload) == c.cost_list_usd
            &&& crate::json::field(call.payload, "details"@) == c.details
            &&& after == (KernelView {
                infer_log: after.infer_log,
                store: StoreView {
                    ledger: after.store.ledger,
                    stats: after.store.stats,
                    registers: after.store.registers,
                    ..k.store
                },
                ..k
            })
        }),
{
    let tokens_in = match c.tokens_in_measured {
        Some(n) => n,
        None => asked.estimated,
    };
    call_is_told_in_full(
        asked.arch_id,
        asked.register.id,
        "completed"@,
        tokens_in,
        c.tokens_in_measured is Some,
        c.cost_list_usd,
        c.details,
    );
}

/// An arch that gives no answer leaves nothing behind but what was said when it was asked:
/// the register, the counters and the log of inferences stay.
pub proof fn refusal_of_an_arch_leaves_nothing<A>(
    k: KernelView<A>,
    ctx: CtxView,
    asked: AskedView,
    e: AdapterErrorView,
    now: u64,
)
    ensures
        answering(k, ctx, asked, Err(e), now).0 == k,
        answering(k, ctx, asked, Err(e), now).1 is Err,
        e is I4Prime ==> answering(k, ctx, asked, Err(e), now).1->Err_0 is I4Prime,
        e is Other ==> answering(k, ctx, asked, Err(e), now).1->Err_0 is Store,
{
}

/// An inference that gave an outcome put the answer of the very arch it named to the prompt
/// of the very register it named onto that register, as its newest entry.
pub proof fn inference_raises_the_answer<A: ArchAdapter>(
    k: KernelView<A>,
    ctx: CtxView,
    arch_id: Seq<char>,
    capability: Capability,
    reg_id: Seq<char>,
    after: KernelView<A>,
    r: Result<InferOutcomeView, KernelErrorView>,
) -> (c: CompletionView)
    requires
        crate::kernel::filed(k.store),
        infers(k, ctx, arch_id, capability, reg_id, after, r),
        r is Ok,
    ensures
        ({
            let reg = k.store.registers[reg_id];
            let now = after.store.registers[reg_id];
            let a = asking(k, ctx, arch_id, capability, reg_id).1->Ok_0;
            &&& asking(k, ctx, arch_id, capability, reg_id).1 is Ok
            &&& k.store.registers.contains_key(reg_id)
            &&& after.store.registers.contains_key(reg_id)
            &&& k.adapters[arch_id].may_answer(
                a.prompt,
                (if a.budget <= 1024 {
                    a.budget
                } else {
                    1024
                }) as nat,
                Ok(c),
            )
            &&& capability == Capability::Plan ==> now == (RegisterView {
                decisions: reg.decisions.push("plan: "@ + trimmed(c.text)),
                ..reg
            })
            &&& capability == Capability::Generate ==> now == (RegisterView {
                decisions: reg.decisions.push("draft: "@ + trimmed(c.text)),
                ..reg
            })
            &&& capability == Capability::Judge ==> now == (RegisterView {
                open_questions: reg.open_questions.push("judge: "@ + trimmed(c.text)),
                ..reg
            })
            &&& c.tokens_in_measured is Some ==> r->Ok_0.tokens_in == c.tokens_in_measured->0
            &&& c.tokens_in_measured is None ==> r->Ok_0.tokens_in == a.estimated
            &&& after.store.tasks == k.store.tasks
            &&& after.store.blobs == k.store.blobs
            &&& after.store.approvals == k.store.approvals
            &&& after.store.counter == k.store.counter
            &&& forall|id: Seq<char>|
                id != reg_id ==> (#[trigger] after.store.registers.contains_key(id)
                    == k.store.registers.contains_key(id) && after.store.registers[id]
                    == k.store.registers[id])
        }),
{
    let (asked_k, asked_r) = asking(k, ctx, arch_id, capability, reg_id);
    let a = asked_r->Ok_0;
    let (answer, now) = choose|answer: Result<CompletionView, AdapterErrorView>, now: u64|
        k.adapters[arch_id].may_answer(a.prompt, crate::infer::answer_limit(a.budget) as nat, answer)
            && (after, r) == #[trigger] answering(asked_k, ctx, a, answer, now);
    let c = answer->Ok_0;
    reveal_strlit("plan");
    reveal_strlit("draft");
    reveal_strlit("judge");
    reveal_strlit(": ");
    reveal_strlit("plan: ");
    reveal_strlit("draft: ");
    reveal_strlit("judge: ");
    assert("plan"@ + ": "@ =~= "plan: "@);
    assert("draft"@ + ": "@ =~= "draft: "@);
    assert("judge"@ + ": "@ =~= "judge: "@);
    assert("plan"@.len() != "judge"@.len());
    assert("draft"@[0] != "judge"@[0]);
    assert(a.register.id == reg_id);
    answer_is_written_where_it_belongs(asked_k, ctx, a, c, now);
    c
}

/// A prompt that is more than an arch may be sent is cut to what it may, and the record says so
/// before it says that the arch is asked: which arch, how many tokens there were and how many
/// it may have. Nothing is said of a prompt that is sent whole.
pub proof fn cut_prompt_is_on_the_record<A: ArchAdapter>(
    k: KernelView<A>,
    ctx: CtxView,
    arch_id: Seq<char>,
    capability: Capability,
    reg_id: Seq<char>,
    cut: Option<Seq<char>>,
)
    requires
        asking(k, ctx, arch_id, capability, reg_id).1 is Ok,
        crate::projection::projects_to(
            k.adapters[arch_id],
            lowered(
                k.store.registers[reg_id],
                asking(k, ctx, arch_id, capability, reg_id).1->Ok_0.role,
            ),
            asking(k, ctx, arch_id, capability, reg_id).1->Ok_0.budget as nat,
            cut,
        ),
    ensures
        ({
            let (after, r) = asking(k, ctx, arch_id, capability, reg_id);
            let a = r->Ok_0;
            let whole = lowered(k.store.registers[reg_id], a.role);
            let n = k.store.ledger.len() as int;
            let said = after.store.ledger[n];
            &&& cut == Some(a.prompt)
            &&& after.store.ledger.take(n) == k.store.ledger
            &&& !a.projected ==> after.store.ledger.len() == n + 1
            &&& a.projected ==> {
                &&& after.store.ledger.len() == n + 2
                &&& said.kind == "infer.projected"@
                &&& said.wall_ms == ctx.now_ms
                &&& said.payload is Array
                &&& said.payload->Array_0.len() == 3
                &&& said.payload->Array_0[0] == JsonView::Text(arch_id)
                &&& said.payload->Array_0[1] == JsonView::Unsigned(k.adapters[arch_id].tokens(whole))
                &&& said.payload->Array_0[2] == JsonView::Unsigned(a.budget as nat)
            }
        }),
{
    let (after, r) = asking(k, ctx, arch_id, capability, reg_id);
    let a = r->Ok_0;
    let whole = lowered(k.store.registers[reg_id], a.role);
    let arch = k.adapters[arch_id];
    if a.projected {
        crate::projection_laws::projection_is_unique(
            arch,
            whole,
            a.budget as nat,
            cut,
            crate::infer::fitted(arch, whole, a.budget as nat),
        );
    }
    assert(after.store.ledger.take(k.store.ledger.len() as int) =~= k.store.ledger);
}

/// An arch is let answer with no more than its whole context, nor with more than a thousand and
/// twenty-four tokens, and with all of the lesser.
pub proof fn answer_is_limited(budget: u32)
    ensures
        crate::infer::answer_limit(budget) <= budget,
        crate::infer::answer_limit(budget) <= 1024,
        crate::infer::answer_limit(budget) == budget || crate::infer::answer_limit(budget) == 1024,
{
}

/// Every call that was answered is logged with the arch that answered and the label of what it was
/// shown, behind every other; a call that was not is not logged.
pub proof fn answered_call_is_logged<A>(
    k: KernelView<A>,
    ctx: CtxView,
    asked: AskedView,
    answer: Result<CompletionView, AdapterErrorView>,
    now: u64,
)
    ensures
        ({
            let after = answering(k, ctx, asked, answer, now).0;
            let n = k.infer_log.len() as int;
            &&& answer is Ok ==> after.infer_log.len() == n + 1
            &&& answer is Ok ==> after.infer_log.take(n) == k.infer_log
            &&& answer is Ok ==> after.infer_log.last().0 == asked.arch_id
            &&& answer is Ok ==> after.infer_log.last().1 == asked.register.label
            &&& answer is Err ==> after.infer_log == k.infer_log
        }),
{
    let after = answering(k, ctx, asked, answer, now).0;
    if answer is Ok {
        assert(after.infer_log.take(k.infer_log.len() as int) =~= k.infer_log);
    }
}

} // verus!
