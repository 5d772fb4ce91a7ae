//! What machines can never do, however many calls they make.
use crate::approvals::{approves, approving, human_approved, machine_never_approves_as_human};
use crate::error::KernelErrorView;
use crate::governance::automating;
use crate::kernel::{sound, KernelView};
use crate::leases::leasing;
use crate::principal::{ApprovalKind, ApprovalView, CtxView};
use crate::stops::{holds, is_stopped, lifted, person_always_stops, resuming, stopping};
use vstd::prelude::*;

verus! {

/// A call that anybody can make.
pub enum Call {
    Approve(ApprovalView),
    Lease { resource: Seq<char>, ttl_ms: u64 },
    Stop { scope: Seq<char> },
    Resume { stop_id: Seq<char> },
    Automation { business: Seq<char>, module: Seq<char> },
}

/// The kernel after one call.
pub open spec fn called<A>(k: KernelView<A>, ctx: CtxView, call: Call) -> KernelView<A> {
    match call {
        Call::Approve(a) => approving(k, ctx, a).0,
        Call::Lease { resource, ttl_ms } => leasing(k, ctx, resource, ttl_ms).0,
        Call::Stop { scope } => stopping(k, ctx, scope).0,
        Call::Resume { stop_id } => resuming(k, ctx, stop_id).0,
        Call::Automation { business, module } => automating(k, ctx, business, module).0,
    }
}

/// The kernel after these calls, one after the other.
pub open spec fn after_calls<A>(k: KernelView<A>, calls: Seq<(CtxView, Call)>) -> KernelView<A>
    decreases calls.len(),
{
    if calls.len() == 0 {
        k
    } else {
        let before = after_calls(k, calls.drop_last());
        called(before, calls.last().0, calls.last().1)
    }
}

/// Whether every one of these calls is made by a machine.
pub open spec fn by_machines(calls: Seq<(CtxView, Call)>) -> bool {
    forall|i: int| 0 <= i < calls.len() ==> !((#[trigger] calls[i]).0.principal is Human)
}

/// No sequence of calls by machines approves anything in a person's name.
pub proof fn machines_never_approve_as_human<A>(
    k: KernelView<A>,
    calls: Seq<(CtxView, Call)>,
    subject: Seq<char>,
)
    requires
        by_machines(calls),
        human_approved(after_calls(k, calls).store, subject),
    ensures
        human_approved(k.store, subject),
    decreases calls.len(),
{
    if calls.len() > 0 {
        let rest = calls.drop_last();
        let before = after_calls(k, rest);
        let (ctx, call) = calls.last();
        assert(!(calls[calls.len() - 1].0.principal is Human));
        assert(by_machines(rest)) by {
            assert forall|i: int| 0 <= i < rest.len() implies !((
            #[trigger] rest[i]).0.principal is Human) by {
                assert(rest[i] == calls[i]);
            }
        }
        match call {
            Call::Approve(a) => {
                machine_never_approves_as_human(before, ctx, a, subject);
            },
            _ => {
                assert(called(before, ctx, call).store.approvals == before.store.approvals);
                let after = called(before, ctx, call).store;
                let key = choose|key: Seq<char>| #[trigger]
                    after.approvals.contains_key(key) && approves(
                        after.approvals[key],
                        subject,
                    ) && after.approvals[key].kind == ApprovalKind::Human;
                assert(before.store.approvals.contains_key(key));
            },
        }
        machines_never_approve_as_human(k, rest, subject);
    }
}

/// No sequence of calls by machines stops a scope, or lifts a stop.
pub proof fn machines_never_stop_nor_resume<A>(
    k: KernelView<A>,
    calls: Seq<(CtxView, Call)>,
    scope: Seq<char>,
)
    requires
        by_machines(calls),
    ensures
        is_stopped(after_calls(k, calls), scope) == is_stopped(k, scope),
        after_calls(k, calls).stops == k.stops,
        after_calls(k, calls).resumes == k.resumes,
        after_calls(k, calls).node_id == k.node_id,
        after_calls(k, calls).store.counter == k.store.counter,
    decreases calls.len(),
{
    if calls.len() > 0 {
        let rest = calls.drop_last();
        assert(!(calls[calls.len() - 1].0.principal is Human));
        assert(by_machines(rest)) by {
            assert forall|i: int| 0 <= i < rest.len() implies !((
            #[trigger] rest[i]).0.principal is Human) by {
                assert(rest[i] == calls[i]);
            }
        }
        machines_never_stop_nor_resume(k, rest, scope);
    }
    let after = after_calls(k, calls);
    assert forall|id: Seq<char>| #[trigger] holds(after, id, scope) == holds(k, id, scope) by {}
    if is_stopped(k, scope) {
        let id = choose|id: Seq<char>| #[trigger] holds(k, id, scope);
        assert(holds(after, id, scope));
    }
    if is_stopped(after, scope) {
        let id = choose|id: Seq<char>| #[trigger] holds(after, id, scope);
        assert(holds(k, id, scope));
    }
}

/// Whatever machines did, a person can stop a business, and nothing runs unattended in
/// it from then on.
pub proof fn person_stops_whatever_machines_did<A>(
    k: KernelView<A>,
    calls: Seq<(CtxView, Call)>,
    person: CtxView,
    machine: CtxView,
    business: Seq<char>,
    module: Seq<char>,
)
    requires
        sound(k),
        by_machines(calls),
        person.principal is Human,
        !(machine.principal is Human),
        k.store.counter < u64::MAX,
    ensures
        ({
            let scope = "business:"@ + business;
            let (stopped, r) = stopping(after_calls(k, calls), person, scope);
            &&& r is Ok
            &&& is_stopped(stopped, scope)
            &&& automating(stopped, machine, business, module).1 == Err::<
                (),
                KernelErrorView,
            >(KernelErrorView::Stopped(scope))
        }),
{
    let scope = "business:"@ + business;
    machines_never_stop_nor_resume(k, calls, scope);
    person_always_stops(k, person, scope);
    let before = after_calls(k, calls);
    let after = stopping(before, person, scope).0;
    let plain = stopping(k, person, scope).0;
    let id = choose|id: Seq<char>| #[trigger] holds(plain, id, scope);
    assert(after.stops == plain.stops);
    assert(after.resumes == plain.resumes);
    assert(lifted(after, id) == lifted(plain, id));
    assert(holds(after, id, scope));
}

} // verus!
