//! What a restart keeps, and what it does not.
use crate::arches::{state_of, ArchStateView};
use crate::harness::session_of;
use crate::kernel::{sound, KernelView, RecordState};
use crate::leases::{expired, in_slot, leasing};
use crate::opening::{fence_kept, in_force, leases_in_force, opens_as, outranks, tidied};
use crate::principal::CtxView;
use crate::stops::{holds, is_stopped, lifted};
use crate::store::{LeaseView, StoreView};
use vstd::prelude::*;

verus! {

/// A scope that was stopped is stopped after a restart, and one that was not is not.
pub proof fn stops_survive_a_restart<A>(
    k: KernelView<A>,
    record: RecordState,
    now: u64,
    after: KernelView<A>,
    scope: Seq<char>,
)
    requires
        sound(k),
        opens_as(k.store, k.node_id, record, now, after),
    ensures
        is_stopped(after, scope) <==> is_stopped(k, scope),
{
    assert(after.stops == k.stops);
    assert(after.resumes == k.resumes);
    assert forall|id: Seq<char>| holds(after, id, scope) <==> holds(k, id, scope) by {
        assert(lifted(after, id) <==> lifted(k, id));
    }
    if is_stopped(after, scope) {
        let id = choose|id: Seq<char>| #[trigger] holds(after, id, scope);
        assert(holds(k, id, scope));
    }
    if is_stopped(k, scope) {
        let id = choose|id: Seq<char>| #[trigger] holds(k, id, scope);
        assert(holds(after, id, scope));
    }
}

/// Registers, tasks, approvals, artefacts, counters and the record are after a restart
/// what they were before.
pub proof fn rows_survive_a_restart<A>(
    k: KernelView<A>,
    record: RecordState,
    now: u64,
    after: KernelView<A>,
)
    requires
        opens_as(k.store, k.node_id, record, now, after),
    ensures
        after.store.registers == k.store.registers,
        after.store.tasks == k.store.tasks,
        after.store.approvals == k.store.approvals,
        after.store.blobs == k.store.blobs,
        after.store.stats == k.store.stats,
        after.store.hot == k.store.hot,
        after.store.liveness == k.store.liveness,
        after.store.counter == k.store.counter,
        after.store.ledger == k.store.ledger,
        after.node_id == k.node_id,
{
}

/// No token of a harness and no open challenge survives a restart, and neither does a
/// forced boot.
pub proof fn nothing_of_the_moment_survives_a_restart<A>(
    s: StoreView,
    node: Seq<char>,
    record: RecordState,
    now: u64,
    after: KernelView<A>,
    token: Seq<char>,
    later: u64,
)
    requires
        opens_as(s, node, record, now, after),
    ensures
        session_of(after, token, later) is Err,
        after.approval_challenges.dom() =~= Set::<Seq<char>>::empty(),
        !after.forced_boot,
{
}

/// No arch answers right after a restart: one whose spec is kept is starting, one
/// without says that there is nothing to make it from, and nothing else is mounted.
pub proof fn no_arch_is_ready_after_a_restart<A>(
    s: StoreView,
    node: Seq<char>,
    record: RecordState,
    now: u64,
    after: KernelView<A>,
    id: Seq<char>,
)
    requires
        opens_as(s, node, record, now, after),
    ensures
        state_of(after, id) is Some <==> s.arches.contains_key(id),
        state_of(after, id) != Some(ArchStateView::Ready),
        s.arches.contains_key(id) && s.mounts.contains_key(id) ==> state_of(after, id) == Some(
            ArchStateView::Starting,
        ),
        after.store.mounts.contains_key(id) ==> after.store.arches.contains_key(id),
{
}

/// One lease at most is in force for a resource of a partition after a restart.
pub proof fn one_lease_of_a_slot_survives(
    m: Map<Seq<char>, LeaseView>,
    a: Seq<char>,
    b: Seq<char>,
    now: u64,
)
    requires
        in_force(m, a, now),
        in_force(m, b, now),
        in_slot(m[a], m[b].resource, m[b].partition),
    ensures
        a == b,
{
    if a != b {
        assert(outranks(m[a], m[b]));
        assert(outranks(m[b], m[a]));
        if crate::text::before(m[a].id, m[b].id) && crate::text::before(m[b].id, m[a].id) {
            crate::text::before_transitive(m[a].id, m[b].id, m[a].id);
            crate::text::before_irreflexive(m[a].id);
        }
    }
}

/// A fence is never given out twice: after a restart a resource is leased under a
/// later fence than any that is kept of it.
pub proof fn fences_survive_a_restart<A>(
    s: StoreView,
    node: Seq<char>,
    record: RecordState,
    now: u64,
    after: KernelView<A>,
    ctx: CtxView,
    resource: Seq<char>,
    ttl_ms: u64,
    fence: u64,
)
    requires
        opens_as(s, node, record, now, after),
        fence_kept(s, resource, fence),
        leasing(after, ctx, resource, ttl_ms).1 is Ok,
    ensures
        leasing(after, ctx, resource, ttl_ms).1->Ok_0.fence > fence,
{
    assert(after.home.contains_key(resource) && fence <= after.home[resource]);
}

/// Opening what was just opened changes nothing more.
pub proof fn opening_twice_is_opening_once(s: StoreView, now: u64)
    ensures
        tidied(tidied(s, now), now) == tidied(s, now),
{
    let m = s.leases;
    let once = leases_in_force(m, now);
    assert forall|id: Seq<char>| in_force(once, id, now) <==> in_force(m, id, now) by {
        if in_force(m, id, now) {
            assert(once.contains_key(id));
            assert forall|other: Seq<char>| #[trigger]
                once.contains_key(other) && other != id && !expired(once[other], now) && in_slot(
                    once[other],
                    once[id].resource,
                    once[id].partition,
                ) implies outranks(once[id], once[other]) by {
                assert(m.contains_key(other));
            }
        }
        if in_force(once, id, now) {
            assert(once.contains_key(id));
        }
    }
    assert(leases_in_force(once, now) =~= once);
    assert(tidied(tidied(s, now), now).mounts =~= tidied(s, now).mounts);
}

} // verus!
