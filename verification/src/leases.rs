//! Leases: one holder of a resource at a time, and a fence that only grows.
use crate::error::{KernelError, KernelErrorView};
use crate::json::{text, JsonView};
use crate::kernel::{outcome, with_event, KernelView, RealKernel};
use crate::model::{all, Duplicate, Same};
use crate::principal::{Ctx, CtxView, PrincipalView};
use crate::store::{Lease, LeaseView, StoreView};
use crate::table::Table;
use crate::text::{cat4, decimal, decimal_text, same};
use vstd::prelude::*;

verus! {

/// Whether a lease is for this resource in this partition.
pub open spec fn in_slot(l: LeaseView, resource: Seq<char>, partition: Seq<char>) -> bool {
    l.resource == resource && l.partition == partition
}

/// Whether a lease has run out.
pub open spec fn expired(l: LeaseView, now_ms: u64) -> bool {
    now_ms >= l.expires_at_ms
}

impl Lease {
    /// Whether the lease has run out.
    pub fn expired(&self, now_ms: u64) -> (r: bool)
        ensures
            r == expired(self@, now_ms),
    {
        now_ms >= self.expires_at_ms
    }

    fn in_slot(&self, resource: &str, partition: &str) -> (r: bool)
        ensures
            r == in_slot(self@, resource@, partition@),
    {
        same(self.resource.as_str(), resource) && same(self.partition.as_str(), partition)
    }
}

/// The leases that are for another resource or another partition.
pub open spec fn outside_slot(
    m: Map<Seq<char>, LeaseView>,
    resource: Seq<char>,
    partition: Seq<char>,
) -> Map<Seq<char>, LeaseView> {
    Map::new(
        |k: Seq<char>| m.contains_key(k) && !in_slot(m[k], resource, partition),
        |k: Seq<char>| m[k],
    )
}

/// Whether this lease keeps `holder` from the resource.
pub open spec fn keeps_out(
    l: LeaseView,
    resource: Seq<char>,
    partition: Seq<char>,
    holder: PrincipalView,
    now_ms: u64,
) -> bool {
    in_slot(l, resource, partition) && !expired(l, now_ms) && l.holder != holder
}

/// Whether somebody else holds the resource.
pub open spec fn held_by_other(
    m: Map<Seq<char>, LeaseView>,
    resource: Seq<char>,
    partition: Seq<char>,
    holder: PrincipalView,
    now_ms: u64,
) -> bool {
    exists|k: Seq<char>| #[trigger]
        m.contains_key(k) && keeps_out(m[k], resource, partition, holder, now_ms)
}

/// The last fence of a resource; 0 before its first lease.
pub open spec fn last_fence(home: Map<Seq<char>, u64>, resource: Seq<char>) -> u64 {
    if home.contains_key(resource) {
        home[resource]
    } else {
        0
    }
}

/// The id of the lease of a resource with this fence.
pub open spec fn lease_id(resource: Seq<char>, fence: nat) -> Seq<char> {
    "lease-"@ + resource + "-"@ + decimal(fence)
}

/// `a + b`, or the largest number when that does not fit.
pub open spec fn capped_sum(a: u64, b: u64) -> u64 {
    if a + b > u64::MAX {
        u64::MAX
    } else {
        (a + b) as u64
    }
}

/// The lease that is granted with this fence.
pub open spec fn granted(ctx: CtxView, resource: Seq<char>, ttl_ms: u64, fence: u64) -> LeaseView {
    LeaseView {
        id: lease_id(resource, fence as nat),
        resource,
        holder: ctx.principal,
        partition: ctx.partition,
        fence,
        granted_at_ms: ctx.now_ms,
        expires_at_ms: capped_sum(ctx.now_ms, ttl_ms),
    }
}

/// Leasing a resource: refused while somebody else holds it, and otherwise
/// granted under the next fence, in place of every earlier lease of it in the
/// partition.
pub open spec fn leasing<A>(k: KernelView<A>, ctx: CtxView, resource: Seq<char>, ttl_ms: u64) -> (
    KernelView<A>,
    Result<LeaseView, KernelErrorView>,
) {
    if held_by_other(k.locks, resource, ctx.partition, ctx.principal, ctx.now_ms) {
        (k, Err(KernelErrorView::Lock("the resource is held by another principal"@)))
    } else if last_fence(k.home, resource) == u64::MAX {
        (k, Err(KernelErrorView::Lock("the resource has no fence left"@)))
    } else {
        let fence = (last_fence(k.home, resource) + 1) as u64;
        let l = granted(ctx, resource, ttl_ms, fence);
        let leased = KernelView {
            store: StoreView {
                leases: outside_slot(k.store.leases, resource, ctx.partition).insert(l.id, l),
                fences: k.store.fences.insert(resource, fence),
                ..k.store
            },
            locks: outside_slot(k.locks, resource, ctx.partition).insert(l.id, l),
            home: k.home.insert(resource, fence),
            ..k
        };
        (with_event(leased, "lease.granted"@, ctx.now_ms, JsonView::Text(l.id)), Ok(l))
    }
}

/// Granting a lease: what leasing does before anything of it is kept.
pub open spec fn granting<A>(k: KernelView<A>, ctx: CtxView, resource: Seq<char>, ttl_ms: u64) -> (
    KernelView<A>,
    Result<LeaseView, KernelErrorView>,
) {
    let (after, r) = leasing(k, ctx, resource, ttl_ms);
    if r is Err {
        (k, r)
    } else {
        (KernelView { store: k.store, ..after }, r)
    }
}

pub(crate) fn clear_slot(t: &mut Table<Lease>, resource: &str, partition: &str)
    requires
        old(t).wf(),
    ensures
        final(t).wf(),
        final(t)@ == outside_slot(old(t)@, resource@, partition@),
{
    let mut gone: Vec<String> = Vec::new();
    let mut i: usize = 0;
    let ghost mut views: Seq<Seq<char>> = Seq::empty();
    while i < t.len()
        invariant
            t.wf(),
            *t == *old(t),
            i <= t.keys().len(),
            views == all(gone@),
            forall|j: int|
                0 <= j < i ==> (views.contains(#[trigger] t.keys()[j]) <==> in_slot(
                    t@[t.keys()[j]],
                    resource@,
                    partition@,
                )),
            forall|x: Seq<char>| #[trigger]
                views.contains(x) ==> t@.contains_key(x) && in_slot(t@[x], resource@, partition@),
        decreases t.keys().len() - i,
    {
        let ghost before = views;
        let ghost key = t.keys()[i as int];
        if t.value_at(i).in_slot(resource, partition) {
            let k = t.key_at(i);
            gone.push(k.dup());
            proof {
                views = before.push(key);
                assert(all(gone@) =~= views);
                assert(views[before.len() as int] == key);
                assert forall|x: Seq<char>| before.contains(x) implies views.contains(x) by {
                    let j = before.index_of(x);
                    assert(views[j] == x);
                }
                assert forall|x: Seq<char>| #[trigger] views.contains(x) implies t@.contains_key(x)
                    && in_slot(t@[x], resource@, partition@) by {
                    let j = views.index_of(x);
                    assert(views[j] == x);
                    if j < before.len() {
                        assert(before[j] == x);
                        assert(before.contains(x));
                    }
                }
            }
        }
        i += 1;
    }
    t.remove_each(&gone);
    proof {
        old(t).keys_are_domain();
        assert forall|x: Seq<char>| #[trigger] old(t)@.contains_key(x) implies (all(
            gone@,
        ).contains(x) <==> in_slot(old(t)@[x], resource@, partition@)) by {
            let j = old(t).keys().index_of(x);
            assert(old(t).keys()[j] == x);
        }
        assert(t@ =~= outside_slot(old(t)@, resource@, partition@));
    }
}

impl<A> RealKernel<A> {
    fn is_held_by_other(&self, ctx: &Ctx, resource: &str) -> (r: bool)
        requires
            self.wf(),
        ensures
            r == held_by_other(
                self@.locks,
                resource@,
                ctx@.partition,
                ctx@.principal,
                ctx.now_ms,
            ),
    {
        let mut i: usize = 0;
        while i < self.locks.len()
            invariant
                self.wf(),
                i <= self.locks.keys().len(),
                forall|j: int|
                    0 <= j < i ==> !keeps_out(
                        self@.locks[#[trigger] self.locks.keys()[j]],
                        resource@,
                        ctx@.partition,
                        ctx@.principal,
                        ctx.now_ms,
                    ),
            decreases self.locks.keys().len() - i,
        {
            let l = self.locks.value_at(i);
            if l.in_slot(resource, ctx.partition.as_str()) && !l.expired(ctx.now_ms)
                && !l.holder.same_as(&ctx.principal) {
                assert(self@.locks.contains_key(self.locks.keys()[i as int]));
                return true;
            }
            i += 1;
        }
        proof {
            self.locks.keys_are_domain();
            assert forall|x: Seq<char>| #[trigger] self@.locks.contains_key(x) implies !keeps_out(
                self@.locks[x],
                resource@,
                ctx@.partition,
                ctx@.principal,
                ctx.now_ms,
            ) by {
                let j = self.locks.keys().index_of(x);
                assert(self.locks.keys()[j] == x);
            }
        }
        false
    }

    /// Grant a lease, with nothing of it kept yet.
    pub(crate) fn grant(&mut self, ctx: &Ctx, resource: &str, ttl_ms: u64) -> (r: Result<
        Lease,
        KernelError,
    >)
        requires
            old(self).wf(),
        ensures
            final(self).wf(),
            (final(self)@, outcome(r)) == granting(old(self)@, ctx@, resource@, ttl_ms),
    {
        if self.is_held_by_other(ctx, resource) {
            return Err(
                KernelError::Lock("the resource is held by another principal".to_owned()),
            );
        }
        let last: u64 = match self.home.get(resource) {
            Some(n) => *n,
            None => 0,
        };
        if last == u64::MAX {
            return Err(KernelError::Lock("the resource has no fence left".to_owned()));
        }
        let fence: u64 = last + 1;
        let digits = decimal_text(fence);
        let l = Lease {
            id: cat4("lease-", resource, "-", digits.as_str()),
            resource: resource.to_owned(),
            holder: ctx.principal.dup(),
            partition: ctx.partition.dup(),
            fence,
            granted_at_ms: ctx.now_ms,
            expires_at_ms: ctx.now_ms.saturating_add(ttl_ms),
        };
        assert(l@ =~= granted(ctx@, resource@, ttl_ms, fence));
        clear_slot(&mut self.locks, resource, ctx.partition.as_str());
        self.locks.insert(l.id.as_str(), l.dup());
        self.home.insert(resource, fence);
        Ok(l)
    }

    /// Lease a resource for `ttl_ms`. The holder may renew; nobody else gets it
    /// while the lease runs. The fence is kept apart from the lease, so that it
    /// outlives it.
    pub fn lease(&mut self, ctx: &Ctx, resource: &str, ttl_ms: u64) -> (r: Result<
        Lease,
        KernelError,
    >)
        requires
            old(self).wf(),
        ensures
            final(self).wf(),
            (final(self)@, outcome(r)) == leasing(old(self)@, ctx@, resource@, ttl_ms),
    {
        let l = match self.grant(ctx, resource, ttl_ms) {
            Err(e) => return Err(e),
            Ok(l) => l,
        };
        clear_slot(&mut self.store.leases, resource, ctx.partition.as_str());
        self.store.leases.insert(l.id.as_str(), l.dup());
        self.store.fences.insert(resource, l.fence);
        self.record_event("lease.granted", ctx.now_ms, text(l.id.as_str()));
        Ok(l)
    }
}

/// The fence of a granted lease is above every fence its resource had before.
pub proof fn fences_only_grow<A>(
    k: KernelView<A>,
    ctx: CtxView,
    resource: Seq<char>,
    ttl_ms: u64,
    other: Seq<char>,
)
    ensures
        leasing(k, ctx, resource, ttl_ms).1 matches Ok(l) ==> l.fence > last_fence(
            k.home,
            resource,
        ),
        last_fence(leasing(k, ctx, resource, ttl_ms).0.home, other) >= last_fence(k.home, other),
{
}

/// After a lease is granted, nobody else is granted one of the same resource in
/// the same partition before it runs out.
pub proof fn lease_excludes_others<A>(
    k: KernelView<A>,
    ctx: CtxView,
    resource: Seq<char>,
    ttl_ms: u64,
    other: CtxView,
    other_ttl_ms: u64,
)
    requires
        leasing(k, ctx, resource, ttl_ms).1 is Ok,
        other.partition == ctx.partition,
        other.principal != ctx.principal,
        other.now_ms < capped_sum(ctx.now_ms, ttl_ms),
    ensures
        leasing(leasing(k, ctx, resource, ttl_ms).0, other, resource, other_ttl_ms).1 is Err,
        leasing(leasing(k, ctx, resource, ttl_ms).0, other, resource, other_ttl_ms).0 == leasing(
            k,
            ctx,
            resource,
            ttl_ms,
        ).0,
{
    let after = leasing(k, ctx, resource, ttl_ms).0;
    let l = leasing(k, ctx, resource, ttl_ms).1->Ok_0;
    assert(after.locks.contains_key(l.id));
    assert(keeps_out(after.locks[l.id], resource, other.partition, other.principal, other.now_ms));
}

/// The holder can always renew: what it holds never keeps it out.
pub proof fn holder_renews<A>(
    k: KernelView<A>,
    ctx: CtxView,
    resource: Seq<char>,
    ttl_ms: u64,
    later: u64,
    more_ms: u64,
)
    requires
        leasing(k, ctx, resource, ttl_ms).1 is Ok,
        later >= ctx.now_ms,
        last_fence(k.home, resource) < u64::MAX - 1,
    ensures
        leasing(
            leasing(k, ctx, resource, ttl_ms).0,
            (CtxView { now_ms: later, ..ctx }),
            resource,
            more_ms,
        ).1 is Ok,
{
    let after = leasing(k, ctx, resource, ttl_ms).0;
    let l = leasing(k, ctx, resource, ttl_ms).1->Ok_0;
    assert forall|x: Seq<char>| #[trigger] after.locks.contains_key(x) implies !keeps_out(
        after.locks[x],
        resource,
        ctx.partition,
        ctx.principal,
        later,
    ) by {}
}

/// A granted lease leaves one row for its resource and partition: its own.
pub proof fn one_row_per_slot<A>(
    k: KernelView<A>,
    ctx: CtxView,
    resource: Seq<char>,
    ttl_ms: u64,
    id: Seq<char>,
)
    requires
        leasing(k, ctx, resource, ttl_ms).1 is Ok,
        leasing(k, ctx, resource, ttl_ms).0.store.leases.contains_key(id),
        in_slot(
            leasing(k, ctx, resource, ttl_ms).0.store.leases[id],
            resource,
            ctx.partition,
        ),
    ensures
        leasing(k, ctx, resource, ttl_ms).1->Ok_0.id == id,
{
}

} // verus!
