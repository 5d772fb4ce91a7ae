//! Opening a node: what is kept becomes a kernel again.
use crate::kernel::{
    kept, sound, DeviceKey, KernelView, PendingMount, PendingMountView, RealKernel, RecordState,
    UnavailableArch, UnavailableArchView,
};
use crate::leases::{expired, in_slot};
use crate::model::{all, Duplicate};
use crate::outside::{hex_decode, is_hex, unhex};
use crate::presence::array_of_32;
use crate::store::{Lease, LeaseView, Store, StoreView};
use crate::table::Table;
use crate::text::{before, comes_before, same};
use vstd::prelude::*;

verus! {

/// What is said of an arch that was mounted without a record of how to make it.
pub open spec fn nothing_to_make_it_from() -> Seq<char> {
    "no mount spec was recorded for this arch, so there is nothing to make it from; mount it again"@
}

/// The arches that are to be made again: those whose spec is kept.
pub open spec fn to_be_made(s: StoreView) -> Map<Seq<char>, PendingMountView> {
    Map::new(
        |id: Seq<char>| s.arches.contains_key(id) && s.mounts.contains_key(id),
        |id: Seq<char>| PendingMountView { manifest: s.arches[id], spec: s.mounts[id] },
    )
}

/// The arches that cannot be made again: those without a spec.
pub open spec fn not_to_be_made(s: StoreView) -> Map<Seq<char>, UnavailableArchView> {
    Map::new(
        |id: Seq<char>| s.arches.contains_key(id) && !s.mounts.contains_key(id),
        |id: Seq<char>|
            UnavailableArchView { manifest: s.arches[id], reason: nothing_to_make_it_from() },
    )
}

/// Whether a device row holds a key that signatures can be checked with.
pub open spec fn has_key(s: StoreView, id: Seq<char>) -> bool {
    s.devices.contains_key(id) && is_hex(s.devices[id].vk_hex) && unhex(s.devices[id].vk_hex).len()
        == 32
}

/// The keys that signatures can be checked with.
pub open spec fn keys_kept(s: StoreView) -> Map<Seq<char>, Seq<u8>> {
    Map::new(|id: Seq<char>| has_key(s, id), |id: Seq<char>| unhex(s.devices[id].vk_hex))
}

/// Whether one lease of a slot stands before another: it was granted later, or under
/// a later fence, or all else being the same it comes first.
pub open spec fn outranks(a: LeaseView, b: LeaseView) -> bool {
    if a.granted_at_ms != b.granted_at_ms {
        a.granted_at_ms > b.granted_at_ms
    } else if a.fence != b.fence {
        a.fence > b.fence
    } else {
        before(a.id, b.id)
    }
}

/// Whether a lease is in force: it is not over, and no other of its slot stands
/// before it.
pub open spec fn in_force(m: Map<Seq<char>, LeaseView>, id: Seq<char>, now: u64) -> bool {
    &&& m.contains_key(id)
    &&& !expired(m[id], now)
    &&& forall|other: Seq<char>| #[trigger]
        m.contains_key(other) && other != id && !expired(m[other], now) && in_slot(
            m[other],
            m[id].resource,
            m[id].partition,
        ) ==> outranks(m[id], m[other])
}

/// The leases that are in force.
pub open spec fn leases_in_force(m: Map<Seq<char>, LeaseView>, now: u64) -> Map<
    Seq<char>,
    LeaseView,
> {
    Map::new(|id: Seq<char>| in_force(m, id, now), |id: Seq<char>| m[id])
}

/// Whether a fence of a resource is kept, with its own row or with a lease.
pub open spec fn fence_kept(s: StoreView, resource: Seq<char>, fence: u64) -> bool {
    ||| s.fences.contains_key(resource) && s.fences[resource] == fence
    ||| exists|id: Seq<char>| #[trigger]
        s.leases.contains_key(id) && s.leases[id].resource == resource && s.leases[id].fence
            == fence
}

/// Whether `home` has, for each resource, the last fence that is kept of it.
pub open spec fn last_fences(s: StoreView, home: Map<Seq<char>, u64>) -> bool {
    &&& forall|r: Seq<char>| #[trigger] home.contains_key(r) ==> fence_kept(s, r, home[r])
    &&& forall|r: Seq<char>, f: u64| #[trigger]
        fence_kept(s, r, f) ==> home.contains_key(r) && f <= home[r]
}

/// The store once what no longer counts is gone from it: specs without an arch, and
/// leases that are not in force.
pub open spec fn tidied(s: StoreView, now: u64) -> StoreView {
    StoreView {
        mounts: s.mounts.restrict(s.arches.dom()),
        leases: leases_in_force(s.leases, now),
        ..s
    }
}

/// Whether `k` is what a node is when it opens this store.
pub open spec fn opens_as<A>(
    s: StoreView,
    node: Seq<char>,
    record: RecordState,
    now: u64,
    k: KernelView<A>,
) -> bool {
    &&& k.node_id == node
    &&& k.store == tidied(s, now)
    &&& k.adapters == Map::<Seq<char>, A>::empty()
    &&& k.starting == to_be_made(s)
    &&& k.unavailable == not_to_be_made(s)
    &&& k.budgets == Map::<Seq<char>, u32>::empty()
    &&& k.locks == leases_in_force(s.leases, now)
    &&& last_fences(s, k.home)
    &&& k.devices == keys_kept(s)
    &&& k.stops == s.stops
    &&& k.resumes == s.resumes
    &&& k.harness_tokens == Map::<Seq<char>, crate::kernel::HarnessTokenStateView>::empty()
    &&& k.approval_challenges == Map::<Seq<char>, crate::kernel::PendingApprovalView>::empty()
    &&& k.infer_log.len() == 0
    &&& !k.forced_boot
    &&& k.record == record
}

impl Lease {
    fn stands_before(&self, other: &Lease) -> (r: bool)
        ensures
            r == outranks(self@, other@),
    {
        if self.granted_at_ms != other.granted_at_ms {
            self.granted_at_ms > other.granted_at_ms
        } else if self.fence != other.fence {
            self.fence > other.fence
        } else {
            comes_before(self.id.as_str(), other.id.as_str())
        }
    }
}

fn is_in_force(t: &Table<Lease>, i: usize, now: u64) -> (r: bool)
    requires
        t.wf(),
        i < t.keys().len(),
    ensures
        r == in_force(t@, t.keys()[i as int], now),
{
    let l = t.value_at(i);
    let ghost id = t.keys()[i as int];
    proof {
        t.keys_are_domain();
        assert(t@.contains_key(id));
    }
    if l.expired(now) {
        return false;
    }
    let mut j: usize = 0;
    while j < t.len()
        invariant
            t.wf(),
            i < t.keys().len(),
            j <= t.keys().len(),
            id == t.keys()[i as int],
            t@.contains_key(id),
            l@ == t@[id],
            !expired(l@, now),
            forall|m: int|
                0 <= m < j && m != i && !expired(t@[#[trigger] t.keys()[m]], now) && in_slot(
                    t@[t.keys()[m]],
                    l@.resource,
                    l@.partition,
                ) ==> outranks(l@, t@[t.keys()[m]]),
        decreases t.keys().len() - j,
    {
        if j != i {
            let o = t.value_at(j);
            proof {
                t.keys_are_domain();
                assert(t@.contains_key(t.keys()[j as int]));
            }
            if !o.expired(now) && same(o.resource.as_str(), l.resource.as_str()) && same(
                o.partition.as_str(),
                l.partition.as_str(),
            ) && !l.stands_before(o) {
                proof {
                    let other = t.keys()[j as int];
                    assert(other != id) by {
                        if other == id {
                            crate::text::before_irreflexive(id);
                            if j < i {
                                assert(before(t.keys()[j as int], t.keys()[i as int]));
                            } else {
                                assert(before(t.keys()[i as int], t.keys()[j as int]));
                            }
                        }
                    }
                }
                return false;
            }
        }
        j += 1;
    }
    proof {
        t.keys_are_domain();
        assert forall|other: Seq<char>| #[trigger]
            t@.contains_key(other) && other != id && !expired(t@[other], now) && in_slot(
                t@[other],
                t@[id].resource,
                t@[id].partition,
            ) implies outranks(t@[id], t@[other]) by {
            let m = t.keys().index_of(other);
            assert(t.keys()[m] == other);
        }
    }
    true
}

fn force_of(t: &Table<Lease>, now: u64) -> (r: Table<Lease>)
    requires
        t.wf(),
    ensures
        r.wf(),
        r@ == leases_in_force(t@, now),
{
    let mut r: Table<Lease> = Table::new();
    let mut i: usize = 0;
    while i < t.len()
        invariant
            t.wf(),
            r.wf(),
            i <= t.keys().len(),
            forall|id: Seq<char>| #[trigger]
                r@.contains_key(id) <==> in_force(t@, id, now) && exists|j: int|
                    0 <= j < i && #[trigger] t.keys()[j] == id,
            forall|id: Seq<char>| #[trigger] r@.contains_key(id) ==> r@[id] == t@[id],
        decreases t.keys().len() - i,
    {
        if is_in_force(t, i, now) {
            r.insert(t.key_at(i).as_str(), t.value_at(i).dup());
        }
        i += 1;
    }
    proof {
        t.keys_are_domain();
        assert forall|id: Seq<char>| #[trigger] r@.contains_key(id) <==> in_force(t@, id, now) by {
            if in_force(t@, id, now) {
                let j = t.keys().index_of(id);
                assert(t.keys()[j] == id);
            }
        }
        assert(r@ =~= leases_in_force(t@, now));
    }
    r
}

fn made_of(s: &Store) -> (r: Table<PendingMount>)
    requires
        s.wf(),
    ensures
        r.wf(),
        r@ == to_be_made(s@),
{
    let mut r: Table<PendingMount> = Table::new();
    let mut i: usize = 0;
    while i < s.arches.len()
        invariant
            s.wf(),
            r.wf(),
            i <= s.arches.keys().len(),
            forall|id: Seq<char>| #[trigger]
                r@.contains_key(id) <==> s.mounts@.contains_key(id) && exists|j: int|
                    0 <= j < i && #[trigger] s.arches.keys()[j] == id,
            forall|id: Seq<char>| #[trigger]
                r@.contains_key(id) ==> r@[id] == (PendingMountView {
                    manifest: s.arches@[id],
                    spec: s.mounts@[id],
                }),
        decreases s.arches.keys().len() - i,
    {
        let id = s.arches.key_at(i);
        if let Some(spec) = s.mounts.get(id.as_str()) {
            let p = PendingMount { manifest: s.arches.value_at(i).dup(), spec: spec.dup() };
            r.insert(id.as_str(), p);
        }
        i += 1;
    }
    proof {
        s.arches.keys_are_domain();
        assert forall|id: Seq<char>| #[trigger] r@.contains_key(id) <==> s@.arches.contains_key(id)
            && s@.mounts.contains_key(id) by {
            if s@.arches.contains_key(id) {
                let j = s.arches.keys().index_of(id);
                assert(s.arches.keys()[j] == id);
            }
        }
        assert(r@ =~= to_be_made(s@));
    }
    r
}

fn unmade_of(s: &Store) -> (r: Table<UnavailableArch>)
    requires
        s.wf(),
    ensures
        r.wf(),
        r@ == not_to_be_made(s@),
{
    let mut r: Table<UnavailableArch> = Table::new();
    let mut i: usize = 0;
    while i < s.arches.len()
        invariant
            s.wf(),
            r.wf(),
            i <= s.arches.keys().len(),
            forall|id: Seq<char>| #[trigger]
                r@.contains_key(id) <==> !s.mounts@.contains_key(id) && exists|j: int|
                    0 <= j < i && #[trigger] s.arches.keys()[j] == id,
            forall|id: Seq<char>| #[trigger]
                r@.contains_key(id) ==> r@[id] == (UnavailableArchView {
                    manifest: s.arches@[id],
                    reason: nothing_to_make_it_from(),
                }),
        decreases s.arches.keys().len() - i,
    {
        let id = s.arches.key_at(i);
        if !s.mounts.has(id.as_str()) {
            let u = UnavailableArch {
                manifest: s.arches.value_at(i).dup(),
                reason: "no mount spec was recorded for this arch, so there is nothing to make it from; mount it again".to_owned(),
            };
            r.insert(id.as_str(), u);
        }
        i += 1;
    }
    proof {
        s.arches.keys_are_domain();
        assert forall|id: Seq<char>| #[trigger] r@.contains_key(id) <==> s@.arches.contains_key(id)
            && !s@.mounts.contains_key(id) by {
            if s@.arches.contains_key(id) {
                let j = s.arches.keys().index_of(id);
                assert(s.arches.keys()[j] == id);
            }
        }
        assert(r@ =~= not_to_be_made(s@));
    }
    r
}

fn keys_of(s: &Store) -> (r: Table<DeviceKey>)
    requires
        s.wf(),
    ensures
        r.wf(),
        r@ == keys_kept(s@),
{
    let mut r: Table<DeviceKey> = Table::new();
    let mut i: usize = 0;
    while i < s.devices.len()
        invariant
            s.wf(),
            r.wf(),
            i <= s.devices.keys().len(),
            forall|id: Seq<char>| #[trigger]
                r@.contains_key(id) <==> has_key(s@, id) && exists|j: int|
                    0 <= j < i && #[trigger] s.devices.keys()[j] == id,
            forall|id: Seq<char>| #[trigger]
                r@.contains_key(id) ==> r@[id] == unhex(s@.devices[id].vk_hex),
        decreases s.devices.keys().len() - i,
    {
        let id = s.devices.key_at(i);
        let row = s.devices.value_at(i);
        proof {
            s.devices.keys_are_domain();
            assert(s@.devices.contains_key(id@));
        }
        if let Some(bytes) = hex_decode(row.vk_hex.as_str()) {
            if let Some(vk) = array_of_32(&bytes) {
                r.insert(id.as_str(), DeviceKey { vk });
            }
        }
        i += 1;
    }
    proof {
        s.devices.keys_are_domain();
        assert forall|id: Seq<char>| #[trigger] r@.contains_key(id) <==> has_key(s@, id) by {
            if has_key(s@, id) {
                let j = s.devices.keys().index_of(id);
                assert(s.devices.keys()[j] == id);
            }
        }
        assert(r@ =~= keys_kept(s@));
    }
    r
}

/// The last fences of the first `n` leases and all fence rows.
spec fn fence_so_far(s: Store, n: int, resource: Seq<char>, fence: u64) -> bool {
    ||| s@.fences.contains_key(resource) && s@.fences[resource] == fence
    ||| exists|j: int|
        0 <= j < n && s@.leases[#[trigger] s.leases.keys()[j]].resource == resource
            && s@.leases[s.leases.keys()[j]].fence == fence
}

fn fences_of(s: &Store) -> (r: Table<u64>)
    requires
        s.wf(),
    ensures
        r.wf(),
        last_fences(s@, r@),
{
    let mut r: Table<u64> = Table::new();
    let mut i: usize = 0;
    while i < s.fences.len()
        invariant
            s.wf(),
            r.wf(),
            i <= s.fences.keys().len(),
            forall|id: Seq<char>| #[trigger]
                r@.contains_key(id) <==> exists|j: int|
                    0 <= j < i && #[trigger] s.fences.keys()[j] == id,
            forall|id: Seq<char>| #[trigger]
                r@.contains_key(id) ==> s@.fences.contains_key(id) && r@[id] == s@.fences[id],
        decreases s.fences.keys().len() - i,
    {
        proof {
            s.fences.keys_are_domain();
            assert(s@.fences.contains_key(s.fences.keys()[i as int]));
        }
        r.insert(s.fences.key_at(i).as_str(), *s.fences.value_at(i));
        i += 1;
    }
    proof {
        s.fences.keys_are_domain();
        assert forall|id: Seq<char>| s@.fences.contains_key(id) implies #[trigger] r@.contains_key(
            id,
        ) by {
            let j = s.fences.keys().index_of(id);
            assert(s.fences.keys()[j] == id);
        }
        assert forall|x: Seq<char>, f: u64| #[trigger] fence_so_far(*s, 0, x, f) implies r@.contains_key(
            x,
        ) && f <= r@[x] by {}
        assert forall|x: Seq<char>| #[trigger] r@.contains_key(x) implies fence_so_far(
            *s,
            0,
            x,
            r@[x],
        ) by {}
    }
    i = 0;
    while i < s.leases.len()
        invariant
            s.wf(),
            r.wf(),
            i <= s.leases.keys().len(),
            forall|x: Seq<char>, f: u64| #[trigger]
                fence_so_far(*s, i as int, x, f) ==> r@.contains_key(x) && f <= r@[x],
            forall|x: Seq<char>| #[trigger]
                r@.contains_key(x) ==> fence_so_far(*s, i as int, x, r@[x]),
        decreases s.leases.keys().len() - i,
    {
        let ghost was = r@;
        let l = s.leases.value_at(i);
        let resource = l.resource.as_str();
        let higher = match r.get(resource) {
            Some(f) => *f < l.fence,
            None => true,
        };
        if higher {
            r.insert(resource, l.fence);
        }
        proof {
            let key = s.leases.keys()[i as int];
            assert(l@ == s@.leases[key]);
            assert forall|x: Seq<char>, f: u64| #[trigger]
                fence_so_far(*s, i + 1, x, f) implies r@.contains_key(x) && f <= r@[x] by {
                if fence_so_far(*s, i as int, x, f) {
                    assert(was.contains_key(x) && f <= was[x]);
                } else {
                    assert(x == l@.resource && f == l@.fence);
                }
            }
            assert forall|x: Seq<char>| #[trigger] r@.contains_key(x) implies fence_so_far(
                *s,
                i + 1,
                x,
                r@[x],
            ) by {
                if was.contains_key(x) && r@[x] == was[x] {
                    assert(fence_so_far(*s, i as int, x, was[x]));
                } else {
                    assert(s@.leases[s.leases.keys()[i as int]].resource == x);
                }
            }
        }
        i += 1;
    }
    proof {
        s.leases.keys_are_domain();
        let n = s.leases.keys().len() as int;
        assert forall|x: Seq<char>, f: u64| fence_so_far(*s, n, x, f) <==> #[trigger] fence_kept(
            s@,
            x,
            f,
        ) by {
            if fence_kept(s@, x, f) && !(s@.fences.contains_key(x) && s@.fences[x] == f) {
                let id = choose|id: Seq<char>| #[trigger]
                    s@.leases.contains_key(id) && s@.leases[id].resource == x && s@.leases[id].fence
                        == f;
                let j = s.leases.keys().index_of(id);
                assert(s.leases.keys()[j] == id);
            }
            if fence_so_far(*s, n, x, f) && !(s@.fences.contains_key(x) && s@.fences[x] == f) {
                let j = choose|j: int|
                    0 <= j < n && s@.leases[#[trigger] s.leases.keys()[j]].resource == x
                        && s@.leases[s.leases.keys()[j]].fence == f;
                assert(s@.leases.contains_key(s.leases.keys()[j]));
            }
        }
    }
    r
}

fn stray_mounts(s: &Store) -> (r: Vec<String>)
    requires
        s.wf(),
    ensures
        s@.mounts.remove_keys(all(r@).to_set()) == s@.mounts.restrict(s@.arches.dom()),
{
    let mut r: Vec<String> = Vec::new();
    let mut i: usize = 0;
    while i < s.mounts.len()
        invariant
            s.wf(),
            i <= s.mounts.keys().len(),
            forall|id: Seq<char>| #[trigger]
                all(r@).contains(id) <==> !s@.arches.contains_key(id) && exists|j: int|
                    0 <= j < i && #[trigger] s.mounts.keys()[j] == id,
        decreases s.mounts.keys().len() - i,
    {
        let id = s.mounts.key_at(i);
        let ghost was = all(r@);
        if !s.arches.has(id.as_str()) {
            r.push(id.dup());
            proof {
                assert(all(r@) =~= was.push(id@));
                assert forall|x: Seq<char>| #[trigger] all(r@).contains(x) <==> was.contains(x) || x
                    == id@ by {
                    if was.contains(x) {
                        let j = was.index_of(x);
                        assert(all(r@)[j] == x);
                    }
                    assert(all(r@)[was.len() as int] == id@);
                    if all(r@).contains(x) && x != id@ {
                        let j = all(r@).index_of(x);
                        assert(was[j] == x);
                    }
                }
            }
        }
        i += 1;
    }
    proof {
        s.mounts.keys_are_domain();
        let left = s@.mounts.remove_keys(all(r@).to_set());
        assert forall|id: Seq<char>| #[trigger] left.contains_key(id) <==> s@.mounts.contains_key(id)
            && s@.arches.contains_key(id) by {
            assert(all(r@).to_set().contains(id) <==> all(r@).contains(id));
            if s@.mounts.contains_key(id) {
                let j = s.mounts.keys().index_of(id);
                assert(s.mounts.keys()[j] == id);
            }
        }
        assert(left =~= s@.mounts.restrict(s@.arches.dom()));
    }
    r
}

impl<A> RealKernel<A> {
    /// Open what a node keeps, at this time. No adapter is made: every arch with a
    /// spec is starting, and one without is unavailable. A lease outlives the process
    /// that granted it, one for each slot; a fence outlives its lease.
    pub fn open_at(store: Store, node_id: &str, record: RecordState, now: u64) -> (r: RealKernel<A>)
        requires
            store.wf(),
            kept(store@, node_id@),
        ensures
            r.wf(),
            opens_as(store@, node_id@, record, now, r@),
    {
        let starting = made_of(&store);
        let unavailable = unmade_of(&store);
        let devices = keys_of(&store);
        let home = fences_of(&store);
        let locks = force_of(&store.leases, now);
        let leases = force_of(&store.leases, now);
        let stray = stray_mounts(&store);
        let stops = store.stops.copy();
        let resumes = store.resumes.copy();
        let ghost s = store@;
        let mut store = store;
        store.leases = leases;
        store.mounts.remove_each(&stray);
        let r = RealKernel {
            node_id: node_id.to_owned(),
            store,
            adapters: Table::new(),
            starting,
            unavailable,
            budgets: Table::new(),
            locks,
            home,
            devices,
            stops,
            resumes,
            harness_tokens: Table::new(),
            approval_challenges: Table::new(),
            infer_log: Vec::new(),
            forced_boot: false,
            record,
        };
        proof {
            assert(r@.store =~= tidied(s, now));
            assert(sound(r@));
        }
        r
    }

    /// What this node keeps, to be opened again.
    pub fn into_store(self) -> (r: Store)
        requires
            self.wf(),
        ensures
            r.wf(),
            r@ == self@.store,
            kept(r@, self@.node_id),
    {
        self.store
    }
}

} // verus!
