//! Rows that run out: a bounded set of them, from which the one closest to its
//! end makes room for a new one.
use crate::model::all;
use crate::table::Table;
use crate::text::{before, before_irreflexive, before_total, before_transitive};
use vstd::prelude::*;

verus! {

/// A row with an end.
pub trait Expiring: View + Sized {
    spec fn expiry(v: Self::V) -> u64;

    fn expires_at(&self) -> (n: u64)
        ensures
            n == Self::expiry(self@),
    ;
}

/// The rows that have not run out.
pub open spec fn live<T: Expiring>(m: Map<Seq<char>, T::V>, now: u64) -> Map<Seq<char>, T::V> {
    Map::new(|k: Seq<char>| m.contains_key(k) && T::expiry(m[k]) > now, |k: Seq<char>| m[k])
}

/// Whether `k` is the row closest to its end; of several, the first by key.
pub open spec fn is_soonest<T: Expiring>(m: Map<Seq<char>, T::V>, k: Seq<char>) -> bool {
    &&& m.contains_key(k)
    &&& forall|o: Seq<char>| #[trigger]
        m.contains_key(o) && o != k ==> T::expiry(m[k]) < T::expiry(m[o]) || T::expiry(m[k])
            == T::expiry(m[o]) && before(k, o)
}

/// The row closest to its end.
pub open spec fn soonest<T: Expiring>(m: Map<Seq<char>, T::V>) -> Seq<char> {
    choose|k: Seq<char>| is_soonest::<T>(m, k)
}

/// The rows after room was made for one more among at most `max`: those that ran
/// out are gone, and the one closest to its end where there is no room yet.
pub open spec fn with_room<T: Expiring>(m: Map<Seq<char>, T::V>, now: u64, max: nat) -> Map<
    Seq<char>,
    T::V,
> {
    let open = live::<T>(m, now);
    if open.dom().len() < max {
        open
    } else {
        open.remove(soonest::<T>(open))
    }
}

proof fn soonest_is_unique<T: Expiring>(m: Map<Seq<char>, T::V>, a: Seq<char>, b: Seq<char>)
    requires
        is_soonest::<T>(m, a),
        is_soonest::<T>(m, b),
    ensures
        a == b,
{
    if a != b {
        before_irreflexive(a);
        if before(a, b) && before(b, a) {
            before_transitive(a, b, a);
        }
    }
}

fn sweep<T: Expiring>(t: &mut Table<T>, now: u64)
    requires
        old(t).wf(),
    ensures
        final(t).wf(),
        final(t)@ == live::<T>(old(t)@, now),
{
    let mut gone: Vec<String> = Vec::new();
    let ghost mut views: Seq<Seq<char>> = Seq::empty();
    let mut i: usize = 0;
    while i < t.len()
        invariant
            t.wf(),
            *t == *old(t),
            i <= t.keys().len(),
            views == all(gone@),
            forall|j: int|
                0 <= j < i ==> (views.contains(#[trigger] t.keys()[j]) <==> !(T::expiry(
                    t@[t.keys()[j]],
                ) > now)),
            forall|x: Seq<char>| #[trigger]
                views.contains(x) ==> t@.contains_key(x) && !(T::expiry(t@[x]) > now),
        decreases t.keys().len() - i,
    {
        let ghost before_push = views;
        let ghost key = t.keys()[i as int];
        if t.value_at(i).expires_at() <= now {
            let k = t.key_at(i);
            gone.push(k.clone());
            proof {
                views = before_push.push(key);
                assert(all(gone@) =~= views);
                assert(views[before_push.len() as int] == key);
                assert forall|x: Seq<char>| before_push.contains(x) implies views.contains(x) by {
                    let j = before_push.index_of(x);
                    assert(views[j] == x);
                }
                assert forall|x: Seq<char>| #[trigger] views.contains(x) implies t@.contains_key(x)
                    && !(T::expiry(t@[x]) > now) by {
                    let j = views.index_of(x);
                    assert(views[j] == x);
                    if j < before_push.len() {
                        assert(before_push[j] == x);
                        assert(before_push.contains(x));
                    }
                }
            }
        }
        i += 1;
    }
    t.remove_each(&gone);
    proof {
        old(t).keys_are_domain();
        assert forall|x: Seq<char>| #[trigger] old(t)@.contains_key(x) implies (all(
            gone@,
        ).contains(x) <==> !(T::expiry(old(t)@[x]) > now)) by {
            let j = old(t).keys().index_of(x);
            assert(old(t).keys()[j] == x);
        }
        assert(t@ =~= live::<T>(old(t)@, now));
    }
}

fn find_soonest<T: Expiring>(t: &Table<T>) -> (r: String)
    requires
        t.wf(),
        t.keys().len() > 0,
    ensures
        is_soonest::<T>(t@, r@),
{
    let mut best: usize = 0;
    let mut i: usize = 1;
    while i < t.len()
        invariant
            t.wf(),
            best < i <= t.keys().len(),
            forall|j: int|
                0 <= j < i && j != best ==> T::expiry(t@[t.keys()[best as int]]) < T::expiry(
                    t@[#[trigger] t.keys()[j]],
                ) || T::expiry(t@[t.keys()[best as int]]) == T::expiry(t@[t.keys()[j]]) && best < j,
        decreases t.keys().len() - i,
    {
        if t.value_at(i).expires_at() < t.value_at(best).expires_at() {
            best = i;
        }
        i += 1;
    }
    proof {
        t.keys_are_domain();
        let k = t.keys()[best as int];
        assert(t.keys().contains(k));
        assert forall|o: Seq<char>| #[trigger] t@.contains_key(o) && o != k implies T::expiry(t@[k])
            < T::expiry(t@[o]) || T::expiry(t@[k]) == T::expiry(t@[o]) && before(k, o) by {
            let j = t.keys().index_of(o);
            assert(t.keys()[j] == o);
            if best < j {
                assert(before(t.keys()[best as int], t.keys()[j]));
            }
        }
    }
    t.key_at(best).clone()
}

/// Make room for one more row among at most `max`.
pub fn make_room<T: Expiring>(t: &mut Table<T>, now: u64, max: usize)
    requires
        old(t).wf(),
        max > 0,
    ensures
        final(t).wf(),
        final(t)@ == with_room::<T>(old(t)@, now, max as nat),
{
    sweep(t, now);
    proof {
        t.size();
    }
    if t.len() >= max {
        let k = find_soonest(t);
        proof {
            soonest_is_unique::<T>(t@, k@, soonest::<T>(t@));
        }
        let _ = t.remove(k.as_str());
    }
}

/// With room for one more row, there are at most `max` rows after it is added.
pub proof fn room_keeps_the_bound<T: Expiring>(
    m: Map<Seq<char>, T::V>,
    now: u64,
    max: nat,
    k: Seq<char>,
    v: T::V,
)
    requires
        m.dom().finite(),
        m.dom().len() <= max,
        max > 0,
    ensures
        with_room::<T>(m, now, max).insert(k, v).dom().finite(),
        with_room::<T>(m, now, max).insert(k, v).dom().len() <= max,
{
    let open = live::<T>(m, now);
    assert(open.dom().subset_of(m.dom()));
    vstd::set_lib::lemma_len_subset(open.dom(), m.dom());
    if open.dom().len() >= max {
        some_row_is_soonest::<T>(open, open.dom().len());
        let s = soonest::<T>(open);
        assert(is_soonest::<T>(open, s));
        assert(open.remove(s).dom() =~= open.dom().remove(s));
    }
    let kept = with_room::<T>(m, now, max);
    assert(kept.insert(k, v).dom() =~= kept.dom().insert(k));
}

/// Among finitely many rows one is the closest to its end.
pub proof fn some_row_is_soonest<T: Expiring>(m: Map<Seq<char>, T::V>, n: nat)
    requires
        m.dom().finite(),
        m.dom().len() == n,
        n > 0,
    ensures
        exists|k: Seq<char>| is_soonest::<T>(m, k),
    decreases n,
{
    let x = m.dom().choose();
    assert(m.contains_key(x));
    if n == 1 {
        assert forall|o: Seq<char>| #[trigger] m.contains_key(o) && o != x implies false by {
            assert(m.dom().remove(x).contains(o));
            assert(m.dom().remove(x).len() == 0);
            m.dom().remove(x).lemma_len0_is_empty();
        }
        assert(is_soonest::<T>(m, x));
    } else {
        let rest = m.remove(x);
        assert(rest.dom() =~= m.dom().remove(x));
        some_row_is_soonest::<T>(rest, (n - 1) as nat);
        let y = choose|k: Seq<char>| is_soonest::<T>(rest, k);
        before_total(x, y);
        let x_first = T::expiry(m[x]) < T::expiry(m[y]) || T::expiry(m[x]) == T::expiry(m[y])
            && before(x, y);
        let first = if x_first {
            x
        } else {
            y
        };
        assert forall|o: Seq<char>| #[trigger] m.contains_key(o) && o != first implies T::expiry(
            m[first],
        ) < T::expiry(m[o]) || T::expiry(m[first]) == T::expiry(m[o]) && before(first, o) by {
            if o != x {
                assert(rest.contains_key(o));
                if x_first && o != y && T::expiry(m[x]) == T::expiry(m[o]) {
                    before_transitive(x, y, o);
                }
            }
        }
        assert(is_soonest::<T>(m, first));
    }
}

} // verus!
