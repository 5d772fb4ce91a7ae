//! Rows kept under a text key, in the order of their keys.
use crate::model::{all, Duplicate};
use crate::text::{before, before_irreflexive, before_total, before_transitive, comes_before, own, same};
use vstd::prelude::*;

verus! {

/// One row: its key and what is kept under it.
#[derive(Debug)]
pub struct Row<T> {
    pub key: String,
    pub value: T,
}

/// A map from text to `T`. The rows stand in ascending order of their keys, so
/// no key occurs twice and a listing is always in the same order.
#[derive(Debug)]
pub struct Table<T> {
    rows: Vec<Row<T>>,
}

impl<T: View> View for Table<T> {
    type V = Map<Seq<char>, T::V>;

    closed spec fn view(&self) -> Map<Seq<char>, T::V> {
        Map::new(
            |k: Seq<char>| self.keys().contains(k),
            |k: Seq<char>| self.rows@[self.keys().index_of(k)].value@,
        )
    }
}

/// Whether a sequence of keys ascends strictly.
pub open spec fn ascending(keys: Seq<Seq<char>>) -> bool {
    forall|i: int, j: int|
        #![trigger keys[i], keys[j]]
        0 <= i < j < keys.len() ==> before(keys[i], keys[j])
}

/// Two ascending sequences of the same keys are one sequence.
pub proof fn same_keys_same_order(a: Seq<Seq<char>>, b: Seq<Seq<char>>)
    requires
        ascending(a),
        ascending(b),
        forall|k: Seq<char>| a.contains(k) ==> #[trigger] b.contains(k),
        forall|k: Seq<char>| b.contains(k) ==> #[trigger] a.contains(k),
    ensures
        a == b,
    decreases a.len() + b.len(),
{
    if a.len() == 0 {
        if b.len() > 0 {
            assert(b.contains(b[0]));
            assert(a.contains(b[0]));
        }
        assert(a =~= b);
    } else if b.len() == 0 {
        assert(a.contains(a[0]));
        assert(b.contains(a[0]));
    } else {
        let x = a.last();
        let y = b.last();
        assert(a[a.len() - 1] == x && b[b.len() - 1] == y);
        assert(a.contains(x) && b.contains(y));
        assert(b.contains(x) && a.contains(y));
        let i = b.index_of(x);
        let j = a.index_of(y);
        assert(b[i] == x && a[j] == y);
        if i < b.len() - 1 {
            assert(before(b[i], b[b.len() - 1]));
            if j < a.len() - 1 {
                assert(before(a[j], a[a.len() - 1]));
                before_transitive(x, y, x);
            }
            before_irreflexive(x);
        }
        assert(x == y);
        let c = a.drop_last();
        let d = b.drop_last();
        assert forall|k: Seq<char>| c.contains(k) implies #[trigger] d.contains(k) by {
            let m = c.index_of(k);
            assert(a[m] == k);
            assert(a.contains(k));
            assert(b.contains(k));
            let n = b.index_of(k);
            assert(b[n] == k);
            if n == b.len() - 1 {
                assert(before(a[m], a[a.len() - 1]));
                before_irreflexive(x);
            }
            assert(d[n] == k);
        }
        assert forall|k: Seq<char>| d.contains(k) implies #[trigger] c.contains(k) by {
            let n = d.index_of(k);
            assert(b[n] == k);
            assert(b.contains(k));
            assert(a.contains(k));
            let m = a.index_of(k);
            assert(a[m] == k);
            if m == a.len() - 1 {
                assert(before(b[n], b[b.len() - 1]));
                before_irreflexive(x);
            }
            assert(c[m] == k);
        }
        assert forall|p: int, q: int|
            #![trigger c[p], c[q]]
            0 <= p < q < c.len() implies before(c[p], c[q]) by {
            assert(before(a[p], a[q]));
        }
        assert forall|p: int, q: int|
            #![trigger d[p], d[q]]
            0 <= p < q < d.len() implies before(d[p], d[q]) by {
            assert(before(b[p], b[q]));
        }
        same_keys_same_order(c, d);
        assert(a =~= c.push(x));
        assert(b =~= d.push(y));
    }
}

impl<T: View> Table<T> {
    /// The keys, in the order of the rows.
    pub closed spec fn keys(&self) -> Seq<Seq<char>> {
        Seq::new(self.rows@.len(), |i: int| self.rows@[i].key@)
    }

    /// The keys ascend.
    pub open spec fn wf(&self) -> bool {
        ascending(self.keys())
    }

    /// The row under a key is the only one under it.
    proof fn row_of(&self, i: int)
        requires
            self.wf(),
            0 <= i < self.keys().len(),
        ensures
            self@.dom().contains(self.keys()[i]),
            self@[self.keys()[i]] == self.rows@[i].value@,
    {
        let k = self.keys()[i];
        let j = self.keys().index_of(k);
        assert(self.keys()[i] == k);
        assert(self.keys()[j] == k);
        before_irreflexive(k);
        assert(i == j);
    }

    /// A key is in the map exactly when it stands among the keys.
    pub proof fn keys_are_domain(&self)
        requires
            self.wf(),
        ensures
            forall|k: Seq<char>| #[trigger] self@.dom().contains(k) <==> self.keys().contains(k),
    {
    }

    /// There are as many keys as rows.
    pub proof fn size(&self)
        requires
            self.wf(),
        ensures
            self@.dom().finite(),
            self@.dom().len() == self.keys().len(),
    {
        let keys = self.keys();
        assert(keys.no_duplicates()) by {
            assert forall|i: int, j: int|
                0 <= i < keys.len() && 0 <= j < keys.len() && i != j implies keys[i] != keys[j] by {
                before_irreflexive(keys[i]);
                if i < j {
                    assert(before(keys[i], keys[j]));
                } else {
                    assert(before(keys[j], keys[i]));
                }
            }
        }
        keys.unique_seq_to_set();
        assert(self@.dom() =~= keys.to_set());
    }

    /// A table without rows.
    pub fn new() -> (r: Self)
        ensures
            r.wf(),
            r@ == Map::<Seq<char>, T::V>::empty(),
            r.keys() == Seq::<Seq<char>>::empty(),
    {
        let r = Table { rows: Vec::new() };
        assert(r.keys() =~= Seq::<Seq<char>>::empty());
        assert(r@ =~= Map::<Seq<char>, T::V>::empty());
        r
    }

    /// How many rows there are.
    pub fn len(&self) -> (n: usize)
        ensures
            n == self.keys().len(),
    {
        self.rows.len()
    }

    /// The key of row `i`.
    pub fn key_at(&self, i: usize) -> (k: &String)
        requires
            i < self.keys().len(),
        ensures
            k@ == self.keys()[i as int],
    {
        &self.rows[i].key
    }

    /// What row `i` holds.
    pub fn value_at(&self, i: usize) -> (v: &T)
        requires
            self.wf(),
            i < self.keys().len(),
        ensures
            self@.dom().contains(self.keys()[i as int]),
            v@ == self@[self.keys()[i as int]],
    {
        proof {
            self.row_of(i as int);
        }
        &self.rows[i].value
    }

    /// The first row whose key does not come before `key`.
    fn position(&self, key: &str) -> (p: usize)
        requires
            self.wf(),
        ensures
            p <= self.keys().len(),
            forall|i: int| 0 <= i < p ==> before(#[trigger] self.keys()[i], key@),
            forall|i: int| p <= i < self.keys().len() ==> !before(#[trigger] self.keys()[i], key@),
    {
        let mut p: usize = 0;
        while p < self.rows.len() && comes_before(self.rows[p].key.as_str(), key)
            invariant
                p <= self.keys().len(),
                self.keys().len() == self.rows@.len(),
                forall|i: int| 0 <= i < p ==> before(#[trigger] self.keys()[i], key@),
            decreases self.rows@.len() - p,
        {
            assert(before(self.keys()[p as int], key@));
            p += 1;
        }
        assert forall|i: int| p <= i < self.keys().len() implies !before(
            #[trigger] self.keys()[i],
            key@,
        ) by {
            assert(!before(self.keys()[p as int], key@));
            if i > p && before(self.keys()[i], key@) {
                before_transitive(self.keys()[p as int], self.keys()[i], key@);
            }
        }
        p
    }

    /// What is kept under `key`.
    pub fn get(&self, key: &str) -> (r: Option<&T>)
        requires
            self.wf(),
        ensures
            r is Some <==> self@.dom().contains(key@),
            r is Some ==> r->0@ == self@[key@],
    {
        let p: usize = self.position(key);
        if p < self.rows.len() && same(self.rows[p].key.as_str(), key) {
            assert(self.keys()[p as int] == key@);
            proof {
                self.row_of(p as int);
            }
            Some(&self.rows[p].value)
        } else {
            proof {
                if self.keys().contains(key@) {
                    let i = self.keys().index_of(key@);
                    assert(self.keys()[i] == key@);
                    before_irreflexive(key@);
                    if p < i {
                        assert(before(self.keys()[p as int], self.keys()[i]));
                    }
                }
            }
            None
        }
    }

    /// Whether anything is kept under `key`.
    pub fn has(&self, key: &str) -> (r: bool)
        requires
            self.wf(),
        ensures
            r == self@.dom().contains(key@),
    {
        self.get(key).is_some()
    }

    /// Keep `value` under `key`, in place of what was there.
    pub fn insert(&mut self, key: &str, value: T)
        requires
            old(self).wf(),
        ensures
            final(self).wf(),
            final(self)@ == old(self)@.insert(key@, value@),
    {
        let p: usize = self.position(key);
        let ghost v = value@;
        if p < self.rows.len() && same(self.rows[p].key.as_str(), key) {
            let row = Row { key: own(key), value };
            self.rows.set(p, row);
            proof {
                assert(self.keys() =~= old(self).keys());
                let keys = self.keys();
                assert(keys[p as int] == key@);
                assert forall|k: Seq<char>| #[trigger] self@.dom().contains(k) <==> old(
                    self,
                )@.insert(key@, v).dom().contains(k) by {
                    assert(keys.contains(keys[p as int]));
                }
                assert forall|k: Seq<char>| #[trigger] self@.dom().contains(k) implies self@[k]
                    == old(self)@.insert(key@, v)[k] by {
                    let i = keys.index_of(k);
                    assert(keys[i] == k);
                    self.row_of(i);
                    old(self).row_of(i);
                    self.row_of(p as int);
                    if i != p {
                        before_irreflexive(key@);
                        if i < p {
                            assert(before(keys[i], keys[p as int]));
                        } else {
                            assert(before(keys[p as int], keys[i]));
                        }
                    }
                }
                assert(self@ =~= old(self)@.insert(key@, v));
            }
        } else {
            proof {
                let keys = self.keys();
                if p < keys.len() {
                    before_total(keys[p as int], key@);
                    assert(before(key@, keys[p as int]));
                }
                assert forall|i: int| p <= i < keys.len() implies before(
                    key@,
                    #[trigger] keys[i],
                ) by {
                    if p < i {
                        assert(before(keys[p as int], keys[i]));
                        before_transitive(key@, keys[p as int], keys[i]);
                    }
                }
            }
            self.rows.insert(p, Row { key: own(key), value });
            proof {
                let was = old(self).keys();
                let now = self.keys();
                assert(now =~= was.insert(p as int, key@));
                assert forall|i: int, j: int|
                    #![trigger now[i], now[j]]
                    0 <= i < j < now.len() implies before(now[i], now[j]) by {
                    let a = if i < p { i } else { i - 1 };
                    let b = if j < p { j } else { j - 1 };
                    if i != p && j != p {
                        assert(now[i] == was[a] && now[j] == was[b]);
                    } else if i == p {
                        assert(now[j] == was[b]);
                    } else {
                        assert(now[i] == was[a]);
                    }
                }
                assert(now[p as int] == key@);
                assert forall|k: Seq<char>| #[trigger] self@.dom().contains(k) <==> old(
                    self,
                )@.insert(key@, v).dom().contains(k) by {
                    if now.contains(k) {
                        let i = now.index_of(k);
                        assert(now[i] == k);
                        if i != p {
                            let a = if i < p { i } else { i - 1 };
                            assert(was[a] == k);
                        }
                    }
                    if was.contains(k) {
                        let a = was.index_of(k);
                        assert(was[a] == k);
                        let i = if a < p { a } else { a + 1 };
                        assert(now[i] == k);
                    }
                }
                assert forall|k: Seq<char>| #[trigger] self@.dom().contains(k) implies self@[k]
                    == old(self)@.insert(key@, v)[k] by {
                    let i = now.index_of(k);
                    assert(now[i] == k);
                    self.row_of(i);
                    if i != p {
                        let a = if i < p { i } else { i - 1 };
                        assert(was[a] == k);
                        old(self).row_of(a);
                        before_irreflexive(key@);
                        if i < p {
                            assert(before(now[i], now[p as int]));
                        } else {
                            assert(before(now[p as int], now[i]));
                        }
                    }
                }
                assert(self@ =~= old(self)@.insert(key@, v));
            }
        }
    }

    /// Remove the row under `key`, if there is one, and hand out what it held.
    pub fn remove(&mut self, key: &str) -> (r: Option<T>)
        requires
            old(self).wf(),
        ensures
            final(self).wf(),
            final(self)@ == old(self)@.remove(key@),
            r is Some <==> old(self)@.dom().contains(key@),
            r is Some ==> r->0@ == old(self)@[key@],
    {
        let p: usize = self.position(key);
        if p < self.rows.len() && same(self.rows[p].key.as_str(), key) {
            assert(self.keys()[p as int] == key@);
            proof {
                self.row_of(p as int);
            }
            let row = self.rows.remove(p);
            proof {
                let was = old(self).keys();
                let now = self.keys();
                assert(now =~= was.remove(p as int));
                before_irreflexive(key@);
                assert forall|i: int, j: int|
                    #![trigger now[i], now[j]]
                    0 <= i < j < now.len() implies before(now[i], now[j]) by {
                    let a = if i < p { i } else { i + 1 };
                    let b = if j < p { j } else { j + 1 };
                    assert(now[i] == was[a] && now[j] == was[b]);
                }
                assert forall|k: Seq<char>| #[trigger] self@.dom().contains(k) <==> old(
                    self,
                )@.remove(key@).dom().contains(k) by {
                    if now.contains(k) {
                        let i = now.index_of(k);
                        let a = if i < p { i } else { i + 1 };
                        assert(was[a] == k);
                        if k == key@ {
                            if i < p {
                                assert(before(was[a], was[p as int]));
                            } else {
                                assert(before(was[p as int], was[a]));
                            }
                        }
                    }
                    if was.contains(k) && k != key@ {
                        let a = was.index_of(k);
                        assert(was[a] == k);
                        let i = if a < p { a } else { a - 1 };
                        assert(now[i] == k);
                    }
                }
                assert forall|k: Seq<char>| #[trigger] self@.dom().contains(k) implies self@[k]
                    == old(self)@.remove(key@)[k] by {
                    let i = now.index_of(k);
                    assert(now[i] == k);
                    let a = if i < p { i } else { i + 1 };
                    assert(was[a] == k);
                    self.row_of(i);
                    old(self).row_of(a);
                }
                assert(self@ =~= old(self)@.remove(key@));
            }
            Some(row.value)
        } else {
            proof {
                if self.keys().contains(key@) {
                    let i = self.keys().index_of(key@);
                    assert(self.keys()[i] == key@);
                    before_irreflexive(key@);
                    if p < i {
                        assert(before(self.keys()[p as int], self.keys()[i]));
                    }
                }
                assert(self@ =~= old(self)@.remove(key@));
            }
            None
        }
    }

    /// Remove every row whose key is among `keys`.
    pub fn remove_each(&mut self, keys: &Vec<String>)
        requires
            old(self).wf(),
        ensures
            final(self).wf(),
            final(self)@ == old(self)@.remove_keys(all(keys@).to_set()),
    {
        let ghost gone = all(keys@);
        let mut i: usize = 0;
        assert(self@ =~= old(self)@.remove_keys(gone.take(0).to_set()));
        while i < keys.len()
            invariant
                i <= keys@.len(),
                gone == all(keys@),
                self.wf(),
                self@ == old(self)@.remove_keys(gone.take(i as int).to_set()),
            decreases keys@.len() - i,
        {
            let _ = self.remove(keys[i].as_str());
            proof {
                let was = gone.take(i as int);
                let now = gone.take(i + 1);
                assert(now =~= was.push(keys@[i as int]@));
                assert forall|k: Seq<char>| now.contains(k) <==> was.contains(k) || k
                    == keys@[i as int]@ by {
                    if was.contains(k) {
                        let j = was.index_of(k);
                        assert(now[j] == k);
                    }
                    assert(now[i as int] == keys@[i as int]@);
                    if now.contains(k) && k != keys@[i as int]@ {
                        let j = now.index_of(k);
                        assert(was[j] == k);
                    }
                }
                assert(self@ =~= old(self)@.remove_keys(now.to_set()));
            }
            i += 1;
        }
        assert(gone.take(i as int) =~= gone);
    }

    /// The keys, in order.
    pub fn key_list(&self) -> (r: Vec<String>)
        ensures
            all(r@) == self.keys(),
    {
        let mut r: Vec<String> = Vec::new();
        let mut i: usize = 0;
        while i < self.rows.len()
            invariant
                i <= self.rows@.len(),
                r@.len() == i,
                forall|j: int| 0 <= j < i ==> #[trigger] r@[j]@ == self.rows@[j].key@,
            decreases self.rows@.len() - i,
        {
            r.push(self.rows[i].key.clone());
            i += 1;
        }
        assert(all(r@) =~= self.keys());
        r
    }
}

impl<T: Duplicate> Table<T> {
    /// A table with the same rows.
    pub fn copy(&self) -> (r: Self)
        requires
            self.wf(),
        ensures
            r.wf(),
            r@ == self@,
    {
        let mut r: Table<T> = Table::new();
        let mut i: usize = 0;
        while i < self.len()
            invariant
                self.wf(),
                r.wf(),
                i <= self.keys().len(),
                forall|k: Seq<char>| #[trigger]
                    r@.contains_key(k) <==> exists|j: int|
                        0 <= j < i && #[trigger] self.keys()[j] == k,
                forall|k: Seq<char>| #[trigger] r@.contains_key(k) ==> r@[k] == self@[k],
            decreases self.keys().len() - i,
        {
            r.insert(self.key_at(i).as_str(), self.value_at(i).dup());
            i += 1;
        }
        proof {
            self.keys_are_domain();
            assert forall|k: Seq<char>| #[trigger] r@.contains_key(k) <==> self@.contains_key(k) by {
                if self@.contains_key(k) {
                    let j = self.keys().index_of(k);
                    assert(self.keys()[j] == k);
                }
            }
            assert(r@ =~= self@);
        }
        r
    }
}

} // verus!
