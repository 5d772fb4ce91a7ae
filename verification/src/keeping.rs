//! Whether what was read from elsewhere is a store that this node can open.
use crate::kernel::{filed, id_text, kept};
use crate::register::Register;
use crate::store::{Lease, Store};
use crate::table::Table;
use crate::task::Task;
use crate::text::{begins_with, cat4, chars_of, code_point, decimal, digit, same, text_of};
use vstd::prelude::*;

verus! {

/// The number that a text of digits stands for.
pub open spec fn number_of(s: Seq<char>) -> nat
    decreases s.len(),
{
    if s.len() == 0 {
        0
    } else {
        number_of(s.drop_last()) * 10 + (s.last() as int - 48) as nat
    }
}

/// Whether a character is a decimal digit.
pub open spec fn is_digit(c: char) -> bool {
    48 <= c as int <= 57
}

/// Whether a text is a number as it is written: digits, and no zero before another.
pub open spec fn is_decimal(s: Seq<char>) -> bool {
    &&& s.len() > 0
    &&& forall|i: int| 0 <= i < s.len() ==> is_digit(#[trigger] s[i])
    &&& s.len() > 1 ==> s[0] != '0'
}

proof fn small_number(s: Seq<char>)
    requires
        is_decimal(s),
    ensures
        s.len() > 1 ==> number_of(s) >= 10,
    decreases s.len(),
{
    if s.len() > 1 {
        let rest = s.drop_last();
        assert(rest[0] == s[0]);
        assert(is_digit(s[s.len() - 1]));
        if rest.len() == 1 {
            assert(is_digit(s[0]));
            assert(rest.drop_last() =~= Seq::<char>::empty());
            assert(number_of(rest) >= 1);
        } else {
            small_number(rest);
        }
    }
}

/// A number as it is written is the number it stands for, written.
pub proof fn decimal_of_number(s: Seq<char>)
    requires
        is_decimal(s),
    ensures
        decimal(number_of(s)) == s,
    decreases s.len(),
{
    let d = (s.last() as int - 48) as nat;
    assert(is_digit(s[s.len() - 1]));
    assert(digit(d as int) == s.last());
    if s.len() == 1 {
        assert(s.drop_last() =~= Seq::<char>::empty());
        assert(number_of(Seq::<char>::empty()) == 0);
        assert(number_of(s) == d);
        assert(s =~= seq![digit(d as int)]);
    } else {
        let rest = s.drop_last();
        assert(rest[0] == s[0]);
        small_number(s);
        decimal_of_number(rest);
        let n = number_of(s);
        assert(n / 10 == number_of(rest) && n % 10 == d) by (nonlinear_arith)
            requires
                n == number_of(rest) * 10 + d,
                d < 10,
        ;
        assert(s =~= rest.push(s.last()));
    }
}

/// A number that is written stands for itself.
pub proof fn number_of_decimal(n: nat)
    ensures
        is_decimal(decimal(n)),
        number_of(decimal(n)) == n,
        n > 0 ==> decimal(n)[0] != '0',
    decreases n,
{
    let d = (n % 10) as int;
    assert(digit(d) as int == 48 + d);
    if n < 10 {
        let s = decimal(n);
        assert(s.drop_last() =~= Seq::<char>::empty());
        assert(number_of(Seq::<char>::empty()) == 0);
    } else {
        number_of_decimal(n / 10);
        let s = decimal(n);
        assert(s.drop_last() =~= decimal(n / 10));
        assert forall|i: int| 0 <= i < s.len() implies is_digit(#[trigger] s[i]) by {
            if i < s.len() - 1 {
                assert(s[i] == decimal(n / 10)[i]);
            }
        }
        assert(s[0] == decimal(n / 10)[0]);
    }
}

/// Whether a text is a number, as it is written, above this one.
fn above(s: &str, n: u64) -> (r: bool)
    ensures
        r == (is_decimal(s@) && number_of(s@) > n),
{
    let v = chars_of(s);
    if v.len() == 0 || (v.len() > 1 && v[0] == '0') {
        return false;
    }
    let mut acc: u64 = 0;
    let mut over = false;
    let mut i: usize = 0;
    assert(v@.take(0) =~= Seq::<char>::empty());
    while i < v.len()
        invariant
            i <= v@.len(),
            v@ == s@,
            forall|j: int| 0 <= j < i ==> is_digit(#[trigger] v@[j]),
            !over ==> acc == number_of(v@.take(i as int)),
            over ==> number_of(v@.take(i as int)) > u64::MAX,
        decreases v@.len() - i,
    {
        let c: u32 = code_point(v[i]);
        if c < 48 || c > 57 {
            assert(!is_digit(s@[i as int]));
            return false;
        }
        assert(v@.take(i + 1).drop_last() =~= v@.take(i as int));
        assert(v@.take(i + 1).last() == v@[i as int]);
        let d: u64 = (c - 48) as u64;
        if !over {
            if acc > 1844674407370955161 || (acc == 1844674407370955161 && d > 5) {
                over = true;
            } else {
                acc = acc * 10 + d;
            }
        }
        i += 1;
    }
    assert(v@.take(i as int) =~= s@);
    over || acc > n
}

/// Whether no id of this kind is among the keys that is still to be given out.
fn none_ahead<T: View>(t: &Table<T>, prefix: &str, node: &str, counter: u64) -> (r: bool)
    requires
        t.wf(),
    ensures
        r == (forall|n: nat|
            n > counter ==> !t@.contains_key(#[trigger] id_text(prefix@, node@, n))),
{
    let head = cat4(prefix, "-", node, "-");
    let m: usize = chars_of(head.as_str()).len();
    proof {
        t.keys_are_domain();
    }
    let mut i: usize = 0;
    while i < t.len()
        invariant
            i <= t.keys().len(),
            t.wf(),
            m == head@.len(),
            head@ == prefix@ + "-"@ + node@ + "-"@,
            forall|k: Seq<char>| #[trigger] t@.dom().contains(k) <==> t.keys().contains(k),
            forall|j: int, n: nat|
                0 <= j < i && n > counter ==> #[trigger] t.keys()[j] != #[trigger] id_text(
                    prefix@,
                    node@,
                    n,
                ),
        decreases t.keys().len() - i,
    {
        let key = t.key_at(i);
        let ghost k = key@;
        assert(t.keys().contains(k));
        if begins_with(key.as_str(), head.as_str()) {
            let v = chars_of(key.as_str());
            let rest = text_of(&v, m, v.len());
            assert(rest@ =~= k.skip(m as int));
            if above(rest.as_str(), counter) {
                proof {
                    let n = number_of(rest@);
                    decimal_of_number(rest@);
                    assert(k =~= head@ + rest@);
                    assert(id_text(prefix@, node@, n) == k);
                    assert(t@.contains_key(id_text(prefix@, node@, n)));
                }
                return false;
            }
            proof {
                assert forall|n: nat| n > counter implies k != #[trigger] id_text(
                    prefix@,
                    node@,
                    n,
                ) by {
                    if k == id_text(prefix@, node@, n) {
                        number_of_decimal(n);
                        assert(k =~= head@ + decimal(n));
                        assert(k.skip(m as int) =~= decimal(n));
                    }
                }
            }
        } else {
            proof {
                assert forall|n: nat| n > counter implies k != #[trigger] id_text(
                    prefix@,
                    node@,
                    n,
                ) by {
                    if k == id_text(prefix@, node@, n) {
                        assert(k =~= head@ + decimal(n));
                        assert(k.take(m as int) =~= head@);
                    }
                }
            }
        }
        i += 1;
    }
    proof {
        assert forall|n: nat| n > counter implies !t@.contains_key(
            #[trigger] id_text(prefix@, node@, n),
        ) by {
            let k = id_text(prefix@, node@, n);
            if t@.contains_key(k) {
                assert(t@.dom().contains(k));
                let j = t.keys().index_of(k);
                assert(t.keys()[j] == k);
            }
        }
    }
    true
}

fn tasks_filed(t: &Table<Task>) -> (r: bool)
    requires
        t.wf(),
    ensures
        r == (forall|k: Seq<char>| #[trigger] t@.contains_key(k) ==> t@[k].id == k),
{
    proof {
        t.keys_are_domain();
    }
    let mut i: usize = 0;
    while i < t.len()
        invariant
            i <= t.keys().len(),
            t.wf(),
            forall|j: int| 0 <= j < i ==> t@[#[trigger] t.keys()[j]].id == t.keys()[j],
        decreases t.keys().len() - i,
    {
        let row = t.value_at(i);
        if !same(row.id.as_str(), t.key_at(i).as_str()) {
            assert(t@.contains_key(t.keys()[i as int]));
            return false;
        }
        i += 1;
    }
    proof {
        assert forall|k: Seq<char>| #[trigger] t@.contains_key(k) implies t@[k].id == k by {
            assert(t@.dom().contains(k));
            let j = t.keys().index_of(k);
            assert(t.keys()[j] == k);
        }
    }
    true
}

fn registers_filed(t: &Table<Register>) -> (r: bool)
    requires
        t.wf(),
    ensures
        r == (forall|k: Seq<char>| #[trigger] t@.contains_key(k) ==> t@[k].id == k),
{
    proof {
        t.keys_are_domain();
    }
    let mut i: usize = 0;
    while i < t.len()
        invariant
            i <= t.keys().len(),
            t.wf(),
            forall|j: int| 0 <= j < i ==> t@[#[trigger] t.keys()[j]].id == t.keys()[j],
        decreases t.keys().len() - i,
    {
        let row = t.value_at(i);
        if !same(row.id.as_str(), t.key_at(i).as_str()) {
            assert(t@.contains_key(t.keys()[i as int]));
            return false;
        }
        i += 1;
    }
    proof {
        assert forall|k: Seq<char>| #[trigger] t@.contains_key(k) implies t@[k].id == k by {
            assert(t@.dom().contains(k));
            let j = t.keys().index_of(k);
            assert(t.keys()[j] == k);
        }
    }
    true
}

fn leases_filed(t: &Table<Lease>) -> (r: bool)
    requires
        t.wf(),
    ensures
        r == (forall|k: Seq<char>| #[trigger] t@.contains_key(k) ==> t@[k].id == k),
{
    proof {
        t.keys_are_domain();
    }
    let mut i: usize = 0;
    while i < t.len()
        invariant
            i <= t.keys().len(),
            t.wf(),
            forall|j: int| 0 <= j < i ==> t@[#[trigger] t.keys()[j]].id == t.keys()[j],
        decreases t.keys().len() - i,
    {
        let row = t.value_at(i);
        if !same(row.id.as_str(), t.key_at(i).as_str()) {
            assert(t@.contains_key(t.keys()[i as int]));
            return false;
        }
        i += 1;
    }
    proof {
        assert forall|k: Seq<char>| #[trigger] t@.contains_key(k) implies t@[k].id == k by {
            assert(t@.dom().contains(k));
            let j = t.keys().index_of(k);
            assert(t.keys()[j] == k);
        }
    }
    true
}

impl Store {
    /// Whether this store can be opened by this node.
    pub fn can_be_opened(&self, node_id: &str) -> (r: bool)
        requires
            self.wf(),
        ensures
            r == kept(self@, node_id@),
    {
        if !tasks_filed(&self.tasks) || !registers_filed(&self.registers) || !leases_filed(
            &self.leases,
        ) {
            assert(!filed(self@));
            return false;
        }
        proof {
            self.resumes.keys_are_domain();
        }
        let mut i: usize = 0;
        while i < self.resumes.len()
            invariant
                i <= self.resumes.keys().len(),
                self.wf(),
                forall|j: int|
                    0 <= j < i ==> self.stops@.contains_key(
                        self.resumes@[#[trigger] self.resumes.keys()[j]].cites,
                    ),
            decreases self.resumes.keys().len() - i,
        {
            let row = self.resumes.value_at(i);
            if !self.stops.has(row.cites.as_str()) {
                assert(self@.resumes.contains_key(self.resumes.keys()[i as int]));
                return false;
            }
            i += 1;
        }
        proof {
            assert forall|r: Seq<char>| #[trigger]
                self@.resumes.contains_key(r) implies self@.stops.contains_key(
                self@.resumes[r].cites,
            ) by {
                assert(self.resumes@.dom().contains(r));
                let j = self.resumes.keys().index_of(r);
                assert(self.resumes.keys()[j] == r);
            }
        }
        none_ahead(&self.stops, "stop", node_id, self.counter) && none_ahead(
            &self.resumes,
            "resume",
            node_id,
            self.counter,
        )
    }
}

} // verus!
