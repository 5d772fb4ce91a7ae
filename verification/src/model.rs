//! Values and what they mean: every stored type has a view, can be duplicated
//! and can be compared by it.
use vstd::prelude::*;

verus! {

/// What each element of a sequence means.
pub open spec fn all<T: View>(s: Seq<T>) -> Seq<T::V> {
    s.map_values(|t: T| t@)
}

/// What an optional value means.
pub open spec fn opt<T: View>(o: Option<T>) -> Option<T::V> {
    match o {
        Some(t) => Some(t@),
        None => None,
    }
}

/// A value that can be duplicated, its meaning kept.
pub trait Duplicate: View + Sized {
    fn dup(&self) -> (r: Self)
        ensures
            r@ == self@,
    ;
}

/// A value that can be compared with another by what they mean.
pub trait Same: View + Sized {
    fn same_as(&self, other: &Self) -> (r: bool)
        ensures
            r == (self@ == other@),
    ;
}

impl Duplicate for String {
    fn dup(&self) -> (r: Self) {
        self.clone()
    }
}

impl Same for String {
    fn same_as(&self, other: &Self) -> (r: bool) {
        self.clone() == other.clone()
    }
}

impl Duplicate for u64 {
    fn dup(&self) -> (r: Self) {
        *self
    }
}

impl Same for u64 {
    fn same_as(&self, other: &Self) -> (r: bool) {
        *self == *other
    }
}

impl Duplicate for u32 {
    fn dup(&self) -> (r: Self) {
        *self
    }
}

impl Same for u32 {
    fn same_as(&self, other: &Self) -> (r: bool) {
        *self == *other
    }
}

impl Duplicate for u8 {
    fn dup(&self) -> (r: Self) {
        *self
    }
}

/// A vector whose elements mean the same.
pub fn dup_all<T: Duplicate>(v: &Vec<T>) -> (r: Vec<T>)
    ensures
        all(r@) == all(v@),
{
    let mut r: Vec<T> = Vec::new();
    let mut i: usize = 0;
    while i < v.len()
        invariant
            i <= v@.len(),
            r@.len() == i,
            forall|k: int| 0 <= k < i ==> #[trigger] r@[k]@ == v@[k]@,
        decreases v@.len() - i,
    {
        r.push(v[i].dup());
        i += 1;
    }
    assert(all(r@) =~= all(v@));
    r
}

/// An optional value that means the same.
pub fn dup_opt<T: Duplicate>(o: &Option<T>) -> (r: Option<T>)
    ensures
        opt(r) == opt(*o),
{
    match o {
        Some(t) => Some(t.dup()),
        None => None,
    }
}

/// Whether two optional values mean the same.
pub fn same_opt<T: Same>(a: &Option<T>, b: &Option<T>) -> (r: bool)
    ensures
        r == (opt(*a) == opt(*b)),
{
    match (a, b) {
        (Some(x), Some(y)) => x.same_as(y),
        (None, None) => true,
        _ => false,
    }
}

/// What a verdict says.
pub open spec fn verdict_view(r: Result<(), String>) -> Result<(), Seq<char>> {
    match r {
        Ok(()) => Ok(()),
        Err(why) => Err(why@),
    }
}

} // verus!
