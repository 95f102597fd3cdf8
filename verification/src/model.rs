//! Values that their views tell apart, and how lists and options of them are
//! copied and compared.
use vstd::prelude::*;

use crate::text::same_text;

verus! {

/// The views of a list of values.
pub open spec fn seq_view<T: View>(s: Seq<T>) -> Seq<T::V> {
    Seq::new(s.len(), |i: int| s[i]@)
}

/// The view of an optional value.
pub open spec fn opt_view<T: View>(o: Option<T>) -> Option<T::V> {
    match o {
        Some(x) => Some(x@),
        None => None,
    }
}

/// The view of an optional borrowed value.
pub open spec fn opt_ref_view<T: View>(o: Option<&T>) -> Option<T::V> {
    match o {
        Some(x) => Some(x@),
        None => None,
    }
}

/// The view of a result: of the value, or of the error.
pub open spec fn result_view<T: View, E: View>(r: Result<T, E>) -> Result<T::V, E::V> {
    match r {
        Ok(x) => Ok(x@),
        Err(e) => Err(e@),
    }
}

/// A value that holds nothing beyond its view.
pub trait Plain: View + Sized {
    /// A copy with the same view.
    fn copied(&self) -> (r: Self)
        ensures
            r@ == self@,
    ;

    /// Whether two values have the same view.
    fn same(&self, other: &Self) -> (r: bool)
        ensures
            r == (self@ == other@),
    ;
}

impl Plain for String {
    fn copied(&self) -> (r: Self) {
        self.clone()
    }

    fn same(&self, other: &Self) -> (r: bool) {
        same_text(self.as_str(), other.as_str())
    }
}

impl Plain for u64 {
    fn copied(&self) -> (r: Self) {
        *self
    }

    fn same(&self, other: &Self) -> (r: bool) {
        *self == *other
    }
}

impl<A: Plain, B: Plain> Plain for (A, B) {
    fn copied(&self) -> (r: Self) {
        (self.0.copied(), self.1.copied())
    }

    fn same(&self, other: &Self) -> (r: bool) {
        self.0.same(&other.0) && self.1.same(&other.1)
    }
}

/// Copies a list.
pub fn copy_all<T: Plain>(v: &Vec<T>) -> (r: Vec<T>)
    ensures
        seq_view(r@) == seq_view(v@),
{
    let mut out: Vec<T> = Vec::new();
    let mut i: usize = 0;
    while i < v.len()
        invariant
            i <= v@.len(),
            seq_view(out@) == seq_view(v@).take(i as int),
        decreases v@.len() - i,
    {
        let ghost before = out@;
        let item = v[i].copied();
        out.push(item);
        i = i + 1;
        proof {
            assert(seq_view(out@) == seq_view(before).push(item@));
            assert(seq_view(v@).take(i as int) == seq_view(v@).take(i - 1).push(v@[i - 1]@));
        }
    }
    assert(seq_view(v@).take(v@.len() as int) == seq_view(v@));
    out
}

/// Copies an optional value.
pub fn copy_opt<T: Plain>(o: &Option<T>) -> (r: Option<T>)
    ensures
        opt_view(r) == opt_view(*o),
{
    match o {
        Some(x) => Some(x.copied()),
        None => None,
    }
}

/// Whether two lists have the same views.
pub fn same_all<T: Plain>(a: &Vec<T>, b: &Vec<T>) -> (r: bool)
    ensures
        r == (seq_view(a@) == seq_view(b@)),
{
    if a.len() != b.len() {
        assert(seq_view(a@).len() != seq_view(b@).len());
        return false;
    }
    let mut i: usize = 0;
    while i < a.len()
        invariant
            i <= a@.len(),
            a@.len() == b@.len(),
            forall|k: int| 0 <= k < i ==> seq_view(a@)[k] == seq_view(b@)[k],
        decreases a@.len() - i,
    {
        if !a[i].same(&b[i]) {
            assert(seq_view(a@)[i as int] != seq_view(b@)[i as int]);
            return false;
        }
        i = i + 1;
    }
    assert(seq_view(a@) =~= seq_view(b@));
    true
}

/// Whether two optional values have the same views.
pub fn same_opt<T: Plain>(a: &Option<T>, b: &Option<T>) -> (r: bool)
    ensures
        r == (opt_view(*a) == opt_view(*b)),
{
    match (a, b) {
        (Some(x), Some(y)) => x.same(y),
        (None, None) => true,
        _ => false,
    }
}

} // verus!
