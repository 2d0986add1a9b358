//! Copies and collections whose contents are known down to the last character.
//!
//! A `String` inside a `Vec` inside an event is compared here by its deep view:
//! the mathematical sequence of characters, all the way down.
use vstd::prelude::*;

verus! {

/// A value that can be copied without losing anything its deep view shows.
pub trait Dup: DeepView + Sized {
    fn dup(&self) -> (r: Self)
        ensures
            r.deep_view() == self.deep_view(),
    ;
}

impl Dup for String {
    fn dup(&self) -> (r: Self) {
        self.clone()
    }
}

impl Dup for bool {
    fn dup(&self) -> (r: Self) {
        *self
    }
}

impl Dup for u32 {
    fn dup(&self) -> (r: Self) {
        *self
    }
}

impl Dup for u64 {
    fn dup(&self) -> (r: Self) {
        *self
    }
}

impl Dup for usize {
    fn dup(&self) -> (r: Self) {
        *self
    }
}

impl<T: Dup> Dup for Option<T> {
    fn dup(&self) -> (r: Self) {
        match self {
            Some(t) => Some(t.dup()),
            None => None,
        }
    }
}

impl<A: Dup, B: Dup> Dup for (A, B) {
    fn dup(&self) -> (r: Self) {
        (self.0.dup(), self.1.dup())
    }
}

impl<T: Dup> Dup for Vec<T> {
    fn dup(&self) -> (r: Self) {
        let mut out: Vec<T> = Vec::new();
        let mut i: usize = 0;
        while i < self.len()
            invariant
                i <= self.len(),
                out.len() == i,
                forall|k: int|
                    0 <= k < i ==> (#[trigger] out@[k]).deep_view() == self@[k].deep_view(),
            decreases self.len() - i,
        {
            out.push(self[i].dup());
            i = i + 1;
        }
        assert(out.deep_view() =~= self.deep_view());
        out
    }
}

/// Appends `x`.
pub fn put<T: DeepView>(v: &mut Vec<T>, x: T)
    ensures
        final(v)@ == old(v)@.push(x),
        final(v).deep_view() == old(v).deep_view().push(x.deep_view()),
{
    v.push(x);
    assert(v.deep_view() =~= old(v).deep_view().push(x.deep_view()));
}

/// The list that holds nothing.
pub fn none_of<T: DeepView>() -> (v: Vec<T>)
    ensures
        v@ == Seq::<T>::empty(),
        v.deep_view() == Seq::<T::V>::empty(),
{
    let v: Vec<T> = Vec::new();
    assert(v.deep_view() =~= Seq::<T::V>::empty());
    v
}

/// The list that holds `x` alone.
pub fn one_of<T: DeepView>(x: T) -> (v: Vec<T>)
    ensures
        v@ == seq![x],
        v.deep_view() == seq![x.deep_view()],
{
    let mut v: Vec<T> = none_of();
    put(&mut v, x);
    assert(v.deep_view() =~= seq![x.deep_view()]);
    v
}

/// Appends everything `more` holds, in order.
pub fn put_all<T: DeepView>(v: &mut Vec<T>, more: Vec<T>)
    ensures
        final(v)@ == old(v)@ + more@,
        final(v).deep_view() == old(v).deep_view() + more.deep_view(),
{
    let ghost added = more.deep_view();
    let mut more = more;
    v.append(&mut more);
    assert(v.deep_view() =~= old(v).deep_view() + added);
}

} // verus!
