use crate::element::{Element, Modeled};
use vstd::prelude::*;

verus! {

/// A vector of exactly `N` elements of type `T`. The count is part of the
/// type; outside of construction every slot is filled, which is what the
/// well-formedness predicate `wf` states.
#[derive(Debug)]
pub struct Vector<T, const N: usize> {
    pub inner: Vec<T>,
}

/// A matrix is just a vector of column vectors: `N` columns of `M` entries
/// each. Since the element-wise arithmetic is defined for any element type
/// that supports it, a matrix inherits it from its columns, and a vector of
/// matrices (a tensor) inherits it again.
pub type Matrix<T, const M: usize, const N: usize> = Vector<Vector<T, M>, N>;

impl<T, const N: usize> View for Vector<T, N> {
    type V = Seq<T>;

    open spec fn view(&self) -> Seq<T> {
        self.inner@
    }
}

impl<T: DeepView, const N: usize> DeepView for Vector<T, N> {
    type V = Seq<T::V>;

    open spec fn deep_view(&self) -> Seq<T::V> {
        Seq::new(self.inner@.len(), |i: int| self.inner@[i].deep_view())
    }
}

impl<T, const N: usize> Vector<T, N> {
    /// Builds from exactly `N` items; fewer or more are rejected, so that a
    /// dimension mismatch is caught at the boundary instead of being
    /// truncated or padded away.
    pub fn try_from_vec(items: Vec<T>) -> (r: Option<Vector<T, N>>)
        ensures
            match r {
                Some(v) => items@.len() == N && v@ == items@,
                None => items@.len() != N,
            },
    {
        if items.len() == N {
            Some(Vector { inner: items })
        } else {
            None
        }
    }

    /// Shared access to the element at `index`.
    pub fn get(&self, index: usize) -> (r: &T)
        requires
            index < self@.len(),
        ensures
            *r == self@[index as int],
    {
        &self.inner[index]
    }

    /// Wraps the vector into a vector of length one, raising the nesting
    /// depth by one.
    pub fn ascend(self) -> (r: Vector<Vector<T, N>, 1>)
        ensures
            r@.len() == 1,
            r@[0] == self,
    {
        let mut out: Vec<Vector<T, N>> = Vec::new();
        out.push(self);
        Vector { inner: out }
    }

    /// Turns the vector into an owning iterator over its elements.
    pub fn into_iter(self) -> (r: IntoIter<T, N>)
        ensures
            r@ == self@,
    {
        IntoIter { data: self.inner }
    }
}

/// An owning iterator over the elements of a [`Vector`], in ascending index
/// order. Elements not yet yielded stay owned by the iterator and are
/// destroyed with it.
pub struct IntoIter<T, const N: usize> {
    pub data: Vec<T>,
}

impl<T, const N: usize> View for IntoIter<T, N> {
    type V = Seq<T>;

    open spec fn view(&self) -> Seq<T> {
        self.data@
    }
}

impl<T, const N: usize> IntoIter<T, N> {
    /// Yields the next element by value, exactly once per element.
    pub fn next(&mut self) -> (r: Option<T>)
        ensures
            old(self)@.len() > 0 ==> r == Some(old(self)@[0]) && final(self)@ == old(
                self,
            )@.skip(1),
            old(self)@.len() == 0 ==> r == None::<T> && final(self)@ == old(self)@,
    {
        if self.data.len() > 0 {
            Some(self.data.remove(0))
        } else {
            None
        }
    }
}

/// Construction of a fixed-capacity value by evaluating a generator function
/// once per slot, in ascending order. It stands in a trait of its own so
/// that any fixed-capacity representation can offer it.
pub trait Stupidity<T>: Sized {
    spec fn cap() -> nat;

    spec fn items(&self) -> Seq<T>;

    /// Calls `f(i)` for `i` in `0..cap()` in ascending order and builds the
    /// value of all the results; no partially-built value escapes.
    fn build_with_fn<F: Fn(usize) -> T>(f: F) -> (r: Self)
        requires
            forall|i: usize| i < Self::cap() ==> #[trigger] call_requires(f, (i,)),
        ensures
            r.items().len() == Self::cap(),
            forall|i: int|
                0 <= i < Self::cap() ==> call_ensures(f, (i as usize,), #[trigger] r.items()[i]),
    ;
}

impl<T, const N: usize> Stupidity<T> for Vector<T, N> {
    open spec fn cap() -> nat {
        N as nat
    }

    open spec fn items(&self) -> Seq<T> {
        self.inner@
    }

    fn build_with_fn<F: Fn(usize) -> T>(f: F) -> (r: Self) {
        let mut out: Vec<T> = Vec::new();
        for idx in 0..N
            invariant
                out@.len() == idx,
                forall|j: int| 0 <= j < idx ==> call_ensures(f, (j as usize,), #[trigger] out@[j]),
                forall|i: usize| i < N ==> #[trigger] call_requires(f, (i,)),
        {
            let x = f(idx);
            out.push(x);
        }
        Vector { inner: out }
    }
}

impl<T: Modeled, const N: usize> Modeled for Vector<T, N> {
    open spec fn wf(&self) -> bool {
        &&& self.inner@.len() == N
        &&& forall|i: int| 0 <= i < N ==> (#[trigger] self.inner@[i]).wf()
    }

    fn dup(&self) -> (r: Self) {
        let mut out: Vec<T> = Vec::new();
        for idx in 0..N
            invariant
                self.wf(),
                out@.len() == idx,
                forall|j: int|
                    0 <= j < idx ==> (#[trigger] out@[j]).wf() && out@[j].deep_view()
                        == self.inner@[j].deep_view(),
        {
            out.push(self.inner[idx].dup());
        }
        let r = Vector { inner: out };
        proof {
            assert(r.deep_view() =~= self.deep_view());
        }
        r
    }

    fn el_eq(&self, other: &Self) -> (r: bool) {
        let mut idx: usize = 0;
        while idx < N
            invariant
                self.wf(),
                other.wf(),
                idx <= N,
                forall|j: int|
                    0 <= j < idx ==> self.inner@[j].deep_view()
                        == (#[trigger] other.inner@[j]).deep_view(),
            decreases N - idx,
        {
            if !self.inner[idx].el_eq(&other.inner[idx]) {
                proof {
                    assert(self.deep_view()[idx as int] != other.deep_view()[idx as int]);
                }
                return false;
            }
            idx += 1;
        }
        proof {
            assert(self.deep_view() =~= other.deep_view());
        }
        true
    }
}

/// Default construction fills every slot with the element default.
impl<T: Element, const N: usize> Default for Vector<T, N> {
    fn default() -> (r: Self)
        ensures
            r.wf(),
            r.deep_view() == Seq::new(N as nat, |i: int| T::default_model()),
    {
        let f = |_i: usize| -> (t: T)
            ensures
                t.wf() && t.deep_view() == T::default_model(),
            { T::default_val() };
        let r = Self::build_with_fn(f);
        proof {
            assert forall|i: int| 0 <= i < N implies (#[trigger] r.inner@[i]).wf()
                && r.inner@[i].deep_view() == T::default_model() by {
                assert(call_ensures(f, (i as usize,), r.items()[i]));
            }
            assert(r.deep_view() =~= Seq::new(N as nat, |i: int| T::default_model()));
        }
        r
    }
}

} // verus!
