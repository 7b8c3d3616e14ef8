use crate::element::Modeled;
use crate::types::Vector;
use crate::view::{TransposedMatrixView, VectorView};
use core::marker::PhantomData;
use vstd::prelude::*;

verus! {

/// The uniform indexing capability: a representation of `N` elements of `T`
/// that hands out the element at any index below `N`. Every vector-like
/// representation (owned vector, row view, transposed view, lazy sum)
/// implements it once, and iteration and arithmetic are written once
/// against it instead of once per pair of representations.
pub trait ConstIndex<T: Modeled, const N: usize>: Sized {
    /// The models of the `N` elements, in index order.
    spec fn contents(&self) -> Seq<T::V>;

    spec fn well_formed(&self) -> bool;

    proof fn lemma_len(&self)
        requires
            self.well_formed(),
        ensures
            self.contents().len() == N,
    ;

    /// Yields the element at `index`; always succeeds for `index < N`.
    fn i(&self, index: usize) -> (r: T)
        requires
            self.well_formed(),
            index < N,
        ensures
            r.wf(),
            r.deep_view() == self.contents()[index as int],
    ;
}

impl<T: Modeled, const N: usize> ConstIndex<T, N> for Vector<T, N> {
    open spec fn contents(&self) -> Seq<T::V> {
        self.deep_view()
    }

    open spec fn well_formed(&self) -> bool {
        self.wf()
    }

    proof fn lemma_len(&self) {
    }

    fn i(&self, index: usize) -> (r: T) {
        self.inner[index].dup()
    }
}

impl<'a, T: Modeled, const N: usize> ConstIndex<T, N> for &'a Vector<T, N> {
    open spec fn contents(&self) -> Seq<T::V> {
        self.deep_view()
    }

    open spec fn well_formed(&self) -> bool {
        self.wf()
    }

    proof fn lemma_len(&self) {
    }

    fn i(&self, index: usize) -> (r: T) {
        self.inner[index].dup()
    }
}

impl<'a, T: Modeled, const M: usize, const N: usize> ConstIndex<T, M> for VectorView<'a, T, M, N> {
    open spec fn contents(&self) -> Seq<T::V> {
        self.deep_view()
    }

    open spec fn well_formed(&self) -> bool {
        self.wf()
    }

    proof fn lemma_len(&self) {
    }

    fn i(&self, index: usize) -> (r: T) {
        self.matrix.get(index).get(self.row).dup()
    }
}

impl<'a, T: Modeled, const M: usize, const N: usize> ConstIndex<
    VectorView<'a, T, M, N>,
    N,
> for TransposedMatrixView<'a, T, M, N> {
    open spec fn contents(&self) -> Seq<Seq<T::V>> {
        self.model()
    }

    open spec fn well_formed(&self) -> bool {
        self.wf()
    }

    proof fn lemma_len(&self) {
    }

    fn i(&self, index: usize) -> (r: VectorView<'a, T, M, N>) {
        let v = VectorView { row: index, matrix: self.matrix };
        proof {
            assert(v.deep_view() =~= self.model()[index as int]);
        }
        v
    }
}

/// A read-only iterator over any representation with the indexing
/// capability: it walks the indices `0..N` calling `i`.
pub struct ConstIterator<T: Modeled, C: ConstIndex<T, N>, const N: usize> {
    pub pos: usize,
    pub content: C,
    pub marker: PhantomData<T>,
}

impl<T: Modeled, C: ConstIndex<T, N>, const N: usize> ConstIterator<T, C, N> {
    pub fn new(content: C) -> (r: Self)
        ensures
            r.pos == 0,
            r.content == content,
    {
        ConstIterator { pos: 0, content, marker: PhantomData }
    }

    /// Yields the element at the current position and advances; the
    /// monotonically increasing position means no element is handed out
    /// twice.
    pub fn next(&mut self) -> (r: Option<T>)
        requires
            old(self).content.well_formed(),
        ensures
            final(self).content == old(self).content,
            old(self).pos < N ==> ({
                &&& final(self).pos == old(self).pos + 1
                &&& r matches Some(t) && t.wf() && t.deep_view() == old(self).content.contents()[
                    old(self).pos as int]
            }),
            old(self).pos >= N ==> r == None::<T> && final(self).pos == old(self).pos,
    {
        if self.pos < N {
            let ret = self.content.i(self.pos);
            self.pos = self.pos + 1;
            Some(ret)
        } else {
            None
        }
    }
}

} // verus!
