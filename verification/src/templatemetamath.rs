use crate::base::{add_seq, add_seq_defined};
use crate::consts::ConstIndex;
use crate::element::{Element, Modeled};
use core::marker::PhantomData;
use vstd::prelude::*;

verus! {

/// A lazy element-wise sum: a pair of indexable representations that is
/// itself indexable, computing `l[i] + r[i]` on each access. Chained sums
/// therefore evaluate per element of the result instead of materializing
/// each intermediate vector.
pub struct VAdd<T: Element, L: ConstIndex<T, N>, R: ConstIndex<T, N>, const N: usize> {
    pub l: L,
    pub r: R,
    pub m: PhantomData<T>,
}

impl<T: Element, L: ConstIndex<T, N>, R: ConstIndex<T, N>, const N: usize> VAdd<T, L, R, N> {
    pub fn new(l: L, r: R) -> (v: Self)
        ensures
            v.l == l,
            v.r == r,
    {
        VAdd { l, r, m: PhantomData }
    }
}

impl<T: Element, L: ConstIndex<T, N>, R: ConstIndex<T, N>, const N: usize> ConstIndex<
    T,
    N,
> for VAdd<T, L, R, N> {
    open spec fn contents(&self) -> Seq<T::V> {
        add_seq::<T>(self.l.contents(), self.r.contents())
    }

    open spec fn well_formed(&self) -> bool {
        &&& self.l.well_formed()
        &&& self.r.well_formed()
        &&& add_seq_defined::<T>(self.l.contents(), self.r.contents())
    }

    proof fn lemma_len(&self) {
        self.l.lemma_len();
    }

    fn i(&self, index: usize) -> (r: T) {
        proof {
            self.l.lemma_len();
        }
        let a = self.l.i(index);
        let b = self.r.i(index);
        a.el_add(&b)
    }
}

} // verus!
