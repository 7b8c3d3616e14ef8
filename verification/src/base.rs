use crate::consts::ConstIndex;
use crate::element::{Element, Modeled};
use crate::types::Vector;
use vstd::prelude::*;

verus! {

pub open spec fn add_seq_defined<T: Element>(a: Seq<T::V>, b: Seq<T::V>) -> bool {
    a.len() == b.len() && forall|i: int| 0 <= i < a.len() ==> T::can_add(a[i], b[i])
}

pub open spec fn add_seq<T: Element>(a: Seq<T::V>, b: Seq<T::V>) -> Seq<T::V> {
    Seq::new(a.len() as nat, |i: int| T::add_model(a[i], b[i]))
}

pub open spec fn sub_seq_defined<T: Element>(a: Seq<T::V>, b: Seq<T::V>) -> bool {
    a.len() == b.len() && forall|i: int| 0 <= i < a.len() ==> T::can_sub(a[i], b[i])
}

pub open spec fn sub_seq<T: Element>(a: Seq<T::V>, b: Seq<T::V>) -> Seq<T::V> {
    Seq::new(a.len() as nat, |i: int| T::sub_model(a[i], b[i]))
}

pub open spec fn mul_seq_defined<T: Element>(a: Seq<T::V>, b: Seq<T::V>) -> bool {
    a.len() == b.len() && forall|i: int| 0 <= i < a.len() ==> T::can_mul(a[i], b[i])
}

pub open spec fn mul_seq<T: Element>(a: Seq<T::V>, b: Seq<T::V>) -> Seq<T::V> {
    Seq::new(a.len() as nat, |i: int| T::mul_model(a[i], b[i]))
}

pub open spec fn div_seq_defined<T: Element>(a: Seq<T::V>, b: Seq<T::V>) -> bool {
    a.len() == b.len() && forall|i: int| 0 <= i < a.len() ==> T::can_div(a[i], b[i])
}

pub open spec fn div_seq<T: Element>(a: Seq<T::V>, b: Seq<T::V>) -> Seq<T::V> {
    Seq::new(a.len() as nat, |i: int| T::div_model(a[i], b[i]))
}

impl<T: Element, const N: usize> Vector<T, N> {
    /// Element-wise sum: `r[i] == self[i] + other[i]` for every `i < N`, for
    /// any right-hand representation with the indexing capability.
    pub fn add<B: ConstIndex<T, N>>(&self, other: &B) -> (r: Vector<T, N>)
        requires
            self.wf(),
            other.well_formed(),
            add_seq_defined::<T>(self.deep_view(), other.contents()),
        ensures
            r.wf(),
            r.deep_view() == add_seq::<T>(self.deep_view(), other.contents()),
    {
        proof {
            other.lemma_len();
        }
        let mut out: Vec<T> = Vec::new();
        for idx in 0..N
            invariant
                self.wf(),
                other.well_formed(),
                other.contents().len() == N,
                add_seq_defined::<T>(self.deep_view(), other.contents()),
                out@.len() == idx,
                forall|j: int|
                    0 <= j < idx ==> (#[trigger] out@[j]).wf() && out@[j].deep_view()
                        == T::add_model(self.deep_view()[j], other.contents()[j]),
        {
            let x = other.i(idx);
            out.push(self.inner[idx].el_add(&x));
        }
        let r = Vector { inner: out };
        proof {
            assert(r.deep_view() =~= add_seq::<T>(self.deep_view(), other.contents()));
        }
        r
    }

    /// Element-wise difference: `r[i] == self[i] - other[i]` for every `i < N`.
    pub fn sub<B: ConstIndex<T, N>>(&self, other: &B) -> (r: Vector<T, N>)
        requires
            self.wf(),
            other.well_formed(),
            sub_seq_defined::<T>(self.deep_view(), other.contents()),
        ensures
            r.wf(),
            r.deep_view() == sub_seq::<T>(self.deep_view(), other.contents()),
    {
        proof {
            other.lemma_len();
        }
        let mut out: Vec<T> = Vec::new();
        for idx in 0..N
            invariant
                self.wf(),
                other.well_formed(),
                other.contents().len() == N,
                sub_seq_defined::<T>(self.deep_view(), other.contents()),
                out@.len() == idx,
                forall|j: int|
                    0 <= j < idx ==> (#[trigger] out@[j]).wf() && out@[j].deep_view()
                        == T::sub_model(self.deep_view()[j], other.contents()[j]),
        {
            let x = other.i(idx);
            out.push(self.inner[idx].el_sub(&x));
        }
        let r = Vector { inner: out };
        proof {
            assert(r.deep_view() =~= sub_seq::<T>(self.deep_view(), other.contents()));
        }
        r
    }

    /// Element-wise product: `r[i] == self[i] * other[i]` for every `i < N`.
    pub fn mul<B: ConstIndex<T, N>>(&self, other: &B) -> (r: Vector<T, N>)
        requires
            self.wf(),
            other.well_formed(),
            mul_seq_defined::<T>(self.deep_view(), other.contents()),
        ensures
            r.wf(),
            r.deep_view() == mul_seq::<T>(self.deep_view(), other.contents()),
    {
        proof {
            other.lemma_len();
        }
        let mut out: Vec<T> = Vec::new();
        for idx in 0..N
            invariant
                self.wf(),
                other.well_formed(),
                other.contents().len() == N,
                mul_seq_defined::<T>(self.deep_view(), other.contents()),
                out@.len() == idx,
                forall|j: int|
                    0 <= j < idx ==> (#[trigger] out@[j]).wf() && out@[j].deep_view()
                        == T::mul_model(self.deep_view()[j], other.contents()[j]),
        {
            let x = other.i(idx);
            out.push(self.inner[idx].el_mul(&x));
        }
        let r = Vector { inner: out };
        proof {
            assert(r.deep_view() =~= mul_seq::<T>(self.deep_view(), other.contents()));
        }
        r
    }

    /// Element-wise quotient: `r[i] == self[i] / other[i]` for every `i < N`.
    pub fn div<B: ConstIndex<T, N>>(&self, other: &B) -> (r: Vector<T, N>)
        requires
            self.wf(),
            other.well_formed(),
            div_seq_defined::<T>(self.deep_view(), other.contents()),
        ensures
            r.wf(),
            r.deep_view() == div_seq::<T>(self.deep_view(), other.contents()),
    {
        proof {
            other.lemma_len();
        }
        let mut out: Vec<T> = Vec::new();
        for idx in 0..N
            invariant
                self.wf(),
                other.well_formed(),
                other.contents().len() == N,
                div_seq_defined::<T>(self.deep_view(), other.contents()),
                out@.len() == idx,
                forall|j: int|
                    0 <= j < idx ==> (#[trigger] out@[j]).wf() && out@[j].deep_view()
                        == T::div_model(self.deep_view()[j], other.contents()[j]),
        {
            let x = other.i(idx);
            out.push(self.inner[idx].el_div(&x));
        }
        let r = Vector { inner: out };
        proof {
            assert(r.deep_view() =~= div_seq::<T>(self.deep_view(), other.contents()));
        }
        r
    }

    /// In-place element-wise sum; mutates only the receiver.
    pub fn add_assign<B: ConstIndex<T, N>>(&mut self, other: &B)
        requires
            old(self).wf(),
            other.well_formed(),
            add_seq_defined::<T>(old(self).deep_view(), other.contents()),
        ensures
            final(self).wf(),
            final(self).deep_view() == add_seq::<T>(old(self).deep_view(), other.contents()),
    {
        proof {
            other.lemma_len();
        }
        for idx in 0..N
            invariant
                other.well_formed(),
                other.contents().len() == N,
                add_seq_defined::<T>(old(self).deep_view(), other.contents()),
                self.inner@.len() == N,
                forall|j: int| idx <= j < N ==> self.inner@[j] == old(self).inner@[j],
                forall|j: int|
                    0 <= j < idx ==> (#[trigger] self.inner@[j]).wf() && self.inner@[j].deep_view()
                        == T::add_model(old(self).deep_view()[j], other.contents()[j]),
                forall|j: int| 0 <= j < N ==> (#[trigger] old(self).inner@[j]).wf(),
        {
            let x = other.i(idx);
            let nv = self.inner[idx].el_add(&x);
            self.inner[idx] = nv;
        }
        proof {
            assert(self.deep_view() =~= add_seq::<T>(old(self).deep_view(), other.contents()));
        }
    }

    /// In-place element-wise difference; mutates only the receiver.
    pub fn sub_assign<B: ConstIndex<T, N>>(&mut self, other: &B)
        requires
            old(self).wf(),
            other.well_formed(),
            sub_seq_defined::<T>(old(self).deep_view(), other.contents()),
        ensures
            final(self).wf(),
            final(self).deep_view() == sub_seq::<T>(old(self).deep_view(), other.contents()),
    {
        proof {
            other.lemma_len();
        }
        for idx in 0..N
            invariant
                other.well_formed(),
                other.contents().len() == N,
                sub_seq_defined::<T>(old(self).deep_view(), other.contents()),
                self.inner@.len() == N,
                forall|j: int| idx <= j < N ==> self.inner@[j] == old(self).inner@[j],
                forall|j: int|
                    0 <= j < idx ==> (#[trigger] self.inner@[j]).wf() && self.inner@[j].deep_view()
                        == T::sub_model(old(self).deep_view()[j], other.contents()[j]),
                forall|j: int| 0 <= j < N ==> (#[trigger] old(self).inner@[j]).wf(),
        {
            let x = other.i(idx);
            let nv = self.inner[idx].el_sub(&x);
            self.inner[idx] = nv;
        }
        proof {
            assert(self.deep_view() =~= sub_seq::<T>(old(self).deep_view(), other.contents()));
        }
    }

    /// In-place element-wise product; mutates only the receiver.
    pub fn mul_assign<B: ConstIndex<T, N>>(&mut self, other: &B)
        requires
            old(self).wf(),
            other.well_formed(),
            mul_seq_defined::<T>(old(self).deep_view(), other.contents()),
        ensures
            final(self).wf(),
            final(self).deep_view() == mul_seq::<T>(old(self).deep_view(), other.contents()),
    {
        proof {
            other.lemma_len();
        }
        for idx in 0..N
            invariant
                other.well_formed(),
                other.contents().len() == N,
                mul_seq_defined::<T>(old(self).deep_view(), other.contents()),
                self.inner@.len() == N,
                forall|j: int| idx <= j < N ==> self.inner@[j] == old(self).inner@[j],
                forall|j: int|
                    0 <= j < idx ==> (#[trigger] self.inner@[j]).wf() && self.inner@[j].deep_view()
                        == T::mul_model(old(self).deep_view()[j], other.contents()[j]),
                forall|j: int| 0 <= j < N ==> (#[trigger] old(self).inner@[j]).wf(),
        {
            let x = other.i(idx);
            let nv = self.inner[idx].el_mul(&x);
            self.inner[idx] = nv;
        }
        proof {
            assert(self.deep_view() =~= mul_seq::<T>(old(self).deep_view(), other.contents()));
        }
    }

    /// In-place element-wise quotient; mutates only the receiver.
    pub fn div_assign<B: ConstIndex<T, N>>(&mut self, other: &B)
        requires
            old(self).wf(),
            other.well_formed(),
            div_seq_defined::<T>(old(self).deep_view(), other.contents()),
        ensures
            final(self).wf(),
            final(self).deep_view() == div_seq::<T>(old(self).deep_view(), other.contents()),
    {
        proof {
            other.lemma_len();
        }
        for idx in 0..N
            invariant
                other.well_formed(),
                other.contents().len() == N,
                div_seq_defined::<T>(old(self).deep_view(), other.contents()),
                self.inner@.len() == N,
                forall|j: int| idx <= j < N ==> self.inner@[j] == old(self).inner@[j],
                forall|j: int|
                    0 <= j < idx ==> (#[trigger] self.inner@[j]).wf() && self.inner@[j].deep_view()
                        == T::div_model(old(self).deep_view()[j], other.contents()[j]),
                forall|j: int| 0 <= j < N ==> (#[trigger] old(self).inner@[j]).wf(),
        {
            let x = other.i(idx);
            let nv = self.inner[idx].el_div(&x);
            self.inner[idx] = nv;
        }
        proof {
            assert(self.deep_view() =~= div_seq::<T>(old(self).deep_view(), other.contents()));
        }
    }
}

/// Compound assignment agrees with the plain operation: a copy of `a`
/// (same model `c`) summed in place with `b` has the same model as the sum
/// of `a` and `b`.
pub proof fn lemma_compound_assignment_equiv<T: Element>(
    a: Seq<T::V>,
    c: Seq<T::V>,
    b: Seq<T::V>,
    sum: Seq<T::V>,
    updated: Seq<T::V>,
)
    requires
        c == a,
        sum == add_seq::<T>(a, b),
        updated == add_seq::<T>(c, b),
    ensures
        sum == updated,
{
}

/// A vector over an element type is itself an element: the operations act
/// slot by slot, so vectors of vectors (matrices, tensors) inherit all four
/// operations at every nesting depth.
impl<T: Element, const N: usize> Element for Vector<T, N> {
    open spec fn can_add(a: Seq<T::V>, b: Seq<T::V>) -> bool {
        add_seq_defined::<T>(a, b)
    }

    open spec fn add_model(a: Seq<T::V>, b: Seq<T::V>) -> Seq<T::V> {
        add_seq::<T>(a, b)
    }

    open spec fn can_sub(a: Seq<T::V>, b: Seq<T::V>) -> bool {
        sub_seq_defined::<T>(a, b)
    }

    open spec fn sub_model(a: Seq<T::V>, b: Seq<T::V>) -> Seq<T::V> {
        sub_seq::<T>(a, b)
    }

    open spec fn can_mul(a: Seq<T::V>, b: Seq<T::V>) -> bool {
        mul_seq_defined::<T>(a, b)
    }

    open spec fn mul_model(a: Seq<T::V>, b: Seq<T::V>) -> Seq<T::V> {
        mul_seq::<T>(a, b)
    }

    open spec fn can_div(a: Seq<T::V>, b: Seq<T::V>) -> bool {
        div_seq_defined::<T>(a, b)
    }

    open spec fn div_model(a: Seq<T::V>, b: Seq<T::V>) -> Seq<T::V> {
        div_seq::<T>(a, b)
    }

    open spec fn default_model() -> Seq<T::V> {
        Seq::new(N as nat, |i: int| T::default_model())
    }

    fn el_add(&self, other: &Self) -> (r: Self) {
        self.add(other)
    }

    fn el_sub(&self, other: &Self) -> (r: Self) {
        self.sub(other)
    }

    fn el_mul(&self, other: &Self) -> (r: Self) {
        self.mul(other)
    }

    fn el_div(&self, other: &Self) -> (r: Self) {
        self.div(other)
    }

    fn default_val() -> (r: Self) {
        Vector::<T, N>::default()
    }
}

} // verus!
