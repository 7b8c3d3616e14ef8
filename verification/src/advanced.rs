use crate::consts::ConstIndex;
use crate::element::{Element, Modeled};
use crate::types::{Matrix, Vector};
use crate::view::{TransposedMatrixView, VectorView};
use vstd::prelude::*;

verus! {

/// The left-folded sum of the first `k` products `a[i] * b[i]`, starting
/// from the element default (the additive starting value).
pub open spec fn dot_prefix<T: Element>(a: Seq<T::V>, b: Seq<T::V>, k: int) -> T::V
    decreases k,
{
    if k <= 0 {
        T::default_model()
    } else {
        T::add_model(dot_prefix::<T>(a, b, k - 1), T::mul_model(a[k - 1], b[k - 1]))
    }
}

/// The dot product of `a` and `b`: the sum over `i` of `a[i] * b[i]`.
pub open spec fn dot_model<T: Element>(a: Seq<T::V>, b: Seq<T::V>) -> T::V {
    dot_prefix::<T>(a, b, a.len() as int)
}

pub open spec fn dot_prefix_defined<T: Element>(a: Seq<T::V>, b: Seq<T::V>, k: int) -> bool
    decreases k,
{
    k <= 0 || (dot_prefix_defined::<T>(a, b, k - 1) && T::can_mul(a[k - 1], b[k - 1])
        && T::can_add(dot_prefix::<T>(a, b, k - 1), T::mul_model(a[k - 1], b[k - 1])))
}

/// Every product and every partial sum of the dot product is defined.
pub open spec fn dot_defined<T: Element>(a: Seq<T::V>, b: Seq<T::V>) -> bool {
    a.len() == b.len() && dot_prefix_defined::<T>(a, b, a.len() as int)
}

proof fn lemma_dot_prefix_defined_mono<T: Element>(a: Seq<T::V>, b: Seq<T::V>, j: int, k: int)
    requires
        dot_prefix_defined::<T>(a, b, k),
        j <= k,
    ensures
        dot_prefix_defined::<T>(a, b, j),
    decreases k,
{
    if j < k && k > 0 {
        lemma_dot_prefix_defined_mono::<T>(a, b, j, k - 1);
    }
}

impl<T: Element, const N: usize> Vector<T, N> {
    /// Dot product: multiply element-wise and sum ascending.
    pub fn dot(&self, other: &Vector<T, N>) -> (r: T)
        requires
            self.wf(),
            other.wf(),
            dot_defined::<T>(self.deep_view(), other.deep_view()),
        ensures
            r.wf(),
            r.deep_view() == dot_model::<T>(self.deep_view(), other.deep_view()),
    {
        let mut acc = T::default_val();
        for idx in 0..N
            invariant
                self.wf(),
                other.wf(),
                dot_defined::<T>(self.deep_view(), other.deep_view()),
                acc.wf(),
                acc.deep_view() == dot_prefix::<T>(self.deep_view(), other.deep_view(), idx as int),
        {
            proof {
                lemma_dot_prefix_defined_mono::<T>(
                    self.deep_view(),
                    other.deep_view(),
                    idx + 1,
                    N as int,
                );
            }
            let p = self.inner[idx].el_mul(&other.inner[idx]);
            acc = acc.el_add(&p);
        }
        acc
    }
}

impl<'a, T: Element, const M: usize, const N: usize> VectorView<'a, T, M, N> {
    /// Dot product of a row view with an owned vector of the same length.
    pub fn dot(self, other: &Vector<T, M>) -> (r: T)
        requires
            self.wf(),
            other.wf(),
            dot_defined::<T>(self.deep_view(), other.deep_view()),
        ensures
            r.wf(),
            r.deep_view() == dot_model::<T>(self.deep_view(), other.deep_view()),
    {
        let mut acc = T::default_val();
        for idx in 0..M
            invariant
                self.wf(),
                other.wf(),
                dot_defined::<T>(self.deep_view(), other.deep_view()),
                acc.wf(),
                acc.deep_view() == dot_prefix::<T>(self.deep_view(), other.deep_view(), idx as int),
        {
            proof {
                lemma_dot_prefix_defined_mono::<T>(
                    self.deep_view(),
                    other.deep_view(),
                    idx + 1,
                    M as int,
                );
            }
            let s = self.matrix.get(idx).get(self.row);
            let p = s.el_mul(&other.inner[idx]);
            acc = acc.el_add(&p);
        }
        acc
    }
}

/// Column `i` of the column-major matrix `m`, read across the columns:
/// the sequence of `m[k][i]` over `k`.
pub open spec fn col_of<A>(m: Seq<Seq<A>>, i: int) -> Seq<A> {
    Seq::new(m.len() as nat, |k: int| m[k][i])
}

/// Every output cell's dot product is defined: row `i` of `a` (a column of
/// the transpose) against column `j` of `b`, for `i < m` rows and all
/// columns of `b`.
pub open spec fn matmul_defined<T: Element>(
    a: Seq<Seq<T::V>>,
    b: Seq<Seq<T::V>>,
    m: nat,
) -> bool {
    forall|j: int, i: int|
        0 <= j < b.len() && 0 <= i < m ==> dot_defined::<T>(col_of(a, i), b[j])
}

/// The matrix product in column-major form: cell `(i, j)` of the result is
/// the dot product of row `i` of `a` with column `j` of `b`.
pub open spec fn matmul_model<T: Element>(
    a: Seq<Seq<T::V>>,
    b: Seq<Seq<T::V>>,
    m: nat,
) -> Seq<Seq<T::V>> {
    Seq::new(b.len() as nat, |j: int| Seq::new(m, |i: int| dot_model::<T>(col_of(a, i), b[j])))
}

impl<T, const M: usize, const N: usize> Matrix<T, M, N> {
    /// The zero-copy transposed view of this matrix.
    pub fn transpose(&self) -> (r: TransposedMatrixView<'_, T, N, M>)
        ensures
            r.matrix == self,
    {
        TransposedMatrixView { matrix: self }
    }
}

impl<T: Element, const M: usize, const N: usize> Matrix<T, M, N> {
    /// Matrix multiplication, `(M x N) * (N x O)`: obtains the transposed
    /// view of the receiver, so its columns are indexable as rows, and fills
    /// each output cell with a row-by-column dot product.
    pub fn matrix_multiply<const O: usize>(&self, other: &Matrix<T, N, O>) -> (r: Matrix<T, M, O>)
        requires
            self.wf(),
            other.wf(),
            matmul_defined::<T>(self.deep_view(), other.deep_view(), M as nat),
        ensures
            r.wf(),
            r.deep_view() == matmul_model::<T>(self.deep_view(), other.deep_view(), M as nat),
    {
        let sel: TransposedMatrixView<T, N, M> = self.transpose();
        let mut cols: Vec<Vector<T, M>> = Vec::new();
        for j in 0..O
            invariant
                self.wf(),
                other.wf(),
                sel.matrix == self,
                matmul_defined::<T>(self.deep_view(), other.deep_view(), M as nat),
                cols@.len() == j,
                forall|jj: int|
                    0 <= jj < j ==> (#[trigger] cols@[jj]).wf() && cols@[jj].deep_view()
                        == matmul_model::<T>(self.deep_view(), other.deep_view(), M as nat)[jj],
        {
            let o: &Vector<T, N> = &other.inner[j];
            let mut col: Vec<T> = Vec::new();
            for i in 0..M
                invariant
                    self.wf(),
                    other.wf(),
                    sel.matrix == self,
                    matmul_defined::<T>(self.deep_view(), other.deep_view(), M as nat),
                    j < O,
                    o == &other.inner@[j as int],
                    col@.len() == i,
                    forall|ii: int|
                        0 <= ii < i ==> (#[trigger] col@[ii]).wf() && col@[ii].deep_view()
                            == dot_model::<T>(
                            col_of(self.deep_view(), ii),
                            other.deep_view()[j as int],
                        ),
            {
                let s: VectorView<T, N, M> = sel.i(i);
                proof {
                    assert(s.deep_view() =~= col_of(self.deep_view(), i as int));
                    assert(o.deep_view() == other.deep_view()[j as int]);
                }
                let x = s.dot(o);
                col.push(x);
            }
            let v = Vector { inner: col };
            proof {
                assert(v.deep_view() =~= matmul_model::<T>(
                    self.deep_view(),
                    other.deep_view(),
                    M as nat,
                )[j as int]);
            }
            cols.push(v);
        }
        let r: Matrix<T, M, O> = Vector { inner: cols };
        proof {
            assert(r.deep_view() =~= matmul_model::<T>(
                self.deep_view(),
                other.deep_view(),
                M as nat,
            ));
        }
        r
    }
}

} // verus!
