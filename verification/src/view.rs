use crate::element::Modeled;
use crate::types::{Matrix, Vector};
use vstd::prelude::*;

verus! {

/// The transpose of the column sequences `m`, read back as `rows` sequences:
/// entry `r` of every column becomes row `r`.
pub open spec fn transpose_of<A>(m: Seq<Seq<A>>, rows: nat) -> Seq<Seq<A>> {
    Seq::new(rows, |r: int| Seq::new(m.len() as nat, |i: int| m[i][r]))
}

/// Transposing twice gives the original matrix back, for any rectangular
/// shape: `cols` columns of `rows` entries each.
pub proof fn lemma_transpose_involution<A>(m: Seq<Seq<A>>, rows: nat, cols: nat)
    requires
        m.len() == cols,
        forall|i: int| 0 <= i < m.len() ==> (#[trigger] m[i]).len() == rows,
    ensures
        transpose_of(transpose_of(m, rows), cols) == m,
{
    let t = transpose_of(m, rows);
    let tt = transpose_of(t, cols);
    assert forall|i: int| 0 <= i < cols implies #[trigger] tt[i] =~= m[i] by {}
    assert(tt =~= m);
}

/// Transposing a well-formed matrix twice gives the original matrix back:
/// the instance of the involution for the matrix type's own model.
pub proof fn lemma_matrix_transpose_involution<T: Modeled, const M: usize, const N: usize>(
    m: Matrix<T, M, N>,
)
    requires
        m.wf(),
    ensures
        transpose_of(transpose_of(m.deep_view(), M as nat), N as nat) == m.deep_view(),
{
    assert forall|i: int| 0 <= i < m.deep_view().len() implies (#[trigger] m.deep_view()[i]).len()
        == M by {
        assert(m.inner@[i].wf());
    }
    lemma_transpose_involution(m.deep_view(), M as nat, N as nat);
}

/// A non-owning view of one logical row of a borrowed matrix: entry `row` of
/// each of the `M` columns, in column order. It carries no data of its own
/// and is bounded by the borrow of the matrix.
pub struct VectorView<'a, T, const M: usize, const N: usize> {
    pub row: usize,
    pub matrix: &'a Matrix<T, N, M>,
}

impl<'a, T: DeepView, const M: usize, const N: usize> DeepView for VectorView<'a, T, M, N> {
    type V = Seq<T::V>;

    open spec fn deep_view(&self) -> Seq<T::V> {
        Seq::new(M as nat, |i: int| self.matrix.deep_view()[i][self.row as int])
    }
}

impl<'a, T: Modeled, const M: usize, const N: usize> Modeled for VectorView<'a, T, M, N> {
    open spec fn wf(&self) -> bool {
        &&& self.matrix.wf()
        &&& self.row < N
    }

    fn dup(&self) -> (r: Self) {
        VectorView { row: self.row, matrix: self.matrix }
    }

    fn el_eq(&self, other: &Self) -> (r: bool) {
        let mut idx: usize = 0;
        while idx < M
            invariant
                self.wf(),
                other.wf(),
                idx <= M,
                forall|j: int| 0 <= j < idx ==> self.deep_view()[j] == other.deep_view()[j],
            decreases M - idx,
        {
            let a = self.matrix.get(idx).get(self.row);
            let b = other.matrix.get(idx).get(other.row);
            if !a.el_eq(b) {
                proof {
                    assert(self.deep_view()[idx as int] != other.deep_view()[idx as int]);
                }
                return false;
            }
            idx += 1;
        }
        proof {
            assert(self.deep_view() =~= other.deep_view());
        }
        true
    }
}

/// A non-owning view of a whole borrowed matrix that reads columns as rows,
/// without copying. `materialize` is the only way back to an owned value.
pub struct TransposedMatrixView<'a, T, const M: usize, const N: usize> {
    pub matrix: &'a Matrix<T, N, M>,
}

impl<'a, T: Modeled, const M: usize, const N: usize> TransposedMatrixView<'a, T, M, N> {
    pub open spec fn wf(&self) -> bool {
        self.matrix.wf()
    }

    /// What the view reads as: the transpose of the borrowed matrix.
    pub open spec fn model(&self) -> Seq<Seq<T::V>> {
        transpose_of(self.matrix.deep_view(), N as nat)
    }

    /// Copies the viewed elements, each exactly once, into a freshly owned
    /// matrix with the transposed dimensions.
    pub fn materialize(self) -> (r: Matrix<T, M, N>)
        requires
            self.wf(),
        ensures
            r.wf(),
            r.deep_view() == self.model(),
    {
        let mut cols: Vec<Vector<T, M>> = Vec::new();
        for j in 0..N
            invariant
                self.wf(),
                cols@.len() == j,
                forall|jj: int|
                    0 <= jj < j ==> (#[trigger] cols@[jj]).wf() && cols@[jj].deep_view()
                        == self.model()[jj],
        {
            let mut col: Vec<T> = Vec::new();
            for i in 0..M
                invariant
                    self.wf(),
                    j < N,
                    col@.len() == i,
                    forall|ii: int|
                        0 <= ii < i ==> (#[trigger] col@[ii]).wf() && col@[ii].deep_view()
                            == self.matrix.deep_view()[ii][j as int],
            {
                col.push(self.matrix.get(i).get(j).dup());
            }
            let v = Vector { inner: col };
            proof {
                assert(v.deep_view() =~= self.model()[j as int]);
            }
            cols.push(v);
        }
        let r: Matrix<T, M, N> = Vector { inner: cols };
        proof {
            assert(r.deep_view() =~= self.model());
        }
        r
    }
}

} // verus!
