use crate::element::Modeled;
use crate::types::{Matrix, Vector};
use vstd::prelude::*;

verus! {

/// The four little-endian bytes of `x`.
pub open spec fn u32_le_bytes(x: u32) -> Seq<u8> {
    seq![
        (x & 0xff) as u8,
        ((x >> 8) & 0xff) as u8,
        ((x >> 16) & 0xff) as u8,
        ((x >> 24) & 0xff) as u8,
    ]
}

/// The value of four bytes read little-endian.
pub open spec fn u32_from_le(b0: u8, b1: u8, b2: u8, b3: u8) -> u32 {
    (b0 as u32) | ((b1 as u32) << 8) | ((b2 as u32) << 16) | ((b3 as u32) << 24)
}

/// Reading back the four little-endian bytes of a value gives the value.
pub proof fn lemma_u32_le_round_trip(x: u32)
    ensures
        u32_from_le(
            (x & 0xff) as u8,
            ((x >> 8) & 0xff) as u8,
            ((x >> 16) & 0xff) as u8,
            ((x >> 24) & 0xff) as u8,
        ) == x,
{
    assert(((x & 0xff) as u8) as u32 | ((((x >> 8) & 0xff) as u8) as u32) << 8 | ((((x >> 16)
        & 0xff) as u8) as u32) << 16 | ((((x >> 24) & 0xff) as u8) as u32) << 24 == x)
        by (bit_vector);
}

/// Writing the value of four little-endian bytes gives those bytes back.
pub proof fn lemma_u32_from_le_bytes(b0: u8, b1: u8, b2: u8, b3: u8)
    ensures
        u32_le_bytes(u32_from_le(b0, b1, b2, b3)) == seq![b0, b1, b2, b3],
{
    let x = u32_from_le(b0, b1, b2, b3);
    assert((((b0 as u32) | ((b1 as u32) << 8) | ((b2 as u32) << 16) | ((b3 as u32) << 24)) & 0xff)
        as u8 == b0) by (bit_vector);
    assert(((((b0 as u32) | ((b1 as u32) << 8) | ((b2 as u32) << 16) | ((b3 as u32) << 24)) >> 8)
        & 0xff) as u8 == b1) by (bit_vector);
    assert(((((b0 as u32) | ((b1 as u32) << 8) | ((b2 as u32) << 16) | ((b3 as u32) << 24)) >> 16)
        & 0xff) as u8 == b2) by (bit_vector);
    assert(((((b0 as u32) | ((b1 as u32) << 8) | ((b2 as u32) << 16) | ((b3 as u32) << 24)) >> 24)
        & 0xff) as u8 == b3) by (bit_vector);
    assert(u32_le_bytes(x) =~= seq![b0, b1, b2, b3]);
}

/// Relies on bincode::serialize: with its fixed-width integer encoding a
/// `u32` is written as exactly its four bytes in little-endian order, and
/// writing into a fresh byte vector cannot fail.
#[verifier::external_body]
fn encode_u32(x: &u32) -> (r: Vec<u8>)
    ensures
        r@ == u32_le_bytes(*x),
{
    match bincode::serialize(x) {
        Ok(v) => v,
        Err(_) => Vec::new(),
    }
}

/// Relies on bincode::deserialize: with its fixed-width integer encoding a
/// `u32` is read back from four bytes in little-endian order, and four
/// bytes are always enough, so the read succeeds.
#[verifier::external_body]
fn decode_u32(b0: u8, b1: u8, b2: u8, b3: u8) -> (r: Option<u32>)
    ensures
        r == Some(u32_from_le(b0, b1, b2, b3)),
{
    let buf = [b0, b1, b2, b3];
    match bincode::deserialize::<u32>(&buf) {
        Ok(v) => Some(v),
        Err(_) => None,
    }
}

/// The flat encoding of a sequence of values: the concatenation of their
/// four-byte encodings, with no length prefix.
pub open spec fn encoded_u32s(s: Seq<u32>) -> Seq<u8>
    decreases s.len(),
{
    if s.len() == 0 {
        Seq::empty()
    } else {
        u32_le_bytes(s[0]) + encoded_u32s(s.skip(1))
    }
}

pub proof fn lemma_encoded_u32s_len(s: Seq<u32>)
    ensures
        encoded_u32s(s).len() == 4 * s.len(),
    decreases s.len(),
{
    if s.len() > 0 {
        lemma_encoded_u32s_len(s.skip(1));
    }
}

pub proof fn lemma_encoded_u32s_push(s: Seq<u32>, x: u32)
    ensures
        encoded_u32s(s.push(x)) == encoded_u32s(s) + u32_le_bytes(x),
    decreases s.len(),
{
    if s.len() == 0 {
        reveal_with_fuel(encoded_u32s, 2);
        assert(s.push(x).skip(1) =~= Seq::<u32>::empty());
        assert(encoded_u32s(s.push(x)) =~= encoded_u32s(s) + u32_le_bytes(x));
    } else {
        assert(s.push(x).skip(1) =~= s.skip(1).push(x));
        lemma_encoded_u32s_push(s.skip(1), x);
        assert(encoded_u32s(s.push(x)) =~= encoded_u32s(s) + u32_le_bytes(x));
    }
}

/// The encoding is injective: equally long sequences with the same
/// encoding are the same sequence, so decoding after encoding cannot give
/// anything but the original.
pub proof fn lemma_encoded_u32s_injective(s1: Seq<u32>, s2: Seq<u32>)
    requires
        s1.len() == s2.len(),
        encoded_u32s(s1) == encoded_u32s(s2),
    ensures
        s1 == s2,
    decreases s1.len(),
{
    if s1.len() > 0 {
        lemma_encoded_u32s_len(s1.skip(1));
        lemma_encoded_u32s_len(s2.skip(1));
        let e1 = encoded_u32s(s1);
        assert(u32_le_bytes(s1[0])[0] == e1[0] && u32_le_bytes(s1[0])[1] == e1[1] && u32_le_bytes(
            s1[0],
        )[2] == e1[2] && u32_le_bytes(s1[0])[3] == e1[3]);
        assert(u32_le_bytes(s2[0])[0] == e1[0] && u32_le_bytes(s2[0])[1] == e1[1] && u32_le_bytes(
            s2[0],
        )[2] == e1[2] && u32_le_bytes(s2[0])[3] == e1[3]);
        lemma_u32_le_round_trip(s1[0]);
        lemma_u32_le_round_trip(s2[0]);
        assert(s1[0] == s2[0]);
        assert(encoded_u32s(s1.skip(1)) =~= encoded_u32s(s2.skip(1))) by {
            assert forall|i: int| 0 <= i < encoded_u32s(s1.skip(1)).len() implies encoded_u32s(
                s1.skip(1),
            )[i] == encoded_u32s(s2.skip(1))[i] by {
                assert(encoded_u32s(s1.skip(1))[i] == e1[i + 4]);
                assert(encoded_u32s(s2.skip(1))[i] == e1[i + 4]);
            }
        }
        lemma_encoded_u32s_injective(s1.skip(1), s2.skip(1));
        assert forall|i: int| 0 <= i < s1.len() implies s1[i] == s2[i] by {
            if i > 0 {
                assert(s1.skip(1)[i - 1] == s2.skip(1)[i - 1]);
            }
        }
        assert(s1 =~= s2);
    } else {
        assert(s1 =~= s2);
    }
}

impl<const N: usize> Vector<u32, N> {
    /// Encodes the vector as exactly `N` four-byte values, in index order,
    /// with no length prefix: the compile-time `N` fixes the length on both
    /// ends.
    pub fn serialize(&self) -> (r: Vec<u8>)
        requires
            self.wf(),
        ensures
            r@ == encoded_u32s(self@),
    {
        let mut out: Vec<u8> = Vec::new();
        for idx in 0..N
            invariant
                self.wf(),
                out@ == encoded_u32s(self@.take(idx as int)),
        {
            let e = encode_u32(&self.inner[idx]);
            out.push(e[0]);
            out.push(e[1]);
            out.push(e[2]);
            out.push(e[3]);
            proof {
                assert(self@.take(idx + 1) =~= self@.take(idx as int).push(self@[idx as int]));
                lemma_encoded_u32s_push(self@.take(idx as int), self@[idx as int]);
                assert(out@ =~= encoded_u32s(self@.take(idx + 1)));
            }
        }
        proof {
            assert(self@.take(N as int) =~= self@);
        }
        out
    }

    /// Decodes a buffer of exactly `N` four-byte values; a buffer with
    /// fewer or more bytes is rejected, mirroring the construction arity
    /// check.
    pub fn deserialize(bytes: &Vec<u8>) -> (r: Option<Vector<u32, N>>)
        ensures
            r is Some <==> bytes@.len() == 4 * N,
            match r {
                Some(v) => v.wf() && bytes@ == encoded_u32s(v@),
                None => true,
            },
    {
        if bytes.len() % 4 != 0 || bytes.len() / 4 != N {
            return None;
        }
        let mut out: Vec<u32> = Vec::new();
        for idx in 0..N
            invariant
                bytes@.len() == 4 * N,
                4 * N <= usize::MAX,
                out@.len() == idx,
                encoded_u32s(out@) == bytes@.take(4 * idx as int),
        {
            let b0 = bytes[4 * idx];
            let b1 = bytes[4 * idx + 1];
            let b2 = bytes[4 * idx + 2];
            let b3 = bytes[4 * idx + 3];
            let x = decode_u32(b0, b1, b2, b3).unwrap();
            proof {
                lemma_encoded_u32s_push(out@, x);
                lemma_u32_from_le_bytes(b0, b1, b2, b3);
            }
            out.push(x);
            proof {
                assert(encoded_u32s(out@) =~= bytes@.take(4 * (idx + 1)));
            }
        }
        let v = Vector { inner: out };
        proof {
            assert(bytes@.take(4 * N as int) =~= bytes@);
        }
        Some(v)
    }
}

/// The flat encoding of a matrix: the concatenation of the encodings of
/// its columns, in column order, with no length prefix.
pub open spec fn encoded_matrix(m: Seq<Seq<u32>>) -> Seq<u8>
    decreases m.len(),
{
    if m.len() == 0 {
        Seq::empty()
    } else {
        encoded_u32s(m[0]) + encoded_matrix(m.skip(1))
    }
}

pub proof fn lemma_encoded_matrix_push(m: Seq<Seq<u32>>, c: Seq<u32>)
    ensures
        encoded_matrix(m.push(c)) == encoded_matrix(m) + encoded_u32s(c),
    decreases m.len(),
{
    if m.len() == 0 {
        reveal_with_fuel(encoded_matrix, 2);
        assert(m.push(c).skip(1) =~= Seq::<Seq<u32>>::empty());
        assert(encoded_matrix(m.push(c)) =~= encoded_matrix(m) + encoded_u32s(c));
    } else {
        assert(m.push(c).skip(1) =~= m.skip(1).push(c));
        lemma_encoded_matrix_push(m.skip(1), c);
        assert(encoded_matrix(m.push(c)) =~= encoded_matrix(m) + encoded_u32s(c));
    }
}

/// The matrix encoding is injective: matrices of the same shape with the
/// same encoding are the same matrix, so decoding an encoded matrix cannot
/// give anything but the original.
pub proof fn lemma_encoded_matrix_injective(m1: Seq<Seq<u32>>, m2: Seq<Seq<u32>>, w: nat)
    requires
        m1.len() == m2.len(),
        forall|j: int| 0 <= j < m1.len() ==> (#[trigger] m1[j]).len() == w,
        forall|j: int| 0 <= j < m2.len() ==> (#[trigger] m2[j]).len() == w,
        encoded_matrix(m1) == encoded_matrix(m2),
    ensures
        m1 == m2,
    decreases m1.len(),
{
    if m1.len() > 0 {
        lemma_encoded_u32s_len(m1[0]);
        lemma_encoded_u32s_len(m2[0]);
        let e = encoded_matrix(m1);
        assert(encoded_u32s(m1[0]) =~= encoded_u32s(m2[0])) by {
            assert forall|i: int| 0 <= i < 4 * w implies encoded_u32s(m1[0])[i] == encoded_u32s(
                m2[0],
            )[i] by {
                assert(encoded_u32s(m1[0])[i] == e[i]);
                assert(encoded_u32s(m2[0])[i] == e[i]);
            }
        }
        lemma_encoded_u32s_injective(m1[0], m2[0]);
        let t1 = encoded_matrix(m1.skip(1));
        let t2 = encoded_matrix(m2.skip(1));
        assert(encoded_matrix(m1) == encoded_u32s(m1[0]) + t1);
        assert(encoded_matrix(m2) == encoded_u32s(m2[0]) + t2);
        assert(t1.len() == t2.len());
        assert(t1 =~= t2) by {
            assert forall|i: int| 0 <= i < t1.len() implies t1[i] == t2[i] by {
                assert(t1[i] == e[i + 4 * w]);
                assert(t2[i] == e[i + 4 * w]);
            }
        }
        assert forall|j: int| 0 <= j < m1.skip(1).len() implies (#[trigger] m1.skip(1)[j]).len()
            == w && m2.skip(1)[j].len() == w by {
            assert(m1.skip(1)[j] == m1[j + 1]);
            assert(m2.skip(1)[j] == m2[j + 1]);
        }
        lemma_encoded_matrix_injective(m1.skip(1), m2.skip(1), w);
        assert forall|j: int| 0 <= j < m1.len() implies m1[j] == m2[j] by {
            if j > 0 {
                assert(m1.skip(1)[j - 1] == m2.skip(1)[j - 1]);
            }
        }
        assert(m1 =~= m2);
    } else {
        assert(m1 =~= m2);
    }
}

/// Two well-formed matrices with the same encoding have the same model:
/// encoding then decoding reproduces the matrix, and nothing else.
pub proof fn lemma_matrix_codec_unambiguous<const M: usize, const N: usize>(
    a: Matrix<u32, M, N>,
    b: Matrix<u32, M, N>,
)
    requires
        a.wf(),
        b.wf(),
        encoded_matrix(a.deep_view()) == encoded_matrix(b.deep_view()),
    ensures
        a.deep_view() == b.deep_view(),
{
    assert forall|j: int| 0 <= j < a.deep_view().len() implies (#[trigger] a.deep_view()[j]).len()
        == M by {
        assert(a.inner@[j].wf());
    }
    assert forall|j: int| 0 <= j < b.deep_view().len() implies (#[trigger] b.deep_view()[j]).len()
        == M by {
        assert(b.inner@[j].wf());
    }
    lemma_encoded_matrix_injective(a.deep_view(), b.deep_view(), M as nat);
}

/// The column views of a sequence of column vectors.
pub open spec fn column_views<const M: usize>(s: Seq<Vector<u32, M>>) -> Seq<Seq<u32>> {
    Seq::new(s.len(), |j: int| s[j]@)
}

impl<const M: usize, const N: usize> Matrix<u32, M, N> {
    /// Encodes the matrix column by column, each column as exactly `M`
    /// four-byte values: `4 * M * N` bytes in all.
    pub fn serialize(&self) -> (r: Vec<u8>)
        requires
            self.wf(),
        ensures
            r@ == encoded_matrix(self.deep_view()),
    {
        let mut out: Vec<u8> = Vec::new();
        for j in 0..N
            invariant
                self.wf(),
                out@ == encoded_matrix(self.deep_view().take(j as int)),
        {
            let mut e = self.inner[j].serialize();
            out.append(&mut e);
            proof {
                assert(self.inner@[j as int].deep_view() =~= self.inner@[j as int]@);
                lemma_encoded_matrix_push(
                    self.deep_view().take(j as int),
                    self.deep_view()[j as int],
                );
                assert(self.deep_view().take(j + 1) =~= self.deep_view().take(j as int).push(
                    self.deep_view()[j as int],
                ));
                assert(out@ =~= encoded_matrix(self.deep_view().take(j + 1)));
            }
        }
        proof {
            assert(self.deep_view().take(N as int) =~= self.deep_view());
        }
        out
    }

    /// Decodes a buffer of exactly `4 * M * N` bytes into a matrix; a
    /// buffer with fewer or more bytes is rejected.
    pub fn deserialize(bytes: &Vec<u8>) -> (r: Option<Matrix<u32, M, N>>)
        ensures
            r is Some <==> bytes@.len() == 4 * M * N,
            match r {
                Some(v) => v.wf() && bytes@ == encoded_matrix(v.deep_view()),
                None => true,
            },
    {
        let n_bytes = bytes.len();
        if M == 0 || N == 0 {
            if n_bytes != 0 {
                return None;
            }
            let mut out: Vec<Vector<u32, M>> = Vec::new();
            for j in 0..N
                invariant
                    M == 0 || N == 0,
                    out@.len() == j,
                    forall|jj: int| 0 <= jj < j ==> (#[trigger] out@[jj]).wf(),
                    encoded_matrix(column_views(out@)) == Seq::<u8>::empty(),
            {
                let col: Vector<u32, M> = Vector { inner: Vec::new() };
                proof {
                    lemma_encoded_matrix_push(column_views(out@), col@);
                    assert(column_views(out@.push(col)) =~= column_views(out@).push(col@));
                    assert(encoded_u32s(col@) =~= Seq::<u8>::empty());
                    assert(encoded_matrix(column_views(out@).push(col@)) =~= Seq::<u8>::empty());
                }
                out.push(col);
            }
            let v: Matrix<u32, M, N> = Vector { inner: out };
            proof {
                assert forall|jj: int| 0 <= jj < N implies v.deep_view()[jj]
                    == column_views(v.inner@)[jj] by {
                    assert(v.inner@[jj].deep_view() =~= v.inner@[jj]@);
                }
                assert(v.deep_view() =~= column_views(v.inner@));
                assert(bytes@ =~= encoded_matrix(v.deep_view()));
            }
            return Some(v);
        }
        let prod = match M.checked_mul(N) {
            Some(p) => p,
            None => {
                proof {
                    assert(4 * M * N > usize::MAX) by (nonlinear_arith)
                        requires
                            M * N > usize::MAX,
                            M >= 1,
                            N >= 1,
                    ;
                }
                return None;
            },
        };
        let total = match prod.checked_mul(4) {
            Some(t) => t,
            None => {
                proof {
                    assert(4 * M * N == 4 * prod) by (nonlinear_arith)
                        requires
                            prod == M * N,
                    ;
                }
                return None;
            },
        };
        proof {
            assert(4 * M * N == total) by (nonlinear_arith)
                requires
                    prod == M * N,
                    total == 4 * prod,
            ;
        }
        if n_bytes != total {
            return None;
        }
        proof {
            assert(4 * M <= total) by (nonlinear_arith)
                requires
                    total == 4 * M * N,
                    M >= 1,
                    N >= 1,
            ;
        }
        let cb: usize = 4 * M;
        let mut out: Vec<Vector<u32, M>> = Vec::new();
        let mut off: usize = 0;
        for j in 0..N
            invariant
                1 <= M,
                cb == 4 * M,
                bytes@.len() == total,
                out@.len() == j,
                forall|jj: int| 0 <= jj < j ==> (#[trigger] out@[jj]).wf(),
                encoded_matrix(column_views(out@)) == bytes@.take(off as int),
                total - off == cb * (N - j),
                off <= total,
        {
            proof {
                assert(cb * (N - j) >= cb) by (nonlinear_arith)
                    requires
                        N - j >= 1,
                        cb >= 1,
                ;
            }
            let mut colb: Vec<u8> = Vec::new();
            for t in 0..cb
                invariant
                    off + cb <= total,
                    bytes@.len() == total,
                    colb@ == bytes@.subrange(off as int, off as int + t),
            {
                colb.push(bytes[off + t]);
                proof {
                    assert(colb@ =~= bytes@.subrange(off as int, off as int + t + 1));
                }
            }
            let col = Vector::<u32, M>::deserialize(&colb).unwrap();
            proof {
                lemma_encoded_matrix_push(column_views(out@), col@);
                assert(column_views(out@.push(col)) =~= column_views(out@).push(col@));
                assert(bytes@.take(off as int + cb as int) =~= bytes@.take(off as int)
                    + bytes@.subrange(off as int, off as int + cb as int));
                assert(cb * (N - j) - cb == cb * (N - (j + 1))) by (nonlinear_arith);
            }
            out.push(col);
            off = off + cb;
        }
        let v: Matrix<u32, M, N> = Vector { inner: out };
        proof {
            assert(out@.len() == N);
            let ghost rem: int = N - out@.len() as int;
            assert(total - off == cb * rem);
            assert(cb * rem == 0) by (nonlinear_arith)
                requires
                    rem == 0,
            ;
            assert(off == total);
            assert(bytes@.take(off as int) =~= bytes@);
            assert forall|j: int| 0 <= j < N implies v.deep_view()[j]
                == column_views(v.inner@)[j] by {
                assert(v.inner@[j].deep_view() =~= v.inner@[j]@);
            }
            assert(v.deep_view() =~= column_views(v.inner@));
        }
        Some(v)
    }
}

} // verus!
