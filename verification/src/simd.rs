use crate::base::{add_seq, add_seq_defined};
use crate::element::{Element, Modeled};
use crate::types::Vector;
use vstd::prelude::*;

verus! {

/// The lane-count capability: how many elements of the type one hardware
/// lane group would carry. The choice is resolved per element type at
/// compile time and never changes observable results, only how the flat
/// buffer is walked.
pub trait SimdRepr: Sized {
    spec fn spec_lanes() -> nat;

    fn lanes() -> (n: usize)
        ensures
            n == Self::spec_lanes(),
            n >= 1,
    ;
}

impl SimdRepr for i32 {
    open spec fn spec_lanes() -> nat {
        4
    }

    fn lanes() -> (n: usize) {
        4
    }
}

impl SimdRepr for u32 {
    open spec fn spec_lanes() -> nat {
        4
    }

    fn lanes() -> (n: usize) {
        4
    }
}

/// The two element-wise paths agree bit for bit: whatever their contracts
/// pin to the same model is the same value sequence.
pub proof fn lemma_paths_agree<T: Element>(
    a: Seq<T::V>,
    b: Seq<T::V>,
    generic: Seq<T::V>,
    fast: Seq<T::V>,
)
    requires
        generic == add_seq::<T>(a, b),
        fast == add_seq::<T>(a, b),
    ensures
        generic == fast,
{
}

impl<T: Element + SimdRepr, const N: usize> Vector<T, N> {
    /// The specialized fast path of the element-wise sum: processes whole
    /// chunks of `T::lanes()` elements, then the leftover, as runtime loop
    /// logic over the flat buffer. Behaviour-identical to [`Vector::add`]:
    /// both contracts pin the same result.
    pub fn add_chunked(&self, other: &Vector<T, N>) -> (r: Vector<T, N>)
        requires
            self.wf(),
            other.wf(),
            add_seq_defined::<T>(self.deep_view(), other.deep_view()),
        ensures
            r.wf(),
            r.deep_view() == add_seq::<T>(self.deep_view(), other.deep_view()),
    {
        let lanes = T::lanes();
        let mut out: Vec<T> = Vec::new();
        while lanes <= N - out.len()
            invariant
                self.wf(),
                other.wf(),
                add_seq_defined::<T>(self.deep_view(), other.deep_view()),
                lanes >= 1,
                out@.len() <= N,
                forall|j: int|
                    0 <= j < out@.len() ==> (#[trigger] out@[j]).wf() && out@[j].deep_view()
                        == T::add_model(self.deep_view()[j], other.deep_view()[j]),
            decreases N - out@.len(),
        {
            let ghost base = out@.len();
            for l in 0..lanes
                invariant
                    self.wf(),
                    other.wf(),
                    add_seq_defined::<T>(self.deep_view(), other.deep_view()),
                    out@.len() == base + l,
                    out@.len() + lanes - l <= N,
                    forall|j: int|
                        0 <= j < out@.len() ==> (#[trigger] out@[j]).wf() && out@[j].deep_view()
                            == T::add_model(self.deep_view()[j], other.deep_view()[j]),
            {
                let idx = out.len();
                proof {
                    assert(T::can_add(self.deep_view()[idx as int], other.deep_view()[idx as int]));
                }
                out.push(self.inner[idx].el_add(&other.inner[idx]));
            }
        }
        while out.len() < N
            invariant
                self.wf(),
                other.wf(),
                add_seq_defined::<T>(self.deep_view(), other.deep_view()),
                out@.len() <= N,
                forall|j: int|
                    0 <= j < out@.len() ==> (#[trigger] out@[j]).wf() && out@[j].deep_view()
                        == T::add_model(self.deep_view()[j], other.deep_view()[j]),
            decreases N - out@.len(),
        {
            let idx = out.len();
            proof {
                assert(T::can_add(self.deep_view()[idx as int], other.deep_view()[idx as int]));
            }
            out.push(self.inner[idx].el_add(&other.inner[idx]));
        }
        let r = Vector { inner: out };
        proof {
            assert(r.deep_view() =~= add_seq::<T>(self.deep_view(), other.deep_view()));
        }
        r
    }
}

} // verus!
