use vstd::prelude::*;

verus! {

/// The width of one processing chunk of a flat buffer.
pub const LANES: usize = 4;

/// A fixed-capacity flat buffer of `N` elements that is filled chunk by
/// chunk: whole chunks of [`LANES`] elements first, then the spill of the
/// remaining `N % LANES`, as ordinary loop logic over one flat buffer.
pub struct Vecc<T, const N: usize> {
    pub data: Vec<T>,
}

impl<T, const N: usize> View for Vecc<T, N> {
    type V = Seq<T>;

    open spec fn view(&self) -> Seq<T> {
        self.data@
    }
}

impl<T, const N: usize> Vecc<T, N> {
    /// Consumes exactly `N` items in order; fewer or more are rejected.
    pub fn from_iter(items: Vec<T>) -> (r: Option<Vecc<T, N>>)
        ensures
            match r {
                Some(v) => items@.len() == N && v@ == items@,
                None => items@.len() != N,
            },
    {
        if items.len() != N {
            return None;
        }
        let ghost orig: Seq<T> = items@;
        let mut src = items;
        let chunks = N / LANES;
        let spill = N % LANES;
        let mut data: Vec<T> = Vec::new();
        for c in 0..chunks
            invariant
                data@.len() == c * LANES,
                data@ + src@ == orig,
                orig.len() == N,
                chunks == N / LANES,
        {
            for l in 0..LANES
                invariant
                    c < chunks,
                    data@.len() == c * LANES + l,
                    data@ + src@ == orig,
                    orig.len() == N,
                    chunks == N / LANES,
            {
                let x = src.remove(0);
                data.push(x);
                proof {
                    assert(data@ + src@ =~= orig);
                }
            }
        }
        for s in 0..spill
            invariant
                spill == N % LANES,
                data@.len() == (N / LANES) * LANES + s,
                data@ + src@ == orig,
                orig.len() == N,
        {
            let x = src.remove(0);
            data.push(x);
            proof {
                assert(data@ + src@ =~= orig);
            }
        }
        let v = Vecc { data };
        proof {
            assert(v@ =~= orig);
        }
        Some(v)
    }

    /// Shared access to the element at `index`.
    pub fn get(&self, index: usize) -> (r: &T)
        requires
            index < self@.len(),
        ensures
            *r == self@[index as int],
    {
        &self.data[index]
    }
}

} // verus!
