use vstd::prelude::*;
use vstd::relations::{sorted_by, total_ordering};
use vstd::seq_lib::{group_to_multiset_ensures, lemma_sorted_unique};
use vstd::slice::slice_to_vec;

verus! {

/// The five reported points of the latency distribution, in milliseconds.
#[derive(Clone, Copy, Debug, PartialEq, Eq)]
pub struct Percentiles {
    pub p50: u64,
    pub p75: u64,
    pub p90: u64,
    pub p95: u64,
    pub p100: u64,
}

/// The order samples are sorted in.
pub open spec fn ascending() -> spec_fn(u64, u64) -> bool {
    |a: u64, b: u64| a <= b
}

/// The samples in ascending order.
pub open spec fn sorted_samples(s: Seq<u64>) -> Seq<u64> {
    s.sort_by(ascending())
}

/// Index of the `p`-th percentile among `len` sorted samples: nearest rank,
/// no interpolation, the last sample for `p = 100`.
pub open spec fn rank_index(len: int, p: int) -> int {
    if p >= 100 {
        len - 1
    } else {
        len * p / 100
    }
}

/// The percentiles read off an ascending sequence of samples.
pub open spec fn percentiles_at(sorted: Seq<u64>) -> Percentiles {
    let len = sorted.len() as int;
    Percentiles {
        p50: sorted[len / 2],
        p75: sorted[3 * len / 4],
        p90: sorted[9 * len / 10],
        p95: sorted[95 * len / 100],
        p100: sorted[len - 1],
    }
}

proof fn lemma_ascending_total()
    ensures
        total_ordering(ascending()),
{
}

/// The index of the `p`-th percentile among `len` sorted samples.
pub fn percentile_index(len: usize, p: u32) -> (r: usize)
    requires
        0 < len,
        p <= 100,
    ensures
        r == rank_index(len as int, p as int),
        r < len,
{
    if p >= 100 {
        len - 1
    } else {
        assert(len * p / 100 < len) by (nonlinear_arith)
            requires
                0 < len,
                p < 100,
        ;
        assert(len * p <= u128::MAX) by (nonlinear_arith)
            requires
                len <= usize::MAX,
                p < 100,
        ;
        ((len as u128 * p as u128) / 100) as usize
    }
}

/// Percentile indices never decrease as the percentile grows, and stay inside the samples.
pub proof fn lemma_rank_monotone(len: int, p: int, q: int)
    requires
        0 < len,
        0 <= p <= q <= 100,
    ensures
        0 <= rank_index(len, p) <= rank_index(len, q) < len,
{
    if q < 100 {
        assert(0 <= len * p / 100 <= len * q / 100 < len) by (nonlinear_arith)
            requires
                0 < len,
                0 <= p <= q < 100,
        ;
    } else if p < 100 {
        assert(0 <= len * p / 100 < len) by (nonlinear_arith)
            requires
                0 < len,
                0 <= p < 100,
        ;
    }
}

/// In ascending samples the top percentile is the largest sample.
pub proof fn lemma_top_is_maximum(sorted: Seq<u64>)
    requires
        sorted.len() > 0,
        sorted_by(sorted, ascending()),
    ensures
        sorted.contains(percentiles_at(sorted).p100),
        forall|i: int| 0 <= i < sorted.len() ==> sorted[i] <= percentiles_at(sorted).p100,
{
    let last = sorted.len() - 1;
    assert(sorted[last] == percentiles_at(sorted).p100);
    assert forall|i: int| 0 <= i < sorted.len() implies sorted[i] <= sorted[last] by {
        if i < last {
            assert((ascending())(sorted[i], sorted[last]));
        }
    }
}

/// Reads the percentiles off samples that are already in ascending order.
pub fn percentiles_of_sorted(sorted: &[u64]) -> (r: Percentiles)
    requires
        sorted@.len() > 0,
    ensures
        r == percentiles_at(sorted@),
{
    let len = sorted.len();
    let i50 = percentile_index(len, 50);
    let i75 = percentile_index(len, 75);
    let i90 = percentile_index(len, 90);
    let i95 = percentile_index(len, 95);
    let i100 = percentile_index(len, 100);
    assert(i75 == 3 * len / 4);
    assert(i90 == 9 * len / 10);
    Percentiles { p50: sorted[i50], p75: sorted[i75], p90: sorted[i90], p95: sorted[i95], p100: sorted[i100] }
}

/// Relies on `slice::sort`: the slice ends up in ascending order and holds
/// the same values as before.
#[verifier::external_body]
fn sort_ascending(v: &mut Vec<u64>)
    ensures
        final(v)@.to_multiset() == old(v)@.to_multiset(),
        sorted_by(final(v)@, ascending()),
{
    v.sort();
}

/// A sorted copy of the samples.
pub fn sorted_copy(samples: &[u64]) -> (r: Vec<u64>)
    ensures
        r@ == sorted_samples(samples@),
{
    let mut v = slice_to_vec(samples);
    sort_ascending(&mut v);
    proof {
        lemma_ascending_total();
        samples@.lemma_sort_by_ensures(ascending());
        lemma_sorted_unique(v@, sorted_samples(samples@), ascending());
    }
    v
}

/// Nearest-rank percentiles of the samples: they are sorted (in a copy) and
/// the values at the ranks of 50, 75, 90, 95 and 100 percent are returned.
pub fn percentiles(samples: &[u64]) -> (r: Percentiles)
    requires
        samples@.len() > 0,
    ensures
        r == percentiles_at(sorted_samples(samples@)),
        samples@.contains(r.p100),
        forall|i: int| 0 <= i < samples@.len() ==> samples@[i] <= r.p100,
{
    let v = sorted_copy(samples);
    proof {
        broadcast use group_to_multiset_ensures;

        lemma_ascending_total();
        samples@.lemma_sort_by_ensures(ascending());
        assert(v@.len() == samples@.len()) by {
            assert(v@.to_multiset().len() == samples@.to_multiset().len());
        }
        lemma_top_is_maximum(v@);
        let top = v@[v@.len() - 1];
        assert(v@.contains(top));
        assert(v@.to_multiset().count(top) > 0);
        assert(samples@.contains(top));
        assert forall|i: int| 0 <= i < samples@.len() implies samples@[i] <= top by {
            assert(samples@.contains(samples@[i]));
            assert(samples@.to_multiset().count(samples@[i]) > 0);
            assert(v@.to_multiset().count(samples@[i]) > 0);
            assert(v@.contains(samples@[i]));
        }
    }
    percentiles_of_sorted(v.as_slice())
}

} // verus!
