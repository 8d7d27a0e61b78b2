//! What holds of every sketch across insertions and rebuilds.

use vstd::prelude::*;
use crate::bits::{bit, bucket, lemma_rank_bounds, popcount, rank};
use crate::hashing::str_hash;
use crate::sketch::{lemma_inserted_wf, SketchState};

verus! {

/// Recording an element a second time leaves the state that the first
/// recording gave. The exception is a first recording that rescaled, when the
/// element's rank also passes the scale after the next one, or when the new
/// current scale came out with 32 buckets: the second recording then marks the
/// new next scale, or rescales again.
pub proof fn lemma_insert_duplicate(s: SketchState, v: Seq<char>)
    requires
        s.wf(),
        ({
            let t = s.inserted(str_hash(v));
            t.lgn == s.lgn || (rank(str_hash(v)) <= s.lgn + 2 && popcount(t.sketch1) <= 31)
        }),
    ensures
        s.inserted(str_hash(v)).inserted(str_hash(v)) == s.inserted(str_hash(v)),
{
    let h = str_hash(v);
    let b = bit(bucket(h));
    let t = s.inserted(h);
    lemma_rank_bounds(h);
    assert(forall|x: u64| #[trigger] (x | b) | b == x | b) by (bit_vector);
    assert(t.marked1(h) == t.sketch1);
    assert(t.marked2(h) == t.sketch2);
}

/// Across any run of insertions the scale exponent never decreases, and the
/// state stays well formed.
pub proof fn lemma_lgn_monotone(s: SketchState, vs: Seq<Seq<char>>)
    requires
        s.wf(),
    ensures
        s.inserted_all(vs).lgn >= s.lgn,
        s.inserted_all(vs).wf(),
    decreases vs.len(),
{
    if vs.len() > 0 {
        lemma_inserted_wf(s, str_hash(vs[0]));
        lemma_lgn_monotone(s.inserted(str_hash(vs[0])), vs.drop_first());
    }
}

/// After an insertion at most 31 buckets are set at the current scale, except
/// when the insertion rescales and all 32 buckets of the old current scale
/// were set at the next one too: then the new current scale holds those 32.
pub proof fn lemma_popcount_bound(s: SketchState, v: Seq<char>)
    requires
        s.wf(),
        !(popcount(s.marked1(str_hash(v))) > 31 && popcount(s.marked2(str_hash(v))) == 32),
    ensures
        popcount(s.inserted(str_hash(v)).sketch1) <= 31,
{
    lemma_inserted_wf(s, str_hash(v));
}

/// A well-formed state is rebuilt exactly from its three fields, and gives the
/// same estimate.
pub proof fn lemma_parts_round_trip(s: SketchState)
    requires
        s.wf(),
    ensures
        SketchState::of_parts(s.lgn, s.sketch1, s.sketch2).wf(),
        SketchState::of_parts(s.lgn, s.sketch1, s.sketch2) == s,
        SketchState::of_parts(s.lgn, s.sketch1, s.sketch2).estimate() == s.estimate(),
{
}

} // verus!
