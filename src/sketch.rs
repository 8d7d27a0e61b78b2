//! The sketch: two bucket masks and the scale exponent.

use vstd::prelude::*;
use crate::bits::{
    bit, bucket, hash_bucket, hash_rank, lemma_popcount_set_bit, lemma_popcount_subset,
    lemma_rank_bounds, popcount, rank,
};
use crate::estimate::{estimate, estimate_of, fraction_table};
use crate::hashing::{hash_str, str_hash};
use vstd::arithmetic::power2::{lemma2_to64, lemma2_to64_rest, pow2};

verus! {

/// The value of a sketch: its scale exponent and its two bucket masks.
pub struct SketchState {
    pub lgn: u8,
    pub sketch1: u64,
    pub sketch2: u64,
}

/// The largest scale exponent: a rank never exceeds 58, so no bucket is set,
/// and no rescale happens, once `lgn` reaches it.
pub const MAX_LGN: u8 = 58;

impl SketchState {
    /// The state of a new sketch.
    pub open spec fn fresh() -> SketchState {
        SketchState { lgn: 5, sketch1: 0, sketch2: 0 }
    }

    /// What every reachable state satisfies. The exponent stays between its
    /// start and its ceiling; every bucket set at the next scale is set at the
    /// current one. The current scale holds at most 32 buckets, and 32 only
    /// right after a rescale, with the next scale empty. From 57 on nothing
    /// can reach the next scale, and at the ceiling nothing reaches either.
    pub open spec fn wf(self) -> bool {
        &&& 5 <= self.lgn <= MAX_LGN
        &&& self.sketch2 & !self.sketch1 == 0
        &&& popcount(self.sketch1) <= 32
        &&& popcount(self.sketch1) == 32 ==> self.sketch2 == 0 && self.lgn < MAX_LGN
        &&& self.lgn >= MAX_LGN - 1 ==> self.sketch2 == 0
        &&& self.lgn == MAX_LGN ==> self.sketch1 == 0
    }

    /// The current-scale mask once the bucket of `h` is marked, before any rescale.
    pub open spec fn marked1(self, h: u64) -> u64 {
        if rank(h) > self.lgn { self.sketch1 | bit(bucket(h)) } else { self.sketch1 }
    }

    /// The next-scale mask once the bucket of `h` is marked, before any rescale.
    pub open spec fn marked2(self, h: u64) -> u64 {
        if rank(h) > self.lgn + 1 { self.sketch2 | bit(bucket(h)) } else { self.sketch2 }
    }

    /// The state after recording an element whose hash is `h`: its bucket is
    /// marked at each scale that its rank passes, and if more than 31 buckets
    /// are then set at the current scale, the next scale takes its place.
    pub open spec fn inserted(self, h: u64) -> SketchState {
        if popcount(self.marked1(h)) > 31 {
            SketchState { lgn: (self.lgn + 1) as u8, sketch1: self.marked2(h), sketch2: 0 }
        } else {
            SketchState { lgn: self.lgn, sketch1: self.marked1(h), sketch2: self.marked2(h) }
        }
    }

    /// The state after recording each of the elements `vs`, in order.
    pub open spec fn inserted_all(self, vs: Seq<Seq<char>>) -> SketchState
        decreases vs.len(),
    {
        if vs.len() == 0 {
            self
        } else {
            self.inserted(str_hash(vs[0])).inserted_all(vs.drop_first())
        }
    }

    /// The estimated cardinality: `floor(2^(lgn + 5.4 + popcount(sketch1) / 32))`.
    pub open spec fn estimate(self) -> u64 {
        estimate_of(self.lgn as nat, popcount(self.sketch1))
    }

    /// The state with the given fields.
    pub open spec fn of_parts(lgn: u8, sketch1: u64, sketch2: u64) -> SketchState {
        SketchState { lgn, sketch1, sketch2 }
    }
}

/// A HyperBitBit cardinality sketch.
#[derive(Clone, Copy, Debug)]
pub struct HyperBitBit {
    lgn: u8,
    sketch1: u64,
    sketch2: u64,
}

impl View for HyperBitBit {
    type V = SketchState;

    closed spec fn view(&self) -> SketchState {
        SketchState { lgn: self.lgn, sketch1: self.sketch1, sketch2: self.sketch2 }
    }
}

impl Default for HyperBitBit {
    fn default() -> (r: HyperBitBit)
        ensures
            r@ == SketchState::fresh(),
    {
        HyperBitBit { lgn: 5, sketch1: 0, sketch2: 0 }
    }
}

impl HyperBitBit {
    /// Creates an empty sketch.
    pub fn new() -> (r: HyperBitBit)
        ensures
            r@ == SketchState::fresh(),
            r@.wf(),
            r@.estimate() == 1351,
    {
        proof {
            lemma2_to64();
            lemma2_to64_rest();
            assert(fraction_table()[0] == 6085156183315689749u64);
            assert(6085156183315689749nat * 1024 / 0x4000_0000_0000_0000 == 1351);
            assert(0u64 & !0u64 == 0) by (bit_vector);
            reveal_with_fuel(popcount, 1);
            assert(SketchState::fresh().estimate() == estimate_of(5, 0));
        }
        HyperBitBit::default()
    }

    /// The estimated number of distinct elements recorded so far.
    pub fn cardinality(&self) -> (r: u64)
        requires
            self@.wf(),
        ensures
            r == self@.estimate(),
    {
        estimate(self.lgn, self.sketch1.count_ones())
    }

    /// Rebuilds a sketch from its three fields, if they form a well-formed state.
    pub fn from_parts(lgn: u8, sketch1: u64, sketch2: u64) -> (r: Option<HyperBitBit>)
        ensures
            r.is_some() == SketchState::of_parts(lgn, sketch1, sketch2).wf(),
            r.is_some() ==> r.unwrap()@ == SketchState::of_parts(lgn, sketch1, sketch2),
    {
        let ones = sketch1.count_ones();
        let in_range = 5 <= lgn && lgn <= MAX_LGN;
        let nested = sketch2 & !sketch1 == 0;
        let bounded = ones < 32 || (ones == 32 && sketch2 == 0 && lgn < MAX_LGN);
        let quiet_top = (lgn < MAX_LGN - 1 || sketch2 == 0) && (lgn < MAX_LGN || sketch1 == 0);
        let valid = in_range && nested && bounded && quiet_top;
        if valid {
            Some(HyperBitBit { lgn, sketch1, sketch2 })
        } else {
            None
        }
    }

    /// The scale exponent.
    pub fn lgn(&self) -> (r: u8)
        ensures
            r == self@.lgn,
    {
        self.lgn
    }

    /// The buckets set at the current scale.
    pub fn sketch1(&self) -> (r: u64)
        ensures
            r == self@.sketch1,
    {
        self.sketch1
    }

    /// The buckets set at the next scale.
    pub fn sketch2(&self) -> (r: u64)
        ensures
            r == self@.sketch2,
    {
        self.sketch2
    }

    /// Records an element whose hash is `h`.
    pub fn insert_hash(&mut self, h: u64)
        requires
            old(self)@.wf(),
        ensures
            final(self)@ == old(self)@.inserted(h),
            final(self)@.wf(),
            final(self)@.lgn >= old(self)@.lgn,
    {
        let k = hash_bucket(h);
        let r = hash_rank(h);
        proof {
            lemma_inserted_wf(self@, h);
        }
        if r > self.lgn as u64 {
            self.sketch1 = self.sketch1 | (1u64 << k);
        }
        if r > self.lgn as u64 + 1 {
            self.sketch2 = self.sketch2 | (1u64 << k);
        }
        if self.sketch1.count_ones() > 31 {
            self.sketch1 = self.sketch2;
            self.sketch2 = 0;
            self.lgn = self.lgn + 1;
        }
    }

    /// Records the string `v`.
    pub fn insert(&mut self, v: &str)
        requires
            old(self)@.wf(),
        ensures
            final(self)@ == old(self)@.inserted(str_hash(v@)),
            final(self)@.wf(),
            final(self)@.lgn >= old(self)@.lgn,
    {
        let h = hash_str(v);
        self.insert_hash(h);
    }
}

/// Recording a hash keeps a state well formed, and never lowers its exponent.
pub proof fn lemma_inserted_wf(s: SketchState, h: u64)
    requires
        s.wf(),
    ensures
        s.inserted(h).wf(),
        s.inserted(h).lgn >= s.lgn,
{
    let k = bucket(h);
    let b = bit(k);
    let (x1, x2) = (s.sketch1, s.sketch2);
    let (m1, m2) = (s.marked1(h), s.marked2(h));
    lemma_rank_bounds(h);
    assert(x2 & !x1 == 0 ==> (x2 | b) & !(x1 | b) == 0 && x2 & !(x1 | b) == 0) by (bit_vector);
    assert(m2 & !m1 == 0);
    lemma_popcount_set_bit(x1, k);
    lemma_popcount_subset(m2, m1);
    assert(popcount(0) == 0);
    assert(0u64 & !m2 == 0) by (bit_vector);
    if popcount(m1) > 31 {
        if popcount(x1) == 32 {
            assert(x2 == 0);
            lemma_popcount_set_bit(0, k);
            assert(0u64 | b == b) by (bit_vector);
            assert(popcount(m2) <= 1);
        } else {
            assert(m1 != x1);
            assert(rank(h) > s.lgn);
            if popcount(m2) == 32 {
                assert(m2 != 0);
                assert(s.lgn + 1 < MAX_LGN);
            }
            if s.lgn + 1 == MAX_LGN {
                assert(x2 == 0);
                assert(m2 == 0);
            }
        }
    }
}

} // verus!
