//! The 64-bit hash of an inserted element.

use vstd::prelude::*;
use std::collections::hash_map::DefaultHasher;
use std::hash::{BuildHasher, BuildHasherDefault};

verus! {

/// The hash that std's `DefaultHasher` gives a string.
pub uninterp spec fn str_hash(s: Seq<char>) -> u64;

/// Relies on `BuildHasher::hash_one` over std's `DefaultHasher` (SipHash with
/// fixed keys, not seeded per process): the hash of a string depends on its
/// characters alone.
#[verifier::external_body]
pub(crate) fn hash_str(v: &str) -> (r: u64)
    ensures
        r == str_hash(v@),
{
    BuildHasherDefault::<DefaultHasher>::default().hash_one(v)
}

} // verus!
