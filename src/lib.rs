//! HyperBitBit: a cardinality estimator that keeps two 64-bit bucket masks
//! and a scale exponent, whatever the length of the stream.

pub mod bits;
pub mod estimate;
pub mod hashing;
pub mod laws;
pub mod sketch;

pub use sketch::{HyperBitBit, SketchState};
