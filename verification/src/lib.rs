//! A verified Levenshtein edit distance over Unicode code points.
//!
//! The `distance` module defines the edit distance as a recursive
//! specification over character sequences and implements it with the
//! memory-efficient two-row dynamic-programming scheme. The `laws`
//! module proves that the distance is a metric on character sequences.

use vstd::prelude::*;

pub mod distance;
pub mod laws;

verus! {

pub use crate::distance::levenshtein_dist;

} // verus!
