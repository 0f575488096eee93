//! Benchmark-dataset generation and Cedar authorization helpers, verified with Verus.
use vstd::prelude::*;

pub mod lcg;
pub mod text;
pub mod nesting;
pub mod names;
pub mod params;
pub mod entities;
pub mod policies;
pub mod requests;
pub mod dataset;
pub mod cedar;
pub mod bench;
pub mod service;

verus! {

} // verus!
