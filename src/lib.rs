//! Comparison engine for two delimiter-separated tables of engineering output.
//!
//! The library recognises numbers written in scientific notation, decides
//! which columns carry such numbers in every row of both tables, lists the
//! cell pairs to compare, and lays out the final report text.
use vstd::prelude::*;

pub mod classify;
pub mod load;
pub mod render;
pub mod token;

verus! {

} // verus!
