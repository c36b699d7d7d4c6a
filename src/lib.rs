//! Extraction and validation of the public function signatures of a numeric
//! library: which declarations are legitimate API entries, which parameter and
//! return shapes are permitted, and the ordered catalog handed to generators.
use vstd::prelude::*;

pub mod text;
pub mod types;
pub mod model;
pub mod rules;
pub mod category;
pub mod extract;
pub mod catalog;
pub mod laws;
pub mod emit;
pub mod api;
pub mod order;

verus! {

} // verus!
