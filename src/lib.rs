//! Hardware detection and formatting core: GPU and display resolution from
//! plain text and JSON sources, an id-database lookup, a GPU cache format and
//! template substitution, each with a machine-checked contract.
use vstd::prelude::*;

pub mod error;
pub mod text;
pub mod ids;
pub mod gpu;
pub mod json;
pub mod displays;
pub mod versions;
pub mod cpu;

verus! {

} // verus!
