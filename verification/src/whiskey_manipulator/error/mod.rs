//! The messages and error codes of the process manipulator.
use vstd::prelude::*;

pub mod attach;
pub mod dettach;
pub mod write_address;
pub mod read_address;

verus! {

pub const POSSIBLE_CORRUPTION: &'static str = "this program has run improperly, possible corruption.";

} // verus!
