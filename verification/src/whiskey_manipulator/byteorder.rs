//! The byte orders a process can have.
use vstd::prelude::*;

verus! {

pub const LITTLE_ENDIAN: u8 = 0;

pub const BIG_ENDIAN: u8 = 1;

} // verus!
