//! Writing to an address of a process.
use vstd::prelude::*;

verus! {

pub const INVALID_ADDRESS: &'static str = "could not write to address,invalid address.";

pub const INVALID_ADDRESS_ERRORCODE: u8 = 1;

pub const SUCCESS_ERRORCODE: u8 = 0;

} // verus!
