//! Detaching from a process.
use vstd::prelude::*;

verus! {

pub const SUCCESS_ERRORCODE: u8 = 0;

} // verus!
