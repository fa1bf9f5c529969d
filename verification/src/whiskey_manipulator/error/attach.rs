//! Attaching to a process.
use vstd::prelude::*;

verus! {

pub const INVALID_PERMISSIONS: &'static str = "could not attach, invalid permissions.";

pub const INVALID_PERMISSIONS_ERRORCODE: u8 = 2;

pub const NO_SUCH_PROCESS: &'static str = "could not attach, no such process.";

pub const NO_SUCH_PROCESS_ERRORCODE: u8 = 3;

pub const COULD_NOT_ATTACH: &'static str = "could not attach.";

pub const COULD_NOT_ATTACH_ERRORCODE: u8 = 1;

pub const INVALID_BYTEORDER: &'static str = "invalid byte order.";

pub const SUCCESS_ERRORCODE: u8 = 0;

} // verus!
