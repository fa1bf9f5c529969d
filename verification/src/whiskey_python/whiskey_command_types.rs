//! The types of whiskey command a script can hold.
use vstd::prelude::*;

verus! {

pub const SET_EXE_PATH: &'static str = "set_exe_path";

pub const SET_EXTERNAL_SCRIPT: &'static str = "set_external_script";

pub const SET_BYTE_ORDER: &'static str = "set_byte_order";

pub const SET_USER: &'static str = "set_user";

pub const SET_PROCESS_NAME: &'static str = "set_process_name";

pub const SET_PROCESS_TIMEOUT: &'static str = "set_process_timeout";

} // verus!
