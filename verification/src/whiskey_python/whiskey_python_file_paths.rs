//! Names of the directory and files that Whiskey Python spawns.
use vstd::prelude::*;

verus! {

pub const WHISKEY_PYTHON_FOLDER_NAME: &'static str = "WHISKEY_PYTHON_DONOTEDIT";

pub const WHISKEY_PYTHON_EXTERNAL_SCRIPT_NAME: &'static str = "external_whiskey_python_script.py";

pub const WHISKEY_PYTHON_INTERNAL_SCRIPT_NAME: &'static str = "internal_whiskey_python_script.py";

} // verus!
