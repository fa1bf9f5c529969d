//! Setting up a Whiskey Python run.
use vstd::prelude::*;

use super::CompiledScripts;
use super::python_code::STARTING_PYTHON_CODE;
use super::whiskey_python_parsing::{combine_starting_script_with, SCRIPT_SEPARATOR};

verus! {

/// The compiled scripts for `path`: the internal script is the Python
/// prelude followed by `internal_script_contents`.
pub fn define_compiled_files_struct(path: &str, internal_script_contents: &str) -> (r: CompiledScripts)
    ensures
        r.internal_script@ == STARTING_PYTHON_CODE@ + SCRIPT_SEPARATOR@ + internal_script_contents@,
        r.path@ == path@,
{
    let internal_script_combined = combine_starting_script_with(internal_script_contents);
    CompiledScripts { internal_script: internal_script_combined, path: path.to_owned() }
}

} // verus!
