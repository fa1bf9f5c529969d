//! Paths of the files that Whiskey Python spawns.
use vstd::prelude::*;

use crate::paths::{join_path, joined_path};
use super::whiskey_python_file_paths::{WHISKEY_PYTHON_FOLDER_NAME, WHISKEY_PYTHON_INTERNAL_SCRIPT_NAME};

pub use crate::paths::{check_then_add_slash_to_path, check_for_slash_type};

verus! {

/// `path` joined with the Whiskey Python directory name.
pub fn add_whiskey_files_dir_to_path(path: &str) -> (r: String)
    requires
        path@.len() > 0,
    ensures
        r@ == joined_path(path@, WHISKEY_PYTHON_FOLDER_NAME@),
{
    join_path(path, WHISKEY_PYTHON_FOLDER_NAME)
}

/// `path` joined with the name of the internal script file.
pub fn add_whiskey_internal_script_name_to_path(path: &str) -> (r: String)
    requires
        path@.len() > 0,
    ensures
        r@ == joined_path(path@, WHISKEY_PYTHON_INTERNAL_SCRIPT_NAME@),
{
    join_path(path, WHISKEY_PYTHON_INTERNAL_SCRIPT_NAME)
}

/// Where the internal script is written for scripts spawned in `path`: the
/// internal script name inside the Whiskey Python directory under `path`.
pub fn whiskey_python_internal_file_path(path: &str) -> (r: String)
    requires
        path@.len() > 0,
    ensures
        r@ == joined_path(
            joined_path(path@, WHISKEY_PYTHON_FOLDER_NAME@),
            WHISKEY_PYTHON_INTERNAL_SCRIPT_NAME@,
        ),
{
    let dir = add_whiskey_files_dir_to_path(path);
    add_whiskey_internal_script_name_to_path(dir.as_str())
}

} // verus!
