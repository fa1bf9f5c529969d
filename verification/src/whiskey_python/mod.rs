//! The Whiskey Python front end: whiskey commands embedded in a script, the
//! compiled script files, and the Python prelude that talks to the process.
use vstd::prelude::*;

use crate::error_kind::ErrorKind;

pub mod python_code;
pub mod whiskey_python_file_paths;
pub mod whiskey_command_types;
pub mod general_functions;
pub mod whiskey_python_parsing;
pub mod parsing_laws;
pub mod init_whiskey_python;
pub mod interpreter;

verus! {

/// The compiled internal script and the directory its files are spawned in.
pub struct CompiledScripts {
    pub internal_script: String,
    pub path: String,
}

/// Why reading whiskey commands failed.
#[derive(Debug, Clone, Copy, PartialEq, Eq, Structural)]
pub enum CommandError {
    /// No command of the requested type was found.
    NoMatchingCommands,
    /// The requested command lies beyond the commands found.
    CommandPointerOutOfRange,
    /// A `$` stands in a command's name.
    InvalidSymbol,
    /// The command has no space after its type, so it has no name.
    NoCommandName,
    /// The byte order is neither `little_endian` nor `big_endian`.
    InvalidByteOrder,
}

impl CommandError {
    /// The standard I/O error kind of this failure.
    pub fn kind(&self) -> (k: ErrorKind)
        ensures
            k == (match self {
                CommandError::CommandPointerOutOfRange => ErrorKind::InvalidInput,
                _ => ErrorKind::InvalidData,
            }),
    {
        match self {
            CommandError::CommandPointerOutOfRange => ErrorKind::InvalidInput,
            _ => ErrorKind::InvalidData,
        }
    }

    /// The message that goes with this failure.
    pub fn message(&self) -> (m: &'static str)
        ensures
            m@ == match self {
                CommandError::NoMatchingCommands => "couldnt find any matching commands"@,
                CommandError::CommandPointerOutOfRange => "the pointer to the command was larger than the commands len"@,
                CommandError::InvalidSymbol => "invalid symbol in whiskey command"@,
                CommandError::NoCommandName => "whiskey command not properly structured (no command name)"@,
                CommandError::InvalidByteOrder => "invalid byte order"@,
            },
    {
        match self {
            CommandError::NoMatchingCommands => "couldnt find any matching commands",
            CommandError::CommandPointerOutOfRange => "the pointer to the command was larger than the commands len",
            CommandError::InvalidSymbol => "invalid symbol in whiskey command",
            CommandError::NoCommandName => "whiskey command not properly structured (no command name)",
            CommandError::InvalidByteOrder => "invalid byte order",
        }
    }
}

} // verus!
