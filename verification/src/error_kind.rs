//! The kinds of failure that the library reports, as the standard I/O error
//! kinds its callers turn them into.
use vstd::prelude::*;

verus! {

/// Which standard I/O error kind a failure of the library stands for.
#[derive(Debug, Clone, Copy, PartialEq, Eq, Structural)]
pub enum ErrorKind {
    NotFound,
    InvalidData,
    InvalidInput,
    AlreadyExists,
    UnexpectedEof,
    Other,
}

} // verus!
