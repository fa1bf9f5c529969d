//! The process manipulator: what its native attach, detach, read and write
//! primitives answer, turned into results.
//!
//! Each primitive answers with an error code (and, for reads, the value
//! read). The functions here take that answer and give the result that the
//! library hands its callers; codes that no primitive answers are excluded
//! by the `requires` clauses, since they mean the native side is corrupt.
use vstd::prelude::*;

pub mod error;
pub mod byteorder;

use self::byteorder::{BIG_ENDIAN, LITTLE_ENDIAN};

verus! {

/// What a native read answers: an error code and the value read, in the
/// field that fits the width of the read.
pub struct FromAddress {
    pub error_code: u8,
    pub data: u8,
    pub data32: u32,
    pub data64: u64,
}

/// A process the manipulator works on.
#[derive(Debug, Clone, Copy, PartialEq, Eq, Structural)]
pub struct WindowsProcess {
    pub pid: usize,
    pub attached: bool,
    pub byteorder: u8,
}

/// Whether `b` is one of the byte orders of the `byteorder` module.
pub open spec fn is_known_byte_order(b: u8) -> bool {
    b == LITTLE_ENDIAN || b == BIG_ENDIAN
}

/// Checks the byte order asked for before attaching: it must be little or
/// big endian.
pub fn check_byte_order(byte_order: u8) -> (r: Result<(), &'static str>)
    ensures
        r == if is_known_byte_order(byte_order) {
            Ok::<(), &'static str>(())
        } else {
            Err(error::attach::INVALID_BYTEORDER)
        },
{
    if byte_order == LITTLE_ENDIAN || byte_order == BIG_ENDIAN {
        Ok(())
    } else {
        Err(error::attach::INVALID_BYTEORDER)
    }
}

/// The result of attaching to `pid` with `byte_order`, given the code that
/// the native attach answered.
pub open spec fn attach_outcome(pid: usize, byte_order: u8, code: u8) -> Result<WindowsProcess, &'static str> {
    if code == error::attach::COULD_NOT_ATTACH_ERRORCODE {
        Err(error::attach::COULD_NOT_ATTACH)
    } else if code == error::attach::INVALID_PERMISSIONS_ERRORCODE {
        Err(error::attach::INVALID_PERMISSIONS)
    } else if code == error::attach::NO_SUCH_PROCESS_ERRORCODE {
        Err(error::attach::NO_SUCH_PROCESS)
    } else {
        Ok(WindowsProcess { pid, attached: true, byteorder: byte_order })
    }
}

/// Turns the code answered by the native attach into the attached process or
/// the error it stands for.
pub fn attach_result(set_pid: usize, byte_order: u8, attach_code: u8) -> (r: Result<WindowsProcess, &'static str>)
    requires
        attach_code <= 3,
    ensures
        r == attach_outcome(set_pid, byte_order, attach_code),
{
    if attach_code == error::attach::COULD_NOT_ATTACH_ERRORCODE {
        return Err(error::attach::COULD_NOT_ATTACH);
    }
    if attach_code == error::attach::INVALID_PERMISSIONS_ERRORCODE {
        return Err(error::attach::INVALID_PERMISSIONS);
    }
    if attach_code == error::attach::NO_SUCH_PROCESS_ERRORCODE {
        return Err(error::attach::NO_SUCH_PROCESS);
    }
    Ok(WindowsProcess { pid: set_pid, attached: true, byteorder: byte_order })
}

/// `p` no longer attached.
pub open spec fn detached(p: WindowsProcess) -> WindowsProcess {
    WindowsProcess { pid: p.pid, attached: false, byteorder: p.byteorder }
}

/// The process after the native detach answered success: the same process,
/// no longer attached.
pub fn dettach_result(windows_process: &WindowsProcess, dettach_code: u8) -> (r: Result<WindowsProcess, &'static str>)
    requires
        dettach_code == error::dettach::SUCCESS_ERRORCODE,
    ensures
        r == Ok::<WindowsProcess, &'static str>(detached(*windows_process)),
{
    Ok(WindowsProcess {
        pid: windows_process.pid,
        attached: false,
        byteorder: windows_process.byteorder,
    })
}

/// The result of a native write, given the code it answered.
pub fn write_result(write_code: u8) -> (r: Result<(), &'static str>)
    requires
        write_code <= 1,
    ensures
        r == write_outcome(write_code),
{
    if write_code == error::write_address::INVALID_ADDRESS_ERRORCODE {
        return Err(error::write_address::INVALID_ADDRESS);
    }
    Ok(())
}

/// The result of a native 8 bit read that answered `a`.
pub open spec fn read_8bit_outcome(a: FromAddress) -> Result<u8, &'static str> {
    if a.error_code == error::read_address::SUCCESS_ERRORCODE {
        Ok(a.data)
    } else {
        Err(error::read_address::INVALID_ADDRESS)
    }
}

/// The result of a native write that answered `code`.
pub open spec fn write_outcome(code: u8) -> Result<(), &'static str> {
    if code == error::write_address::SUCCESS_ERRORCODE {
        Ok(())
    } else {
        Err(error::write_address::INVALID_ADDRESS)
    }
}

/// The result of a native 8 bit read: its byte, or the invalid address error.
pub fn read_8bit_result(address_struct: &FromAddress) -> (r: Result<u8, &'static str>)
    requires
        address_struct.error_code <= 1,
    ensures
        r == read_8bit_outcome(*address_struct),
{
    if address_struct.error_code == error::read_address::INVALID_ADDRESS_ERRORCODE {
        return Err(error::read_address::INVALID_ADDRESS);
    }
    Ok(address_struct.data)
}

/// The result of a native 32 bit read: its value, or the invalid address error.
pub fn read_32bit_result(address_struct: &FromAddress) -> (r: Result<u32, &'static str>)
    requires
        address_struct.error_code <= 1,
    ensures
        r == if address_struct.error_code == error::read_address::SUCCESS_ERRORCODE {
            Ok::<u32, &'static str>(address_struct.data32)
        } else {
            Err(error::read_address::INVALID_ADDRESS)
        },
{
    if address_struct.error_code == error::read_address::INVALID_ADDRESS_ERRORCODE {
        return Err(error::read_address::INVALID_ADDRESS);
    }
    Ok(address_struct.data32)
}

/// The result of a native 64 bit read: its value, or the invalid address error.
pub fn read_64bit_result(address_struct: &FromAddress) -> (r: Result<u64, &'static str>)
    requires
        address_struct.error_code <= 1,
    ensures
        r == if address_struct.error_code == error::read_address::SUCCESS_ERRORCODE {
            Ok::<u64, &'static str>(address_struct.data64)
        } else {
            Err(error::read_address::INVALID_ADDRESS)
        },
{
    if address_struct.error_code == error::read_address::INVALID_ADDRESS_ERRORCODE {
        return Err(error::read_address::INVALID_ADDRESS);
    }
    Ok(address_struct.data64)
}

/// Attaching with a known byte order, when the native attach succeeds, and
/// then detaching gives back the same pid and byte order, no longer attached.
pub proof fn lemma_attach_then_dettach(pid: usize, byte_order: u8)
    requires
        is_known_byte_order(byte_order),
    ensures
        attach_outcome(pid, byte_order, error::attach::SUCCESS_ERRORCODE) matches Ok(p) && p.attached
            && detached(p) == (WindowsProcess { pid, attached: false, byteorder: byte_order }),
{
}

/// Every code the native attach answers other than success is refused, each
/// with its own message.
pub proof fn lemma_attach_failures_refused(pid: usize, byte_order: u8, code: u8)
    requires
        1 <= code <= 3,
    ensures
        attach_outcome(pid, byte_order, code) is Err,
{
}

} // verus!
