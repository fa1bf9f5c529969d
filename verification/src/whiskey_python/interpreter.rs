//! The answers that the functions handed to the Python interpreter give:
//! a status code (0 success, 2 invalid address, 1 any other failure), and
//! for reads the value read before it.
use vstd::prelude::*;

use crate::text::str_eq;
use crate::whiskey_manipulator::{FromAddress, read_8bit_outcome, write_outcome};
use crate::whiskey_manipulator::error::{read_address, write_address};

verus! {

/// The status of a write: 0 on success, 2 for an invalid address, 1 otherwise.
pub open spec fn write_status(r: Result<(), &'static str>) -> usize {
    match r {
        Ok(_) => 0,
        Err(e) => if e@ == write_address::INVALID_ADDRESS@ {
            2
        } else {
            1
        },
    }
}

/// The status code that a write hands to Python.
pub fn write_status_code(result: Result<(), &'static str>) -> (code: usize)
    ensures
        code == write_status(result),
{
    match result {
        Ok(_) => 0,
        Err(error) => if str_eq(error, write_address::INVALID_ADDRESS) {
            2
        } else {
            1
        },
    }
}

/// Whether a read failed on an invalid address.
pub open spec fn is_invalid_read_address(e: &'static str) -> bool {
    e@ == read_address::INVALID_ADDRESS@
}

/// What an 8 bit read hands to Python: the value and 0, or 0 and the status.
pub open spec fn read_8bit_reply(result: Result<u8, &'static str>) -> Seq<u8> {
    match result {
        Ok(value) => seq![value, 0u8],
        Err(e) => seq![0u8, if is_invalid_read_address(e) { 2u8 } else { 1u8 }],
    }
}

/// What an 8 bit read hands to Python: the value and 0, or 0 and the status.
pub fn read_8bit_answer(result: Result<u8, &'static str>) -> (answer: [u8; 2])
    ensures
        answer@ == read_8bit_reply(result),
{
    let answer = match result {
        Ok(value) => [value, 0],
        Err(error) => if str_eq(error, read_address::INVALID_ADDRESS) {
            [0, 2]
        } else {
            [0, 1]
        },
    };
    assert(answer@ =~= match result {
        Ok(value) => seq![value, 0u8],
        Err(e) => seq![0u8, if is_invalid_read_address(e) { 2u8 } else { 1u8 }],
    });
    answer
}

/// What a 32 bit read hands to Python: the value and 0, or 0 and the status.
pub fn read_32bit_answer(result: Result<u32, &'static str>) -> (answer: [u32; 2])
    ensures
        answer@ == match result {
            Ok(value) => seq![value, 0u32],
            Err(e) => seq![0u32, if is_invalid_read_address(e) { 2u32 } else { 1u32 }],
        },
{
    let answer = match result {
        Ok(value) => [value, 0],
        Err(error) => if str_eq(error, read_address::INVALID_ADDRESS) {
            [0, 2]
        } else {
            [0, 1]
        },
    };
    assert(answer@ =~= match result {
        Ok(value) => seq![value, 0u32],
        Err(e) => seq![0u32, if is_invalid_read_address(e) { 2u32 } else { 1u32 }],
    });
    answer
}

/// What a 64 bit read hands to Python: the value and 0, or 0 and the status.
pub fn read_64bit_answer(result: Result<u64, &'static str>) -> (answer: [u64; 2])
    ensures
        answer@ == match result {
            Ok(value) => seq![value, 0u64],
            Err(e) => seq![0u64, if is_invalid_read_address(e) { 2u64 } else { 1u64 }],
        },
{
    let answer = match result {
        Ok(value) => [value, 0],
        Err(error) => if str_eq(error, read_address::INVALID_ADDRESS) {
            [0, 2]
        } else {
            [0, 1]
        },
    };
    assert(answer@ =~= match result {
        Ok(value) => seq![value, 0u64],
        Err(e) => seq![0u64, if is_invalid_read_address(e) { 2u64 } else { 1u64 }],
    });
    answer
}

/// Whether a byte read may come from uninitialized memory (it is 255).
pub fn may_be_uninitialized_value(value: u8) -> (r: bool)
    ensures
        r == (value == 255),
{
    value == 255
}

/// A write that the native side refuses for an invalid address reaches
/// Python as status 2, a successful one as 0.
pub proof fn lemma_write_reported(code: u8)
    requires
        code <= 1,
    ensures
        write_status(write_outcome(code)) == if code == 0 {
            0usize
        } else {
            2usize
        },
{
}

/// An 8 bit read reaches Python as the byte read and status 0, or, for an
/// invalid address, as 0 and status 2.
pub proof fn lemma_read_8bit_reported(a: FromAddress)
    requires
        a.error_code <= 1,
    ensures
        read_8bit_reply(read_8bit_outcome(a)) == if a.error_code == 0 {
            seq![a.data, 0u8]
        } else {
            seq![0u8, 2u8]
        },
{
}

} // verus!
