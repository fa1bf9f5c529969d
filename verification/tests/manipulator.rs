use whiskey::whiskey_manipulator::error::{attach, read_address, write_address};
use whiskey::whiskey_manipulator::{
    attach_result, check_byte_order, dettach_result, read_32bit_result, read_64bit_result,
    read_8bit_result, write_result, FromAddress, WindowsProcess,
};
use whiskey::whiskey_python::interpreter::{
    may_be_uninitialized_value, read_32bit_answer, read_64bit_answer, read_8bit_answer,
    write_status_code,
};

fn answer(error_code: u8) -> FromAddress {
    FromAddress { error_code, data: 7, data32: 70_000, data64: 7_000_000_000 }
}

#[test]
fn byte_order_checked() {
    assert_eq!(check_byte_order(0), Ok(()));
    assert_eq!(check_byte_order(1), Ok(()));
    assert_eq!(check_byte_order(2), Err("invalid byte order."));
}

#[test]
fn attach_codes() {
    assert_eq!(attach_result(7, 1, 0), Ok(WindowsProcess { pid: 7, attached: true, byteorder: 1 }));
    assert_eq!(attach_result(7, 1, 1), Err(attach::COULD_NOT_ATTACH));
    assert_eq!(attach_result(7, 1, 2), Err("could not attach, invalid permissions."));
    assert_eq!(attach_result(7, 1, 3), Err(attach::NO_SUCH_PROCESS));
}

#[test]
fn attach_then_dettach() {
    let attached = attach_result(9, 0, 0).unwrap();
    let detached = dettach_result(&attached, 0).unwrap();
    assert_eq!(detached, WindowsProcess { pid: 9, attached: false, byteorder: 0 });
}

#[test]
fn write_codes() {
    assert_eq!(write_result(0), Ok(()));
    assert_eq!(write_result(1), Err("could not write to address,invalid address."));
}

#[test]
fn read_codes() {
    assert_eq!(read_8bit_result(&answer(0)), Ok(7));
    assert_eq!(read_32bit_result(&answer(0)), Ok(70_000));
    assert_eq!(read_64bit_result(&answer(0)), Ok(7_000_000_000));
    assert_eq!(read_8bit_result(&answer(1)), Err(read_address::INVALID_ADDRESS));
    assert_eq!(read_32bit_result(&answer(1)), Err("could not read address,invalid address."));
    assert_eq!(read_64bit_result(&answer(1)), Err(read_address::INVALID_ADDRESS));
}

#[test]
fn python_status_codes() {
    assert_eq!(write_status_code(Ok(())), 0);
    assert_eq!(write_status_code(Err(write_address::INVALID_ADDRESS)), 2);
    assert_eq!(write_status_code(Err("something else")), 1);
    assert_eq!(write_status_code(write_result(1)), 2);
}

#[test]
fn python_read_answers() {
    assert_eq!(read_8bit_answer(Ok(5)), [5, 0]);
    assert_eq!(read_8bit_answer(read_8bit_result(&answer(1))), [0, 2]);
    assert_eq!(read_8bit_answer(Err("other")), [0, 1]);
    assert_eq!(read_32bit_answer(Ok(70_000)), [70_000, 0]);
    assert_eq!(read_32bit_answer(Err(read_address::INVALID_ADDRESS)), [0, 2]);
    assert_eq!(read_64bit_answer(Ok(1)), [1, 0]);
    assert_eq!(read_64bit_answer(Err(write_address::INVALID_ADDRESS)), [0, 1]);
}

#[test]
fn uninitialized_warning() {
    assert!(may_be_uninitialized_value(255));
    assert!(!may_be_uninitialized_value(254));
}
