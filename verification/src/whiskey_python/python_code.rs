//! The Python prelude that every compiled internal script starts with.
use vstd::prelude::*;

verus! {

pub const STARTING_PYTHON_CODE: &'static str =
"
global handle_possible_error
global hex_to_int 
global is_alive
global read_32
global read_64 
global write_32 
global read_8
global write_64
global write_8

def handle_possible_error(error_code):
    
    if error_code == 1 :

        raise Exception('unknown error')

    if error_code == 2 :

        raise Exception('attempted write or read to invalid address')
        
def hex_to_int(hex_value): # this function is from phind ai
    # Remove '0x' prefix if it exists
    
    hex_value = hex_value.replace('\\n','')

    if hex_value.startswith('0x'):
        hex_value = hex_value[2:]

    # Map of hexadecimal characters to decimal values
    hex_map = {
        '0': 0, '1': 1, '2': 2, '3': 3, '4': 4, '5': 5, '6': 6, '7': 7, '8': 8, '9': 9,
        'a': 10, 'b': 11, 'c': 12, 'd': 13, 'e': 14, 'f': 15
    }

    # Convert the hexadecimal number to an integer
    int_value = 0
    for i, digit in enumerate(reversed(hex_value)):
        int_value += hex_map[digit] * (16 ** i)
    
    return int_value

def is_alive():

    return from_rust_check_alive()

def read_32(address):
    
    return_array = from_rust_read_32bit_value(address)

    handle_possible_error(return_array[1])

    return return_array[0]

def read_64(address):
    
    return_array = from_rust_read_64bit_value(address)

    handle_possible_error(return_array[1])

    return return_array[0]

def read_8(address):

    return_array = from_rust_read_8bit_value(address)

    handle_possible_error(return_array[1])

    return return_array[0]

def write_32(address,data):

    handle_possible_error(from_rust_write_32bit_value(address,data))

def write_64(address,data):

    handle_possible_error(from_rust_write_64bit_value(address,data))
def write_8(address,data):

    handle_possible_error(from_rust_write_8bit_value(address,data))
    
";

} // verus!
