use vstd::prelude::*;
use crate::error::UartError;

verus! {

#[verifier::external_type_specification]
#[verifier::external_body]
pub struct ExFromHexError(hex::FromHexError);

/// `c` is one of `0-9`, `a-f`, `A-F`.
pub open spec fn is_hex_digit(c: char) -> bool {
    ('0' <= c && c <= '9') || ('a' <= c && c <= 'f') || ('A' <= c && c <= 'F')
}

/// The value of the hex digit `c`.
pub open spec fn hex_digit_value(c: char) -> int {
    if '0' <= c && c <= '9' {
        c as int - '0' as int
    } else if 'a' <= c && c <= 'f' {
        c as int - 'a' as int + 10
    } else {
        c as int - 'A' as int + 10
    }
}

/// `s` is an even number of hex digits.
pub open spec fn is_hex_text(s: Seq<char>) -> bool {
    &&& s.len() % 2 == 0
    &&& forall|i: int| 0 <= i < s.len() ==> #[trigger] is_hex_digit(s[i])
}

/// The bytes that the hex text `s` stands for: one per pair of digits, the
/// first digit of a pair the high half.
pub open spec fn hex_bytes(s: Seq<char>) -> Seq<u8> {
    Seq::new(
        s.len() / 2,
        |j: int| (16 * hex_digit_value(s[2 * j]) + hex_digit_value(s[2 * j + 1])) as u8,
    )
}

/// Relies on hex::decode: it refuses an odd number of input bytes and any
/// byte outside `0-9`, `a-f`, `A-F`, and otherwise turns each pair into one
/// byte, high half first. A character outside ASCII is encoded as bytes that
/// are no hex digit, so the statement over characters is the same.
#[verifier::external_body]
fn decode_hex(s: &str) -> (r: Result<Vec<u8>, hex::FromHexError>)
    ensures
        r is Ok <==> is_hex_text(s@),
        r matches Ok(v) ==> v@ == hex_bytes(s@),
{
    hex::decode(s)
}

/// The payload of a transmission: the bytes read from standard input where
/// they were read, else the hex argument decoded. A missing or malformed hex
/// argument is an input error, found before any line is opened.
pub fn get_data(stdin_data: Option<Vec<u8>>, hex_arg: Option<&str>) -> (r: Result<Vec<u8>, UartError>)
    ensures
        stdin_data matches Some(b) ==> (r matches Ok(v) && v@ == b@),
        stdin_data is None && hex_arg is None ==> r == Err::<Vec<u8>, UartError>(UartError::InputError),
        stdin_data is None ==> (hex_arg matches Some(s) ==> (is_hex_text(s@) ==> (r matches Ok(
            v,
        ) && v@ == hex_bytes(s@)))),
        stdin_data is None ==> (hex_arg matches Some(s) ==> (!is_hex_text(s@) ==> r == Err::<
            Vec<u8>,
            UartError,
        >(UartError::InputError))),
{
    match stdin_data {
        Some(b) => Ok(b),
        None => match hex_arg {
            None => Err(UartError::InputError),
            Some(s) => match decode_hex(s) {
                Ok(v) => Ok(v),
                Err(_) => Err(UartError::InputError),
            },
        },
    }
}

} // verus!
