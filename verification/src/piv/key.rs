use vstd::prelude::*;
use vstd::string::StringSliceAdditionalSpecFns;

use crate::error::Error;

verus! {

/// The length, in bytes, of a 3DES management key.
pub const MGM_KEY_LEN: usize = 24;

/// Whether a byte is an ASCII hexadecimal digit, in either case.
pub open spec fn spec_is_hex_digit(b: u8) -> bool {
    (0x30 <= b <= 0x39) || (0x41 <= b <= 0x46) || (0x61 <= b <= 0x66)
}

/// The value of an ASCII hexadecimal digit.
pub open spec fn spec_hex_value(b: u8) -> int {
    if 0x30 <= b <= 0x39 {
        b - 0x30
    } else if 0x41 <= b <= 0x46 {
        b - 0x41 + 10
    } else {
        b - 0x61 + 10
    }
}

/// Whether some text is an even number of hexadecimal digits.
pub open spec fn spec_hex_valid(s: Seq<u8>) -> bool {
    &&& s.len() % 2 == 0
    &&& forall|i: int| 0 <= i < s.len() ==> spec_is_hex_digit(#[trigger] s[i])
}

/// The bytes that a string of hexadecimal digit pairs denotes, the first digit of each
/// pair being the high half of the byte.
pub open spec fn spec_hex_decode(s: Seq<u8>) -> Seq<u8> {
    Seq::new(
        s.len() / 2,
        |i: int| (16 * spec_hex_value(s[2 * i]) + spec_hex_value(s[2 * i + 1])) as u8,
    )
}

#[verifier::external_type_specification]
#[verifier::external_body]
pub struct ExDecodeError(data_encoding::DecodeError);

/// Calls `data_encoding::HEXLOWER_PERMISSIVE.decode`, which decodes hexadecimal text in
/// either case. Its source decodes exactly the inputs of even length made of the digits
/// 0-9, a-f and A-F (failing first on the length, then on a symbol), and turns each pair of
/// digits into one byte, high half first. It asserts that the input is at most
/// `usize::MAX / 8` bytes long.
#[verifier::external_body]
fn decode_hex(input: &[u8]) -> (r: Result<Vec<u8>, data_encoding::DecodeError>)
    requires
        input@.len() <= usize::MAX / 8,
    ensures
        r is Ok <==> spec_hex_valid(input@),
        r matches Ok(v) ==> v@ == spec_hex_decode(input@),
{
    data_encoding::HEXLOWER_PERMISSIVE.decode(input)
}

/// Parses a 3DES management key written as 48 hexadecimal digits (in either case).
pub fn parse_management_key(key: &str) -> (r: Result<Vec<u8>, Error>)
    ensures
        (key.spec_bytes().len() == 2 * MGM_KEY_LEN && spec_hex_valid(key.spec_bytes())) ==> (
        r matches Ok(k) && k@ == spec_hex_decode(key.spec_bytes())),
        !(key.spec_bytes().len() == 2 * MGM_KEY_LEN && spec_hex_valid(key.spec_bytes()))
            ==> r matches Err(Error::InvalidManagementKey),
        r matches Ok(k) ==> k@.len() == MGM_KEY_LEN,
{
    let bytes = key.as_bytes();
    if bytes.len() != 2 * MGM_KEY_LEN {
        return Err(Error::InvalidManagementKey);
    }
    match decode_hex(bytes) {
        Ok(k) => Ok(k),
        Err(_) => Err(Error::InvalidManagementKey),
    }
}

} // verus!
