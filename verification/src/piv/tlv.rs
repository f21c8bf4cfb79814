use vstd::prelude::*;

use crate::error::Error;
use crate::piv::bytes::{append_bytes, copy_range};

verus! {

/// The tag of the data of a PIV data object.
pub const TAG_OBJECT_DATA: u8 = 0x53;

/// The largest length that a BER-TLV length field written here can hold.
pub const MAX_TLV_LEN: usize = 0xFFFF;

/// The BER encoding of a length: one byte below 0x80, then 0x81 and one byte, then 0x82
/// and two big-endian bytes.
pub open spec fn spec_encode_length(n: nat) -> Seq<u8> {
    if n < 0x80 {
        seq![n as u8]
    } else if n < 0x100 {
        seq![0x81u8, n as u8]
    } else {
        seq![0x82u8, (n / 256) as u8, (n % 256) as u8]
    }
}

/// The length that a BER length field at the start of `b` holds, and the number of bytes
/// that the field takes, if `b` begins with one.
pub open spec fn spec_decode_length(b: Seq<u8>) -> Option<(nat, nat)> {
    if b.len() >= 1 && b[0] < 0x80 {
        Some((b[0] as nat, 1))
    } else if b.len() >= 2 && b[0] == 0x81 {
        Some((b[1] as nat, 2))
    } else if b.len() >= 3 && b[0] == 0x82 {
        Some(((b[1] as nat) * 256 + (b[2] as nat), 3))
    } else {
        None
    }
}

/// The content of a PIV data object as it is stored: tag 0x53, the length, the data.
pub open spec fn spec_wrap_object(data: Seq<u8>) -> Seq<u8> {
    seq![TAG_OBJECT_DATA] + spec_encode_length(data.len()) + data
}

/// The data inside a stored PIV data object: tag 0x53, a length, and exactly that many
/// bytes up to the end.
pub open spec fn spec_unwrap_object(b: Seq<u8>) -> Option<Seq<u8>> {
    if b.len() >= 1 && b[0] == TAG_OBJECT_DATA {
        match spec_decode_length(b.skip(1)) {
            Some((n, c)) => if 1 + c + n == b.len() {
                Some(b.skip((1 + c) as int))
            } else {
                None
            },
            None => None,
        }
    } else {
        None
    }
}

/// Appends the BER encoding of a length.
pub fn push_length(v: &mut Vec<u8>, n: usize)
    requires
        n <= MAX_TLV_LEN,
    ensures
        final(v)@ == old(v)@ + spec_encode_length(n as nat),
{
    if n < 0x80 {
        v.push(n as u8);
    } else if n < 0x100 {
        v.push(0x81);
        v.push(n as u8);
    } else {
        v.push(0x82);
        v.push((n / 256) as u8);
        v.push((n % 256) as u8);
    }
    assert(final(v)@ =~= old(v)@ + spec_encode_length(n as nat));
}

/// Reads the BER length field that starts at `pos`.
pub fn decode_length(b: &[u8], pos: usize) -> (r: Option<(usize, usize)>)
    requires
        pos <= b@.len(),
    ensures
        spec_decode_length(b@.skip(pos as int)) matches Some((n, c)) ==> (r matches Some((rn, rc))
            && rn == n && rc == c),
        spec_decode_length(b@.skip(pos as int)) is None ==> r is None,
{
    let rest = b.len() - pos;
    if rest >= 1 && b[pos] < 0x80 {
        Some((b[pos] as usize, 1))
    } else if rest >= 2 && b[pos] == 0x81 {
        Some((b[pos + 1] as usize, 2))
    } else if rest >= 3 && b[pos] == 0x82 {
        Some(((b[pos + 1] as usize) * 256 + (b[pos + 2] as usize), 3))
    } else {
        None
    }
}

/// Wraps object data for storage on the card (tag 0x53, length, data).
pub fn wrap_object(data: &[u8]) -> (r: Vec<u8>)
    requires
        data@.len() <= MAX_TLV_LEN,
    ensures
        r@ == spec_wrap_object(data@),
{
    let mut r: Vec<u8> = Vec::new();
    r.push(TAG_OBJECT_DATA);
    push_length(&mut r, data.len());
    append_bytes(&mut r, data);
    r
}

/// Takes the data out of a stored PIV data object; fails exactly on a malformed one.
pub fn unwrap_object(b: &[u8]) -> (r: Result<Vec<u8>, Error>)
    ensures
        spec_unwrap_object(b@) matches Some(d) ==> (r matches Ok(v) && v@ == d),
        spec_unwrap_object(b@) is None ==> r matches Err(Error::InvalidResponse),
{
    if b.len() < 1 || b[0] != TAG_OBJECT_DATA {
        return Err(Error::InvalidResponse);
    }
    match decode_length(b, 1) {
        Some((n, c)) => {
            if n <= b.len() && c <= b.len() - n && 1 + c + n == b.len() {
                let v = copy_range(b, 1 + c, b.len());
                assert(b@.skip(1 + c) =~= b@.subrange(1 + c, b@.len() as int));
                Ok(v)
            } else {
                Err(Error::InvalidResponse)
            }
        },
        None => Err(Error::InvalidResponse),
    }
}

/// Decoding the encoding of a length gives that length back, and tells how many bytes
/// the encoding took, whatever follows it.
pub proof fn lemma_decode_of_encode(n: nat, rest: Seq<u8>)
    requires
        n <= MAX_TLV_LEN,
    ensures
        spec_decode_length(spec_encode_length(n) + rest) == Some((n, spec_encode_length(n).len())),
{
    let b = spec_encode_length(n) + rest;
    if n < 0x80 {
        assert(b[0] == n as u8);
    } else if n < 0x100 {
        assert(b[0] == 0x81u8);
        assert(b[1] == n as u8);
    } else {
        assert(b[0] == 0x82u8);
        assert(b[1] == (n / 256) as u8);
        assert(b[2] == (n % 256) as u8);
    }
}

/// Unwrapping a wrapped object gives its data back.
pub proof fn lemma_unwrap_of_wrap(data: Seq<u8>)
    requires
        data.len() <= MAX_TLV_LEN,
    ensures
        spec_unwrap_object(spec_wrap_object(data)) == Some(data),
{
    let b = spec_wrap_object(data);
    let e = spec_encode_length(data.len());
    assert(b.skip(1) =~= e + data);
    lemma_decode_of_encode(data.len(), data);
    assert(b.skip((1 + e.len()) as int) =~= data);
}

} // verus!
