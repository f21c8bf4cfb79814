use vstd::prelude::*;

use crate::error::Error;
use crate::piv::bytes::{bytes_equal, copy_range};
use crate::piv::sw::{spec_status_word, StatusWord};
use crate::piv::tlv::{spec_unwrap_object, unwrap_object};
use crate::piv::version::Version;

verus! {

/// The status word and the data of a raw response APDU: the data is everything but the
/// last two bytes, which are SW1 and SW2.
pub open spec fn spec_parse_response(b: Seq<u8>) -> Option<(StatusWord, Seq<u8>)> {
    if b.len() >= 2 {
        Some(
            (
                spec_status_word((b[b.len() - 2] * 256 + b[b.len() - 1]) as u16),
                b.subrange(0, b.len() - 2),
            ),
        )
    } else {
        None
    }
}

/// The header of the witness in the first answer to GENERAL AUTHENTICATE:
/// dynamic authentication template (7C), length 10, witness tag (80), length 8.
pub open spec fn spec_witness_header() -> Seq<u8> {
    seq![0x7Cu8, 0x0A, 0x80, 0x08]
}

/// The header of the answer to the challenge in GENERAL AUTHENTICATE:
/// dynamic authentication template (7C), length 10, response tag (82), length 8.
pub open spec fn spec_challenge_response_header() -> Seq<u8> {
    seq![0x7Cu8, 0x0A, 0x82, 0x08]
}

/// What the answer to GET VERSION gives: the card's error status, or the version in the
/// three data bytes.
pub open spec fn spec_version_outcome(sw: StatusWord, data: Seq<u8>) -> Result<Version, Error> {
    if sw != StatusWord::Success {
        Err(Error::Status(sw))
    } else if data.len() == 3 {
        Ok(Version { major: data[0], minor: data[1], patch: data[2] })
    } else {
        Err(Error::InvalidVersion)
    }
}

/// What the card's first answer to GENERAL AUTHENTICATE gives: the card's error status,
/// or the encrypted witness after its header.
pub open spec fn spec_witness_outcome(sw: StatusWord, data: Seq<u8>) -> Result<Seq<u8>, Error> {
    if sw != StatusWord::Success {
        Err(Error::Status(sw))
    } else if data.len() == 12 && data.take(4) == spec_witness_header() {
        Ok(data.skip(4))
    } else {
        Err(Error::InvalidResponse)
    }
}

/// Whether the card's answer to our challenge proves that it holds the key.
pub open spec fn spec_challenge_outcome(sw: StatusWord, data: Seq<u8>, expected: Seq<u8>) -> Result<
    (),
    Error,
> {
    if sw == StatusWord::Success && data == spec_challenge_response_header() + expected {
        Ok(())
    } else {
        Err(Error::AuthenticationFailure)
    }
}

/// What the answer to GET DATA gives: the card's error status, or the object's data.
pub open spec fn spec_object_outcome(sw: StatusWord, data: Seq<u8>) -> Result<Seq<u8>, Error> {
    if sw != StatusWord::Success {
        Err(Error::Status(sw))
    } else {
        match spec_unwrap_object(data) {
            Some(d) => Ok(d),
            None => Err(Error::InvalidResponse),
        }
    }
}

/// A result that carries a byte vector, with the vector taken by its view.
pub open spec fn spec_vec_result(r: Result<Vec<u8>, Error>) -> Result<Seq<u8>, Error> {
    match r {
        Ok(v) => Ok(v@),
        Err(e) => Err(e),
    }
}

/// Splits a raw response APDU into its status word and its data; fails exactly when it is
/// shorter than the two status bytes.
pub fn parse_response(b: &[u8]) -> (r: Result<(StatusWord, Vec<u8>), Error>)
    ensures
        spec_parse_response(b@) matches Some((sw, d)) ==> (r matches Ok((rsw, rd)) && rsw == sw
            && rd@ == d),
        spec_parse_response(b@) is None ==> r matches Err(Error::InvalidResponse),
{
    if b.len() < 2 {
        return Err(Error::InvalidResponse);
    }
    let n = b.len();
    let sw = StatusWord::from_bytes(b[n - 2], b[n - 1]);
    let data = copy_range(b, 0, n - 2);
    Ok((sw, data))
}

/// The version in the answer to GET VERSION.
pub fn version_outcome(sw: StatusWord, data: &[u8]) -> (r: Result<Version, Error>)
    ensures
        sw != StatusWord::Success ==> r == Err::<Version, Error>(Error::Status(sw)),
        sw == StatusWord::Success && data@.len() == 3 ==> r == Ok::<Version, Error>(
            Version { major: data@[0], minor: data@[1], patch: data@[2] },
        ),
        sw == StatusWord::Success && data@.len() != 3 ==> r matches Err(Error::InvalidVersion),
        r == spec_version_outcome(sw, data@),
{
    match sw.to_result() {
        Ok(()) => Version::new(data),
        Err(e) => Err(e),
    }
}

/// The witness (still encrypted) in the card's first answer to GENERAL AUTHENTICATE.
pub fn witness_outcome(sw: StatusWord, data: &[u8]) -> (r: Result<Vec<u8>, Error>)
    ensures
        sw != StatusWord::Success ==> r == Err::<Vec<u8>, Error>(Error::Status(sw)),
        sw == StatusWord::Success && data@.len() == 12 && data@.take(4) == spec_witness_header()
            ==> (r matches Ok(w) && w@ == data@.skip(4)),
        sw == StatusWord::Success && !(data@.len() == 12 && data@.take(4) == spec_witness_header())
            ==> r matches Err(Error::InvalidResponse),
        spec_vec_result(r) == spec_witness_outcome(sw, data@),
{
    match sw.to_result() {
        Ok(()) => {
            if data.len() == 12 && data[0] == 0x7C && data[1] == 0x0A && data[2] == 0x80 && data[3]
                == 0x08 {
                assert(data@.take(4) =~= spec_witness_header());
                let w = copy_range(data, 4, 12);
                assert(w@ =~= data@.skip(4));
                Ok(w)
            } else {
                assert(data@.len() == 12 ==> data@.take(4)[0] == data@[0] && data@.take(4)[1]
                    == data@[1] && data@.take(4)[2] == data@[2] && data@.take(4)[3] == data@[3]);
                Err(Error::InvalidResponse)
            }
        },
        Err(e) => Err(e),
    }
}

/// Whether the card's answer to our challenge proves that it holds the management key:
/// success, with exactly our challenge encrypted under the key (`expected`).
pub fn challenge_outcome(sw: StatusWord, data: &[u8], expected: &[u8]) -> (r: Result<(), Error>)
    ensures
        (sw == StatusWord::Success && data@ == spec_challenge_response_header() + expected@) ==> r
            is Ok,
        !(sw == StatusWord::Success && data@ == spec_challenge_response_header() + expected@)
            ==> r matches Err(Error::AuthenticationFailure),
        r == spec_challenge_outcome(sw, data@, expected@),
{
    if !sw.is_success() || data.len() < 4 {
        return Err(Error::AuthenticationFailure);
    }
    let header = copy_range(data, 0, 4);
    let rest = copy_range(data, 4, data.len());
    let header_ok = header[0] == 0x7C && header[1] == 0x0A && header[2] == 0x82 && header[3] == 0x08;
    let rest_ok = bytes_equal(rest.as_slice(), expected);
    proof {
        assert(data@ =~= header@ + rest@);
        if data@ == spec_challenge_response_header() + expected@ {
            assert(header@ =~= spec_challenge_response_header());
            assert(rest@ =~= expected@);
        }
        if header_ok && rest_ok {
            assert(header@ =~= spec_challenge_response_header());
        }
    }
    if header_ok && rest_ok {
        Ok(())
    } else {
        Err(Error::AuthenticationFailure)
    }
}

/// The data of an object in the answer to GET DATA.
pub fn object_outcome(sw: StatusWord, data: &[u8]) -> (r: Result<Vec<u8>, Error>)
    ensures
        sw != StatusWord::Success ==> r == Err::<Vec<u8>, Error>(Error::Status(sw)),
        sw == StatusWord::Success ==> (spec_unwrap_object(data@) matches Some(d) ==> (r matches Ok(
            v,
        ) && v@ == d)),
        sw == StatusWord::Success && spec_unwrap_object(data@) is None ==> r matches Err(
            Error::InvalidResponse,
        ),
        spec_vec_result(r) == spec_object_outcome(sw, data@),
{
    match sw.to_result() {
        Ok(()) => unwrap_object(data),
        Err(e) => Err(e),
    }
}

/// A response APDU is its data followed by the two status bytes, and parses back into
/// exactly those.
pub proof fn lemma_parse_response_of_parts(data: Seq<u8>, sw1: u8, sw2: u8)
    ensures
        spec_parse_response(data + seq![sw1, sw2]) == Some(
            (spec_status_word((sw1 * 256 + sw2) as u16), data),
        ),
{
    let b = data + seq![sw1, sw2];
    assert(b.subrange(0, b.len() - 2) =~= data);
}

/// The answers to GENERAL AUTHENTICATE: the witness comes as 7C 0A 80 08 and eight bytes,
/// the card's answer to our challenge as 7C 0A 82 08 and eight bytes; GET VERSION's three
/// data bytes are the major, minor and patch numbers, in that order.
pub proof fn lemma_answer_layouts(a: u8, b: u8, c: u8)
    ensures
        spec_witness_header() == seq![0x7Cu8, 0x0A, 0x80, 0x08],
        spec_challenge_response_header() == seq![0x7Cu8, 0x0A, 0x82, 0x08],
        spec_version_outcome(StatusWord::Success, seq![a, b, c]) == Ok::<Version, Error>(
            Version { major: a, minor: b, patch: c },
        ),
{
}

} // verus!
