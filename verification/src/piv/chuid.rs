use vstd::prelude::*;

use crate::piv::bytes::append_bytes;

verus! {

/// The length of the GUID inside a CHUID.
pub const CHUID_GUID_LEN: usize = 16;

/// The length of the card identifier inside a CCC.
pub const CCC_ID_LEN: usize = 14;

/// The part of the CHUID template before the GUID: FASC-N (tag 30) and the GUID tag (34).
pub open spec fn spec_chuid_prefix() -> Seq<u8> {
    seq![0x30u8, 0x19, 0xd4, 0xe7, 0x39, 0xda, 0x73, 0x9c, 0xed, 0x39, 0xce, 0x73, 0x9d, 0x83, 0x68,
        0x58, 0x21, 0x08, 0x42, 0x10, 0x84, 0x21, 0xc8, 0x42, 0x10, 0xc3, 0xeb, 0x34, 0x10]
}

/// The part of the CHUID template after the GUID: expiration date 2030-01-01 (tag 35), an
/// empty signature (3E) and an empty error detection code (FE).
pub open spec fn spec_chuid_suffix() -> Seq<u8> {
    seq![0x35u8, 0x08, 0x32, 0x30, 0x33, 0x30, 0x30, 0x31, 0x30, 0x31, 0x3e, 0x00, 0xfe, 0x00]
}

/// The part of the CCC template before the card identifier (tag F0).
pub open spec fn spec_ccc_prefix() -> Seq<u8> {
    seq![0xf0u8, 0x15, 0xa0, 0x00, 0x00, 0x01, 0x16, 0xff, 0x02]
}

/// The part of the CCC template after the card identifier: the version and capability
/// fields F1 to FE.
pub open spec fn spec_ccc_suffix() -> Seq<u8> {
    seq![0xf1u8, 0x01, 0x21, 0xf2, 0x01, 0x21, 0xf3, 0x00, 0xf4, 0x01, 0x00, 0xf5, 0x01, 0x10, 0xf6,
        0x00, 0xf7, 0x00, 0xfa, 0x00, 0xfb, 0x00, 0xfc, 0x00, 0xfd, 0x00, 0xfe, 0x00]
}

/// A CHUID with the given GUID.
pub open spec fn spec_chuid(guid: Seq<u8>) -> Seq<u8> {
    spec_chuid_prefix() + guid + spec_chuid_suffix()
}

/// A CCC with the given card identifier.
pub open spec fn spec_ccc(id: Seq<u8>) -> Seq<u8> {
    spec_ccc_prefix() + id + spec_ccc_suffix()
}

/// Builds a CHUID around a 16-byte GUID.
pub fn build_chuid(guid: &[u8]) -> (r: Vec<u8>)
    requires
        guid@.len() == CHUID_GUID_LEN,
    ensures
        r@ == spec_chuid(guid@),
{
    let mut r = vec![0x30, 0x19, 0xd4, 0xe7, 0x39, 0xda, 0x73, 0x9c, 0xed, 0x39, 0xce, 0x73, 0x9d,
        0x83, 0x68, 0x58, 0x21, 0x08, 0x42, 0x10, 0x84, 0x21, 0xc8, 0x42, 0x10, 0xc3, 0xeb, 0x34, 0x10];
    assert(r@ =~= spec_chuid_prefix());
    append_bytes(&mut r, guid);
    let suffix = vec![0x35, 0x08, 0x32, 0x30, 0x33, 0x30, 0x30, 0x31, 0x30, 0x31, 0x3e, 0x00, 0xfe, 0x00];
    assert(suffix@ =~= spec_chuid_suffix());
    append_bytes(&mut r, suffix.as_slice());
    r
}

/// Builds a CCC around a 14-byte card identifier.
pub fn build_ccc(id: &[u8]) -> (r: Vec<u8>)
    requires
        id@.len() == CCC_ID_LEN,
    ensures
        r@ == spec_ccc(id@),
{
    let mut r = vec![0xf0, 0x15, 0xa0, 0x00, 0x00, 0x01, 0x16, 0xff, 0x02];
    assert(r@ =~= spec_ccc_prefix());
    append_bytes(&mut r, id);
    let suffix = vec![0xf1, 0x01, 0x21, 0xf2, 0x01, 0x21, 0xf3, 0x00, 0xf4, 0x01, 0x00, 0xf5, 0x01,
        0x10, 0xf6, 0x00, 0xf7, 0x00, 0xfa, 0x00, 0xfb, 0x00, 0xfc, 0x00, 0xfd, 0x00, 0xfe, 0x00];
    assert(suffix@ =~= spec_ccc_suffix());
    append_bytes(&mut r, suffix.as_slice());
    r
}

/// The CHUID template keeps the GUID under tag 34 (length 16) at bytes 27 to 45, after the
/// FASC-N; the CCC keeps the card identifier under tag F0 (length 21), after the
/// identifier's seven fixed bytes A0 00 00 01 16 FF 02.
pub proof fn lemma_template_layout(guid: Seq<u8>, id: Seq<u8>)
    requires
        guid.len() == 16,
        id.len() == 14,
    ensures
        spec_chuid(guid).len() == 59,
        spec_chuid(guid)[0] == 0x30,
        spec_chuid(guid)[27] == 0x34,
        spec_chuid(guid)[28] == 0x10,
        spec_chuid(guid).subrange(29, 45) == guid,
        spec_ccc(id).len() == 51,
        spec_ccc(id).take(9) == seq![0xF0u8, 0x15, 0xA0, 0x00, 0x00, 0x01, 0x16, 0xFF, 0x02],
        spec_ccc(id).subrange(9, 23) == id,
{
    assert(spec_chuid(guid).subrange(29, 45) =~= guid);
    assert(spec_ccc(id).take(9) =~= seq![0xF0u8, 0x15, 0xA0, 0x00, 0x00, 0x01, 0x16, 0xFF, 0x02]);
    assert(spec_ccc(id).subrange(9, 23) =~= id);
}

} // verus!
