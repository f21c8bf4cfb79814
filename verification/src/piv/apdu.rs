use vstd::prelude::*;

use crate::error::Error;
use crate::piv::bytes::{append_bytes, copy_range};

verus! {

/// The largest command data field that a short APDU can carry.
pub const MAX_APDU_DATA_LEN: usize = 255;

/// The abstract content of a command APDU.
pub struct ApduView {
    pub cla: u8,
    pub ins: u8,
    pub p1: u8,
    pub p2: u8,
    pub data: Seq<u8>,
}

/// The wire form of a command APDU: CLA INS P1 P2 Lc, then the Lc data bytes.
pub open spec fn spec_apdu_bytes(a: ApduView) -> Seq<u8> {
    seq![a.cla, a.ins, a.p1, a.p2, a.data.len() as u8] + a.data
}

/// The command APDU that some bytes encode, if they encode one: at least the five header
/// bytes, and exactly Lc data bytes after them.
pub open spec fn spec_parse_apdu(b: Seq<u8>) -> Option<ApduView> {
    if b.len() >= 5 && b[4] as int == b.len() - 5 {
        Some(ApduView { cla: b[0], ins: b[1], p1: b[2], p2: b[3], data: b.subrange(5, b.len() as int) })
    } else {
        None
    }
}

/// A short command APDU (ISO/IEC 7816-4), with at most 255 data bytes.
#[derive(Debug)]
pub struct Apdu {
    cla: u8,
    ins: u8,
    p1: u8,
    p2: u8,
    data: Vec<u8>,
}

impl Apdu {
    #[verifier::type_invariant]
    spec fn short(&self) -> bool {
        self.data@.len() <= MAX_APDU_DATA_LEN
    }

    /// The abstract content of this APDU.
    pub closed spec fn view(&self) -> ApduView {
        ApduView { cla: self.cla, ins: self.ins, p1: self.p1, p2: self.p2, data: self.data@ }
    }

    /// Builds an APDU; fails exactly when the data does not fit in one short APDU.
    pub fn new(cla: u8, ins: u8, p1: u8, p2: u8, data: &[u8]) -> (r: Result<Apdu, Error>)
        ensures
            data@.len() > MAX_APDU_DATA_LEN ==> r matches Err(Error::DataTooLong),
            data@.len() <= MAX_APDU_DATA_LEN ==> (r matches Ok(a) && a.view() == (ApduView {
                cla,
                ins,
                p1,
                p2,
                data: data@,
            })),
    {
        if data.len() > MAX_APDU_DATA_LEN {
            return Err(Error::DataTooLong);
        }
        let d = copy_range(data, 0, data.len());
        assert(data@.subrange(0, data@.len() as int) =~= data@);
        Ok(Apdu { cla, ins, p1, p2, data: d })
    }

    /// Parses the wire form of a command APDU.
    pub fn from_bytes(bytes: &[u8]) -> (r: Result<Apdu, Error>)
        ensures
            spec_parse_apdu(bytes@) is None ==> r matches Err(Error::InvalidApdu),
            spec_parse_apdu(bytes@) matches Some(v) ==> (r matches Ok(a) && a.view() == v),
    {
        if bytes.len() < 5 || bytes[4] as usize != bytes.len() - 5 {
            return Err(Error::InvalidApdu);
        }
        let data = copy_range(bytes, 5, bytes.len());
        Ok(Apdu { cla: bytes[0], ins: bytes[1], p1: bytes[2], p2: bytes[3], data })
    }

    /// The wire form of this APDU.
    pub fn to_bytes(&self) -> (r: Vec<u8>)
        ensures
            r@ == spec_apdu_bytes(self.view()),
    {
        proof {
            use_type_invariant(self);
        }
        let mut r: Vec<u8> = Vec::new();
        r.push(self.cla);
        r.push(self.ins);
        r.push(self.p1);
        r.push(self.p2);
        r.push(self.data.len() as u8);
        append_bytes(&mut r, self.data.as_slice());
        r
    }

    pub fn cla(&self) -> (r: u8)
        ensures
            r == self.view().cla,
    {
        self.cla
    }

    pub fn ins(&self) -> (r: u8)
        ensures
            r == self.view().ins,
    {
        self.ins
    }

    pub fn p1(&self) -> (r: u8)
        ensures
            r == self.view().p1,
    {
        self.p1
    }

    pub fn p2(&self) -> (r: u8)
        ensures
            r == self.view().p2,
    {
        self.p2
    }

    pub fn data(&self) -> (r: &[u8])
        ensures
            r@ == self.view().data,
            r@.len() <= MAX_APDU_DATA_LEN,
    {
        proof {
            use_type_invariant(self);
        }
        self.data.as_slice()
    }
}

/// Parsing the wire form of a short APDU gives that APDU back.
pub proof fn lemma_parse_of_bytes(a: ApduView)
    requires
        a.data.len() <= MAX_APDU_DATA_LEN,
    ensures
        spec_parse_apdu(spec_apdu_bytes(a)) == Some(a),
{
    let b = spec_apdu_bytes(a);
    assert(b.subrange(5, b.len() as int) =~= a.data);
}

/// Bytes that parse as an APDU are exactly the wire form of that APDU.
pub proof fn lemma_bytes_of_parse(b: Seq<u8>)
    requires
        spec_parse_apdu(b) is Some,
    ensures
        spec_apdu_bytes(spec_parse_apdu(b)->0) == b,
        spec_parse_apdu(b)->0.data.len() <= MAX_APDU_DATA_LEN,
{
    let a = spec_parse_apdu(b)->0;
    assert(spec_apdu_bytes(a) =~= b);
}

} // verus!
