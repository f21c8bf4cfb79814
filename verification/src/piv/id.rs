use vstd::prelude::*;

verus! {

/// The PIV data objects, named by their BER-TLV tags (NIST SP 800-73-4, part 1).
#[derive(Clone, Copy, Debug, PartialEq, Eq, Structural)]
pub enum Object {
    /// Card Capability Container (CCC).
    Capability,
    /// Card Holder Unique Identifier (CHUID).
    Chuid,
    /// X.509 certificate for PIV authentication (slot 9a).
    Authentication,
    /// Cardholder fingerprints.
    Fingerprints,
    /// Security object.
    Security,
    /// Cardholder facial image.
    FacialImage,
    /// Printed information.
    Printed,
    /// X.509 certificate for digital signature (slot 9c).
    Signature,
    /// X.509 certificate for key management (slot 9d).
    KeyManagement,
    /// X.509 certificate for card authentication (slot 9e).
    CardAuthentication,
    /// Discovery object.
    Discovery,
    /// Key history object.
    KeyHistory,
    /// Cardholder iris images.
    Iris,
    /// The YubiKey attestation certificate (slot f9).
    Attestation,
}

impl Object {
    /// The tag that names this object.
    pub open spec fn spec_id(self) -> Seq<u8> {
        match self {
            Object::Capability => seq![0x5Fu8, 0xC1, 0x07],
            Object::Chuid => seq![0x5Fu8, 0xC1, 0x02],
            Object::Authentication => seq![0x5Fu8, 0xC1, 0x05],
            Object::Fingerprints => seq![0x5Fu8, 0xC1, 0x03],
            Object::Security => seq![0x5Fu8, 0xC1, 0x06],
            Object::FacialImage => seq![0x5Fu8, 0xC1, 0x08],
            Object::Printed => seq![0x5Fu8, 0xC1, 0x09],
            Object::Signature => seq![0x5Fu8, 0xC1, 0x0A],
            Object::KeyManagement => seq![0x5Fu8, 0xC1, 0x0B],
            Object::CardAuthentication => seq![0x5Fu8, 0xC1, 0x01],
            Object::Discovery => seq![0x7Eu8],
            Object::KeyHistory => seq![0x5Fu8, 0xC1, 0x0C],
            Object::Iris => seq![0x5Fu8, 0xC1, 0x21],
            Object::Attestation => seq![0x5Fu8, 0xFF, 0x01],
        }
    }

    /// The tag that names this object.
    pub fn id(&self) -> (r: Vec<u8>)
        ensures
            r@ == self.spec_id(),
    {
        match *self {
            Object::Capability => vec![0x5F, 0xC1, 0x07],
            Object::Chuid => vec![0x5F, 0xC1, 0x02],
            Object::Authentication => vec![0x5F, 0xC1, 0x05],
            Object::Fingerprints => vec![0x5F, 0xC1, 0x03],
            Object::Security => vec![0x5F, 0xC1, 0x06],
            Object::FacialImage => vec![0x5F, 0xC1, 0x08],
            Object::Printed => vec![0x5F, 0xC1, 0x09],
            Object::Signature => vec![0x5F, 0xC1, 0x0A],
            Object::KeyManagement => vec![0x5F, 0xC1, 0x0B],
            Object::CardAuthentication => vec![0x5F, 0xC1, 0x01],
            Object::Discovery => vec![0x7E],
            Object::KeyHistory => vec![0x5F, 0xC1, 0x0C],
            Object::Iris => vec![0x5F, 0xC1, 0x21],
            Object::Attestation => vec![0x5F, 0xFF, 0x01],
        }
    }
}

/// The tag of each object, as NIST SP 800-73-4 (part 1, table 3) and the YubiKey
/// attestation object assign them.
pub proof fn lemma_object_tags()
    ensures
        Object::Capability.spec_id() == seq![0x5Fu8, 0xC1, 0x07],
        Object::Chuid.spec_id() == seq![0x5Fu8, 0xC1, 0x02],
        Object::Authentication.spec_id() == seq![0x5Fu8, 0xC1, 0x05],
        Object::Fingerprints.spec_id() == seq![0x5Fu8, 0xC1, 0x03],
        Object::Security.spec_id() == seq![0x5Fu8, 0xC1, 0x06],
        Object::FacialImage.spec_id() == seq![0x5Fu8, 0xC1, 0x08],
        Object::Printed.spec_id() == seq![0x5Fu8, 0xC1, 0x09],
        Object::Signature.spec_id() == seq![0x5Fu8, 0xC1, 0x0A],
        Object::KeyManagement.spec_id() == seq![0x5Fu8, 0xC1, 0x0B],
        Object::CardAuthentication.spec_id() == seq![0x5Fu8, 0xC1, 0x01],
        Object::Discovery.spec_id() == seq![0x7Eu8],
        Object::KeyHistory.spec_id() == seq![0x5Fu8, 0xC1, 0x0C],
        Object::Iris.spec_id() == seq![0x5Fu8, 0xC1, 0x21],
        Object::Attestation.spec_id() == seq![0x5Fu8, 0xFF, 0x01],
{
}

/// Distinct objects have distinct tags.
pub proof fn lemma_ids_distinct(a: Object, b: Object)
    requires
        a.spec_id() == b.spec_id(),
    ensures
        a == b,
{
    let x = a.spec_id();
    let y = b.spec_id();
    assert(x.len() == y.len());
    if x.len() == 3 {
        assert(x[1] == y[1]);
        assert(x[2] == y[2]);
    }
}

} // verus!
