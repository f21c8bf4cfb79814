use vstd::prelude::*;

use crate::error::Secret;
use crate::piv::apdu::MAX_APDU_DATA_LEN;
use crate::piv::bytes::{append_bytes, copy_range};
use crate::piv::id::Object;
use crate::piv::pin::SECRET_MAX_LEN;
use crate::piv::tlv::{spec_wrap_object, wrap_object, MAX_TLV_LEN};

verus! {

pub const INS_VERIFY: u8 = 0x20;
pub const INS_CHANGE_REFERENCE: u8 = 0x24;
pub const INS_RESET_RETRY_COUNTER: u8 = 0x2C;
pub const INS_AUTHENTICATE: u8 = 0x87;
pub const INS_SELECT: u8 = 0xA4;
pub const INS_GET_RESPONSE: u8 = 0xC0;
pub const INS_GET_DATA: u8 = 0xCB;
pub const INS_PUT_DATA: u8 = 0xDB;
pub const INS_SET_PIN_RETRIES: u8 = 0xFA;
pub const INS_RESET: u8 = 0xFB;
pub const INS_GET_VERSION: u8 = 0xFD;
pub const INS_SET_MGM_KEY: u8 = 0xFF;

/// The class byte that marks a command APDU which more APDUs of the same command follow.
pub const CLA_CHAINING: u8 = 0x10;

/// The algorithm reference of 3DES.
pub const ALGORITHM_3DES: u8 = 0x03;

/// The key reference of the card management key.
pub const KEY_CARD_MANAGEMENT: u8 = 0x9B;

/// The key reference of a secret in VERIFY, CHANGE REFERENCE DATA and RESET RETRY COUNTER.
pub open spec fn spec_secret_reference(secret: Secret) -> u8 {
    match secret {
        Secret::Pin => 0x80,
        Secret::Puk => 0x81,
    }
}

/// SELECT of the PIV application (AID A0 00 00 03 08).
pub open spec fn spec_select_application() -> Seq<u8> {
    seq![0x00u8, INS_SELECT, 0x04, 0x00, 0x05, 0xA0, 0x00, 0x00, 0x03, 0x08]
}

/// The YubiKey GET VERSION command.
pub open spec fn spec_get_version() -> Seq<u8> {
    seq![0x00u8, INS_GET_VERSION, 0x00, 0x00, 0x00]
}

/// GET RESPONSE, which fetches the next part of a long response.
pub open spec fn spec_get_response() -> Seq<u8> {
    seq![0x00u8, INS_GET_RESPONSE, 0x00, 0x00, 0x00]
}

/// The YubiKey RESET command, which erases the PIV application.
pub open spec fn spec_reset() -> Seq<u8> {
    seq![0x00u8, INS_RESET, 0x00, 0x00, 0x00]
}

/// VERIFY of a padded PIN.
pub open spec fn spec_verify_pin(pin: Seq<u8>) -> Seq<u8> {
    seq![0x00u8, INS_VERIFY, 0x00, 0x80, 0x08] + pin
}

/// CHANGE REFERENCE DATA of a padded PIN or PUK.
pub open spec fn spec_change_reference(secret: Secret, old: Seq<u8>, new: Seq<u8>) -> Seq<u8> {
    seq![0x00u8, INS_CHANGE_REFERENCE, 0x00, spec_secret_reference(secret), 0x10] + old + new
}

/// RESET RETRY COUNTER: unblocks the PIN with the PUK and sets a new PIN (both padded).
pub open spec fn spec_reset_retry_counter(puk: Seq<u8>, new_pin: Seq<u8>) -> Seq<u8> {
    seq![0x00u8, INS_RESET_RETRY_COUNTER, 0x00, 0x80, 0x10] + puk + new_pin
}

/// The YubiKey SET PIN RETRIES command.
pub open spec fn spec_set_retries(pin_retries: u8, puk_retries: u8) -> Seq<u8> {
    seq![0x00u8, INS_SET_PIN_RETRIES, pin_retries, puk_retries, 0x00]
}

/// The YubiKey SET MANAGEMENT KEY command; P2 is 0xFE when the key must be used with a touch.
pub open spec fn spec_set_management_key(key: Seq<u8>, touch: bool) -> Seq<u8> {
    seq![0x00u8, INS_SET_MGM_KEY, 0xFF, if touch { 0xFEu8 } else { 0xFFu8 }, 0x1B, ALGORITHM_3DES,
        KEY_CARD_MANAGEMENT, 0x18] + key
}

/// GENERAL AUTHENTICATE with the management key, first step: asks the card for a witness.
pub open spec fn spec_auth_witness_request() -> Seq<u8> {
    seq![0x00u8, INS_AUTHENTICATE, ALGORITHM_3DES, KEY_CARD_MANAGEMENT, 0x04, 0x7C, 0x02, 0x80, 0x00]
}

/// GENERAL AUTHENTICATE, second step: the decrypted witness, and a challenge for the card.
pub open spec fn spec_auth_challenge(witness: Seq<u8>, challenge: Seq<u8>) -> Seq<u8> {
    seq![0x00u8, INS_AUTHENTICATE, ALGORITHM_3DES, KEY_CARD_MANAGEMENT, 0x16, 0x7C, 0x14, 0x80, 0x08]
        + witness + seq![0x81u8, 0x08] + challenge
}

/// GET DATA of a data object.
pub open spec fn spec_get_data(object: Object) -> Seq<u8> {
    seq![0x00u8, INS_GET_DATA, 0x3F, 0xFF, (object.spec_id().len() + 2) as u8, 0x5C,
        object.spec_id().len() as u8] + object.spec_id()
}

/// The data field of PUT DATA: the object's tag, then the object's data wrapped in tag 0x53.
pub open spec fn spec_put_data_field(object: Object, data: Seq<u8>) -> Seq<u8> {
    seq![0x5Cu8, object.spec_id().len() as u8] + object.spec_id() + spec_wrap_object(data)
}

/// The APDUs that carry a command whose data field may be longer than one APDU allows:
/// chunks of 255 bytes with the chaining class byte, then the rest in a last APDU.
pub open spec fn spec_chain(ins: u8, p1: u8, p2: u8, data: Seq<u8>) -> Seq<Seq<u8>>
    decreases data.len(),
{
    if data.len() <= MAX_APDU_DATA_LEN {
        seq![seq![0x00u8, ins, p1, p2, data.len() as u8] + data]
    } else {
        seq![seq![CLA_CHAINING, ins, p1, p2, 0xFFu8] + data.take(MAX_APDU_DATA_LEN as int)]
            + spec_chain(ins, p1, p2, data.skip(MAX_APDU_DATA_LEN as int))
    }
}

/// The data fields of a sequence of APDUs, joined.
pub open spec fn spec_joined_data(apdus: Seq<Seq<u8>>) -> Seq<u8>
    decreases apdus.len(),
{
    if apdus.len() == 0 {
        Seq::empty()
    } else {
        apdus[0].skip(5) + spec_joined_data(apdus.skip(1))
    }
}

/// SET PIN RETRIES (00 FA P1 P2 00) carries the PIN's number of attempts in P1 and the
/// PUK's in P2.
pub proof fn lemma_set_retries_counts(pin_retries: u8, puk_retries: u8)
    ensures
        spec_set_retries(pin_retries, puk_retries).len() == 5,
        spec_set_retries(pin_retries, puk_retries)[0] == 0x00,
        spec_set_retries(pin_retries, puk_retries)[1] == 0xFA,
        spec_set_retries(pin_retries, puk_retries)[2] == pin_retries,
        spec_set_retries(pin_retries, puk_retries)[3] == puk_retries,
        spec_set_retries(pin_retries, puk_retries)[4] == 0x00,
{
}

/// SET MANAGEMENT KEY (00 FF FF P2 1B 03 9B 18, then the key): P2 is 0xFE exactly when
/// the new key must be used with a touch, and 0xFF exactly when it need not; the data
/// field is the 3DES algorithm, the card management key reference, the key's length and
/// the key itself.
pub proof fn lemma_set_management_key_touch(key: Seq<u8>, touch: bool)
    ensures
        spec_set_management_key(key, touch).len() == 8 + key.len(),
        spec_set_management_key(key, touch)[0] == 0x00,
        spec_set_management_key(key, touch)[1] == 0xFF,
        spec_set_management_key(key, touch)[2] == 0xFF,
        spec_set_management_key(key, touch)[3] == 0xFE <==> touch,
        spec_set_management_key(key, touch)[3] == 0xFF <==> !touch,
        spec_set_management_key(key, touch)[4] == 0x1B,
        spec_set_management_key(key, touch)[5] == 0x03,
        spec_set_management_key(key, touch)[6] == 0x9B,
        spec_set_management_key(key, touch)[7] == 0x18,
        spec_set_management_key(key, touch).skip(8) == key,
{
    assert(spec_set_management_key(key, touch).skip(8) =~= key);
}

/// SELECT of the PIV application is 00 A4 04 00 with the five-byte AID A0 00 00 03 08.
pub proof fn lemma_select_application_bytes()
    ensures
        spec_select_application() == seq![0x00u8, 0xA4, 0x04, 0x00, 0x05, 0xA0, 0x00, 0x00, 0x03, 0x08],
{
}

/// GET DATA (00 CB 3F FF) asks for an object by its tag: the data field is the tag list
/// 5C, the tag's length and the object's tag.
pub proof fn lemma_get_data_asks_for_tag(object: Object)
    ensures
        spec_get_data(object).len() == 7 + object.spec_id().len(),
        spec_get_data(object)[0] == 0x00,
        spec_get_data(object)[1] == 0xCB,
        spec_get_data(object)[2] == 0x3F,
        spec_get_data(object)[3] == 0xFF,
        spec_get_data(object)[4] == object.spec_id().len() + 2,
        spec_get_data(object)[5] == 0x5C,
        spec_get_data(object)[6] == object.spec_id().len(),
        spec_get_data(object).skip(7) == object.spec_id(),
{
    assert(1 <= object.spec_id().len() <= 3);
    assert(spec_get_data(object).skip(7) =~= object.spec_id());
}

/// The data field of PUT DATA names the object by its tag (5C, the tag's length, the
/// tag) before the object's data.
pub proof fn lemma_put_data_names_tag(object: Object, data: Seq<u8>)
    ensures
        spec_put_data_field(object, data)[0] == 0x5C,
        spec_put_data_field(object, data)[1] == object.spec_id().len(),
        spec_put_data_field(object, data).subrange(2, 2 + object.spec_id().len() as int) == object.spec_id(),
{
    assert(1 <= object.spec_id().len() <= 3);
    assert(spec_put_data_field(object, data).subrange(2, 2 + object.spec_id().len() as int) =~= object.spec_id());
}

/// The fixed commands, byte for byte: GET VERSION (00 FD 00 00 00), GET RESPONSE
/// (00 C0 00 00 00), RESET (00 FB 00 00 00), and the witness request of GENERAL
/// AUTHENTICATE with the 3DES management key (00 87 03 9B 04 7C 02 80 00).
pub proof fn lemma_fixed_command_bytes()
    ensures
        spec_get_version() == seq![0x00u8, 0xFD, 0x00, 0x00, 0x00],
        spec_get_response() == seq![0x00u8, 0xC0, 0x00, 0x00, 0x00],
        spec_reset() == seq![0x00u8, 0xFB, 0x00, 0x00, 0x00],
        spec_auth_witness_request() == seq![0x00u8, 0x87, 0x03, 0x9B, 0x04, 0x7C, 0x02, 0x80, 0x00],
{
}

/// The PIN commands: VERIFY (00 20 00 80 08) carries the padded PIN; CHANGE REFERENCE DATA
/// (00 24 00 P2 10) names the PIN by 80 and the PUK by 81 and carries the current secret,
/// then the new one; RESET RETRY COUNTER (00 2C 00 80 10) carries the PUK, then the new PIN.
pub proof fn lemma_secret_command_layout(secret: Secret, a: Seq<u8>, b: Seq<u8>)
    requires
        a.len() == 8,
        b.len() == 8,
    ensures
        spec_verify_pin(a).take(5) == seq![0x00u8, 0x20, 0x00, 0x80, 0x08],
        spec_verify_pin(a).skip(5) == a,
        spec_change_reference(secret, a, b).take(5) == seq![
            0x00u8,
            0x24,
            0x00,
            if secret == Secret::Pin { 0x80u8 } else { 0x81u8 },
            0x10,
        ],
        spec_change_reference(secret, a, b).subrange(5, 13) == a,
        spec_change_reference(secret, a, b).skip(13) == b,
        spec_reset_retry_counter(a, b).take(5) == seq![0x00u8, 0x2C, 0x00, 0x80, 0x10],
        spec_reset_retry_counter(a, b).subrange(5, 13) == a,
        spec_reset_retry_counter(a, b).skip(13) == b,
{
    assert(spec_verify_pin(a).take(5) =~= seq![0x00u8, 0x20, 0x00, 0x80, 0x08]);
    assert(spec_verify_pin(a).skip(5) =~= a);
    assert(spec_change_reference(secret, a, b).take(5) =~= seq![
        0x00u8,
        0x24,
        0x00,
        if secret == Secret::Pin { 0x80u8 } else { 0x81u8 },
        0x10,
    ]);
    assert(spec_change_reference(secret, a, b).subrange(5, 13) =~= a);
    assert(spec_change_reference(secret, a, b).skip(13) =~= b);
    assert(spec_reset_retry_counter(a, b).take(5) =~= seq![0x00u8, 0x2C, 0x00, 0x80, 0x10]);
    assert(spec_reset_retry_counter(a, b).subrange(5, 13) =~= a);
    assert(spec_reset_retry_counter(a, b).skip(13) =~= b);
}

/// The second step of GENERAL AUTHENTICATE (00 87 03 9B 16, then the template 7C 14):
/// the decrypted witness under tag 80 and our challenge under tag 81, eight bytes each.
pub proof fn lemma_auth_challenge_layout(witness: Seq<u8>, challenge: Seq<u8>)
    requires
        witness.len() == 8,
        challenge.len() == 8,
    ensures
        spec_auth_challenge(witness, challenge).len() == 27,
        spec_auth_challenge(witness, challenge).take(9) == seq![0x00u8, 0x87, 0x03, 0x9B, 0x16, 0x7C, 0x14, 0x80, 0x08],
        spec_auth_challenge(witness, challenge).subrange(9, 17) == witness,
        spec_auth_challenge(witness, challenge)[17] == 0x81,
        spec_auth_challenge(witness, challenge)[18] == 0x08,
        spec_auth_challenge(witness, challenge).skip(19) == challenge,
{
    let c = spec_auth_challenge(witness, challenge);
    assert(c.take(9) =~= seq![0x00u8, 0x87, 0x03, 0x9B, 0x16, 0x7C, 0x14, 0x80, 0x08]);
    assert(c.subrange(9, 17) =~= witness);
    assert(c.skip(19) =~= challenge);
}

pub fn select_application() -> (r: Vec<u8>)
    ensures
        r@ == spec_select_application(),
{
    let r = vec![0x00, INS_SELECT, 0x04, 0x00, 0x05, 0xA0, 0x00, 0x00, 0x03, 0x08];
    assert(r@ =~= spec_select_application());
    r
}

pub fn get_version() -> (r: Vec<u8>)
    ensures
        r@ == spec_get_version(),
{
    let r = vec![0x00, INS_GET_VERSION, 0x00, 0x00, 0x00];
    assert(r@ =~= spec_get_version());
    r
}

pub fn get_response() -> (r: Vec<u8>)
    ensures
        r@ == spec_get_response(),
{
    let r = vec![0x00, INS_GET_RESPONSE, 0x00, 0x00, 0x00];
    assert(r@ =~= spec_get_response());
    r
}

pub fn reset() -> (r: Vec<u8>)
    ensures
        r@ == spec_reset(),
{
    let r = vec![0x00, INS_RESET, 0x00, 0x00, 0x00];
    assert(r@ =~= spec_reset());
    r
}

pub fn verify_pin(pin: &[u8]) -> (r: Vec<u8>)
    requires
        pin@.len() == SECRET_MAX_LEN,
    ensures
        r@ == spec_verify_pin(pin@),
{
    let mut r = vec![0x00, INS_VERIFY, 0x00, 0x80, 0x08];
    append_bytes(&mut r, pin);
    r
}

fn secret_reference(secret: Secret) -> (r: u8)
    ensures
        r == spec_secret_reference(secret),
{
    match secret {
        Secret::Pin => 0x80,
        Secret::Puk => 0x81,
    }
}

pub fn change_reference(secret: Secret, old: &[u8], new: &[u8]) -> (r: Vec<u8>)
    requires
        old@.len() == SECRET_MAX_LEN,
        new@.len() == SECRET_MAX_LEN,
    ensures
        r@ == spec_change_reference(secret, old@, new@),
{
    let mut r = vec![0x00, INS_CHANGE_REFERENCE, 0x00, secret_reference(secret), 0x10];
    append_bytes(&mut r, old);
    append_bytes(&mut r, new);
    r
}

pub fn reset_retry_counter(puk: &[u8], new_pin: &[u8]) -> (r: Vec<u8>)
    requires
        puk@.len() == SECRET_MAX_LEN,
        new_pin@.len() == SECRET_MAX_LEN,
    ensures
        r@ == spec_reset_retry_counter(puk@, new_pin@),
{
    let mut r = vec![0x00, INS_RESET_RETRY_COUNTER, 0x00, 0x80, 0x10];
    append_bytes(&mut r, puk);
    append_bytes(&mut r, new_pin);
    r
}

pub fn set_retries(pin_retries: u8, puk_retries: u8) -> (r: Vec<u8>)
    ensures
        r@ == spec_set_retries(pin_retries, puk_retries),
{
    let r = vec![0x00, INS_SET_PIN_RETRIES, pin_retries, puk_retries, 0x00];
    assert(r@ =~= spec_set_retries(pin_retries, puk_retries));
    r
}

pub fn set_management_key(key: &[u8], touch: bool) -> (r: Vec<u8>)
    requires
        key@.len() == 24,
    ensures
        r@ == spec_set_management_key(key@, touch),
{
    let p2: u8 = if touch { 0xFE } else { 0xFF };
    let mut r = vec![0x00, INS_SET_MGM_KEY, 0xFF, p2, 0x1B, ALGORITHM_3DES, KEY_CARD_MANAGEMENT, 0x18];
    append_bytes(&mut r, key);
    r
}

pub fn auth_witness_request() -> (r: Vec<u8>)
    ensures
        r@ == spec_auth_witness_request(),
{
    let r = vec![0x00, INS_AUTHENTICATE, ALGORITHM_3DES, KEY_CARD_MANAGEMENT, 0x04, 0x7C, 0x02, 0x80, 0x00];
    assert(r@ =~= spec_auth_witness_request());
    r
}

pub fn auth_challenge(witness: &[u8], challenge: &[u8]) -> (r: Vec<u8>)
    requires
        witness@.len() == 8,
        challenge@.len() == 8,
    ensures
        r@ == spec_auth_challenge(witness@, challenge@),
{
    let mut r = vec![0x00, INS_AUTHENTICATE, ALGORITHM_3DES, KEY_CARD_MANAGEMENT, 0x16, 0x7C, 0x14, 0x80, 0x08];
    append_bytes(&mut r, witness);
    r.push(0x81);
    r.push(0x08);
    append_bytes(&mut r, challenge);
    assert(r@ =~= spec_auth_challenge(witness@, challenge@));
    r
}

pub fn get_data(object: Object) -> (r: Vec<u8>)
    ensures
        r@ == spec_get_data(object),
{
    let id = object.id();
    let lc: u8 = (id.len() + 2) as u8;
    let id_len: u8 = id.len() as u8;
    let mut r = vec![0x00, INS_GET_DATA, 0x3F, 0xFF, lc, 0x5C, id_len];
    append_bytes(&mut r, id.as_slice());
    r
}

pub fn put_data_field(object: Object, data: &[u8]) -> (r: Vec<u8>)
    requires
        data@.len() <= MAX_TLV_LEN,
    ensures
        r@ == spec_put_data_field(object, data@),
{
    let id = object.id();
    let id_len: u8 = id.len() as u8;
    let mut r = vec![0x5C, id_len];
    append_bytes(&mut r, id.as_slice());
    let wrapped = wrap_object(data);
    append_bytes(&mut r, wrapped.as_slice());
    assert(r@ =~= spec_put_data_field(object, data@));
    r
}

/// Splits a command with a long data field into chained APDUs.
pub fn chain(ins: u8, p1: u8, p2: u8, data: &[u8]) -> (r: Vec<Vec<u8>>)
    ensures
        r@.len() == spec_chain(ins, p1, p2, data@).len(),
        forall|i: int| 0 <= i < r@.len() ==> #[trigger] r@[i]@ == spec_chain(ins, p1, p2, data@)[i],
{
    let mut r: Vec<Vec<u8>> = Vec::new();
    let ghost mut done: Seq<Seq<u8>> = Seq::empty();
    let mut off: usize = 0;
    proof {
        assert(data@.skip(0) =~= data@);
        assert(done + spec_chain(ins, p1, p2, data@) =~= spec_chain(ins, p1, p2, data@));
    }
    while data.len() - off > MAX_APDU_DATA_LEN
        invariant
            off <= data@.len(),
            r@.len() == done.len(),
            forall|i: int| 0 <= i < r@.len() ==> #[trigger] r@[i]@ == done[i],
            done + spec_chain(ins, p1, p2, data@.skip(off as int)) == spec_chain(ins, p1, p2, data@),
        decreases data@.len() - off,
    {
        let ghost rest = data@.skip(off as int);
        let mut apdu = vec![CLA_CHAINING, ins, p1, p2, 0xFF];
        let chunk = copy_range(data, off, off + MAX_APDU_DATA_LEN);
        append_bytes(&mut apdu, chunk.as_slice());
        proof {
            assert(rest.take(MAX_APDU_DATA_LEN as int) =~= chunk@);
            assert(rest.skip(MAX_APDU_DATA_LEN as int) =~= data@.skip(off + MAX_APDU_DATA_LEN));
            assert(spec_chain(ins, p1, p2, rest) == seq![apdu@] + spec_chain(
                ins,
                p1,
                p2,
                data@.skip(off + MAX_APDU_DATA_LEN),
            ));
            assert(done.push(apdu@) + spec_chain(ins, p1, p2, data@.skip(off + MAX_APDU_DATA_LEN))
                =~= done + spec_chain(ins, p1, p2, rest));
        }
        r.push(apdu);
        proof {
            done = done.push(apdu@);
        }
        off = off + MAX_APDU_DATA_LEN;
    }
    let ghost rest = data@.skip(off as int);
    let last_len: u8 = (data.len() - off) as u8;
    let mut last = vec![0x00, ins, p1, p2, last_len];
    let chunk = copy_range(data, off, data.len());
    append_bytes(&mut last, chunk.as_slice());
    proof {
        assert(rest =~= chunk@);
        assert(spec_chain(ins, p1, p2, rest) == seq![last@]);
        assert(done.push(last@) =~= done + spec_chain(ins, p1, p2, rest));
    }
    r.push(last);
    proof {
        done = done.push(last@);
    }
    r
}

/// Chaining keeps the data: the data fields of the chained APDUs, joined, are the
/// command's data field.
pub proof fn lemma_chain_keeps_data(ins: u8, p1: u8, p2: u8, data: Seq<u8>)
    ensures
        spec_joined_data(spec_chain(ins, p1, p2, data)) == data,
    decreases data.len(),
{
    let c = spec_chain(ins, p1, p2, data);
    if data.len() <= MAX_APDU_DATA_LEN {
        assert(c[0].skip(5) =~= data);
        assert(c.skip(1) =~= Seq::<Seq<u8>>::empty());
        assert(spec_joined_data(c.skip(1)) == Seq::<u8>::empty());
        assert(spec_joined_data(c) =~= data);
    } else {
        let rest = data.skip(MAX_APDU_DATA_LEN as int);
        lemma_chain_keeps_data(ins, p1, p2, rest);
        assert(c.skip(1) =~= spec_chain(ins, p1, p2, rest));
        assert(c[0].skip(5) =~= data.take(MAX_APDU_DATA_LEN as int));
        assert(spec_joined_data(c) =~= data);
    }
}

/// Every chained APDU is a well-formed short APDU; all but the last carry the chaining
/// class byte and 255 data bytes, and the last one carries the plain class byte.
pub proof fn lemma_chain_shape(ins: u8, p1: u8, p2: u8, data: Seq<u8>)
    ensures
        spec_chain(ins, p1, p2, data).len() >= 1,
        forall|i: int|
            0 <= i < spec_chain(ins, p1, p2, data).len() ==> {
                let a = #[trigger] spec_chain(ins, p1, p2, data)[i];
                &&& a.len() >= 5
                &&& a[4] as int == a.len() - 5
                &&& a[1] == ins && a[2] == p1 && a[3] == p2
                &&& (i < spec_chain(ins, p1, p2, data).len() - 1 ==> a[0] == CLA_CHAINING
                    && a.len() == 5 + MAX_APDU_DATA_LEN)
                &&& (i == spec_chain(ins, p1, p2, data).len() - 1 ==> a[0] == 0x00)
            },
    decreases data.len(),
{
    if data.len() > MAX_APDU_DATA_LEN {
        let rest = data.skip(MAX_APDU_DATA_LEN as int);
        lemma_chain_shape(ins, p1, p2, rest);
        let c = spec_chain(ins, p1, p2, data);
        let t = spec_chain(ins, p1, p2, rest);
        assert forall|i: int| 1 <= i < c.len() implies c[i] == t[i - 1] by {}
    }
}

} // verus!
