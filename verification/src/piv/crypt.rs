use vstd::prelude::*;

use des::cipher::generic_array::GenericArray;
use des::cipher::{BlockDecrypt, BlockEncrypt, KeyInit};

verus! {

/// The block size of 3DES, in bytes.
pub const TDES_BLOCK_LEN: usize = 8;

/// What `des::TdesEde3` (three-key triple DES, encrypt-decrypt-encrypt) makes of one block
/// under a 24-byte key when encrypting.
pub uninterp spec fn spec_tdes_encrypt(key: Seq<u8>, block: Seq<u8>) -> Seq<u8>;

/// What `des::TdesEde3` makes of one block under a 24-byte key when decrypting.
pub uninterp spec fn spec_tdes_decrypt(key: Seq<u8>, block: Seq<u8>) -> Seq<u8>;

/// Encrypts one 8-byte block with `des::TdesEde3` (through `KeyInit::new_from_slice` and
/// `BlockEncrypt::encrypt_block`). The result is named, not described: it depends on the
/// key and the block alone, and is one block long.
#[verifier::external_body]
pub(crate) fn tdes_encrypt_block(key: &[u8], block: &[u8]) -> (r: Vec<u8>)
    requires
        key@.len() == 24,
        block@.len() == TDES_BLOCK_LEN,
    ensures
        r@ == spec_tdes_encrypt(key@, block@),
        r@.len() == TDES_BLOCK_LEN,
{
    let cipher = des::TdesEde3::new_from_slice(key).unwrap();
    let mut b = GenericArray::clone_from_slice(block);
    cipher.encrypt_block(&mut b);
    b.to_vec()
}

/// Decrypts one 8-byte block with `des::TdesEde3` (through `KeyInit::new_from_slice` and
/// `BlockDecrypt::decrypt_block`). The result is named, not described: it depends on the
/// key and the block alone, and is one block long.
#[verifier::external_body]
pub(crate) fn tdes_decrypt_block(key: &[u8], block: &[u8]) -> (r: Vec<u8>)
    requires
        key@.len() == 24,
        block@.len() == TDES_BLOCK_LEN,
    ensures
        r@ == spec_tdes_decrypt(key@, block@),
        r@.len() == TDES_BLOCK_LEN,
{
    let cipher = des::TdesEde3::new_from_slice(key).unwrap();
    let mut b = GenericArray::clone_from_slice(block);
    cipher.decrypt_block(&mut b);
    b.to_vec()
}

/// Calls `sodiumoxide::randombytes::randombytes`, which fills a vector of the requested
/// size from libsodium's random number generator. Only the length is stated: the bytes are
/// random.
#[verifier::external_body]
pub(crate) fn random_bytes(n: usize) -> (r: Vec<u8>)
    ensures
        r@.len() == n,
{
    sodiumoxide::randombytes::randombytes(n)
}

/// A source of random bytes that keeps a record of every value it handed out. The record
/// is private to this module and only `draw`, which makes the draw, extends it.
pub struct RandomSource {
    draws: Ghost<Seq<Seq<u8>>>,
}

impl RandomSource {
    /// The values drawn so far, in order.
    pub closed spec fn spec_draws(&self) -> Seq<Seq<u8>> {
        self.draws@
    }

    /// A source with nothing drawn yet.
    pub fn new() -> (r: RandomSource)
        ensures
            r.spec_draws() == Seq::<Seq<u8>>::empty(),
    {
        RandomSource { draws: Ghost(Seq::empty()) }
    }

    /// Draws `n` random bytes, and records them.
    pub fn draw(&mut self, n: usize) -> (r: Vec<u8>)
        ensures
            r@.len() == n,
            final(self).spec_draws() == old(self).spec_draws().push(r@),
    {
        let r = random_bytes(n);
        proof {
            self.draws@ = self.draws@.push(r@);
        }
        r
    }
}

} // verus!
