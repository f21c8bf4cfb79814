use vstd::prelude::*;

use vstd::string::StringSliceAdditionalSpecFns;

use crate::error::{Error, Secret};

verus! {

/// The longest PIN or PUK, in bytes, that a PIV card accepts.
pub const SECRET_MAX_LEN: usize = 8;

/// The byte with which a PIN or PUK is padded up to eight bytes.
pub const SECRET_PAD_BYTE: u8 = 0xFF;

/// A secret padded with 0xFF bytes up to eight bytes, as the PIV commands carry it.
pub open spec fn spec_pad_secret(secret: Seq<u8>) -> Seq<u8> {
    secret + Seq::new((SECRET_MAX_LEN - secret.len()) as nat, |i: int| SECRET_PAD_BYTE)
}

/// Pads a secret of at most eight bytes with 0xFF bytes up to eight bytes.
pub fn pad_secret(secret: &[u8]) -> (r: Vec<u8>)
    requires
        secret@.len() <= SECRET_MAX_LEN,
    ensures
        r@ == spec_pad_secret(secret@),
{
    let mut r: Vec<u8> = Vec::new();
    let mut i: usize = 0;
    while i < secret.len()
        invariant
            secret@.len() <= SECRET_MAX_LEN,
            0 <= i <= secret@.len(),
            r@ == secret@.subrange(0, i as int),
        decreases secret@.len() - i,
    {
        r.push(secret[i]);
        i = i + 1;
        assert(r@ =~= secret@.subrange(0, i as int));
    }
    while r.len() < SECRET_MAX_LEN
        invariant
            secret@.len() <= r@.len() <= SECRET_MAX_LEN,
            r@ == secret@ + Seq::new((r@.len() - secret@.len()) as nat, |i: int| SECRET_PAD_BYTE),
        decreases SECRET_MAX_LEN - r@.len(),
    {
        r.push(SECRET_PAD_BYTE);
        assert(r@ =~= secret@ + Seq::new((r@.len() - secret@.len()) as nat, |i: int| SECRET_PAD_BYTE));
    }
    r
}

/// Checks the length of a PIN or PUK and pads it for the card. A secret longer than
/// eight bytes is refused with the error that names it.
pub fn check_secret(secret: &str, kind: Secret, existing: bool) -> (r: Result<Vec<u8>, Error>)
    ensures
        secret.spec_bytes().len() > SECRET_MAX_LEN ==> r == Err::<Vec<u8>, Error>(Error::SecretTooLong { secret: kind, existing }),
        secret.spec_bytes().len() <= SECRET_MAX_LEN ==> (r matches Ok(p) && p@ == spec_pad_secret(secret.spec_bytes())),
{
    let bytes = secret.as_bytes();
    if bytes.len() > SECRET_MAX_LEN {
        Err(Error::SecretTooLong { secret: kind, existing })
    } else {
        Ok(pad_secret(bytes))
    }
}

/// Padding never confuses two secrets: two secrets of at most eight bytes that do not
/// contain the padding byte (and no UTF-8 text contains it) pad to the same block only if
/// they are equal.
pub proof fn lemma_pad_injective(a: Seq<u8>, b: Seq<u8>)
    requires
        a.len() <= SECRET_MAX_LEN,
        b.len() <= SECRET_MAX_LEN,
        forall|i: int| 0 <= i < a.len() ==> a[i] != SECRET_PAD_BYTE,
        forall|i: int| 0 <= i < b.len() ==> b[i] != SECRET_PAD_BYTE,
        spec_pad_secret(a) == spec_pad_secret(b),
    ensures
        a == b,
{
    let pa = spec_pad_secret(a);
    let pb = spec_pad_secret(b);
    if a.len() < b.len() {
        assert(pa[a.len() as int] == SECRET_PAD_BYTE);
        assert(pb[a.len() as int] == b[a.len() as int]);
    } else if b.len() < a.len() {
        assert(pb[b.len() as int] == SECRET_PAD_BYTE);
        assert(pa[b.len() as int] == a[b.len() as int]);
    } else {
        assert forall|i: int| 0 <= i < a.len() implies a[i] == b[i] by {
            assert(pa[i] == a[i]);
            assert(pb[i] == b[i]);
        }
        assert(a =~= b);
    }
}

/// A padded secret is always eight bytes long, begins with the secret, and is filled up
/// with 0xFF bytes.
pub proof fn lemma_pad_shape(s: Seq<u8>)
    requires
        s.len() <= SECRET_MAX_LEN,
    ensures
        spec_pad_secret(s).len() == 8,
        spec_pad_secret(s).subrange(0, s.len() as int) == s,
        forall|i: int| s.len() <= i < 8 ==> #[trigger] spec_pad_secret(s)[i] == 0xFF,
{
    assert(spec_pad_secret(s).subrange(0, s.len() as int) =~= s);
}

} // verus!
