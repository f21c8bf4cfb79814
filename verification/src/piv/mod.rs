use vstd::prelude::*;

pub mod apdu;
pub mod bytes;
pub mod chuid;
pub mod command;
pub mod crypt;
pub mod event;
pub mod hal;
pub mod handle;
pub mod id;
pub mod key;
pub mod link;
pub mod pin;
pub mod response;
pub mod sw;
pub mod tlv;
pub mod version;

verus! {

/// The reader that `Handle::connect` looks for when none is named.
pub const DEFAULT_READER: &'static str = "Yubico YubiKey";

/// The PIN of a new or reset YubiKey.
pub const DEFAULT_PIN: &'static str = "123456";

/// The PUK of a new or reset YubiKey.
pub const DEFAULT_PUK: &'static str = "12345678";

/// The management key of a new or reset YubiKey.
pub const DEFAULT_MGM_KEY: &'static str = "010203040506070801020304050607080102030405060708";

} // verus!
