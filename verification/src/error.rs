use vstd::prelude::*;

use crate::piv::sw::StatusWord;

verus! {

/// The two secrets that protect a PIV card.
#[derive(Clone, Copy, Debug, PartialEq, Eq, Structural)]
pub enum Secret {
    /// The PIN, which unlocks the private keys.
    Pin,
    /// The PUK, which unblocks a blocked PIN.
    Puk,
}

/// Everything that can go wrong in this library.
#[derive(Debug)]
pub enum Error {
    /// A failure reported with a free-form message (by a PC/SC layer, for example).
    Message(String),
    /// The sodium library could not be initialized.
    SodiumInit,
    /// A PIN or PUK longer than eight bytes was supplied; `existing` tells the current
    /// secret apart from the new one.
    SecretTooLong { secret: Secret, existing: bool },
    /// A management key that is not 48 hexadecimal digits (24 bytes).
    InvalidManagementKey,
    /// A retry count of zero.
    InvalidRetryCount,
    /// Command data longer than one short APDU can carry.
    DataTooLong,
    /// Object data larger than a PIV data object may hold.
    ObjectTooLarge,
    /// Bytes that do not form a command APDU.
    InvalidApdu,
    /// A response from the card that does not have the expected form.
    InvalidResponse,
    /// A version that is not three bytes long.
    InvalidVersion,
    /// The card did not prove knowledge of the management key, or refused ours.
    AuthenticationFailure,
    /// The card answered with an error status word.
    Status(StatusWord),
}

/// The message that describes an error status word.
pub open spec fn spec_status_message(sw: StatusWord) -> Seq<char> {
    match sw {
        StatusWord::Success => "Success."@,
        StatusWord::BytesRemaining(_) => "More response data is available."@,
        StatusWord::IncorrectPin(_) => "The supplied PIN/PUK is incorrect."@,
        StatusWord::WrongLength => "The command had the wrong length."@,
        StatusWord::SecurityStatusNotSatisfied => "Security status not satisfied."@,
        StatusWord::AuthenticationBlocked => "The PIN/PUK is blocked."@,
        StatusWord::ConditionsNotSatisfied => "Conditions of use not satisfied."@,
        StatusWord::IncorrectData => "Incorrect parameter in the command data field."@,
        StatusWord::FunctionNotSupported => "Function not supported."@,
        StatusWord::FileNotFound => "The specified file does not exist in the smart card."@,
        StatusWord::NotEnoughMemory => "Not enough memory space in the smart card."@,
        StatusWord::IncorrectParameters => "Incorrect parameters P1-P2."@,
        StatusWord::InstructionNotSupported => "Instruction code not supported or invalid."@,
        StatusWord::ClassNotSupported => "Class not supported."@,
        StatusWord::Unknown(_) => "The smart card returned an unknown status word."@,
    }
}

/// The message that describes a secret that is too long.
pub open spec fn spec_too_long_message(secret: Secret, existing: bool) -> Seq<char> {
    match (secret, existing) {
        (Secret::Pin, true) => "Invalid existing PIN; it exceeds 8 characters"@,
        (Secret::Pin, false) => "Invalid new PIN; it exceeds 8 characters"@,
        (Secret::Puk, true) => "Invalid existing PUK; it exceeds 8 characters"@,
        (Secret::Puk, false) => "Invalid new PUK; it exceeds 8 characters"@,
    }
}

impl Error {
    /// The human-readable message of this error.
    pub open spec fn spec_message(&self) -> Seq<char> {
        match *self {
            Error::Message(m) => m@,
            Error::SodiumInit => "Initializing sodiumoxide library failed"@,
            Error::SecretTooLong { secret, existing } => spec_too_long_message(secret, existing),
            Error::InvalidManagementKey => "Invalid management key; it must be 48 hexadecimal digits"@,
            Error::InvalidRetryCount => "Invalid retry count; it must be at least 1"@,
            Error::DataTooLong => "Command data exceeds 255 bytes"@,
            Error::ObjectTooLarge => "Object data exceeds 3063 bytes"@,
            Error::InvalidApdu => "Invalid APDU"@,
            Error::InvalidResponse => "Invalid response from the smart card"@,
            Error::InvalidVersion => "Invalid version; it must be three bytes"@,
            Error::AuthenticationFailure => "Authentication failure"@,
            Error::Status(sw) => spec_status_message(sw),
        }
    }

    /// The human-readable message of this error.
    pub fn to_string(&self) -> (s: String)
        ensures
            s@ == self.spec_message(),
    {
        match self {
            Error::Message(m) => m.clone(),
            Error::SodiumInit => String::from_str("Initializing sodiumoxide library failed"),
            Error::SecretTooLong { secret, existing } => too_long_message(*secret, *existing),
            Error::InvalidManagementKey => String::from_str(
                "Invalid management key; it must be 48 hexadecimal digits",
            ),
            Error::InvalidRetryCount => String::from_str("Invalid retry count; it must be at least 1"),
            Error::DataTooLong => String::from_str("Command data exceeds 255 bytes"),
            Error::ObjectTooLarge => String::from_str("Object data exceeds 3063 bytes"),
            Error::InvalidApdu => String::from_str("Invalid APDU"),
            Error::InvalidResponse => String::from_str("Invalid response from the smart card"),
            Error::InvalidVersion => String::from_str("Invalid version; it must be three bytes"),
            Error::AuthenticationFailure => String::from_str("Authentication failure"),
            Error::Status(sw) => status_message(*sw),
        }
    }
}

fn too_long_message(secret: Secret, existing: bool) -> (s: String)
    ensures
        s@ == spec_too_long_message(secret, existing),
{
    match (secret, existing) {
        (Secret::Pin, true) => String::from_str("Invalid existing PIN; it exceeds 8 characters"),
        (Secret::Pin, false) => String::from_str("Invalid new PIN; it exceeds 8 characters"),
        (Secret::Puk, true) => String::from_str("Invalid existing PUK; it exceeds 8 characters"),
        (Secret::Puk, false) => String::from_str("Invalid new PUK; it exceeds 8 characters"),
    }
}

/// The message that describes a status word.
pub fn status_message(sw: StatusWord) -> (s: String)
    ensures
        s@ == spec_status_message(sw),
{
    match sw {
        StatusWord::Success => String::from_str("Success."),
        StatusWord::BytesRemaining(_) => String::from_str("More response data is available."),
        StatusWord::IncorrectPin(_) => String::from_str("The supplied PIN/PUK is incorrect."),
        StatusWord::WrongLength => String::from_str("The command had the wrong length."),
        StatusWord::SecurityStatusNotSatisfied => String::from_str("Security status not satisfied."),
        StatusWord::AuthenticationBlocked => String::from_str("The PIN/PUK is blocked."),
        StatusWord::ConditionsNotSatisfied => String::from_str("Conditions of use not satisfied."),
        StatusWord::IncorrectData => String::from_str(
            "Incorrect parameter in the command data field.",
        ),
        StatusWord::FunctionNotSupported => String::from_str("Function not supported."),
        StatusWord::FileNotFound => String::from_str(
            "The specified file does not exist in the smart card.",
        ),
        StatusWord::NotEnoughMemory => String::from_str("Not enough memory space in the smart card."),
        StatusWord::IncorrectParameters => String::from_str("Incorrect parameters P1-P2."),
        StatusWord::InstructionNotSupported => String::from_str(
            "Instruction code not supported or invalid.",
        ),
        StatusWord::ClassNotSupported => String::from_str("Class not supported."),
        StatusWord::Unknown(_) => String::from_str(
            "The smart card returned an unknown status word.",
        ),
    }
}

} // verus!
