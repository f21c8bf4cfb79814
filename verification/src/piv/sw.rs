use vstd::prelude::*;

use crate::error::Error;

verus! {

/// The two trailing status bytes (SW1 SW2) of a smart card response, as defined by
/// ISO/IEC 7816-4 and the PIV specification (NIST SP 800-73).
#[derive(Clone, Copy, Debug, PartialEq, Eq, Structural)]
pub enum StatusWord {
    /// 0x9000: normal processing.
    Success,
    /// 0x61XX: the command succeeded, and XX more response bytes are available through
    /// GET RESPONSE (0 meaning 256).
    BytesRemaining(u8),
    /// 0x63CX: PIN / PUK verification failed; X attempts remain.
    IncorrectPin(u8),
    /// 0x6700: wrong length.
    WrongLength,
    /// 0x6982: security status not satisfied.
    SecurityStatusNotSatisfied,
    /// 0x6983: authentication method blocked.
    AuthenticationBlocked,
    /// 0x6985: conditions of use not satisfied.
    ConditionsNotSatisfied,
    /// 0x6A80: incorrect parameter in the command data field.
    IncorrectData,
    /// 0x6A81: function not supported.
    FunctionNotSupported,
    /// 0x6A82: file or application not found.
    FileNotFound,
    /// 0x6A84: not enough memory space in the file.
    NotEnoughMemory,
    /// 0x6A86: incorrect parameters P1-P2.
    IncorrectParameters,
    /// 0x6D00: instruction code not supported or invalid.
    InstructionNotSupported,
    /// 0x6E00: class not supported.
    ClassNotSupported,
    /// Any other status word, carried verbatim.
    Unknown(u16),
}

/// The status word that a raw 16-bit value SW1 * 256 + SW2 denotes.
pub open spec fn spec_status_word(value: u16) -> StatusWord {
    if value == 0x9000 {
        StatusWord::Success
    } else if value / 256 == 0x61 {
        StatusWord::BytesRemaining((value % 256) as u8)
    } else if value / 16 == 0x63C {
        StatusWord::IncorrectPin((value % 16) as u8)
    } else if value == 0x6700 {
        StatusWord::WrongLength
    } else if value == 0x6982 {
        StatusWord::SecurityStatusNotSatisfied
    } else if value == 0x6983 {
        StatusWord::AuthenticationBlocked
    } else if value == 0x6985 {
        StatusWord::ConditionsNotSatisfied
    } else if value == 0x6A80 {
        StatusWord::IncorrectData
    } else if value == 0x6A81 {
        StatusWord::FunctionNotSupported
    } else if value == 0x6A82 {
        StatusWord::FileNotFound
    } else if value == 0x6A84 {
        StatusWord::NotEnoughMemory
    } else if value == 0x6A86 {
        StatusWord::IncorrectParameters
    } else if value == 0x6D00 {
        StatusWord::InstructionNotSupported
    } else if value == 0x6E00 {
        StatusWord::ClassNotSupported
    } else {
        StatusWord::Unknown(value)
    }
}

impl StatusWord {
    /// The raw 16-bit value of this status word.
    pub open spec fn spec_value(self) -> u16 {
        match self {
            StatusWord::Success => 0x9000,
            StatusWord::BytesRemaining(n) => (0x6100 + n) as u16,
            StatusWord::IncorrectPin(n) => (0x63C0 + n % 16) as u16,
            StatusWord::WrongLength => 0x6700,
            StatusWord::SecurityStatusNotSatisfied => 0x6982,
            StatusWord::AuthenticationBlocked => 0x6983,
            StatusWord::ConditionsNotSatisfied => 0x6985,
            StatusWord::IncorrectData => 0x6A80,
            StatusWord::FunctionNotSupported => 0x6A81,
            StatusWord::FileNotFound => 0x6A82,
            StatusWord::NotEnoughMemory => 0x6A84,
            StatusWord::IncorrectParameters => 0x6A86,
            StatusWord::InstructionNotSupported => 0x6D00,
            StatusWord::ClassNotSupported => 0x6E00,
            StatusWord::Unknown(v) => v,
        }
    }

    /// A status word is canonical when it is the one that its own raw value denotes: the
    /// retry counter of `IncorrectPin` fits in four bits, and `Unknown` holds no value that
    /// has a name of its own.
    pub open spec fn wf(self) -> bool {
        match self {
            StatusWord::IncorrectPin(n) => n < 16,
            StatusWord::Unknown(v) => spec_status_word(v) == StatusWord::Unknown(v),
            _ => true,
        }
    }

    /// Decodes a raw status word SW1 * 256 + SW2.
    pub fn new(value: u16) -> (sw: StatusWord)
        ensures
            sw == spec_status_word(value),
    {
        if value == 0x9000 {
            StatusWord::Success
        } else if value / 256 == 0x61 {
            StatusWord::BytesRemaining((value % 256) as u8)
        } else if value / 16 == 0x63C {
            StatusWord::IncorrectPin((value % 16) as u8)
        } else if value == 0x6700 {
            StatusWord::WrongLength
        } else if value == 0x6982 {
            StatusWord::SecurityStatusNotSatisfied
        } else if value == 0x6983 {
            StatusWord::AuthenticationBlocked
        } else if value == 0x6985 {
            StatusWord::ConditionsNotSatisfied
        } else if value == 0x6A80 {
            StatusWord::IncorrectData
        } else if value == 0x6A81 {
            StatusWord::FunctionNotSupported
        } else if value == 0x6A82 {
            StatusWord::FileNotFound
        } else if value == 0x6A84 {
            StatusWord::NotEnoughMemory
        } else if value == 0x6A86 {
            StatusWord::IncorrectParameters
        } else if value == 0x6D00 {
            StatusWord::InstructionNotSupported
        } else if value == 0x6E00 {
            StatusWord::ClassNotSupported
        } else {
            StatusWord::Unknown(value)
        }
    }

    /// Decodes the status word from its two bytes SW1 and SW2.
    pub fn from_bytes(sw1: u8, sw2: u8) -> (sw: StatusWord)
        ensures
            sw == spec_status_word((sw1 * 256 + sw2) as u16),
    {
        let value: u16 = (sw1 as u16) * 256 + (sw2 as u16);
        StatusWord::new(value)
    }

    /// The raw 16-bit value SW1 * 256 + SW2 of this status word.
    pub fn value(&self) -> (v: u16)
        ensures
            v == self.spec_value(),
    {
        match *self {
            StatusWord::Success => 0x9000,
            StatusWord::BytesRemaining(n) => 0x6100 + n as u16,
            StatusWord::IncorrectPin(n) => 0x63C0 + (n % 16) as u16,
            StatusWord::WrongLength => 0x6700,
            StatusWord::SecurityStatusNotSatisfied => 0x6982,
            StatusWord::AuthenticationBlocked => 0x6983,
            StatusWord::ConditionsNotSatisfied => 0x6985,
            StatusWord::IncorrectData => 0x6A80,
            StatusWord::FunctionNotSupported => 0x6A81,
            StatusWord::FileNotFound => 0x6A82,
            StatusWord::NotEnoughMemory => 0x6A84,
            StatusWord::IncorrectParameters => 0x6A86,
            StatusWord::InstructionNotSupported => 0x6D00,
            StatusWord::ClassNotSupported => 0x6E00,
            StatusWord::Unknown(v) => v,
        }
    }

    /// Whether the card reported normal processing.
    pub fn is_success(&self) -> (b: bool)
        ensures
            b <==> *self == StatusWord::Success,
    {
        match *self {
            StatusWord::Success => true,
            _ => false,
        }
    }

    /// Whether the card announces more response data.
    pub fn is_bytes_remaining(&self) -> (b: bool)
        ensures
            b <==> *self is BytesRemaining,
    {
        match *self {
            StatusWord::BytesRemaining(_) => true,
            _ => false,
        }
    }

    /// `Ok` on success; otherwise the error that carries this status word.
    pub fn to_result(&self) -> (r: Result<(), Error>)
        ensures
            *self == StatusWord::Success ==> r == Ok::<(), Error>(()),
            *self != StatusWord::Success ==> r == Err::<(), Error>(Error::Status(*self)),
    {
        match *self {
            StatusWord::Success => Ok(()),
            _ => Err(Error::Status(*self)),
        }
    }
}

/// Every raw value is the value of the status word that it decodes to, and that status
/// word is canonical.
pub proof fn lemma_value_of_new(value: u16)
    ensures
        spec_status_word(value).spec_value() == value,
        spec_status_word(value).wf(),
{
}

/// Every canonical status word is decoded back from its own raw value.
pub proof fn lemma_new_of_value(sw: StatusWord)
    requires
        sw.wf(),
    ensures
        spec_status_word(sw.spec_value()) == sw,
{
}

/// The status words that ISO/IEC 7816-4 and the PIV specification name, by their raw
/// values: 9000 is success, 61XX announces XX more bytes, 63CX counts X attempts left, and
/// the errors are 6700, 6982, 6983, 6985, 6A80, 6A81, 6A82, 6A84, 6A86, 6D00 and 6E00.
pub proof fn lemma_named_status_words(n: u8, x: u8)
    requires
        x < 16,
    ensures
        spec_status_word(0x9000) == StatusWord::Success,
        spec_status_word((0x6100 + n) as u16) == StatusWord::BytesRemaining(n),
        spec_status_word((0x63C0 + x) as u16) == StatusWord::IncorrectPin(x),
        spec_status_word(0x6700) == StatusWord::WrongLength,
        spec_status_word(0x6982) == StatusWord::SecurityStatusNotSatisfied,
        spec_status_word(0x6983) == StatusWord::AuthenticationBlocked,
        spec_status_word(0x6985) == StatusWord::ConditionsNotSatisfied,
        spec_status_word(0x6A80) == StatusWord::IncorrectData,
        spec_status_word(0x6A81) == StatusWord::FunctionNotSupported,
        spec_status_word(0x6A82) == StatusWord::FileNotFound,
        spec_status_word(0x6A84) == StatusWord::NotEnoughMemory,
        spec_status_word(0x6A86) == StatusWord::IncorrectParameters,
        spec_status_word(0x6D00) == StatusWord::InstructionNotSupported,
        spec_status_word(0x6E00) == StatusWord::ClassNotSupported,
{
}

} // verus!
