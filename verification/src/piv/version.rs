use vstd::prelude::*;

use crate::error::Error;

verus! {

/// The firmware version of a YubiKey's PIV applet.
#[derive(Clone, Copy, Debug, PartialEq, Eq, Structural)]
pub struct Version {
    pub major: u8,
    pub minor: u8,
    pub patch: u8,
}

/// The decimal digit character for `d`.
pub open spec fn spec_digit(d: int) -> char {
    if d == 0 {
        '0'
    } else if d == 1 {
        '1'
    } else if d == 2 {
        '2'
    } else if d == 3 {
        '3'
    } else if d == 4 {
        '4'
    } else if d == 5 {
        '5'
    } else if d == 6 {
        '6'
    } else if d == 7 {
        '7'
    } else if d == 8 {
        '8'
    } else {
        '9'
    }
}

/// The decimal representation of a natural number, without leading zeros.
pub open spec fn spec_decimal(n: nat) -> Seq<char>
    decreases n,
{
    if n < 10 {
        seq![spec_digit(n as int)]
    } else {
        spec_decimal(n / 10) + seq![spec_digit((n % 10) as int)]
    }
}

/// The value of a decimal digit character, if it is one.
pub open spec fn spec_digit_value(c: char) -> int {
    if c == '0' {
        0
    } else if c == '1' {
        1
    } else if c == '2' {
        2
    } else if c == '3' {
        3
    } else if c == '4' {
        4
    } else if c == '5' {
        5
    } else if c == '6' {
        6
    } else if c == '7' {
        7
    } else if c == '8' {
        8
    } else {
        9
    }
}

/// The number that a string of decimal digits denotes.
pub open spec fn spec_parse_decimal(s: Seq<char>) -> nat
    decreases s.len(),
{
    if s.len() == 0 {
        0
    } else {
        (spec_parse_decimal(s.drop_last()) * 10 + spec_digit_value(s.last())) as nat
    }
}

impl Version {
    /// "major.minor.patch", each in decimal.
    pub open spec fn spec_string(self) -> Seq<char> {
        spec_decimal(self.major as nat) + seq!['.'] + spec_decimal(self.minor as nat) + seq!['.']
            + spec_decimal(self.patch as nat)
    }

    /// Builds a version from the three bytes that the card returns for GET VERSION;
    /// fails exactly when there are not three.
    pub fn new(data: &[u8]) -> (r: Result<Version, Error>)
        ensures
            data@.len() == 3 ==> r == Ok::<Version, Error>(
                Version { major: data@[0], minor: data@[1], patch: data@[2] },
            ),
            data@.len() != 3 ==> r matches Err(Error::InvalidVersion),
    {
        if data.len() != 3 {
            return Err(Error::InvalidVersion);
        }
        Ok(Version { major: data[0], minor: data[1], patch: data[2] })
    }

    /// "major.minor.patch", each in decimal.
    pub fn to_string(&self) -> (s: String)
        ensures
            s@ == self.spec_string(),
    {
        let mut s = decimal(self.major);
        s.append(".");
        let minor = decimal(self.minor);
        s.append(minor.as_str());
        s.append(".");
        let patch = decimal(self.patch);
        s.append(patch.as_str());
        proof {
            reveal_strlit(".");
            assert("."@ =~= seq!['.']);
        }
        s
    }
}

fn digit(d: u8) -> (s: &'static str)
    requires
        d < 10,
    ensures
        s@ == seq![spec_digit(d as int)],
{
    proof {
        reveal_strlit("0");
        reveal_strlit("1");
        reveal_strlit("2");
        reveal_strlit("3");
        reveal_strlit("4");
        reveal_strlit("5");
        reveal_strlit("6");
        reveal_strlit("7");
        reveal_strlit("8");
        reveal_strlit("9");
    }
    let s = match d {
        0 => "0",
        1 => "1",
        2 => "2",
        3 => "3",
        4 => "4",
        5 => "5",
        6 => "6",
        7 => "7",
        8 => "8",
        _ => "9",
    };
    assert(s@ =~= seq![spec_digit(d as int)]);
    s
}

/// The decimal representation of a byte.
pub fn decimal(n: u8) -> (s: String)
    ensures
        s@ == spec_decimal(n as nat),
{
    if n < 10 {
        String::from_str(digit(n))
    } else if n < 100 {
        let mut s = String::from_str(digit(n / 10));
        s.append(digit(n % 10));
        proof {
            assert(spec_decimal((n / 10) as nat) == seq![spec_digit((n / 10) as int)]);
        }
        s
    } else {
        let mut s = String::from_str(digit(n / 100));
        s.append(digit((n / 10) % 10));
        s.append(digit(n % 10));
        proof {
            let q = (n / 10) as nat;
            assert(spec_decimal((q / 10) as nat) == seq![spec_digit((n / 100) as int)]);
            assert(spec_decimal(q) == spec_decimal(q / 10) + seq![spec_digit((q % 10) as int)]);
            assert(s@ =~= spec_decimal(n as nat));
        }
        s
    }
}

/// Reading back the decimal representation of a number gives that number.
pub proof fn lemma_parse_of_decimal(n: nat)
    ensures
        spec_parse_decimal(spec_decimal(n)) == n,
    decreases n,
{
    let s = spec_decimal(n);
    let d = (n % 10) as int;
    assert(spec_digit_value(spec_digit(d)) == d);
    if n < 10 {
        assert(s.drop_last() =~= Seq::<char>::empty());
        assert(spec_parse_decimal(s.drop_last()) == 0);
        assert(s.last() == spec_digit(d));
    } else {
        lemma_parse_of_decimal(n / 10);
        assert(s.drop_last() =~= spec_decimal(n / 10));
        assert(s.last() == spec_digit(d));
        assert(n == (n / 10) * 10 + n % 10);
    }
}

} // verus!
