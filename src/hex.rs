use vstd::prelude::*;

verus! {

use crate::style::RGB;
use vstd::string::StringSliceAdditionalSpecFns;

/// Why a colour code could not be read.
#[derive(Debug, Clone, Copy, PartialEq, Eq, Structural)]
pub enum Error {
    /// After the optional `#`, the code is neither 3 nor 6 characters long.
    LengthInvalid,
    /// A character of the code is not a hexadecimal digit.
    ParseIntError,
}

impl Error {
    /// A human-readable description of the failure.
    pub fn message(&self) -> (m: &'static str)
        ensures
            *self == Error::LengthInvalid ==> m@
                == "unable to convert, hex code should be of length 3 or 6"@,
            *self == Error::ParseIntError ==> m@ == "unable to parse into integer"@,
    {
        proof {
            reveal_strlit("unable to convert, hex code should be of length 3 or 6");
            reveal_strlit("unable to parse into integer");
        }
        match self {
            Error::LengthInvalid => "unable to convert, hex code should be of length 3 or 6",
            Error::ParseIntError => "unable to parse into integer",
        }
    }
}

/// `0-9`, `a-f` or `A-F`.
pub open spec fn is_hex_digit(c: u8) -> bool {
    (0x30 <= c <= 0x39) || (0x61 <= c <= 0x66) || (0x41 <= c <= 0x46)
}

/// The value of a hexadecimal digit.
pub open spec fn hex_value(c: u8) -> nat
    recommends
        is_hex_digit(c),
{
    if 0x30 <= c <= 0x39 {
        (c - 0x30) as nat
    } else if 0x61 <= c <= 0x66 {
        (c - 0x61 + 10) as nat
    } else {
        (c - 0x41 + 10) as nat
    }
}

/// The code with one leading `#` removed, if there is one.
pub open spec fn strip_marker(b: Seq<u8>) -> Seq<u8> {
    if b.len() > 0 && b[0] == 0x23 {
        b.drop_first()
    } else {
        b
    }
}

pub open spec fn all_hex(h: Seq<u8>) -> bool {
    forall|i: int| 0 <= i < h.len() ==> is_hex_digit(#[trigger] h[i])
}

/// The byte written by two hexadecimal digits, high one first.
pub open spec fn byte_of(hi: u8, lo: u8) -> u8 {
    (16 * hex_value(hi) + hex_value(lo)) as u8
}

/// What a colour code written in bytes denotes: `RGB` is read with each
/// digit doubled, `RRGGBB` pair by pair, either optionally after a `#`.
pub open spec fn parse_hex(b: Seq<u8>) -> Result<(u8, u8, u8), Error> {
    let h = strip_marker(b);
    if h.len() != 3 && h.len() != 6 {
        Err(Error::LengthInvalid)
    } else if !all_hex(h) {
        Err(Error::ParseIntError)
    } else if h.len() == 3 {
        Ok((byte_of(h[0], h[0]), byte_of(h[1], h[1]), byte_of(h[2], h[2])))
    } else {
        Ok((byte_of(h[0], h[1]), byte_of(h[2], h[3]), byte_of(h[4], h[5])))
    }
}

pub open spec fn triple(c: RGB) -> (u8, u8, u8) {
    (c[0], c[1], c[2])
}

fn digit_value(c: u8) -> (r: Option<u8>)
    ensures
        r == (if is_hex_digit(c) {
            Some(hex_value(c) as u8)
        } else {
            None::<u8>
        }),
{
    if 0x30 <= c && c <= 0x39 {
        Some(c - 0x30)
    } else if 0x61 <= c && c <= 0x66 {
        Some(c - 0x61 + 10)
    } else if 0x41 <= c && c <= 0x46 {
        Some(c - 0x41 + 10)
    } else {
        None
    }
}

fn read_byte(hi: u8, lo: u8) -> (r: Option<u8>)
    ensures
        r == (if is_hex_digit(hi) && is_hex_digit(lo) {
            Some(byte_of(hi, lo))
        } else {
            None::<u8>
        }),
{
    match (digit_value(hi), digit_value(lo)) {
        (Some(h), Some(l)) => Some(16 * h + l),
        _ => None,
    }
}

/// Reads a colour code of the form `RGB` or `RRGGBB`, optionally preceded
/// by `#`, into its three components.
pub fn hex_to_rgb(hex: &str) -> (r: Result<RGB, Error>)
    ensures
        r matches Ok(c) ==> parse_hex(hex.spec_bytes()) == Ok::<(u8, u8, u8), Error>(triple(c)),
        r matches Err(e) ==> parse_hex(hex.spec_bytes()) == Err::<(u8, u8, u8), Error>(e),
{
    let bytes = hex.as_bytes();
    let ghost b = hex.spec_bytes();
    let start: usize = if bytes.len() > 0 && bytes[0] == 0x23 { 1 } else { 0 };
    let n: usize = bytes.len() - start;
    let ghost h = strip_marker(b);
    assert(h.len() == n);
    assert(forall|i: int| 0 <= i < n ==> h[i] == bytes@[start + i]);
    if n == 3 {
        let r = read_byte(bytes[start], bytes[start]);
        let g = read_byte(bytes[start + 1], bytes[start + 1]);
        let bl = read_byte(bytes[start + 2], bytes[start + 2]);
        match (r, g, bl) {
            (Some(r), Some(g), Some(bl)) => {
                assert(all_hex(h));
                Ok([r, g, bl])
            },
            _ => Err(Error::ParseIntError),
        }
    } else if n == 6 {
        let r = read_byte(bytes[start], bytes[start + 1]);
        let g = read_byte(bytes[start + 2], bytes[start + 3]);
        let bl = read_byte(bytes[start + 4], bytes[start + 5]);
        match (r, g, bl) {
            (Some(r), Some(g), Some(bl)) => {
                assert(all_hex(h));
                Ok([r, g, bl])
            },
            _ => Err(Error::ParseIntError),
        }
    } else {
        Err(Error::LengthInvalid)
    }
}

/// A letter `A-Z` made lower case; every other byte unchanged.
pub open spec fn to_lower(c: u8) -> u8 {
    if 0x41 <= c <= 0x5a {
        (c + 0x20) as u8
    } else {
        c
    }
}

pub open spec fn lower_all(b: Seq<u8>) -> Seq<u8> {
    b.map_values(|c: u8| to_lower(c))
}

/// The lower-case hexadecimal digit of a value below 16.
pub open spec fn lower_digit(d: nat) -> u8 {
    if d < 10 {
        (0x30 + d) as u8
    } else {
        (0x61 + d - 10) as u8
    }
}

/// A byte as two lower-case hexadecimal digits.
pub open spec fn hex_pair(v: u8) -> Seq<u8> {
    seq![lower_digit(v as nat / 16), lower_digit(v as nat % 16)]
}

proof fn lemma_digit_lower(c: u8)
    requires
        is_hex_digit(c),
    ensures
        hex_value(c) < 16,
        lower_digit(hex_value(c)) == to_lower(c),
{
}

proof fn lemma_byte_pair(hi: u8, lo: u8)
    requires
        is_hex_digit(hi),
        is_hex_digit(lo),
    ensures
        hex_pair(byte_of(hi, lo)) == seq![to_lower(hi), to_lower(lo)],
{
    lemma_digit_lower(hi);
    lemma_digit_lower(lo);
    let a = hex_value(hi);
    let b = hex_value(lo);
    assert((16 * a + b) / 16 == a && (16 * a + b) % 16 == b) by (nonlinear_arith)
        requires
            a < 16,
            b < 16,
    ;
}

/// A six-digit code is read back exactly: writing the three components as
/// two lower-case hexadecimal digits each gives the code, lower-cased.
pub proof fn lemma_six_digits_round_trip(b: Seq<u8>)
    requires
        strip_marker(b).len() == 6,
        all_hex(strip_marker(b)),
    ensures
        parse_hex(b) is Ok,
        parse_hex(b) matches Ok((r, g, bl)) && hex_pair(r) + hex_pair(g) + hex_pair(bl)
            == lower_all(strip_marker(b)),
{
    let h = strip_marker(b);
    assert(is_hex_digit(h[0]) && is_hex_digit(h[1]) && is_hex_digit(h[2]));
    assert(is_hex_digit(h[3]) && is_hex_digit(h[4]) && is_hex_digit(h[5]));
    lemma_byte_pair(h[0], h[1]);
    lemma_byte_pair(h[2], h[3]);
    lemma_byte_pair(h[4], h[5]);
    let (r, g, bl) = parse_hex(b)->Ok_0;
    assert(hex_pair(r) + hex_pair(g) + hex_pair(bl) =~= lower_all(h));
}

/// A three-digit code reads as the six-digit code with each digit doubled.
pub proof fn lemma_short_form_doubles(b: Seq<u8>)
    requires
        strip_marker(b).len() == 3,
        all_hex(strip_marker(b)),
    ensures
        ({
            let h = strip_marker(b);
            &&& parse_hex(b) is Ok
            &&& parse_hex(b) == parse_hex(seq![h[0], h[0], h[1], h[1], h[2], h[2]])
        }),
{
    let h = strip_marker(b);
    let d = seq![h[0], h[0], h[1], h[1], h[2], h[2]];
    assert(is_hex_digit(h[0]) && is_hex_digit(h[1]) && is_hex_digit(h[2]));
    assert(strip_marker(d) == d);
    assert(all_hex(d));
}

/// Upper- and lower-case letters read alike.
pub proof fn lemma_case_insensitive(b: Seq<u8>)
    ensures
        parse_hex(b) == parse_hex(lower_all(b)),
{
    let l = lower_all(b);
    let h = strip_marker(b);
    assert(strip_marker(l) =~= lower_all(h));
    let hl = strip_marker(l);
    assert forall|i: int| 0 <= i < h.len() implies is_hex_digit(#[trigger] hl[i]) == is_hex_digit(
        h[i],
    ) && (is_hex_digit(h[i]) ==> hex_value(hl[i]) == hex_value(h[i])) by {}
    if all_hex(h) {
        assert(all_hex(hl));
    }
    if all_hex(hl) {
        assert forall|i: int| 0 <= i < h.len() implies is_hex_digit(#[trigger] h[i]) by {
            assert(is_hex_digit(hl[i]));
        }
    }
}

/// A code whose length after the `#` is neither 3 nor 6 is refused as such.
pub proof fn lemma_length_rejected(b: Seq<u8>)
    requires
        strip_marker(b).len() != 3,
        strip_marker(b).len() != 6,
    ensures
        parse_hex(b) == Err::<(u8, u8, u8), Error>(Error::LengthInvalid),
{
}

/// A code of a valid length holding a byte that is no hexadecimal digit is
/// refused as unreadable.
pub proof fn lemma_non_digit_rejected(b: Seq<u8>, i: int)
    requires
        strip_marker(b).len() == 3 || strip_marker(b).len() == 6,
        0 <= i < strip_marker(b).len(),
        !is_hex_digit(strip_marker(b)[i]),
    ensures
        parse_hex(b) == Err::<(u8, u8, u8), Error>(Error::ParseIntError),
{
}

} // verus!
