//! Semantic-style firmware versions of the form `MAJOR.MINOR.PATCH[-PRERELEASE]`.
use vstd::prelude::*;
use vstd::string::StringSliceAdditionalSpecFns;
use vstd::utf8::*;
use crate::bytes::{find_byte, find_from};

verus! {

broadcast use vstd::utf8::encode_utf8_valid_utf8;

/// A firmware version. The prerelease part borrows from the text it was parsed from.
#[derive(Debug, PartialEq)]
pub struct FirmwareVersion<'a> {
    pub major: u8,
    pub minor: u8,
    pub patch: u8,
    pub prerelease: Option<&'a str>,
}

/// The text given to [`FirmwareVersion::parse`] is not a version.
#[derive(Debug, PartialEq)]
pub struct ParseFirmwareError {}

/// Whether a byte is an ASCII digit.
pub open spec fn is_digit(b: u8) -> bool {
    0x30 <= b <= 0x39
}

/// The value of a run of decimal digits, most significant first.
pub open spec fn digits_value(s: Seq<u8>) -> nat
    decreases s.len(),
{
    if s.len() == 0 {
        0
    } else {
        digits_value(s.drop_last()) * 10 + (s.last() - 0x30) as nat
    }
}

/// What `u8::from_str` gives for the given text: an optional `+`, then one or more decimal
/// digits whose value fits in a byte.
pub open spec fn all_digits(s: Seq<u8>) -> bool {
    forall|i: int| 0 <= i < s.len() ==> is_digit(#[trigger] s[i])
}

/// The text of a number without its optional leading `+`.
pub open spec fn unsigned_digits(s: Seq<u8>) -> Seq<u8> {
    if s.len() > 0 && s[0] == 0x2B { s.drop_first() } else { s }
}

/// The number that `u8` parsing reads from the bytes: an optional `+`, then at least one
/// digit, with a value below 256.
pub open spec fn parse_u8_spec(s: Seq<u8>) -> Option<u8> {
    let digits = unsigned_digits(s);
    if digits.len() > 0 && all_digits(digits) && digits_value(digits) <= 255 {
        Some(digits_value(digits) as u8)
    } else {
        None
    }
}

/// Splits the version part of the text at its dots: `Some((major, minor, patch))` when it has
/// exactly three fields and each is a byte-sized number.
pub open spec fn parse_triple_spec(v: Seq<u8>) -> Option<(u8, u8, u8)> {
    match find_from(v, 0x2E, 0) {
        None => None,
        Some(d1) => match find_from(v, 0x2E, d1 + 1) {
            None => None,
            Some(d2) => {
                if find_from(v, 0x2E, d2 + 1) is Some {
                    None
                } else {
                    match (
                        parse_u8_spec(v.subrange(0, d1)),
                        parse_u8_spec(v.subrange(d1 + 1, d2)),
                        parse_u8_spec(v.subrange(d2 + 1, v.len() as int)),
                    ) {
                        (Some(a), Some(b), Some(c)) => Some((a, b, c)),
                        _ => None,
                    }
                }
            },
        },
    }
}

/// The version part of the text: everything before the first `-`.
pub open spec fn version_part(b: Seq<u8>) -> Seq<u8> {
    match find_from(b, 0x2D, 0) {
        None => b,
        Some(d) => b.subrange(0, d),
    }
}

/// The prerelease part of the text: everything after the first `-`, empty when there is none.
pub open spec fn prerelease_part(b: Seq<u8>) -> Seq<u8> {
    match find_from(b, 0x2D, 0) {
        None => Seq::empty(),
        Some(d) => b.subrange(d + 1, b.len() as int),
    }
}

/// The meaning of a version text given by its UTF-8 bytes: the three numbers, and the bytes of
/// the prerelease part when it is not empty.
pub open spec fn parse_version_spec(b: Seq<u8>) -> Option<(u8, u8, u8, Option<Seq<u8>>)> {
    match parse_triple_spec(version_part(b)) {
        None => None,
        Some((a, c, d)) => Some(
            (a, c, d, if prerelease_part(b).len() == 0 { None } else { Some(prerelease_part(b)) }),
        ),
    }
}

impl<'a> FirmwareVersion<'a> {
    /// The numbers and prerelease bytes of this version, as [`parse_version_spec`] gives them.
    pub open spec fn parts(&self) -> (u8, u8, u8, Option<Seq<u8>>) {
        (
            self.major,
            self.minor,
            self.patch,
            match self.prerelease {
                None => None,
                Some(p) => Some(p.spec_bytes()),
            },
        )
    }
}


/// An ASCII byte of valid UTF-8 ends a character, so the text can be split right after it.
proof fn lemma_ascii_byte_ends_char(bytes: Seq<u8>, i: int)
    requires
        valid_utf8(bytes),
        0 <= i < bytes.len(),
        bytes[i] < 0x80,
    ensures
        is_char_boundary(bytes, i + 1),
    decreases bytes.len(),
{
    let l = length_of_first_scalar(bytes);
    let p = pop_first_scalar(bytes);
    assert(valid_first_scalar(bytes));
    assert(1 <= l <= bytes.len());
    assert(p.len() == bytes.len() - l);
    if i < l {
        assert(i == 0);
        assert(l == 1);
        assert(is_char_boundary(p, 0));
    } else {
        assert(p[i - l] == bytes[i]);
        lemma_ascii_byte_ends_char(p, i - l);
    }
}

/// A run of digits is worth at least as much as any of its prefixes.
proof fn lemma_digits_value_prefix(s: Seq<u8>, k: int)
    requires
        0 <= k <= s.len(),
    ensures
        digits_value(s.subrange(0, k)) <= digits_value(s),
    decreases s.len(),
{
    if k < s.len() {
        lemma_digits_value_prefix(s.drop_last(), k);
        assert(s.drop_last().subrange(0, k) =~= s.subrange(0, k));
    } else {
        assert(s.subrange(0, k) =~= s);
    }
}

/// Parses a byte-sized decimal number the way `u8::from_str` does.
fn parse_u8(b: &[u8]) -> (r: Option<u8>)
    ensures
        r == parse_u8_spec(b@),
{
    let start: usize = if b.len() > 0 && b[0] == 0x2B { 1 } else { 0 };
    let ghost digits = unsigned_digits(b@);
    assert(digits =~= b@.subrange(start as int, b@.len() as int));
    if start == b.len() {
        return None;
    }
    let mut i = start;
    let mut value: u32 = 0;
    while i < b.len()
        invariant
            start <= i <= b.len(),
            digits =~= b@.subrange(start as int, b@.len() as int),
            digits == unsigned_digits(b@),
            forall|j: int| start <= j < i ==> is_digit(#[trigger] b@[j]),
            value == digits_value(b@.subrange(start as int, i as int)),
            value <= 255,
        decreases b.len() - i,
    {
        let x = b[i];
        if x < 0x30 || x > 0x39 {
            assert(digits[i - start] == x);
            assert(!is_digit(digits[i - start]));
            assert(!all_digits(digits));
            return None;
        }
        let ghost before = b@.subrange(start as int, i as int);
        assert(b@.subrange(start as int, i + 1).drop_last() =~= before);
        value = value * 10 + (x - 0x30) as u32;
        i += 1;
        assert(b@.subrange(start as int, i as int).last() == x);
        assert(value == digits_value(b@.subrange(start as int, i as int)));
        if value > 255 {
            proof {
                if all_digits(digits) {
                    lemma_digits_value_prefix(digits, i - start);
                    assert(digits.subrange(0, i - start) =~= b@.subrange(start as int, i as int));
                }
            }
            return None;
        }
    }
    assert(b@.subrange(start as int, i as int) =~= digits);
    Some(value as u8)
}

impl<'a> FirmwareVersion<'a> {
    /// Parses `MAJOR.MINOR.PATCH[-PRERELEASE]`. The prerelease part is everything after the
    /// first `-`, dots included; an empty prerelease part is the same as none.
    pub fn parse(text: &'a str) -> (r: Result<Self, ParseFirmwareError>)
        ensures
            match r {
                Ok(v) => parse_version_spec(text.spec_bytes()) == Some(v.parts()),
                Err(_) => parse_version_spec(text.spec_bytes()) is None,
            },
    {
        let b = text.as_bytes();
        let ghost bs = text.spec_bytes();
        let (vlen, prerelease): (usize, Option<&'a str>) = match find_byte(b, 0x2D, 0) {
            None => (b.len(), None),
            Some(d) => {
                proof {
                    lemma_ascii_byte_ends_char(bs, d as int);
                }
                let (_, rest) = text.split_at(d + 1);
                if rest.len() == 0 {
                    (d, None)
                } else {
                    (d, Some(rest))
                }
            },
        };
        let v = &b[0..vlen];
        assert(v@ =~= version_part(bs));
        let d1 = match find_byte(v, 0x2E, 0) {
            None => return Err(ParseFirmwareError {}),
            Some(d) => d,
        };
        let d2 = match find_byte(v, 0x2E, d1 + 1) {
            None => return Err(ParseFirmwareError {}),
            Some(d) => d,
        };
        if find_byte(v, 0x2E, d2 + 1).is_some() {
            return Err(ParseFirmwareError {});
        }
        let major = match parse_u8(&v[0..d1]) {
            None => return Err(ParseFirmwareError {}),
            Some(x) => x,
        };
        let minor = match parse_u8(&v[d1 + 1..d2]) {
            None => return Err(ParseFirmwareError {}),
            Some(x) => x,
        };
        let patch = match parse_u8(&v[d2 + 1..v.len()]) {
            None => return Err(ParseFirmwareError {}),
            Some(x) => x,
        };
        Ok(FirmwareVersion { major, minor, patch, prerelease })
    }
}

/// Whether two byte strings are equal.
fn same_bytes(a: &[u8], b: &[u8]) -> (r: bool)
    ensures
        r == (a@ == b@),
{
    if a.len() != b.len() {
        return false;
    }
    let mut i: usize = 0;
    while i < a.len()
        invariant
            i <= a@.len() == b@.len(),
            forall|j: int| 0 <= j < i ==> a@[j] == b@[j],
        decreases a.len() - i,
    {
        if a[i] != b[i] {
            return false;
        }
        i += 1;
    }
    assert(a@ =~= b@);
    true
}

impl<'a> FirmwareVersion<'a> {
    /// Whether two versions are equal: the same numbers, and either no prerelease or the same
    /// prerelease text.
    pub fn same_as(&self, other: &FirmwareVersion) -> (r: bool)
        ensures
            r == (self.parts() == other.parts()),
    {
        if self.major != other.major || self.minor != other.minor || self.patch != other.patch {
            return false;
        }
        match (self.prerelease, other.prerelease) {
            (None, None) => true,
            (Some(a), Some(b)) => same_bytes(a.as_bytes(), b.as_bytes()),
            _ => false,
        }
    }
}

} // verus!
