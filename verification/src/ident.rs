use vstd::prelude::*;
use vstd::arithmetic::power::pow;
use crate::text::digit_char;

verus! {

/// A 128-bit identifier: the digest of an image, or the token of a captcha,
/// a user or a session.
#[derive(Debug, Clone, Copy, PartialEq, Eq, Hash, Structural)]
pub struct Uuid(pub u128);

/// The character that writes a hexadecimal digit, in lower case.
pub open spec fn hex_char(d: int) -> char {
    if d < 10 {
        digit_char(d)
    } else {
        ((87 + d) as u8) as char
    }
}

/// The hexadecimal digit of `value` at place `i` of 32, counted from the
/// most significant.
pub open spec fn hex_at(value: u128, i: int) -> char {
    hex_char((value as int / pow(16, (31 - i) as nat)) % 16)
}

/// The number of hyphens that stand before place `k` of the written form.
pub open spec fn hyphens_before(k: int) -> int {
    if k < 8 {
        0
    } else if k < 13 {
        1
    } else if k < 18 {
        2
    } else if k < 23 {
        3
    } else {
        4
    }
}

/// The written form of an identifier: its 32 hexadecimal digits in lower
/// case, in groups of 8, 4, 4, 4 and 12 with a hyphen between them.
pub open spec fn hyphenated(value: u128) -> Seq<char> {
    Seq::new(
        36,
        |k: int|
            if k == 8 || k == 13 || k == 18 || k == 23 {
                '-'
            } else {
                hex_at(value, k - hyphens_before(k))
            },
    )
}

/// The identifier that a text denotes for `uuid::Uuid::parse_str`, if any.
pub uninterp spec fn uuid_parsed(text: Seq<char>) -> Option<u128>;

/// Formats with the `Display` of `uuid::Uuid`, which writes the hyphenated
/// form in lower case.
#[verifier::external_body]
fn uuid_text(value: u128) -> (out: String)
    ensures
        out@ == hyphenated(value),
{
    uuid::Uuid::from_u128(value).to_string()
}

/// Calls `uuid::Uuid::parse_str`, which reads any of the forms in which the
/// crate writes an identifier.
#[verifier::external_body]
fn parse_uuid(text: &str) -> (value: Option<u128>)
    ensures
        value == uuid_parsed(text@),
{
    match uuid::Uuid::parse_str(text) {
        Ok(id) => Some(id.as_u128()),
        Err(_) => None,
    }
}

/// Whether an identifier is marked as drawn at random: its version, the
/// thirteenth of its 32 hexadecimal digits, is 4, and the two highest bits
/// of its seventeenth digit, the variant, are binary 10.
pub open spec fn is_random_version(value: u128) -> bool {
    (value >> 76) & 0xf == 4 && (value >> 62) & 0x3 == 2
}

impl Uuid {
    /// The hyphenated form of this identifier.
    pub fn hyphenated(&self) -> (out: String)
        ensures
            out@ == hyphenated(self.0),
    {
        uuid_text(self.0)
    }

    /// Reads an identifier from a text.
    pub fn parse(text: &str) -> (id: Option<Uuid>)
        ensures
            id == match uuid_parsed(text@) {
                Some(value) => Some(Uuid(value)),
                None => None,
            },
    {
        match parse_uuid(text) {
            Some(value) => Some(Uuid(value)),
            None => None,
        }
    }

    /// A fresh random identifier, marked as drawn at random.
    pub fn random() -> (id: Uuid)
        ensures
            is_random_version(id.0),
    {
        Uuid(random_uuid())
    }
}

/// Calls `uuid::Uuid::new_v4`, which draws 128 random bits and then sets
/// the four bits of the version to 4 and the two bits of the variant to
/// binary 10. Nothing else is known of the value.
#[verifier::external_body]
fn random_uuid() -> (value: u128)
    ensures
        is_random_version(value),
{
    uuid::Uuid::new_v4().as_u128()
}

} // verus!
