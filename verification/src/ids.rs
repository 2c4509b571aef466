//! Identifiers: UUIDs held as their 128-bit big-endian values.
use vstd::prelude::*;
use vstd::arithmetic::power2::pow2;
use crate::text::digit_char;

verus! {

/// A version-4 (random) UUID value: version nibble 4, variant bits `10`.
pub open spec fn is_v4_id(id: u128) -> bool {
    &&& (id >> 76u128) & 0xfu128 == 4
    &&& (id >> 62u128) & 0x3u128 == 2
}

/// `Uuid::new_v4`, as the 128-bit value of the UUID. The value is random;
/// the source sets the version nibble to 4 and the variant bits to `10`,
/// and that is all the contract states.
#[verifier::external_body]
pub(crate) fn new_id() -> (id: u128)
    ensures
        is_v4_id(id),
{
    uuid::Uuid::new_v4().as_u128()
}

/// A lowercase hexadecimal digit.
pub open spec fn hex_lower(d: nat) -> char {
    if d < 10 {
        digit_char(d)
    } else if d == 10 {
        'a'
    } else if d == 11 {
        'b'
    } else if d == 12 {
        'c'
    } else if d == 13 {
        'd'
    } else if d == 14 {
        'e'
    } else {
        'f'
    }
}

/// The 32 hexadecimal digits of a UUID, most significant first.
pub open spec fn uuid_hex_digits(id: u128) -> Seq<char> {
    Seq::new(32, |k: int| hex_lower((id as nat / pow2((4 * (31 - k)) as nat)) % 16))
}

/// The hyphenated lowercase text of a UUID (`8-4-4-4-12` digits), as
/// `Uuid`'s `Display` writes it.
pub open spec fn uuid_text(id: u128) -> Seq<char> {
    let h = uuid_hex_digits(id);
    h.subrange(0, 8) + seq!['-'] + h.subrange(8, 12) + seq!['-'] + h.subrange(12, 16) + seq!['-']
        + h.subrange(16, 20) + seq!['-'] + h.subrange(20, 32)
}

/// `Uuid::to_string` of the UUID with the given value: its hyphenated
/// lowercase hexadecimal text.
#[verifier::external_body]
pub(crate) fn uuid_string(id: u128) -> (s: String)
    ensures
        s@ == uuid_text(id),
{
    uuid::Uuid::from_u128(id).to_string()
}

/// What `Uuid::parse_str` returns for a text, as the 128-bit value of the
/// UUID: it accepts the simple, hyphenated, braced and URN forms.
pub uninterp spec fn spec_parse_uuid(s: Seq<char>) -> Option<u128>;

/// `Uuid::parse_str`, with the error dropped. The contract names the result
/// as a function of the text; the accepted forms are not restated.
#[verifier::external_body]
pub(crate) fn parse_uuid(s: &str) -> (r: Option<u128>)
    ensures
        r == spec_parse_uuid(s@),
{
    match uuid::Uuid::parse_str(s) {
        Ok(u) => Some(u.as_u128()),
        Err(_) => None,
    }
}

} // verus!
