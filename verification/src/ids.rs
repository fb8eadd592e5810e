//! Identifiers of experiments and messages. An id is the 128-bit value of a
//! UUID; its text form is the canonical hyphenated one.

use vstd::prelude::*;

verus! {

/// What `uuid::Uuid::try_parse` makes of a text: the 128-bit value of the
/// UUID it denotes, or nothing where it denotes none.
pub uninterp spec fn parsed_uuid(text: Seq<char>) -> Option<u128>;

/// The text that `uuid::Uuid`'s `Display` gives for the UUID with the
/// 128-bit value `id`.
pub uninterp spec fn uuid_text(id: u128) -> Seq<char>;

/// Whether the 128-bit value is that of a random UUID: its version, the four
/// bits from bit 76 up, is 4, and its variant, the two bits from bit 62 up,
/// is that of RFC 9562. The other 122 bits are free.
pub open spec fn is_random_uuid(id: u128) -> bool {
    &&& (id >> 76) & 0xf == 4
    &&& (id >> 62) & 0x3 == 2
}

/// Draws a random version-4 UUID with `uuid::Uuid::new_v4` and returns its
/// 128-bit value (`Uuid::as_u128`). Whatever is drawn, the value carries the
/// version and the variant of a random UUID; nothing is claimed of its other
/// bits: they are random.
#[verifier::external_body]
pub(crate) fn random_uuid() -> (id: u128)
    ensures
        is_random_uuid(id),
{
    uuid::Uuid::new_v4().as_u128()
}

/// Parses a UUID with `uuid::Uuid::try_parse` and returns its 128-bit value
/// (`Uuid::as_u128`), or `None` where the parser fails. The result is the one
/// the parser gives for this text.
#[verifier::external_body]
pub(crate) fn try_parse_uuid(text: &str) -> (id: Option<u128>)
    ensures
        id == parsed_uuid(text@),
{
    match uuid::Uuid::try_parse(text) {
        Ok(uuid) => Some(uuid.as_u128()),
        Err(_) => None,
    }
}

/// Writes the UUID with the 128-bit value `id` (`Uuid::from_u128`) as text
/// with `uuid::Uuid`'s `Display`, which is the hyphenated lower-case form.
#[verifier::external_body]
pub(crate) fn uuid_to_string(id: u128) -> (text: String)
    ensures
        text@ == uuid_text(id),
{
    uuid::Uuid::from_u128(id).to_string()
}

} // verus!
