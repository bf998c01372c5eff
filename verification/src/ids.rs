//! Entity identifiers: 128-bit values, written and read as UUID text.
use vstd::prelude::*;

verus! {

/// Identifier of an entity (the 128 bits of a UUID).
pub type EntityId = u128;

/// The identifier that the UUID text `text` denotes, if it is valid UUID text.
pub uninterp spec fn uuid_parse(text: Seq<char>) -> Option<u128>;

/// The hyphenated lower-case UUID text of `id`.
pub uninterp spec fn uuid_text(id: u128) -> Seq<char>;

/// A fresh random identifier: the bits of a version-4 UUID from `uuid::Uuid::new_v4`.
/// Nothing is claimed of the value.
#[verifier::external_body]
pub(crate) fn new_entity_id() -> (r: EntityId) {
    uuid::Uuid::new_v4().as_u128()
}

/// Reads UUID text, through `uuid::Uuid::parse_str`. Claimed: the result is the named
/// `uuid_parse` of the text.
#[verifier::external_body]
pub(crate) fn parse_entity_id(text: &str) -> (r: Option<EntityId>)
    ensures
        r == uuid_parse(text@),
{
    uuid::Uuid::parse_str(text).ok().map(|u| u.as_u128())
}

/// Writes an identifier as hyphenated UUID text, through `Display` of `uuid::Uuid`.
/// Claimed: the text is the named `uuid_text` of the identifier, and `Uuid::parse_str`
/// reads it back to the same identifier.
#[verifier::external_body]
pub(crate) fn entity_id_text(id: EntityId) -> (r: String)
    ensures
        r@ == uuid_text(id),
        uuid_parse(r@) == Some(id),
{
    uuid::Uuid::from_u128(id).to_string()
}

} // verus!
