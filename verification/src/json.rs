//! Patches that change a stored record, read from JSON object text: each member that is
//! present with a value of the expected kind names a field to change.
use vstd::prelude::*;
use crate::ids::{EntityId, parse_entity_id, uuid_parse};

verus! {

/// Whether `text` is JSON text.
pub uninterp spec fn json_parses(text: Seq<char>) -> bool;

/// The description of why `text` is not JSON text.
pub uninterp spec fn json_error_text(text: Seq<char>) -> Seq<char>;

/// The member `key` of JSON text `text` when the text is an object holding that member
/// as an integer within `i64`.
pub uninterp spec fn json_member_i64(text: Seq<char>, key: Seq<char>) -> Option<i64>;

/// The member `key` of JSON text `text` when the text is an object holding that member
/// as a string.
pub uninterp spec fn json_member_str(text: Seq<char>, key: Seq<char>) -> Option<Seq<char>>;

/// The member `key` of JSON text `text` when the text is an object holding that member
/// as a boolean.
pub uninterp spec fn json_member_bool(text: Seq<char>, key: Seq<char>) -> Option<bool>;

/// Whether JSON text `text` is an object holding a member `key`, whatever its value.
pub uninterp spec fn json_has_member(text: Seq<char>, key: Seq<char>) -> bool;

/// The text of an optional string.
pub open spec fn text_of(s: Option<String>) -> Option<Seq<char>> {
    match s {
        Some(t) => Some(t@),
        None => None,
    }
}

/// Whether `text` parses as JSON, through `serde_json::from_str` into a
/// `serde_json::Value`. Claimed: `None` exactly when it parses, otherwise the parser's
/// description of the problem.
#[verifier::external_body]
fn json_problem(text: &str) -> (r: Option<String>)
    ensures
        r is None <==> json_parses(text@),
        r matches Some(m) ==> m@ == json_error_text(text@),
{
    match serde_json::from_str::<serde_json::Value>(text) {
        Ok(_) => None,
        Err(e) => Some(e.to_string()),
    }
}

/// An integer member of JSON text, through `serde_json::from_str`, `Value::get` and
/// `Value::as_i64`. Claimed: `None` when the text does not parse, otherwise the named
/// member.
#[verifier::external_body]
fn json_i64_member(text: &str, key: &str) -> (r: Option<Option<i64>>)
    ensures
        r is None <==> !json_parses(text@),
        r matches Some(v) ==> v == json_member_i64(text@, key@),
{
    match serde_json::from_str::<serde_json::Value>(text) {
        Ok(v) => Some(v.get(key).and_then(serde_json::Value::as_i64)),
        Err(_) => None,
    }
}

/// A string member of JSON text, through `serde_json::from_str`, `Value::get` and
/// `Value::as_str`. Claimed: `None` when the text does not parse, otherwise the named
/// member.
#[verifier::external_body]
fn json_str_member(text: &str, key: &str) -> (r: Option<Option<String>>)
    ensures
        r is None <==> !json_parses(text@),
        r matches Some(v) ==> text_of(v) == json_member_str(text@, key@),
{
    match serde_json::from_str::<serde_json::Value>(text) {
        Ok(v) => Some(v.get(key).and_then(serde_json::Value::as_str).map(String::from)),
        Err(_) => None,
    }
}

/// A boolean member of JSON text, through `serde_json::from_str`, `Value::get` and
/// `Value::as_bool`. Claimed: `None` when the text does not parse, otherwise the named
/// member.
#[verifier::external_body]
fn json_bool_member(text: &str, key: &str) -> (r: Option<Option<bool>>)
    ensures
        r is None <==> !json_parses(text@),
        r matches Some(v) ==> v == json_member_bool(text@, key@),
{
    match serde_json::from_str::<serde_json::Value>(text) {
        Ok(v) => Some(v.get(key).and_then(serde_json::Value::as_bool)),
        Err(_) => None,
    }
}

/// Whether JSON text holds a member, through `serde_json::from_str` and `Value::get`.
/// Claimed: `None` when the text does not parse, otherwise the named fact.
#[verifier::external_body]
fn json_member_present(text: &str, key: &str) -> (r: Option<bool>)
    ensures
        r is None <==> !json_parses(text@),
        r matches Some(b) ==> b == json_has_member(text@, key@),
{
    match serde_json::from_str::<serde_json::Value>(text) {
        Ok(v) => Some(v.get(key).is_some()),
        Err(_) => None,
    }
}

/// The integer member `key` of JSON text that parses.
fn member_i64(text: &str, key: &str) -> (r: Option<i64>)
    requires
        json_parses(text@),
    ensures
        r == json_member_i64(text@, key@),
{
    match json_i64_member(text, key) {
        Some(v) => v,
        None => None,
    }
}

/// The string member `key` of JSON text that parses.
fn member_str(text: &str, key: &str) -> (r: Option<String>)
    requires
        json_parses(text@),
    ensures
        text_of(r) == json_member_str(text@, key@),
{
    match json_str_member(text, key) {
        Some(v) => v,
        None => None,
    }
}

/// The boolean member `key` of JSON text that parses.
fn member_bool(text: &str, key: &str) -> (r: Option<bool>)
    requires
        json_parses(text@),
    ensures
        r == json_member_bool(text@, key@),
{
    match json_bool_member(text, key) {
        Some(v) => v,
        None => None,
    }
}

/// A member that may clear a field: absent, no change (`None`); a string, that text
/// (`Some(Some(..))`); any other value, `null` among them, the field cleared (`Some(None)`).
pub open spec fn clearable_value(text: Seq<char>, key: Seq<char>) -> Option<Option<Seq<char>>> {
    if !json_has_member(text, key) {
        None
    } else {
        Some(json_member_str(text, key))
    }
}

/// The text of a change to a field that may be cleared.
pub open spec fn clearable_text(c: Option<Option<String>>) -> Option<Option<Seq<char>>> {
    match c {
        Some(s) => Some(text_of(s)),
        None => None,
    }
}

/// The clearable member `key` of JSON text that parses.
fn member_clearable(text: &str, key: &str) -> (r: Option<Option<String>>)
    requires
        json_parses(text@),
    ensures
        clearable_text(r) == clearable_value(text@, key@),
{
    match json_member_present(text, key) {
        Some(true) => Some(member_str(text, key)),
        _ => None,
    }
}

/// Why a patch does not read: the text is not JSON, or a member does not hold what its
/// field needs.
#[derive(Debug, Clone, PartialEq, Eq)]
pub enum PatchError {
    InvalidJson(String),
    InvalidField(String),
}

impl PatchError {
    /// The message carried by the error.
    pub open spec fn message(self) -> Seq<char> {
        match self {
            PatchError::InvalidJson(m) => m@,
            PatchError::InvalidField(m) => m@,
        }
    }
}

/// Message of the error for patch text that is not JSON.
pub open spec fn invalid_json_message(text: Seq<char>) -> Seq<char> {
    "Invalid JSON: "@ + json_error_text(text)
}

/// Message of the error for a `category_id` member that is not UUID text.
pub open spec fn invalid_category_id_message() -> Seq<char> {
    "Invalid category_id UUID"@
}

/// The error for patch text that is not JSON, when it is not.
fn json_check(text: &str) -> (r: Result<(), PatchError>)
    ensures
        r is Ok <==> json_parses(text@),
        r matches Err(e) ==> e is InvalidJson && e.message() == invalid_json_message(text@),
{
    match json_problem(text) {
        None => Ok(()),
        Some(problem) => {
            let mut m = "Invalid JSON: ".to_string();
            m.append(problem.as_str());
            Err(PatchError::InvalidJson(m))
        },
    }
}

/// Changes to an account: its name and its currency.
pub struct AccountPatch {
    pub name: Option<String>,
    pub currency: Option<String>,
}

/// Reads an account patch (`{"name": .., "currency": ..}`); a member that is not a
/// string changes nothing.
pub fn account_patch_from_json(update_json: &str) -> (r: Result<AccountPatch, PatchError>)
    ensures
        r is Ok <==> json_parses(update_json@),
        r matches Err(e) ==> e is InvalidJson && e.message() == invalid_json_message(update_json@),
        r matches Ok(p) ==> text_of(p.name) == json_member_str(update_json@, "name"@)
            && text_of(p.currency) == json_member_str(update_json@, "currency"@),
{
    json_check(update_json)?;
    Ok(AccountPatch { name: member_str(update_json, "name"), currency: member_str(update_json, "currency") })
}

/// Changes to a category: its name and its icon, which may be cleared.
pub struct CategoryPatch {
    pub name: Option<String>,
    pub icon: Option<Option<String>>,
}

/// Reads a category patch (`{"name": .., "icon": ..}`); a name that is not a string
/// changes nothing, and an icon member that is not a string (`null` among them) clears
/// the icon.
pub fn category_patch_from_json(update_json: &str) -> (r: Result<CategoryPatch, PatchError>)
    ensures
        r is Ok <==> json_parses(update_json@),
        r matches Err(e) ==> e is InvalidJson && e.message() == invalid_json_message(update_json@),
        r matches Ok(p) ==> text_of(p.name) == json_member_str(update_json@, "name"@)
            && clearable_text(p.icon) == clearable_value(update_json@, "icon"@),
{
    json_check(update_json)?;
    Ok(CategoryPatch { name: member_str(update_json, "name"), icon: member_clearable(update_json, "icon") })
}

/// Changes to a tag: its name and its color, which may be cleared.
pub struct TagPatch {
    pub name: Option<String>,
    pub color: Option<Option<String>>,
}

/// Reads a tag patch (`{"name": .., "color": ..}`); a name that is not a string changes
/// nothing, and a color member that is not a string (`null` among them) clears the color.
pub fn tag_patch_from_json(update_json: &str) -> (r: Result<TagPatch, PatchError>)
    ensures
        r is Ok <==> json_parses(update_json@),
        r matches Err(e) ==> e is InvalidJson && e.message() == invalid_json_message(update_json@),
        r matches Ok(p) ==> text_of(p.name) == json_member_str(update_json@, "name"@)
            && clearable_text(p.color) == clearable_value(update_json@, "color"@),
{
    json_check(update_json)?;
    Ok(TagPatch { name: member_str(update_json, "name"), color: member_clearable(update_json, "color") })
}

/// Changes to a budget: its name, its amount and its period (by name).
pub struct BudgetPatch {
    pub name: Option<String>,
    pub amount: Option<i64>,
    pub period: Option<String>,
}

/// Reads a budget patch (`{"name": .., "amount": .., "period": ..}`); a member that is not
/// of its field's kind changes nothing.
pub fn budget_patch_from_json(update_json: &str) -> (r: Result<BudgetPatch, PatchError>)
    ensures
        r is Ok <==> json_parses(update_json@),
        r matches Err(e) ==> e is InvalidJson && e.message() == invalid_json_message(update_json@),
        r matches Ok(p) ==> text_of(p.name) == json_member_str(update_json@, "name"@)
            && p.amount == json_member_i64(update_json@, "amount"@)
            && text_of(p.period) == json_member_str(update_json@, "period"@),
{
    json_check(update_json)?;
    Ok(BudgetPatch {
        name: member_str(update_json, "name"),
        amount: member_i64(update_json, "amount"),
        period: member_str(update_json, "period"),
    })
}

/// Changes to a recurring template: its amount, description, active flag and category.
pub struct RecurringPatch {
    pub amount: Option<i64>,
    pub description: Option<String>,
    pub is_active: Option<bool>,
    pub category_id: Option<EntityId>,
}

/// The category identifier a recurring patch names: `Some(None)` when it names none,
/// `None` when its `category_id` string is not UUID text.
pub open spec fn patch_category(text: Seq<char>) -> Option<Option<EntityId>> {
    match json_member_str(text, "category_id"@) {
        None => Some(None),
        Some(s) => match uuid_parse(s) {
            Some(id) => Some(Some(id)),
            None => None,
        },
    }
}

/// Reads a recurring template patch (`{"amount": .., "description": .., "is_active": ..,
/// "category_id": ..}`); a member that is not of its field's kind changes nothing, and a
/// `category_id` string must be UUID text.
pub fn recurring_patch_from_json(update_json: &str) -> (r: Result<RecurringPatch, PatchError>)
    ensures
        r is Ok <==> json_parses(update_json@) && patch_category(update_json@) is Some,
        r matches Err(e) ==> if json_parses(update_json@) {
            e is InvalidField && e.message() == invalid_category_id_message()
        } else {
            e is InvalidJson && e.message() == invalid_json_message(update_json@)
        },
        r matches Ok(p) ==> p.amount == json_member_i64(update_json@, "amount"@)
            && text_of(p.description) == json_member_str(update_json@, "description"@)
            && p.is_active == json_member_bool(update_json@, "is_active"@)
            && Some(p.category_id) == patch_category(update_json@),
{
    json_check(update_json)?;
    let category_id = match member_str(update_json, "category_id") {
        Some(text) => match parse_entity_id(text.as_str()) {
            Some(id) => Some(id),
            None => return Err(PatchError::InvalidField("Invalid category_id UUID".to_string())),
        },
        None => None,
    };
    Ok(RecurringPatch {
        amount: member_i64(update_json, "amount"),
        description: member_str(update_json, "description"),
        is_active: member_bool(update_json, "is_active"),
        category_id,
    })
}

} // verus!
