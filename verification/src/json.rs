//! What is read of a JSON value.

use vstd::prelude::*;

verus! {

/// A JSON value of the crate `serde_json`.
#[verifier::external_type_specification]
#[verifier::external_body]
pub struct ExValue(serde_json::Value);

/// The keys of `value`, which has none unless it is an object.
pub uninterp spec fn value_keys(value: serde_json::Value) -> Set<Seq<char>>;

/// The Booleans in `value`, each under the JSON pointers that lead to it.
pub uninterp spec fn value_booleans(value: serde_json::Value) -> Map<Seq<char>, bool>;

/// The compact JSON text of `value`.
pub uninterp spec fn value_text(value: serde_json::Value) -> Seq<char>;

/// Whether `value` is an object with a member `key`.
///
/// Calls `serde_json::Value::get` with a string, which finds something exactly
/// where the value is an object that has this key.
#[verifier::external_body]
pub(crate) fn has_key(value: &serde_json::Value, key: &str) -> (r: bool)
    ensures
        r == value_keys(*value).contains(key@),
{
    value.get(key).is_some()
}

/// The Boolean that the JSON pointer `pointer` leads to.
///
/// Calls `serde_json::Value::pointer`, and `serde_json::Value::as_bool` on what it
/// finds: the result is the Boolean at that place, and nothing where there is no
/// such place or another kind of value at it.
#[verifier::external_body]
pub(crate) fn boolean_at(value: &serde_json::Value, pointer: &str) -> (r: Option<bool>)
    ensures
        r == (if value_booleans(*value).contains_key(pointer@) {
            Some(value_booleans(*value)[pointer@])
        } else {
            None
        }),
{
    value.pointer(pointer).and_then(serde_json::Value::as_bool)
}

/// The compact JSON text of `value`.
///
/// Calls `serde_json::to_string`, which cannot fail on a value whose keys are
/// strings, as all keys of a `serde_json::Value` are.
#[verifier::external_body]
pub(crate) fn to_text(value: &serde_json::Value) -> (r: String)
    ensures
        r@ == value_text(*value),
{
    serde_json::to_string(value).unwrap()
}

} // verus!
