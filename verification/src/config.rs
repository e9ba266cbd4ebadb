//! The rule's configuration: one option, read from a JSON document.

use serde_json::Value;
use vstd::prelude::*;

use crate::rule::NoRedeclare;

verus! {

/// `serde_json::Value`: a JSON document. Nothing of its inside is known
/// here but through [`json`].
#[verifier::external_type_specification]
#[verifier::external_body]
pub struct ExValue(Value);

/// What a JSON document holds. Numbers are kept without their value.
pub enum Json {
    Null,
    Bool(bool),
    Number,
    String(Seq<char>),
    Array(Seq<Json>),
    Object(Map<Seq<char>, Json>),
}

/// What `value` holds: its variant, and below an array or an object the
/// same of every element and member.
pub uninterp spec fn json(value: Value) -> Json;

/// `Value::get` with a position: the element at `index` where the value is
/// an array that long, else nothing.
#[verifier::external_body]
fn element(value: &Value, index: usize) -> (found: Option<&Value>)
    ensures
        match json(*value) {
            Json::Array(items) => if index < items.len() {
                found matches Some(item) && json(*item) == items[index as int]
            } else {
                found is None
            },
            _ => found is None,
        },
{
    value.get(index)
}

/// `Value::get` with a key: the member under `key` where the value is an
/// object that has one, else nothing.
#[verifier::external_body]
fn member<'a>(value: &'a Value, key: &str) -> (found: Option<&'a Value>)
    ensures
        match json(*value) {
            Json::Object(members) => if members.contains_key(key@) {
                found matches Some(item) && json(*item) == members[key@]
            } else {
                found is None
            },
            _ => found is None,
        },
{
    value.get(key)
}

/// `Value::as_bool`: the boolean where the value is one, else nothing.
#[verifier::external_body]
fn boolean(value: &Value) -> (found: Option<bool>)
    ensures
        found == match json(*value) {
            Json::Bool(b) => Some(b),
            _ => None,
        },
{
    value.as_bool()
}

/// The key of the rule's one option.
pub open spec fn option_key() -> Seq<char> {
    "builtinGlobals"@
}

/// What a configuration says of the option: the boolean under the option's
/// key in the object that is the first element of the configuration array.
/// A configuration of any other shape says nothing.
pub open spec fn configured(config: Json) -> Option<bool> {
    match config {
        Json::Array(items) => if items.len() > 0 {
            match items[0] {
                Json::Object(members) => if members.contains_key(option_key()) {
                    match members[option_key()] {
                        Json::Bool(on) => Some(on),
                        _ => None,
                    }
                } else {
                    None
                },
                _ => None,
            }
        } else {
            None
        },
        _ => None,
    }
}

/// What `value` says of the rule's option.
pub fn configured_option(value: &Value) -> (option: Option<bool>)
    ensures
        option == configured(json(*value)),
{
    match element(value, 0) {
        Some(config) => match member(config, "builtinGlobals") {
            Some(setting) => boolean(setting),
            None => None,
        },
        None => None,
    }
}

impl NoRedeclare {
    /// The rule as `value` configures it: the built-in check is on exactly
    /// where `value` sets the option to `true`.
    pub fn from_configuration(value: Value) -> (rule: NoRedeclare)
        ensures
            rule.checks_builtin_globals() == (configured(json(value)) == Some(true)),
    {
        NoRedeclare::from_option(configured_option(&value))
    }
}

} // verus!
