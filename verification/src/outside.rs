//! The library's trusted boundary: declarations for the outside functions
//! it calls. Verus believes the contracts stated here; nothing else in the
//! crate is taken on trust.

use vstd::prelude::*;

verus! {

/// Whether `pattern` compiles as a regular expression.
pub uninterp spec fn regex_valid(pattern: Seq<char>) -> bool;

/// Whether the regular expression `pattern` matches somewhere in `text`.
pub uninterp spec fn regex_match(pattern: Seq<char>, text: Seq<char>) -> bool;

/// Relies on regex::Regex::new: whether a pattern compiles depends on the
/// pattern alone.
#[verifier::external_body]
pub fn regex_pattern_valid(pattern: &str) -> (r: bool)
    ensures
        r == regex_valid(pattern@),
{
    regex::Regex::new(pattern).is_ok()
}

/// Relies on regex::Regex::new and regex::Regex::is_match: whether the
/// compiled pattern matches somewhere in the text depends on the pattern
/// and the text alone.
#[verifier::external_body]
pub fn regex_is_match(pattern: &str, text: &str) -> (r: Option<bool>)
    ensures
        r is Some <==> regex_valid(pattern@),
        r is Some ==> r->0 == regex_match(pattern@, text@),
{
    match regex::Regex::new(pattern) {
        Ok(re) => Some(re.is_match(text)),
        Err(_) => None,
    }
}

/// Whether `pattern` compiles as a shell-style glob pattern.
pub uninterp spec fn glob_valid(pattern: Seq<char>) -> bool;

/// Whether the glob `pattern` matches the whole of `path`.
pub uninterp spec fn glob_match(pattern: Seq<char>, path: Seq<char>) -> bool;

/// Relies on glob::Pattern::new: whether a pattern compiles depends on the
/// pattern alone.
#[verifier::external_body]
pub fn glob_pattern_valid(pattern: &str) -> (r: bool)
    ensures
        r == glob_valid(pattern@),
{
    glob::Pattern::new(pattern).is_ok()
}

/// Relies on glob::Pattern::new and glob::Pattern::matches: whether the
/// compiled pattern matches the path depends on the pattern and the path
/// alone.
#[verifier::external_body]
pub fn glob_is_match(pattern: &str, path: &str) -> (r: Option<bool>)
    ensures
        r is Some <==> glob_valid(pattern@),
        r is Some ==> r->0 == glob_match(pattern@, path@),
{
    match glob::Pattern::new(pattern) {
        Ok(p) => Some(p.matches(path)),
        Err(_) => None,
    }
}

/// The string under `key` at the top of the JSON document `text`: present
/// exactly when `text` parses to an object whose `key` field is a string.
pub uninterp spec fn json_top_str_field(text: Seq<char>, key: Seq<char>) -> Option<Seq<char>>;

/// The boolean under `key` at the top of the JSON document `text`: present
/// exactly when `text` parses to an object whose `key` field is a boolean.
pub uninterp spec fn json_top_bool_field(text: Seq<char>, key: Seq<char>) -> Option<bool>;

/// Relies on serde_json::from_str, Value::get and Value::as_str: the
/// string under `key` at the top of the document is a function of the
/// text and the key alone. Which keys to read, and what an absent field
/// means, is the caller's verified logic, not this wrapper's.
#[verifier::external_body]
pub fn json_top_str(text: &str, key: &str) -> (r: Option<String>)
    ensures
        r.deep_view() == json_top_str_field(text@, key@),
{
    match serde_json::from_str::<serde_json::Value>(text) {
        Ok(v) => match v.get(key) {
            Some(f) => f.as_str().map(|s| s.to_string()),
            None => None,
        },
        Err(_) => None,
    }
}

/// Relies on serde_json::from_str, Value::get and Value::as_bool: the
/// boolean under `key` at the top of the document is a function of the
/// text and the key alone.
#[verifier::external_body]
pub fn json_top_bool(text: &str, key: &str) -> (r: Option<bool>)
    ensures
        r == json_top_bool_field(text@, key@),
{
    match serde_json::from_str::<serde_json::Value>(text) {
        Ok(v) => match v.get(key) {
            Some(f) => f.as_bool(),
            None => None,
        },
        Err(_) => None,
    }
}

/// Relies on uuid::Uuid::new_v4 and its Display form: a fresh random
/// identifier, rendered as the documented 36-character hyphenated form;
/// nothing is promised of its value.
#[verifier::external_body]
pub fn fresh_id() -> (r: String)
    ensures
        r@.len() == 36,
{
    uuid::Uuid::new_v4().to_string()
}

pub assume_specification<T>[ rand::random::<T> ]() -> (r: T)
    where
        rand::distributions::Standard: rand::distributions::Distribution<T>,
;

} // verus!
