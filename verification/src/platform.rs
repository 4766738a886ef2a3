//! The calls into outside crates that the port makes: random identifiers,
//! the clock, random numbers, date formatting and JSON Schema checking.

use vstd::prelude::*;

verus! {

/// `uuid::Uuid::new_v4()` rendered with its `Display` impl. The uuid source
/// renders a UUID in hyphenated form: 36 characters, with hyphens at
/// positions 8, 13, 18 and 23. The identifier itself is random.
#[verifier::external_body]
pub(crate) fn new_uuid_string() -> (r: String)
    ensures
        r@.len() == 36,
        r@[8] == '-',
        r@[13] == '-',
        r@[18] == '-',
        r@[23] == '-',
{
    uuid::Uuid::new_v4().to_string()
}

/// `chrono::Utc::now().timestamp_millis()`: the current time in milliseconds
/// since the Unix epoch. Nothing is stated of the value, which is the time.
#[verifier::external_body]
pub(crate) fn now_millis() -> (r: i64) {
    chrono::Utc::now().timestamp_millis()
}

/// `fastrand::u64(0..=max)`: a random number between 0 and `max`, both
/// included.
#[verifier::external_body]
pub(crate) fn random_u64_through(max: u64) -> (r: u64)
    ensures
        r <= max,
{
    fastrand::u64(0..=max)
}

/// `fastrand::usize(0..n)`: a random index below `n`. fastrand panics on an
/// empty range, so `n` must be positive.
#[verifier::external_body]
pub(crate) fn random_index_below(n: usize) -> (r: usize)
    requires
        n > 0,
    ensures
        r < n,
{
    fastrand::usize(0..n)
}

/// What `chrono::DateTime::<Utc>::from_timestamp_millis(ms)` followed by
/// `format(pattern).to_string()` gives: `None` where chrono has no date for
/// `ms`.
pub uninterp spec fn chrono_utc_text(ms: i64, pattern: Seq<char>) -> Option<Seq<char>>;

/// Renders the UTC date at `ms` milliseconds since the epoch with the chrono
/// format string `pattern`. The text is named, not stated: it is
/// `chrono_utc_text(ms, pattern)`. Rendering panics on a malformed pattern,
/// so the pattern is the one the CSV export uses, whose items chrono knows.
#[verifier::external_body]
pub(crate) fn format_utc_millis(ms: i64, pattern: &str) -> (r: Option<String>)
    requires
        pattern@ == "%Y-%m-%d %H:%M:%S UTC"@,
    ensures
        match r {
            Some(s) => chrono_utc_text(ms, pattern@) == Some(s@),
            None => chrono_utc_text(ms, pattern@) is None,
        },
{
    match chrono::DateTime::<chrono::Utc>::from_timestamp_millis(ms) {
        Some(t) => Some(t.format(pattern).to_string()),
        None => None,
    }
}

/// What checking the JSON document `instance` against the JSON Schema
/// `schema` (both JSON texts) with `jsonschema::validator_for` and
/// `Validator::iter_errors` gives: `Ok` with the rendered errors (empty when
/// the instance is valid), or `Err` with the rendered error when a text is
/// not JSON or the schema cannot be compiled.
pub uninterp spec fn json_schema_outcome(schema: Seq<char>, instance: Seq<char>) -> Result<
    Seq<Seq<char>>,
    Seq<char>,
>;

/// Checks `instance_json` against `schema_json` with the jsonschema crate.
/// The outcome is named, not stated: it is `json_schema_outcome`.
#[verifier::external_body]
pub(crate) fn check_json_schema(schema_json: &str, instance_json: &str) -> (r: Result<Vec<String>, String>)
    ensures
        match (r, json_schema_outcome(schema_json@, instance_json@)) {
            (Ok(errors), Ok(expected)) => errors@.map_values(|e: String| e@) == expected,
            (Err(e), Err(expected)) => e@ == expected,
            _ => false,
        },
{
    let schema: serde_json::Value = serde_json::from_str(schema_json).map_err(|e| e.to_string())?;
    let instance: serde_json::Value = serde_json::from_str(instance_json).map_err(|e| e.to_string())?;
    let validator = jsonschema::validator_for(&schema).map_err(|e| e.to_string())?;
    Ok(validator.iter_errors(&instance).map(|e| e.to_string()).collect())
}

/// What parsing the JSON texts `a` and `b` with `serde_json::from_str` into
/// `serde_json::Value`s, a text that does not parse counting as `Null`, and
/// comparing the two values with `==` gives.
pub uninterp spec fn json_values_equal(a: Seq<char>, b: Seq<char>) -> bool;

/// Compares two JSON texts as `serde_json::Value`s, a text that does not
/// parse counting as `Null`. The outcome is named, not stated: it is
/// `json_values_equal`.
#[verifier::external_body]
pub(crate) fn same_json_value(a: &str, b: &str) -> (r: bool)
    ensures
        r == json_values_equal(a@, b@),
{
    let left: serde_json::Value = serde_json::from_str(a).unwrap_or_default();
    let right: serde_json::Value = serde_json::from_str(b).unwrap_or_default();
    left == right
}

} // verus!
