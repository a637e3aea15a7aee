//! Interpretation of one HTTP response from the search endpoint: a success
//! status yields the `pagination.totalCount` field of the JSON body, an error
//! status yields no result.

use vstd::prelude::*;

verus! {

/// The `pagination.totalCount` field of `body` read as JSON, if the body
/// parses and the field is an integer in range; a function of the body text
/// alone.
pub uninterp spec fn total_count_of(body: Seq<char>) -> Option<i64>;

/// Relies on `serde_json::from_str`, `Value::get` and `Value::as_i64`: the
/// extracted `pagination.totalCount` field depends on the body text alone.
#[verifier::external_body]
fn extract_total_count(body: &str) -> (r: Option<i64>)
    ensures
        r == total_count_of(body@),
{
    match serde_json::from_str::<serde_json::Value>(body) {
        Ok(v) => v.get("pagination").and_then(|p| p.get("totalCount")).and_then(|c| c.as_i64()),
        Err(_) => None,
    }
}

/// What one response means for the run.
#[derive(Clone, Copy, Debug, PartialEq, Eq, Structural)]
pub enum FetchOutcome {
    /// A success status with a well-formed body carrying the count.
    Count(i64),
    /// An error or unexpected status: no result, reported and fatal upstream.
    NoResult,
    /// A success status whose body lacks a readable count; the run is
    /// permitted to fail loudly on it.
    Malformed,
}

pub open spec fn is_success_status(status: u16) -> bool {
    200 <= status <= 299
}

pub open spec fn is_error_status(status: u16) -> bool {
    400 <= status <= 599
}

/// The outcome owed for a response: on a success status exactly the count
/// the body carries, on every other status no result.
pub open spec fn outcome_spec(status: u16, body: Seq<char>) -> FetchOutcome {
    if is_success_status(status) {
        match total_count_of(body) {
            Some(n) => FetchOutcome::Count(n),
            None => FetchOutcome::Malformed,
        }
    } else {
        FetchOutcome::NoResult
    }
}

/// Pass-through fidelity: on a success status whose body carries the count
/// `n`, the outcome is exactly `Count(n)`, for every body and status.
pub proof fn lemma_count_pass_through(status: u16, body: Seq<char>, n: i64)
    requires
        is_success_status(status),
        total_count_of(body) == Some(n),
    ensures
        outcome_spec(status, body) == FetchOutcome::Count(n),
{
}

/// Every error status in 400 through 599 yields no result, whatever the
/// body holds.
pub proof fn lemma_error_status_yields_no_result(status: u16, body: Seq<char>)
    requires
        is_error_status(status),
    ensures
        outcome_spec(status, body) == FetchOutcome::NoResult,
{
}

pub fn interpret_response(status: u16, body: &str) -> (r: FetchOutcome)
    ensures
        r == outcome_spec(status, body@),
        is_error_status(status) ==> r == FetchOutcome::NoResult,
{
    if 200 <= status && status <= 299 {
        match extract_total_count(body) {
            Some(n) => FetchOutcome::Count(n),
            None => FetchOutcome::Malformed,
        }
    } else {
        FetchOutcome::NoResult
    }
}

} // verus!

