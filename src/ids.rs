//! Issue identifiers and timestamps, kept as plain integers: an identifier is
//! the 128-bit value of a UUID, a timestamp counts milliseconds since the Unix
//! epoch (UTC).
use vstd::prelude::*;

verus! {

/// The 128-bit value of the UUID that a text spells, if it spells one.
pub uninterp spec fn parsed_issue_id(s: Seq<char>) -> Option<u128>;

/// Relies on uuid's `Uuid::parse_str`: the outcome depends on the text alone;
/// a well-formed UUID gives its 128-bit value (`Uuid::as_u128`).
#[verifier::external_body]
pub(crate) fn parse_issue_id(s: &str) -> (r: Option<u128>)
    ensures
        r == parsed_issue_id(s@),
{
    uuid::Uuid::parse_str(s).ok().map(|u| u.as_u128())
}

/// Relies on uuid's `Uuid::new_v4`: a random identifier, of which nothing is
/// promised.
#[verifier::external_body]
pub(crate) fn new_issue_id() -> (r: u128) {
    uuid::Uuid::new_v4().as_u128()
}

/// Relies on chrono's `Utc::now`: the current time in milliseconds, of which
/// nothing is promised.
#[verifier::external_body]
pub(crate) fn now_millis() -> (r: i64) {
    chrono::Utc::now().timestamp_millis()
}

} // verus!
