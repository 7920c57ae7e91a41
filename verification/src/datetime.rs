use vstd::prelude::*;

verus! {

/// The instant, in seconds since the Unix epoch, that a `YYYY-MM-DD
/// HH:MM:SS` text denotes, or `None` when the text is not a datetime in
/// that shape.  The result depends on the characters alone.
pub uninterp spec fn parsed_datetime(s: Seq<char>) -> Option<i64>;

/// Relies on chrono's `NaiveDateTime::parse_from_str` with the
/// `%Y-%m-%d %H:%M:%S` format, and on `DateTime::<Utc>::timestamp`, which
/// counts non-leap seconds since the Unix epoch: both are pure functions of
/// the text.
#[verifier::external_body]
pub(crate) fn parse_datetime(s: &str) -> (r: Option<i64>)
    ensures
        r == parsed_datetime(s@),
{
    match chrono::NaiveDateTime::parse_from_str(s, "%Y-%m-%d %H:%M:%S") {
        Ok(dt) => Some(dt.and_utc().timestamp()),
        Err(_) => None,
    }
}

} // verus!
