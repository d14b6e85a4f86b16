use vstd::prelude::*;

verus! {

/// The instant an RFC 3339 string denotes, in milliseconds since the Unix
/// epoch, or `None` when the string is not a well-formed timezone-aware
/// instant. A function of the string alone.
pub uninterp spec fn rfc3339_millis(s: Seq<char>) -> Option<i64>;

/// Relies on chrono::DateTime::parse_from_rfc3339 and
/// chrono::DateTime::timestamp_millis: whether a string is a well-formed
/// RFC 3339 instant, and that instant's milliseconds since the Unix epoch,
/// are functions of the string alone.
#[verifier::external_body]
pub(crate) fn parse_rfc3339_millis(s: &str) -> (r: Option<i64>)
    ensures
        r == rfc3339_millis(s@),
{
    match chrono::DateTime::parse_from_rfc3339(s) {
        Ok(d) => Some(d.timestamp_millis()),
        Err(_) => None,
    }
}

} // verus!
