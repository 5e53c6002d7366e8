//! Timestamp normalisation to RFC 3339, through chrono.
use vstd::prelude::*;

verus! {

/// The RFC 3339 text of the date that `s` denotes when read with the
/// strftime-style format `fmt`, or `None` when `s` does not fit it.
pub uninterp spec fn rfc3339_of_formatted(s: Seq<char>, fmt: Seq<char>) -> Option<Seq<char>>;

/// The RFC 3339 text, in UTC, of the instant `secs` seconds after the Unix
/// epoch, or `None` when chrono cannot represent it.
pub uninterp spec fn rfc3339_of_epoch(secs: int) -> Option<Seq<char>>;

/// Relies on chrono's `DateTime::parse_from_str` and then
/// `DateTime::to_rfc3339`: the result depends on `s` and `fmt` alone.
#[verifier::external_body]
pub(crate) fn formatted_to_rfc3339(s: &str, fmt: &str) -> (r: Option<String>)
    ensures
        r is Some <==> rfc3339_of_formatted(s@, fmt@) is Some,
        r matches Some(t) ==> rfc3339_of_formatted(s@, fmt@) == Some(t@),
{
    chrono::DateTime::parse_from_str(s, fmt).ok().map(|d| d.to_rfc3339())
}

/// Relies on chrono's `DateTime::<Utc>::from_timestamp` (with no
/// sub-second part) and then `DateTime::to_rfc3339`: the result depends on
/// `secs` alone.
#[verifier::external_body]
pub(crate) fn epoch_to_rfc3339(secs: i64) -> (r: Option<String>)
    ensures
        r is Some <==> rfc3339_of_epoch(secs as int) is Some,
        r matches Some(t) ==> rfc3339_of_epoch(secs as int) == Some(t@),
{
    chrono::DateTime::<chrono::Utc>::from_timestamp(secs, 0).map(|d| d.to_rfc3339())
}

} // verus!
