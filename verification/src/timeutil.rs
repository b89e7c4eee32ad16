//! Calendar arithmetic, through the `chrono` crate: reading an RFC 3339
//! timestamp as an epoch second. The current time is the host's to supply;
//! the library only compares epoch seconds it is handed.

use vstd::prelude::*;

verus! {

/// The epoch second an RFC 3339 string denotes, if it is well-formed: a
/// function of the characters alone.
pub uninterp spec fn rfc3339_epoch(s: Seq<char>) -> Option<int>;

/// Relies on chrono's `DateTime::parse_from_rfc3339` and `timestamp`: whether
/// the string parses, and which epoch second it denotes, depend on the
/// characters alone.
#[verifier::external_body]
pub(crate) fn parse_rfc3339_epoch(s: &str) -> (r: Option<i64>)
    ensures
        r is Some <==> rfc3339_epoch(s@) is Some,
        r matches Some(v) ==> rfc3339_epoch(s@) == Some(v as int),
{
    match chrono::DateTime::parse_from_rfc3339(s) {
        Ok(d) => Some(d.timestamp()),
        Err(_) => None,
    }
}

} // verus!
