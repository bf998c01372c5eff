//! Writing instants as fixed-width RFC 3339 text, so that stored dates compare as text
//! in the same order as in time.
use vstd::prelude::*;
use crate::time::{Timestamp, utc_year};

verus! {

/// The UTC date-time at `secs` seconds after the epoch written as RFC 3339 with whole
/// seconds and the `Z` suffix (`YYYY-MM-DDTHH:MM:SSZ` for the years 0 to 9999).
pub uninterp spec fn utc_rfc3339_text(secs: i64) -> Seq<char>;

/// The instant as RFC 3339 text with second precision and the `Z` suffix, through
/// `chrono`'s `DateTime::to_rfc3339_opts(SecondsFormat::Secs, true)`.
///
/// Claimed of `chrono`: the text is a function of the instant alone; it ends in `Z`
/// (the offset is zero and `use_z` is set); for the years 0 to 9999 it is exactly
/// 20 characters long (four-digit year, then `-MM-DDTHH:MM:SS` and `Z`).
#[verifier::external_body]
pub fn format_dt(dt: &Timestamp) -> (r: String)
    ensures
        r@ == utc_rfc3339_text(dt.unix()),
        r@.len() > 0,
        r@.last() == 'Z',
        0 <= utc_year(dt.unix()) <= 9999 ==> r@.len() == 20,
{
    chrono::DateTime::from_timestamp(dt.unix_seconds(), 0)
        .unwrap()
        .to_rfc3339_opts(chrono::SecondsFormat::Secs, true)
}

/// An optional instant written as by `format_dt`.
pub fn format_dt_opt(dt: &Option<Timestamp>) -> (r: Option<String>)
    ensures
        r is Some <==> dt is Some,
        dt matches Some(t) ==> r matches Some(s) && s@ == utc_rfc3339_text(t.unix()),
{
    match dt {
        Some(t) => Some(format_dt(t)),
        None => None,
    }
}

} // verus!
