//! Publication dates: two written forms are read, and both are brought to
//! one form in UTC. Reading and writing dates is left to the `chrono` crate.

use crate::text::{opt_text, text_of};
use vstd::prelude::*;

verus! {

/// The instant that `chrono::DateTime::parse_from_rfc2822` reads from a
/// text, moved to UTC and written by `chrono::DateTime::to_rfc3339`; `None`
/// where the text is not a date in that form.
pub uninterp spec fn rfc2822_in_utc(raw: Seq<char>) -> Option<Seq<char>>;

/// The instant that `chrono::DateTime::parse_from_rfc3339` reads from a
/// text, moved to UTC and written by `chrono::DateTime::to_rfc3339`; `None`
/// where the text is not a date in that form.
pub uninterp spec fn rfc3339_in_utc(raw: Seq<char>) -> Option<Seq<char>>;

/// Whether a time is written with the offset of UTC: it ends in `+00:00`.
pub open spec fn written_in_utc(time: Seq<char>) -> bool {
    time.len() >= 6 && time.subrange(time.len() - 6, time.len() as int) == "+00:00"@
}

/// The time of an optional text is written with the offset of UTC.
pub open spec fn none_or_utc(time: Option<Seq<char>>) -> bool {
    match time {
        Some(t) => written_in_utc(t),
        None => true,
    }
}

/// A publication date in its normal form: read as RFC 2822, else as RFC
/// 3339, and written in UTC; nothing where there is no date or neither form
/// fits.
pub open spec fn normalized_date(input: Option<Seq<char>>) -> Option<Seq<char>> {
    match input {
        None => None,
        Some(raw) => match rfc2822_in_utc(raw) {
            Some(date) => Some(date),
            None => rfc3339_in_utc(raw),
        },
    }
}

/// Calls `chrono::DateTime::parse_from_rfc2822`, moves the result to UTC
/// with `with_timezone` and writes it with `to_rfc3339`, which ends what it
/// writes for a time in UTC with `+00:00`.
#[verifier::external_body]
fn read_rfc2822(raw: &str) -> (r: Option<String>)
    ensures
        opt_text(r) == rfc2822_in_utc(raw@),
        none_or_utc(opt_text(r)),
{
    chrono::DateTime::parse_from_rfc2822(raw).ok().map(
        |date| date.with_timezone(&chrono::Utc).to_rfc3339(),
    )
}

/// Calls `chrono::DateTime::parse_from_rfc3339`, moves the result to UTC
/// with `with_timezone` and writes it with `to_rfc3339`, which ends what it
/// writes for a time in UTC with `+00:00`.
#[verifier::external_body]
fn read_rfc3339(raw: &str) -> (r: Option<String>)
    ensures
        opt_text(r) == rfc3339_in_utc(raw@),
        none_or_utc(opt_text(r)),
{
    chrono::DateTime::parse_from_rfc3339(raw).ok().map(
        |date| date.with_timezone(&chrono::Utc).to_rfc3339(),
    )
}

/// Calls `chrono::Utc::now` and writes the result with `to_rfc3339`. Which
/// time comes back is not claimed: it is the time of the call. It is written
/// with the offset of UTC, as `to_rfc3339` writes every time in UTC.
#[verifier::external_body]
pub(crate) fn current_time() -> (r: String)
    ensures
        written_in_utc(r@),
{
    chrono::Utc::now().to_rfc3339()
}

/// A publication date in its normal form, if it can be read.
pub fn parse_pub_date(input: Option<&str>) -> (r: Option<String>)
    ensures
        opt_text(r) == normalized_date(text_of(input)),
        none_or_utc(opt_text(r)),
{
    match input {
        None => None,
        Some(raw) => match read_rfc2822(raw) {
            Some(date) => Some(date),
            None => read_rfc3339(raw),
        },
    }
}

} // verus!
