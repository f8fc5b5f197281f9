//! The values of the time zone properties: identifier, name, URL, and the
//! offsets from UTC that a zone moves between.
use std::str::FromStr;
use vstd::prelude::*;
use crate::datetime::offset_in_range;
use crate::error::{result_view, Error, ErrorView};

verus! {

/// What `chrono::FixedOffset::from_str` reads from a text: the offset in
/// seconds east of UTC, or `None` where it rejects the text.
pub uninterp spec fn parsed_utc_offset(text: Seq<char>) -> Option<i32>;

/// Calls `chrono::FixedOffset::from_str`. The result is the offset that
/// chrono parsed, in seconds east of UTC as `local_minus_utc` gives it; it
/// depends on the text alone and is less than a day either way.
#[verifier::external_body]
fn utc_offset_parse(text: &str) -> (r: Option<i32>)
    ensures
        r == parsed_utc_offset(text@),
        r matches Some(o) ==> offset_in_range(o as int),
{
    match chrono::FixedOffset::from_str(text) {
        Ok(offset) => Some(offset.local_minus_utc()),
        Err(_) => None,
    }
}

/// What parsing `s` as an offset from UTC gives.
pub open spec fn parsed_offset(s: Seq<char>) -> Result<i32, ErrorView> {
    match parsed_utc_offset(s) {
        Some(o) => Ok(o),
        None => Err(ErrorView::InvalidOffset(s)),
    }
}

/// Parses an offset from UTC such as `+0100` or `-05:00`, in seconds east
/// of UTC.
pub fn utc_offset(input: &str) -> (r: Result<i32, Error>)
    ensures
        result_view(r) == parsed_offset(input@),
        r matches Ok(o) ==> offset_in_range(o as int),
{
    match utc_offset_parse(input) {
        Some(o) => Ok(o),
        None => Err(Error::InvalidOffset(input.to_owned())),
    }
}

/// The time zone identifier: the text as it is.
pub fn tzid(input: &str) -> (r: Result<String, Error>)
    ensures
        r matches Ok(s) && s@ == input@,
{
    Ok(input.to_owned())
}

/// The time zone name: the text as it is.
pub fn tzname(input: &str) -> (r: Result<String, Error>)
    ensures
        r matches Ok(s) && s@ == input@,
{
    Ok(input.to_owned())
}

/// The offset that is in use before a zone's change.
pub fn tzoffsetfrom(input: &str) -> (r: Result<i32, Error>)
    ensures
        result_view(r) == parsed_offset(input@),
        r matches Ok(o) ==> offset_in_range(o as int),
{
    utc_offset(input)
}

/// The offset that is in use after a zone's change.
pub fn tzoffsetto(input: &str) -> (r: Result<i32, Error>)
    ensures
        result_view(r) == parsed_offset(input@),
        r matches Ok(o) ==> offset_in_range(o as int),
{
    utc_offset(input)
}

/// The time zone URL: the text as it is.
pub fn tzurl(input: &str) -> (r: Result<String, Error>)
    ensures
        r matches Ok(s) && s@ == input@,
{
    Ok(input.to_owned())
}

} // verus!
