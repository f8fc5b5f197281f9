//! Date-times: `YYYYMMDD` or `YYYYMMDD"T"HHMMSS["Z"]`, read by chrono and
//! held as an instant together with the offset of the local time zone.
//!
//! The offset of the local zone is looked up by chrono, from the zone data
//! of the machine. Where those data are malformed chrono panics in the
//! look-up, and so do `date` and `DateTime::plus`.
use vstd::prelude::*;
use vstd::utf8::encode_utf8;
use crate::chars::{chars_of, string_of_range};
use crate::duration::Duration;
use crate::error::{Error, ErrorView};

verus! {

/// A point in time, seen from the local time zone.
#[derive(Clone, Copy, Debug, PartialEq, Eq, Structural)]
pub struct DateTime {
    /// Seconds since 1970-01-01 00:00:00 UTC, leap seconds not counted.
    pub secs: i64,
    /// Nanoseconds since the last whole second; 1,000,000,000 and above
    /// during a leap second.
    pub nanos: u32,
    /// Seconds that local time is ahead of UTC at this instant.
    pub offset: i32,
}

/// An offset from UTC is less than a day, either way.
pub open spec fn offset_in_range(offset: int) -> bool {
    -86_400 < offset < 86_400
}

impl DateTime {
    /// The seconds that a clock in the local zone shows, counted from
    /// 1970-01-01 00:00:00 on that clock.
    pub open spec fn local_secs(self) -> int {
        self.secs + self.offset
    }

    /// The instant that a local clock reading belongs to, given the offset
    /// that holds at it.
    pub open spec fn utc_of_local(local_secs: int, offset: int) -> int {
        local_secs - offset
    }

    /// Midnight of 1970-01-01 in UTC.
    pub fn epoch() -> (d: DateTime)
        ensures
            d == (DateTime { secs: 0, nanos: 0, offset: 0 }),
    {
        DateTime { secs: 0, nanos: 0, offset: 0 }
    }

    /// The instant `secs`, `nanos` in UTC, seen at `offset`.
    pub fn from_utc(secs: i64, nanos: u32, offset: i32) -> (d: DateTime)
        ensures
            d == (DateTime { secs, nanos, offset }),
    {
        DateTime { secs, nanos, offset }
    }

    /// The instant at which a local clock at `offset` shows `local_secs`;
    /// `None` where that instant is outside 64 bits.
    pub fn from_local(local_secs: i64, nanos: u32, offset: i32) -> (r: Option<DateTime>)
        ensures
            r == if i64::MIN <= DateTime::utc_of_local(local_secs as int, offset as int)
                <= i64::MAX {
                Some(
                    DateTime {
                        secs: DateTime::utc_of_local(local_secs as int, offset as int) as i64,
                        nanos,
                        offset,
                    },
                )
            } else {
                None::<DateTime>
            },
    {
        match local_secs.checked_sub(offset as i64) {
            Some(secs) => Some(DateTime { secs, nanos, offset }),
            None => None,
        }
    }

    /// The seconds since 1970-01-01 00:00:00 UTC.
    pub fn timestamp(&self) -> (t: i64)
        ensures
            t == self.secs,
    {
        self.secs
    }

    /// The reading of a local clock, in seconds; `None` where it is
    /// outside 64 bits.
    pub fn local_timestamp(&self) -> (t: Option<i64>)
        ensures
            t == if i64::MIN <= self.local_secs() <= i64::MAX {
                Some(self.local_secs() as i64)
            } else {
                None::<i64>
            },
    {
        self.secs.checked_add(self.offset as i64)
    }

    /// This instant moved by `span`, seen from the local zone. There is a
    /// result exactly where chrono has a sum of the instant and the span.
    pub fn plus(&self, span: &Duration) -> (r: Option<DateTime>)
        requires
            span.wf(),
        ensures
            r matches Some(d) ==> is_sum_of(*self, span.total(), d),
            r is Some <==> instant_plus(self.secs, self.nanos, span.total() as i64) is Some,
    {
        match instant_add(self.secs, self.nanos, span.num_seconds()) {
            Some((secs, nanos)) => {
                let offset = local_offset_at_utc(secs, nanos);
                DateTime::seen_at(secs, nanos, offset)
            },
            None => None,
        }
    }

    /// The instant `secs`, `nanos` seen at the offset that was found for
    /// it, if one was found.
    pub fn seen_at(secs: i64, nanos: u32, offset: Option<i32>) -> (r: Option<DateTime>)
        ensures
            r == match offset {
                Some(o) => Some(DateTime { secs, nanos, offset: o }),
                None => None::<DateTime>,
            },
    {
        match offset {
            Some(o) => Some(DateTime { secs, nanos, offset: o }),
            None => None,
        }
    }
}

impl Default for DateTime {
    fn default() -> (d: DateTime)
        ensures
            d == (DateTime { secs: 0, nanos: 0, offset: 0 }),
    {
        DateTime::epoch()
    }
}

/// `d` is the instant `start` moved by `seconds`, as chrono adds them,
/// seen at some offset.
pub open spec fn is_sum_of(start: DateTime, seconds: int, d: DateTime) -> bool {
    &&& instant_plus(start.secs, start.nanos, seconds as i64) == Some((d.secs, d.nanos))
    &&& offset_in_range(d.offset as int)
}

/// What `chrono::NaiveDateTime::parse_from_str` reads from `text` under
/// `format`: the seconds since 1970-01-01 00:00:00 and the nanoseconds
/// of the date and time written, or `None` where it rejects the text.
pub uninterp spec fn parsed_naive(text: Seq<char>, format: Seq<char>) -> Option<(i64, u32)>;

/// The first second that chrono holds: midnight of 1 January of the year
/// -262143, in seconds since 1970-01-01 00:00:00.
pub const MIN_SECS: i64 = -8_334_601_228_800;

/// The last second that chrono holds: the last second of 31 December of
/// the year 262142, in seconds since 1970-01-01 00:00:00.
pub const MAX_SECS: i64 = 8_210_266_876_799;

/// The longest span in whole seconds that chrono holds, either way.
pub const MAX_SPAN: i64 = 9_223_372_036_854_775;

/// Whether chrono holds the instant `secs`, `nanos`: whether
/// `chrono::DateTime::from_timestamp` has a value for them. The second
/// lies in chrono's range of dates, and the nanoseconds are less than a
/// second, or less than two in the last second of a minute, which a leap
/// second may follow.
pub open spec fn has_instant(secs: i64, nanos: u32) -> bool {
    &&& MIN_SECS <= secs <= MAX_SECS
    &&& nanos < 2_000_000_000
    &&& nanos < 1_000_000_000 || secs as int % 60 == 59
}

/// The sum that chrono gives for the instant `secs`, `nanos` and a span of
/// `seconds`, or `None` where it has none: where it does not hold the
/// instant, the span or the sum. Outside a leap second the sum is the
/// plain sum. A leap second counts as the second before it for a span
/// forward and as the second after it for a span backward, and is left;
/// the empty span stays in it.
pub open spec fn instant_plus(secs: i64, nanos: u32, seconds: i64) -> Option<(i64, u32)> {
    let sum = if nanos < 1_000_000_000 || seconds == 0 {
        (secs + seconds, nanos as int)
    } else if seconds > 0 {
        (secs + seconds, nanos - 1_000_000_000)
    } else {
        (secs + 1 + seconds, nanos - 1_000_000_000)
    };
    if has_instant(secs, nanos) && -MAX_SPAN <= seconds <= MAX_SPAN && MIN_SECS <= sum.0
        <= MAX_SECS {
        Some((sum.0 as i64, sum.1 as u32))
    } else {
        None
    }
}

/// Calls `chrono::NaiveDateTime::parse_from_str`. The result is the value
/// that chrono parsed, as the seconds and nanoseconds that
/// `DateTime::timestamp` and `DateTime::timestamp_subsec_nanos` give for
/// it. It depends on the two texts alone, and it is an instant that chrono
/// holds: `chrono::DateTime::from_timestamp` gives back the value whose
/// `timestamp` and `timestamp_subsec_nanos` it is handed.
#[verifier::external_body]
fn naive_parse(text: &str, format: &str) -> (r: Option<(i64, u32)>)
    ensures
        r == parsed_naive(text@, format@),
        r matches Some(x) ==> has_instant(x.0, x.1),
{
    match chrono::NaiveDateTime::parse_from_str(text, format) {
        Ok(t) => Some((t.and_utc().timestamp(), t.and_utc().timestamp_subsec_nanos())),
        Err(_) => None,
    }
}

/// Calls `chrono::DateTime::with_timezone` with `chrono::Local`: the
/// offset of the local zone at the UTC instant `secs`, `nanos`, in seconds
/// east of UTC. Where it returns, it returns `None` where
/// `chrono::DateTime::from_timestamp` has no value for `secs`, `nanos`, and
/// there alone. The offset depends on the machine's time zone; of its
/// value only the range that `chrono::FixedOffset` keeps is claimed. On a
/// machine whose zone data give an offset of a day or more chrono does not
/// return from this look-up: it panics, and nothing here can leave that
/// out.
#[verifier::external_body]
fn local_offset_at_utc(secs: i64, nanos: u32) -> (r: Option<i32>)
    ensures
        r is Some <==> has_instant(secs, nanos),
        r matches Some(o) ==> offset_in_range(o as int),
{
    match chrono::DateTime::from_timestamp(secs, nanos) {
        Some(t) => Some(t.with_timezone(&chrono::Local).offset().local_minus_utc()),
        None => None,
    }
}

/// Calls `chrono::NaiveDateTime::and_local_timezone` with `chrono::Local`:
/// the offset of the local zone at the moment its clock shows `secs`,
/// `nanos`, where exactly one such moment exists. `None` where the clock
/// shows that reading twice or never, or chrono has no such value. The
/// offset depends on the machine's time zone; only its range is claimed.
#[verifier::external_body]
fn local_offset_at_local(secs: i64, nanos: u32) -> (r: Option<i32>)
    ensures
        r matches Some(o) ==> offset_in_range(o as int),
{
    match chrono::DateTime::from_timestamp(secs, nanos) {
        Some(t) => match t.naive_utc().and_local_timezone(chrono::Local).single() {
            Some(local) => Some(local.offset().local_minus_utc()),
            None => None,
        },
        None => None,
    }
}

/// Calls `chrono::DateTime::checked_add_signed` on the instant `secs`,
/// `nanos` with a span of `seconds` whole seconds. The result is chrono's
/// sum, as the seconds and nanoseconds that `DateTime::timestamp` and
/// `DateTime::timestamp_subsec_nanos` give for it, or `None` where chrono
/// does not hold the instant, the span or the sum.
#[verifier::external_body]
fn instant_add(secs: i64, nanos: u32, seconds: i64) -> (r: Option<(i64, u32)>)
    ensures
        r == instant_plus(secs, nanos, seconds),
{
    match (chrono::DateTime::from_timestamp(secs, nanos), chrono::TimeDelta::try_seconds(seconds)) {
        (Some(t), Some(span)) => match t.checked_add_signed(span) {
            Some(sum) => Some((sum.timestamp(), sum.timestamp_subsec_nanos())),
            None => None,
        },
        _ => None,
    }
}

/// The format that date-times are read under.
pub open spec fn date_format() -> Seq<char> {
    "%Y%m%dT%H%M%S"@
}

/// The text that is parsed for `s`: a text of 8 bytes is a date alone, and
/// stands for midnight of that day.
pub open spec fn date_text(s: Seq<char>) -> Seq<char> {
    if encode_utf8(s).len() == 8 {
        s + "T000000"@
    } else {
        s
    }
}

/// Whether a text ends in `Z`.
pub open spec fn ends_in_z(s: Seq<char>) -> bool {
    s.len() > 0 && s.last() == 'Z'
}

/// `s` without the one `Z` at its end, where it has one.
pub open spec fn without_z(s: Seq<char>) -> Seq<char> {
    if ends_in_z(s) {
        s.drop_last()
    } else {
        s
    }
}

/// Whether `s` is written in UTC: it ends in `Z`.
pub open spec fn is_utc_text(s: Seq<char>) -> bool {
    ends_in_z(date_text(s))
}

/// The date and time that `s` writes, before any time zone is applied:
/// what chrono reads from the text without the `Z` at its end. One `Z` may
/// stand there: a text with a second one writes nothing.
pub open spec fn date_naive(s: Seq<char>) -> Option<(i64, u32)> {
    if ends_in_z(without_z(date_text(s))) {
        None
    } else {
        parsed_naive(without_z(date_text(s)), date_format())
    }
}

/// Whether parsing `s` as a date-time is bound to succeed: `s` is written
/// in UTC and writes a date and time. (A reading of the local clock may
/// still be one that the local clock shows twice or never.)
pub open spec fn date_must_succeed(s: Seq<char>) -> bool {
    is_utc_text(s) && date_naive(s) is Some
}

/// `r` is an outcome of parsing `s` as a date-time: a date-time that `s`
/// writes, or `InvalidDate` with the text, and that only where parsing is
/// not bound to succeed.
pub open spec fn date_possible(s: Seq<char>, r: Result<DateTime, Error>) -> bool {
    match r {
        Ok(d) => is_date_of(s, d),
        Err(e) => e@ == ErrorView::InvalidDate(s) && !date_must_succeed(s),
    }
}

/// `d` is a date-time that `s` writes. A text in UTC gives the instant it
/// writes; any other text gives an instant at which the local clock shows
/// what it writes.
pub open spec fn is_date_of(s: Seq<char>, d: DateTime) -> bool {
    &&& date_naive(s) matches Some(naive)
    &&& d.nanos == naive.1
    &&& offset_in_range(d.offset as int)
    &&& if is_utc_text(s) {
        d.secs == naive.0
    } else {
        d.secs == DateTime::utc_of_local(naive.0 as int, d.offset as int)
    }
}

/// The date-time for a parsed date and time, given whether it was written
/// in UTC and the local offset that was found for it. Without an offset
/// there is no date-time.
pub fn localized(secs: i64, nanos: u32, utc: bool, offset: Option<i32>) -> (r: Option<DateTime>)
    ensures
        r == match offset {
            Some(o) => if utc {
                Some(DateTime { secs, nanos, offset: o })
            } else if i64::MIN <= DateTime::utc_of_local(secs as int, o as int) <= i64::MAX {
                Some(
                    DateTime {
                        secs: DateTime::utc_of_local(secs as int, o as int) as i64,
                        nanos,
                        offset: o,
                    },
                )
            } else {
                None::<DateTime>
            },
            None => None::<DateTime>,
        },
{
    match offset {
        Some(o) => if utc {
            Some(DateTime::from_utc(secs, nanos, o))
        } else {
            DateTime::from_local(secs, nanos, o)
        },
        None => None,
    }
}

/// Parses a date or a date-time. A date alone is midnight of that day. A
/// text that ends in `Z` is in UTC and is seen from the local zone: it
/// gives a date-time exactly where chrono reads a date and time from it.
/// Any other text is a reading of the local clock, and is rejected also
/// where the local clock shows that reading twice or never.
pub fn date(input: &str) -> (r: Result<DateTime, Error>)
    ensures
        date_possible(input@, r),
        date_must_succeed(input@) ==> r is Ok,
        date_naive(input@) is None ==> r is Err,
{
    let mut v = chars_of(input);
    if input.as_bytes().len() == 8 {
        v.push('T');
        v.push('0');
        v.push('0');
        v.push('0');
        v.push('0');
        v.push('0');
        v.push('0');
        proof {
            reveal_strlit("T000000");
            assert(v@ =~= input@ + "T000000"@);
        }
    }
    let n = v.len();
    let utc = n > 0 && v[n - 1] == 'Z';
    let end: usize = if utc { n - 1 } else { n };
    assert(v@.subrange(0, end as int) =~= without_z(v@));
    if end > 0 && v[end - 1] == 'Z' {
        return Err(Error::InvalidDate(input.to_owned()));
    }
    let text = string_of_range(v.as_slice(), 0, end);
    match naive_parse(text.as_str(), "%Y%m%dT%H%M%S") {
        Some((secs, nanos)) => {
            let offset = if utc {
                local_offset_at_utc(secs, nanos)
            } else {
                local_offset_at_local(secs, nanos)
            };
            match localized(secs, nanos, utc, offset) {
                Some(d) => Ok(d),
                None => Err(Error::InvalidDate(input.to_owned())),
            }
        },
        None => Err(Error::InvalidDate(input.to_owned())),
    }
}

/// A date alone reads as midnight of that day: a text of eight digits and
/// the same text followed by `T000000` are parsed alike. Every date-time
/// of the one is a date-time of the other, and two date-times of the two
/// that are seen at the same offset are the same.
pub proof fn lemma_date_alone_is_midnight(day: Seq<char>, d: DateTime, e: DateTime)
    requires
        day.len() == 8,
        crate::chars::all_digits(day),
    ensures
        date_naive(day) == date_naive(day + "T000000"@),
        is_utc_text(day) == is_utc_text(day + "T000000"@),
        is_date_of(day, d) == is_date_of(day + "T000000"@, d),
        is_date_of(day, d) && is_date_of(day + "T000000"@, e) && d.offset == e.offset ==> d == e,
{
    let long = day + "T000000"@;
    reveal_strlit("T000000");
    assert(vstd::utf8::is_ascii_chars(day)) by {
        assert forall|i: int| 0 <= i < day.len() implies '\0' <= #[trigger] day[i] <= '\u{7f}' by {
            assert(crate::chars::is_digit(day[i]));
        }
    }
    assert(vstd::utf8::is_ascii_chars(long)) by {
        assert forall|i: int| 0 <= i < long.len() implies '\0' <= #[trigger] long[i]
            <= '\u{7f}' by {
            if i < 8 {
                assert(long[i] == day[i]);
                assert(crate::chars::is_digit(day[i]));
            } else {
                assert(long[i] == "T000000"@[i - 8]);
            }
        }
    }
    vstd::utf8::is_ascii_chars_encode_utf8(day);
    vstd::utf8::is_ascii_chars_encode_utf8(long);
    assert(long.len() == 15);
    assert(date_text(day) == long);
    assert(date_text(long) == long);
}

/// A date-time written in UTC keeps its instant: going from the reading
/// of the local clock back to UTC by the offset gives the instant that
/// the text writes.
pub proof fn lemma_utc_round_trip(s: Seq<char>, d: DateTime)
    requires
        is_utc_text(s),
        is_date_of(s, d),
    ensures
        DateTime::utc_of_local(d.local_secs(), d.offset as int) == d.secs,
        date_naive(s) == Some((d.secs, d.nanos)),
{
}

} // verus!
