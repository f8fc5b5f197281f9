//! Periods of time: a start with an end, or a start with a duration.
use vstd::prelude::*;
use vstd::slice::slice_subrange;
use crate::chars::{chars_of, find_char, find_from, string_of};
use crate::datetime::{date, date_must_succeed, date_naive, is_date_of, DateTime};
use crate::duration::{duration_of_chars, parsed_duration, Duration};
use crate::error::{Error, ErrorView};

verus! {

/// A period of time.
#[derive(Clone, Copy, Debug, PartialEq, Eq, Structural)]
pub enum Period {
    StartEnd(StartEnd),
    StartDur(StartDur),
}

/// A period given by its two ends.
#[derive(Clone, Copy, Debug, PartialEq, Eq, Structural)]
pub struct StartEnd {
    pub start: DateTime,
    pub end: DateTime,
}

/// A period given by its start and its length.
#[derive(Clone, Copy, Debug, PartialEq, Eq, Structural)]
pub struct StartDur {
    pub start: DateTime,
    pub duration: Duration,
}

/// Whether the second half of a period is a duration: it begins with `P`.
pub open spec fn is_duration_text(s: Seq<char>) -> bool {
    s.len() > 0 && s[0] == 'P'
}

/// `p` is a period that `s` writes: a date-time, a slash, and then a
/// duration where the text after the slash begins with `P`, a date-time
/// otherwise.
pub open spec fn is_period_of(s: Seq<char>, p: Period) -> bool {
    let q = find_from(s, 0, '/');
    &&& q < s.len()
    &&& if is_duration_text(s.skip(q + 1)) {
        &&& p matches Period::StartDur(x)
        &&& is_date_of(s.take(q), x.start)
        &&& parsed_duration(s.skip(q + 1)) == Ok::<Duration, ErrorView>(x.duration)
    } else {
        &&& p matches Period::StartEnd(x)
        &&& is_date_of(s.take(q), x.start)
        &&& is_date_of(s.skip(q + 1), x.end)
    }
}

/// Whether parsing `s` as a period is bound to succeed: it has a slash,
/// the date-time before it is bound to succeed, and what stands after it
/// is a duration or a date-time that is bound to succeed.
pub open spec fn period_must_succeed(s: Seq<char>) -> bool {
    let q = find_from(s, 0, '/');
    &&& q < s.len()
    &&& date_must_succeed(s.take(q))
    &&& if is_duration_text(s.skip(q + 1)) {
        parsed_duration(s.skip(q + 1)) is Ok
    } else {
        date_must_succeed(s.skip(q + 1))
    }
}

/// Whether parsing `s` as a period is bound to fail: it has no slash, or
/// one of its halves writes nothing.
pub open spec fn period_must_fail(s: Seq<char>) -> bool {
    let q = find_from(s, 0, '/');
    ||| q >= s.len()
    ||| date_naive(s.take(q)) is None
    ||| if is_duration_text(s.skip(q + 1)) {
        parsed_duration(s.skip(q + 1)) is Err
    } else {
        date_naive(s.skip(q + 1)) is None
    }
}

/// `r` is an outcome of parsing `s` as a period: a period that `s` writes,
/// or `InvalidPeriod` with the text, and that only where parsing is not
/// bound to succeed.
pub open spec fn period_possible(s: Seq<char>, r: Result<Period, Error>) -> bool {
    match r {
        Ok(p) => is_period_of(s, p),
        Err(e) => e@ == ErrorView::InvalidPeriod(s) && !period_must_succeed(s),
    }
}

/// The period with the given start and second half, where both were read.
pub fn period_of(start: DateTime, end: Option<DateTime>, span: Option<Duration>) -> (r: Option<
    Period,
>)
    ensures
        r == match span {
            Some(duration) => Some(Period::StartDur(StartDur { start, duration })),
            None => match end {
                Some(end) => Some(Period::StartEnd(StartEnd { start, end })),
                None => None::<Period>,
            },
        },
{
    match span {
        Some(duration) => Some(Period::StartDur(StartDur { start, duration })),
        None => match end {
            Some(end) => Some(Period::StartEnd(StartEnd { start, end })),
            None => None,
        },
    }
}

/// Parses a period. Whatever part of the text is rejected, the error is
/// `InvalidPeriod` with the whole text. A period whose date-times are
/// written in UTC is parsed exactly where both of its halves write
/// something.
pub fn period(input: &str) -> (r: Result<Period, Error>)
    ensures
        period_possible(input@, r),
        period_must_succeed(input@) ==> r is Ok,
        period_must_fail(input@) ==> r is Err,
{
    let v = chars_of(input);
    let n = v.len();
    let q = find_char(v.as_slice(), 0, '/');
    if q >= n {
        return Err(Error::InvalidPeriod(string_of(v.as_slice())));
    }
    let head = slice_subrange(v.as_slice(), 0, q);
    let tail = slice_subrange(v.as_slice(), q + 1, n);
    assert(v@.subrange(0, q as int) =~= v@.take(q as int));
    assert(v@.subrange(q + 1, n as int) =~= v@.skip(q + 1));
    let start = match date(string_of(head).as_str()) {
        Ok(d) => d,
        Err(_) => {
            return Err(Error::InvalidPeriod(string_of(v.as_slice())));
        },
    };
    let found = if tail.len() > 0 && tail[0] == 'P' {
        match duration_of_chars(tail) {
            Ok(d) => period_of(start, None, Some(d)),
            Err(_) => None,
        }
    } else {
        match date(string_of(tail).as_str()) {
            Ok(d) => period_of(start, Some(d), None),
            Err(_) => None,
        }
    };
    match found {
        Some(p) => Ok(p),
        None => Err(Error::InvalidPeriod(string_of(v.as_slice()))),
    }
}

} // verus!
