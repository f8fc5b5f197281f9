//! Durations: a signed span of time written as
//! `["-"] "P" [nW] [nD] ["T" [nH] [nM] [nS]]`.
use vstd::prelude::*;
use crate::chars::{chars_of, decimal, decimal_of, digits_end, scan_digits, string_of};
use crate::error::{result_view, Error, ErrorView};

verus! {

/// The largest span, in seconds, that a [`Duration`] holds: its length in
/// milliseconds still fits in 64 bits.
pub const MAX_SECONDS: i64 = 9_223_372_036_854_775;

pub const SECONDS_PER_MINUTE: i64 = 60;

pub const SECONDS_PER_HOUR: i64 = 3_600;

pub const SECONDS_PER_DAY: i64 = 86_400;

pub const SECONDS_PER_WEEK: i64 = 604_800;

/// A signed span of time, decomposed as it was written. A negative span
/// has every component negative or zero.
#[derive(Clone, Copy, Debug, PartialEq, Eq, Structural)]
pub struct Duration {
    pub weeks: i64,
    pub days: i64,
    pub hours: i64,
    pub minutes: i64,
    pub seconds: i64,
}

impl Duration {
    /// The length of the span in seconds.
    pub open spec fn total(self) -> int {
        self.weeks * 604_800 + self.days * 86_400 + self.hours * 3_600 + self.minutes * 60
            + self.seconds
    }

    /// All components point the same way, and the span is at most
    /// [`MAX_SECONDS`] long.
    pub open spec fn wf(self) -> bool {
        &&& ((self.weeks >= 0 && self.days >= 0 && self.hours >= 0 && self.minutes >= 0
            && self.seconds >= 0) || (self.weeks <= 0 && self.days <= 0 && self.hours <= 0
            && self.minutes <= 0 && self.seconds <= 0))
        &&& -MAX_SECONDS <= self.total() <= MAX_SECONDS
    }

    /// The empty span.
    pub fn zero() -> (d: Duration)
        ensures
            d == (Duration { weeks: 0, days: 0, hours: 0, minutes: 0, seconds: 0 }),
            d.wf(),
            d.total() == 0,
    {
        Duration { weeks: 0, days: 0, hours: 0, minutes: 0, seconds: 0 }
    }

    /// The length of the span in seconds.
    pub fn num_seconds(&self) -> (n: i64)
        requires
            self.wf(),
        ensures
            n == self.total(),
    {
        self.weeks * SECONDS_PER_WEEK + self.days * SECONDS_PER_DAY + self.hours
            * SECONDS_PER_HOUR + self.minutes * SECONDS_PER_MINUTE + self.seconds
    }

    /// Whether the components point the same way and the span is at most
    /// [`MAX_SECONDS`] long.
    pub fn is_valid(&self) -> (b: bool)
        ensures
            b == self.wf(),
    {
        let nonneg = self.weeks >= 0 && self.days >= 0 && self.hours >= 0 && self.minutes >= 0
            && self.seconds >= 0;
        let nonpos = self.weeks <= 0 && self.days <= 0 && self.hours <= 0 && self.minutes <= 0
            && self.seconds <= 0;
        if !nonneg && !nonpos {
            return false;
        }
        let w: i128 = self.weeks as i128 * 604_800;
        let d: i128 = self.days as i128 * 86_400;
        let h: i128 = self.hours as i128 * 3_600;
        let m: i128 = self.minutes as i128 * 60;
        let total: i128 = w + d + h + m + self.seconds as i128;
        -(MAX_SECONDS as i128) <= total && total <= MAX_SECONDS as i128
    }

    /// The span of the same length in the other direction.
    pub fn negated(&self) -> (d: Duration)
        requires
            self.wf(),
        ensures
            d.wf(),
            d.total() == -self.total(),
            d.weeks == -self.weeks,
            d.days == -self.days,
            d.hours == -self.hours,
            d.minutes == -self.minutes,
            d.seconds == -self.seconds,
    {
        Duration {
            weeks: -self.weeks,
            days: -self.days,
            hours: -self.hours,
            minutes: -self.minutes,
            seconds: -self.seconds,
        }
    }
}

/// What the duration grammar reads from a text: the sign and the five
/// numbers, those not written being 0.
pub struct Span {
    pub negative: bool,
    pub weeks: nat,
    pub days: nat,
    pub hours: nat,
    pub minutes: nat,
    pub seconds: nat,
}

impl Span {
    /// The length in seconds, sign aside.
    pub open spec fn total(self) -> nat {
        self.weeks * 604_800 + self.days * 86_400 + self.hours * 3_600 + self.minutes * 60
            + self.seconds
    }

    /// The duration that the span stands for.
    pub open spec fn duration(self) -> Duration {
        if self.negative {
            Duration {
                weeks: (-(self.weeks as int)) as i64,
                days: (-(self.days as int)) as i64,
                hours: (-(self.hours as int)) as i64,
                minutes: (-(self.minutes as int)) as i64,
                seconds: (-(self.seconds as int)) as i64,
            }
        } else {
            Duration {
                weeks: self.weeks as i64,
                days: self.days as i64,
                hours: self.hours as i64,
                minutes: self.minutes as i64,
                seconds: self.seconds as i64,
            }
        }
    }
}

/// A number of one or more digits at `i`, followed by the letter `unit`:
/// its value and the index after the letter.
pub open spec fn number_with_unit(s: Seq<char>, i: int, unit: char) -> Option<(nat, int)> {
    let e = digits_end(s, i);
    if i < e && e < s.len() && s[e] == unit {
        Some((decimal(s.subrange(i, e)), e + 1))
    } else {
        None
    }
}

/// The value of an optional component: 0 where it is absent.
pub open spec fn value_of(c: Option<(nat, int)>) -> nat {
    match c {
        Some((v, _)) => v,
        None => 0,
    }
}

/// The index after an optional component that was looked for at `i`.
pub open spec fn index_after(c: Option<(nat, int)>, i: int) -> int {
    match c {
        Some((_, j)) => j,
        None => i,
    }
}

/// The weeks and days written at `i`, each optional, and the index after them.
pub open spec fn date_part(s: Seq<char>, i: int) -> (nat, nat, int) {
    let w = number_with_unit(s, i, 'W');
    let i1 = index_after(w, i);
    let d = number_with_unit(s, i1, 'D');
    (value_of(w), value_of(d), index_after(d, i1))
}

/// The hours, minutes and seconds written at `i`, each optional, and the
/// index after them.
pub open spec fn time_part(s: Seq<char>, i: int) -> (nat, nat, nat, int) {
    let h = number_with_unit(s, i, 'H');
    let i1 = index_after(h, i);
    let m = number_with_unit(s, i1, 'M');
    let i2 = index_after(m, i1);
    let sec = number_with_unit(s, i2, 'S');
    (value_of(h), value_of(m), value_of(sec), index_after(sec, i2))
}

/// The span that a text writes, where the whole text matches the grammar
/// `["-"] "P" [nW] [nD] ["T" [nH] [nM] [nS]]`.
pub open spec fn span_of(s: Seq<char>) -> Option<Span> {
    let negative = s.len() > 0 && s[0] == '-';
    let p = if negative { 1int } else { 0int };
    if !(p < s.len() && s[p] == 'P') {
        None
    } else {
        let (weeks, days, i) = date_part(s, p + 1);
        if i == s.len() {
            Some(Span { negative, weeks, days, hours: 0, minutes: 0, seconds: 0 })
        } else if s[i] == 'T' {
            let (hours, minutes, seconds, j) = time_part(s, i + 1);
            if j == s.len() {
                Some(Span { negative, weeks, days, hours, minutes, seconds })
            } else {
                None
            }
        } else {
            None
        }
    }
}

/// What parsing `s` as a duration gives: the duration that the text
/// writes, or `InvalidDuration` with the text where it does not match the
/// grammar or writes more than [`MAX_SECONDS`] seconds.
pub open spec fn parsed_duration(s: Seq<char>) -> Result<Duration, ErrorView> {
    match span_of(s) {
        Some(span) => if span.total() <= MAX_SECONDS {
            Ok(span.duration())
        } else {
            Err(ErrorView::InvalidDuration(s))
        },
        None => Err(ErrorView::InvalidDuration(s)),
    }
}

/// A duration that parsing gives is well formed.
pub proof fn lemma_parsed_duration_wf(s: Seq<char>)
    ensures
        parsed_duration(s) matches Ok(d) ==> d.wf(),
{
}

/// Reads an optional number followed by `unit` at `i`: the number (0
/// where none is written) and the index after it, or `None` where the
/// number is above `max`.
fn component_at(v: &[char], i: usize, unit: char, max: u64) -> (c: Option<(u64, usize)>)
    requires
        i <= v@.len(),
    ensures
        match c {
            Some((n, j)) => {
                &&& n == value_of(number_with_unit(v@, i as int, unit))
                &&& j == index_after(number_with_unit(v@, i as int, unit), i as int)
                &&& n <= max
                &&& i <= j <= v@.len()
            },
            None => value_of(number_with_unit(v@, i as int, unit)) > max,
        },
{
    let e = scan_digits(v, i);
    if i < e && e < v.len() && v[e] == unit {
        match decimal_of(v, i, e, max) {
            Some(n) => Some((n, e + 1)),
            None => None,
        }
    } else {
        Some((0, i))
    }
}

/// Reads the weeks and days at `i`; `None` where one of them alone is
/// longer than [`MAX_SECONDS`].
fn date_part_at(v: &[char], i: usize) -> (r: Option<(u64, u64, usize)>)
    requires
        i <= v@.len(),
    ensures
        match r {
            Some((w, d, j)) => {
                &&& (w as nat, d as nat, j as int) == date_part(v@, i as int)
                &&& w * 604_800 <= MAX_SECONDS
                &&& d * 86_400 <= MAX_SECONDS
                &&& i <= j <= v@.len()
            },
            None => date_part(v@, i as int).0 * 604_800 + date_part(v@, i as int).1 * 86_400
                > MAX_SECONDS,
        },
{
    match component_at(v, i, 'W', (MAX_SECONDS / SECONDS_PER_WEEK) as u64) {
        None => None,
        Some((w, i1)) => match component_at(v, i1, 'D', (MAX_SECONDS / SECONDS_PER_DAY) as u64) {
            None => None,
            Some((d, i2)) => Some((w, d, i2)),
        },
    }
}

/// Reads the hours, minutes and seconds at `i`; `None` where one of them
/// alone is longer than [`MAX_SECONDS`].
fn time_part_at(v: &[char], i: usize) -> (r: Option<(u64, u64, u64, usize)>)
    requires
        i <= v@.len(),
    ensures
        match r {
            Some((h, m, s, j)) => {
                &&& (h as nat, m as nat, s as nat, j as int) == time_part(v@, i as int)
                &&& h * 3_600 <= MAX_SECONDS
                &&& m * 60 <= MAX_SECONDS
                &&& s <= MAX_SECONDS
                &&& i <= j <= v@.len()
            },
            None => time_part(v@, i as int).0 * 3_600 + time_part(v@, i as int).1 * 60
                + time_part(v@, i as int).2 > MAX_SECONDS,
        },
{
    match component_at(v, i, 'H', (MAX_SECONDS / SECONDS_PER_HOUR) as u64) {
        None => None,
        Some((h, i1)) => match component_at(
            v,
            i1,
            'M',
            (MAX_SECONDS / SECONDS_PER_MINUTE) as u64,
        ) {
            None => None,
            Some((m, i2)) => match component_at(v, i2, 'S', MAX_SECONDS as u64) {
                None => None,
                Some((s, i3)) => Some((h, m, s, i3)),
            },
        },
    }
}

/// Parses a duration. The whole text must match the grammar; a leading
/// `-` negates the whole span.
pub fn duration(input: &str) -> (r: Result<Duration, Error>)
    ensures
        result_view(r) == parsed_duration(input@),
        r matches Ok(d) ==> d.wf(),
{
    let v = chars_of(input);
    duration_of_chars(v.as_slice())
}

/// As [`duration`], on characters.
pub fn duration_of_chars(v: &[char]) -> (r: Result<Duration, Error>)
    ensures
        result_view(r) == parsed_duration(v@),
        r matches Ok(d) ==> d.wf(),
{
    let n = v.len();
    let negative = n > 0 && v[0] == '-';
    let p: usize = if negative { 1 } else { 0 };
    if !(p < n && v[p] == 'P') {
        return Err(Error::InvalidDuration(string_of(v)));
    }
    let (weeks, days, i) = match date_part_at(v, p + 1) {
        Some(part) => part,
        None => {
            return Err(Error::InvalidDuration(string_of(v)));
        },
    };
    let mut hours: u64 = 0;
    let mut minutes: u64 = 0;
    let mut seconds: u64 = 0;
    if i < n {
        if v[i] != 'T' {
            return Err(Error::InvalidDuration(string_of(v)));
        }
        match time_part_at(v, i + 1) {
            Some((h, m, s, j)) => {
                if j != n {
                    return Err(Error::InvalidDuration(string_of(v)));
                }
                hours = h;
                minutes = m;
                seconds = s;
            },
            None => {
                return Err(Error::InvalidDuration(string_of(v)));
            },
        }
    }
    let total: u64 = weeks * 604_800 + days * 86_400 + hours * 3_600 + minutes * 60 + seconds;
    if total > MAX_SECONDS as u64 {
        return Err(Error::InvalidDuration(string_of(v)));
    }
    Ok(signed(negative, weeks, days, hours, minutes, seconds))
}

/// The duration with the given sign and components.
fn signed(negative: bool, weeks: u64, days: u64, hours: u64, minutes: u64, seconds: u64) -> (d:
    Duration)
    requires
        weeks * 604_800 + days * 86_400 + hours * 3_600 + minutes * 60 + seconds <= MAX_SECONDS,
    ensures
        d == (Span {
            negative,
            weeks: weeks as nat,
            days: days as nat,
            hours: hours as nat,
            minutes: minutes as nat,
            seconds: seconds as nat,
        }).duration(),
        d.wf(),
{
    if negative {
        Duration {
            weeks: -(weeks as i64),
            days: -(days as i64),
            hours: -(hours as i64),
            minutes: -(minutes as i64),
            seconds: -(seconds as i64),
        }
    } else {
        Duration {
            weeks: weeks as i64,
            days: days as i64,
            hours: hours as i64,
            minutes: minutes as i64,
            seconds: seconds as i64,
        }
    }
}

} // verus!
