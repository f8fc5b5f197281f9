//! Recurrence rules: a frequency refined by limits and by-rules, written
//! as `KEY=VALUE` parts between semicolons. The rule is parsed and checked;
//! it is not expanded into occurrences.
//!
//! The parts are read in order and a later part replaces an earlier one
//! with the same key. `UNTIL` and `COUNT` exclude each other: the one
//! written last stands and clears the other. Parts with an unknown key
//! are passed over.
use vstd::prelude::*;
use vstd::slice::slice_subrange;
use crate::chars::{
    all_digits,
    chars_of,
    decimal,
    decimal_of,
    digits_end,
    find_char,
    find_from,
    is_literal,
    pieces,
    range_texts,
    ranges_within,
    scan_digits,
    signed,
    signed_of,
    split,
    string_of,
};
use crate::datetime::{date, date_must_succeed, is_date_of, DateTime};
use crate::error::{result_view, EnumKind, Error, ErrorView};

verus! {

/// How often a rule repeats.
#[derive(Clone, Copy, Debug, PartialEq, Eq, Structural)]
pub enum Freq {
    Secondly,
    Minutely,
    Hourly,
    Daily,
    Weekly,
    Monthly,
    Yearly,
}

impl Freq {
    /// The frequency that a token names, if it names one.
    pub open spec fn of_token(s: Seq<char>) -> Option<Freq> {
        if s == "SECONDLY"@ {
            Some(Freq::Secondly)
        } else if s == "MINUTELY"@ {
            Some(Freq::Minutely)
        } else if s == "HOURLY"@ {
            Some(Freq::Hourly)
        } else if s == "DAILY"@ {
            Some(Freq::Daily)
        } else if s == "WEEKLY"@ {
            Some(Freq::Weekly)
        } else if s == "MONTHLY"@ {
            Some(Freq::Monthly)
        } else if s == "YEARLY"@ {
            Some(Freq::Yearly)
        } else {
            None
        }
    }

    /// The token that names the frequency.
    pub open spec fn token_of(self) -> Seq<char> {
        match self {
            Freq::Secondly => "SECONDLY"@,
            Freq::Minutely => "MINUTELY"@,
            Freq::Hourly => "HOURLY"@,
            Freq::Daily => "DAILY"@,
            Freq::Weekly => "WEEKLY"@,
            Freq::Monthly => "MONTHLY"@,
            Freq::Yearly => "YEARLY"@,
        }
    }

    /// The token that names the frequency.
    pub fn token(&self) -> (s: &'static str)
        ensures
            s@ == self.token_of(),
    {
        match self {
            Freq::Secondly => "SECONDLY",
            Freq::Minutely => "MINUTELY",
            Freq::Hourly => "HOURLY",
            Freq::Daily => "DAILY",
            Freq::Weekly => "WEEKLY",
            Freq::Monthly => "MONTHLY",
            Freq::Yearly => "YEARLY",
        }
    }

    /// The token of a frequency names that frequency, and no other.
    pub proof fn lemma_token_names_it(self)
        ensures
            Freq::of_token(self.token_of()) == Some(self),
    {
        reveal_strlit("SECONDLY");
        reveal_strlit("MINUTELY");
        reveal_strlit("HOURLY");
        reveal_strlit("DAILY");
        reveal_strlit("WEEKLY");
        reveal_strlit("MONTHLY");
        reveal_strlit("YEARLY");
        assert("MINUTELY"@[0] != "SECONDLY"@[0]);
        assert("WEEKLY"@[0] != "HOURLY"@[0]);
        assert("YEARLY"@[0] != "HOURLY"@[0]);
        assert("YEARLY"@[0] != "WEEKLY"@[0]);
        assert("DAILY"@.len() == 5);
        assert("MONTHLY"@.len() == 7);
    }

    /// What parsing `s` as a frequency gives.
    pub open spec fn parsed(s: Seq<char>) -> Result<Freq, ErrorView> {
        match Freq::of_token(s) {
            Some(v) => Ok(v),
            None => Err(ErrorView::InvalidFreq(s)),
        }
    }

    /// Parses a frequency token. The match is exact and case-sensitive.
    pub fn from_str(s: &str) -> (r: Result<Freq, Error>)
        ensures
            result_view(r) == Freq::parsed(s@),
    {
        let v = chars_of(s);
        Freq::from_chars(v.as_slice())
    }

    /// As [`Freq::from_str`], on characters.
    pub fn from_chars(v: &[char]) -> (r: Result<Freq, Error>)
        ensures
            result_view(r) == Freq::parsed(v@),
    {
        if is_literal(v, "SECONDLY") {
            Ok(Freq::Secondly)
        } else if is_literal(v, "MINUTELY") {
            Ok(Freq::Minutely)
        } else if is_literal(v, "HOURLY") {
            Ok(Freq::Hourly)
        } else if is_literal(v, "DAILY") {
            Ok(Freq::Daily)
        } else if is_literal(v, "WEEKLY") {
            Ok(Freq::Weekly)
        } else if is_literal(v, "MONTHLY") {
            Ok(Freq::Monthly)
        } else if is_literal(v, "YEARLY") {
            Ok(Freq::Yearly)
        } else {
            Err(Error::InvalidFreq(string_of(v)))
        }
    }
}

impl std::str::FromStr for Freq {
    type Err = Error;

    fn from_str(s: &str) -> (r: Result<Freq, Error>)
        ensures
            result_view(r) == Freq::parsed(s@),
    {
        Freq::from_chars(chars_of(s).as_slice())
    }
}

/// A day of the week.
#[derive(Clone, Copy, Debug, PartialEq, Eq, PartialOrd, Ord, Structural)]
pub enum Weekday {
    Sunday,
    Monday,
    Tuesday,
    Wenesday,
    Thurday,
    Friday,
    Saturday,
}

impl Weekday {
    /// The day that a two-letter token names, if it names one.
    pub open spec fn of_token(s: Seq<char>) -> Option<Weekday> {
        if s == "SU"@ {
            Some(Weekday::Sunday)
        } else if s == "MO"@ {
            Some(Weekday::Monday)
        } else if s == "TU"@ {
            Some(Weekday::Tuesday)
        } else if s == "WE"@ {
            Some(Weekday::Wenesday)
        } else if s == "TH"@ {
            Some(Weekday::Thurday)
        } else if s == "FR"@ {
            Some(Weekday::Friday)
        } else if s == "SA"@ {
            Some(Weekday::Saturday)
        } else {
            None
        }
    }

    /// The token that names the day.
    pub open spec fn token_of(self) -> Seq<char> {
        match self {
            Weekday::Sunday => "SU"@,
            Weekday::Monday => "MO"@,
            Weekday::Tuesday => "TU"@,
            Weekday::Wenesday => "WE"@,
            Weekday::Thurday => "TH"@,
            Weekday::Friday => "FR"@,
            Weekday::Saturday => "SA"@,
        }
    }

    /// The token that names the day.
    pub fn token(&self) -> (s: &'static str)
        ensures
            s@ == self.token_of(),
    {
        match self {
            Weekday::Sunday => "SU",
            Weekday::Monday => "MO",
            Weekday::Tuesday => "TU",
            Weekday::Wenesday => "WE",
            Weekday::Thurday => "TH",
            Weekday::Friday => "FR",
            Weekday::Saturday => "SA",
        }
    }

    /// The token of a day names that day, and no other.
    pub proof fn lemma_token_names_it(self)
        ensures
            Weekday::of_token(self.token_of()) == Some(self),
    {
        reveal_strlit("SU");
        reveal_strlit("MO");
        reveal_strlit("TU");
        reveal_strlit("WE");
        reveal_strlit("TH");
        reveal_strlit("FR");
        reveal_strlit("SA");
        assert("SU"@[0] == 'S' && "SU"@[1] == 'U');
        assert("MO"@[0] == 'M' && "MO"@[1] == 'O');
        assert("TU"@[0] == 'T' && "TU"@[1] == 'U');
        assert("WE"@[0] == 'W' && "WE"@[1] == 'E');
        assert("TH"@[0] == 'T' && "TH"@[1] == 'H');
        assert("FR"@[0] == 'F' && "FR"@[1] == 'R');
        assert("SA"@[0] == 'S' && "SA"@[1] == 'A');
    }

    /// What parsing `s` as a weekday gives.
    pub open spec fn parsed(s: Seq<char>) -> Result<Weekday, ErrorView> {
        match Weekday::of_token(s) {
            Some(v) => Ok(v),
            None => Err(ErrorView::InvalidEnum(EnumKind::Weekday, s)),
        }
    }

    /// Parses a weekday token.
    pub fn from_str(s: &str) -> (r: Result<Weekday, Error>)
        ensures
            result_view(r) == Weekday::parsed(s@),
    {
        let v = chars_of(s);
        Weekday::from_chars(v.as_slice())
    }

    /// As [`Weekday::from_str`], on characters.
    pub fn from_chars(v: &[char]) -> (r: Result<Weekday, Error>)
        ensures
            result_view(r) == Weekday::parsed(v@),
    {
        match Weekday::named(v) {
            Some(day) => Ok(day),
            None => Err(Error::InvalidEnum(EnumKind::Weekday, string_of(v))),
        }
    }

    /// The day that the characters name, if they name one.
    pub fn named(v: &[char]) -> (r: Option<Weekday>)
        ensures
            r == Weekday::of_token(v@),
    {
        if is_literal(v, "SU") {
            Some(Weekday::Sunday)
        } else if is_literal(v, "MO") {
            Some(Weekday::Monday)
        } else if is_literal(v, "TU") {
            Some(Weekday::Tuesday)
        } else if is_literal(v, "WE") {
            Some(Weekday::Wenesday)
        } else if is_literal(v, "TH") {
            Some(Weekday::Thurday)
        } else if is_literal(v, "FR") {
            Some(Weekday::Friday)
        } else if is_literal(v, "SA") {
            Some(Weekday::Saturday)
        } else {
            None
        }
    }
}

impl std::str::FromStr for Weekday {
    type Err = Error;

    fn from_str(s: &str) -> (r: Result<Weekday, Error>)
        ensures
            result_view(r) == Weekday::parsed(s@),
    {
        Weekday::from_chars(chars_of(s).as_slice())
    }
}

/// A weekday, alone or as the n-th such day of a period, counted from its
/// start or, where negative, from its end.
#[derive(Clone, Copy, Debug, PartialEq, Eq, Structural)]
pub struct WeekdayNum {
    pub weekday: Weekday,
    pub ord: Option<i8>,
}

/// The index at which the ordinal at the start of a text ends: after an
/// optional sign and the digits behind it.
pub open spec fn ordinal_end(s: Seq<char>) -> int {
    if s.len() > 0 && (s[0] == '+' || s[0] == '-') {
        digits_end(s, 1)
    } else {
        digits_end(s, 0)
    }
}

impl WeekdayNum {
    /// The weekday with its ordinal that a text writes: an optional
    /// signed ordinal between 1 and 53, then the weekday token.
    pub open spec fn of_text(s: Seq<char>) -> Option<WeekdayNum> {
        let e = ordinal_end(s);
        match Weekday::of_token(s.skip(e)) {
            None => None,
            Some(weekday) => if e == 0 {
                Some(WeekdayNum { weekday, ord: None })
            } else {
                match signed_of(s.take(e)) {
                    Some(n) => if 1 <= n <= 53 || -53 <= n <= -1 {
                        Some(WeekdayNum { weekday, ord: Some(n as i8) })
                    } else {
                        None
                    },
                    None => None,
                }
            },
        }
    }

    /// What parsing `s` as a weekday with an ordinal gives.
    pub open spec fn parsed(s: Seq<char>) -> Result<WeekdayNum, ErrorView> {
        match WeekdayNum::of_text(s) {
            Some(v) => Ok(v),
            None => Err(ErrorView::InvalidEnum(EnumKind::Weekday, s)),
        }
    }

    /// Parses a weekday with an optional ordinal, such as `MO` or `-1FR`.
    pub fn from_str(s: &str) -> (r: Result<WeekdayNum, Error>)
        ensures
            result_view(r) == WeekdayNum::parsed(s@),
    {
        WeekdayNum::parse(s)
    }

    /// As [`WeekdayNum::from_str`].
    pub fn parse(s: &str) -> (r: Result<WeekdayNum, Error>)
        ensures
            result_view(r) == WeekdayNum::parsed(s@),
    {
        let v = chars_of(s);
        match WeekdayNum::from_chars(v.as_slice()) {
            Some(day) => Ok(day),
            None => Err(Error::InvalidEnum(EnumKind::Weekday, string_of(v.as_slice()))),
        }
    }

    /// The weekday with its ordinal that the characters write.
    pub fn from_chars(v: &[char]) -> (r: Option<WeekdayNum>)
        ensures
            r == WeekdayNum::of_text(v@),
    {
        let n = v.len();
        let from: usize = if n > 0 && (v[0] == '+' || v[0] == '-') { 1 } else { 0 };
        let e = scan_digits(v, from);
        let tail = slice_subrange(v, e, n);
        assert(v@.subrange(e as int, n as int) =~= v@.skip(e as int));
        let head = slice_subrange(v, 0, e);
        assert(v@.subrange(0, e as int) =~= v@.take(e as int));
        match Weekday::named(tail) {
            None => None,
            Some(weekday) => if e == 0 {
                Some(WeekdayNum { weekday, ord: None })
            } else {
                match signed(head, 53) {
                    Some(ord) => if ord != 0 {
                        Some(WeekdayNum { weekday, ord: Some(ord as i8) })
                    } else {
                        None
                    },
                    None => None,
                }
            },
        }
    }
}

impl std::str::FromStr for WeekdayNum {
    type Err = Error;

    fn from_str(s: &str) -> (r: Result<WeekdayNum, Error>)
        ensures
            result_view(r) == WeekdayNum::parsed(s@),
    {
        WeekdayNum::parse(s)
    }
}

/// Whether `n` may stand in a by-rule whose range is `lo..=hi`: it lies in
/// the range, and is not 0 unless the range starts there.
pub open spec fn in_rule_range(n: int, lo: int, hi: int) -> bool {
    lo <= n <= hi && (n != 0 || lo == 0)
}

/// The list of integers that a text writes between commas, each within
/// the range of its rule.
pub open spec fn int_list_of(s: Seq<char>, lo: int, hi: int) -> Option<Seq<int>> {
    let p = pieces(s, ',');
    if forall|k: int|
        0 <= k < p.len() ==> (#[trigger] signed_of(p[k])) is Some && in_rule_range(
            signed_of(p[k])->0,
            lo,
            hi,
        ) {
        Some(Seq::new(p.len(), |k: int| signed_of(p[k])->0))
    } else {
        None
    }
}

/// The list of weekdays that a text writes between commas.
pub open spec fn day_list_of(s: Seq<char>) -> Option<Seq<WeekdayNum>> {
    let p = pieces(s, ',');
    if forall|k: int| 0 <= k < p.len() ==> (#[trigger] WeekdayNum::of_text(p[k])) is Some {
        Some(Seq::new(p.len(), |k: int| WeekdayNum::of_text(p[k])->0))
    } else {
        None
    }
}

/// The number up to 255 that a text of digits writes.
pub open spec fn small_of(s: Seq<char>) -> Option<u8> {
    if s.len() > 0 && all_digits(s) && decimal(s) <= 255 {
        Some(decimal(s) as u8)
    } else {
        None
    }
}

/// The integers of a sequence.
pub open spec fn ints_of_i8(v: Seq<i8>) -> Seq<int> {
    Seq::new(v.len(), |k: int| v[k] as int)
}

/// The integers of a sequence.
pub open spec fn ints_of_i16(v: Seq<i16>) -> Seq<int> {
    Seq::new(v.len(), |k: int| v[k] as int)
}

/// Reads a list of integers between commas, each within `lo..=hi` and not
/// 0 unless `lo` is.
pub fn int_list(v: &[char], lo: i16, hi: i16) -> (r: Option<Vec<i16>>)
    requires
        -400 <= lo <= 1,
        1 <= hi <= 400,
    ensures
        match int_list_of(v@, lo as int, hi as int) {
            Some(list) => r matches Some(out) && ints_of_i16(out@) == list,
            None => r is None,
        },
        r matches Some(out) ==> forall|k: int| 0 <= k < out@.len() ==> lo <= #[trigger] out@[k] <= hi,
{
    let ranges = split(v, ',');
    let ghost p = pieces(v@, ',');
    let mut out: Vec<i16> = Vec::new();
    let mut k: usize = 0;
    while k < ranges.len()
        invariant
            k <= ranges@.len(),
            ranges_within(ranges@, v@.len()),
            range_texts(v@, ranges@) == p,
            p == pieces(v@, ','),
            -400 <= lo <= 1,
            1 <= hi <= 400,
            out@.len() == k,
            forall|j: int|
                0 <= j < k ==> (#[trigger] signed_of(p[j])) is Some && in_rule_range(
                    signed_of(p[j])->0,
                    lo as int,
                    hi as int,
                ) && out@[j] == signed_of(p[j])->0,
            forall|j: int| 0 <= j < k ==> lo <= #[trigger] out@[j] <= hi,
        decreases ranges@.len() - k,
    {
        let (a, b) = ranges[k];
        assert(range_texts(v@, ranges@)[k as int] == v@.subrange(a as int, b as int));
        let piece = slice_subrange(v, a, b);
        match signed(piece, 400) {
            Some(n) => {
                if n < lo as i64 || n > hi as i64 || (n == 0 && lo != 0) {
                    assert(!in_rule_range(signed_of(p[k as int])->0, lo as int, hi as int));
                    return None;
                }
                out.push(n as i16);
            },
            None => {
                assert(!(signed_of(p[k as int]) is Some && in_rule_range(
                    signed_of(p[k as int])->0,
                    lo as int,
                    hi as int,
                )));
                return None;
            },
        }
        k += 1;
    }
    assert(ints_of_i16(out@) =~= Seq::new(p.len(), |k: int| signed_of(p[k])->0));
    Some(out)
}

/// The same integers in eight bits.
pub fn narrowed(list: Vec<i16>) -> (out: Vec<i8>)
    requires
        forall|k: int| 0 <= k < list@.len() ==> -128 <= #[trigger] list@[k] <= 127,
    ensures
        ints_of_i8(out@) == ints_of_i16(list@),
{
    let mut out: Vec<i8> = Vec::new();
    let mut k: usize = 0;
    while k < list.len()
        invariant
            k <= list@.len(),
            out@.len() == k,
            forall|j: int| 0 <= j < list@.len() ==> -128 <= #[trigger] list@[j] <= 127,
            forall|j: int| 0 <= j < k ==> #[trigger] out@[j] == list@[j],
        decreases list@.len() - k,
    {
        out.push(list[k] as i8);
        k += 1;
    }
    assert(ints_of_i8(out@) =~= ints_of_i16(list@));
    out
}

/// Reads a list of weekdays between commas.
pub fn day_list(v: &[char]) -> (r: Option<Vec<WeekdayNum>>)
    ensures
        match day_list_of(v@) {
            Some(list) => r matches Some(out) && out@ == list,
            None => r is None,
        },
{
    let ranges = split(v, ',');
    let ghost p = pieces(v@, ',');
    let mut out: Vec<WeekdayNum> = Vec::new();
    let mut k: usize = 0;
    while k < ranges.len()
        invariant
            k <= ranges@.len(),
            ranges_within(ranges@, v@.len()),
            range_texts(v@, ranges@) == p,
            p == pieces(v@, ','),
            out@.len() == k,
            forall|j: int|
                0 <= j < k ==> (#[trigger] WeekdayNum::of_text(p[j])) == Some(out@[j]),
        decreases ranges@.len() - k,
    {
        let (a, b) = ranges[k];
        assert(range_texts(v@, ranges@)[k as int] == v@.subrange(a as int, b as int));
        let piece = slice_subrange(v, a, b);
        match WeekdayNum::from_chars(piece) {
            Some(day) => {
                out.push(day);
            },
            None => {
                assert(WeekdayNum::of_text(p[k as int]) is None);
                return None;
            },
        }
        k += 1;
    }
    assert(out@ =~= Seq::new(p.len(), |k: int| WeekdayNum::of_text(p[k])->0));
    Some(out)
}

/// Reads a number up to 255 written in digits alone.
pub fn small(v: &[char]) -> (r: Option<u8>)
    ensures
        r == small_of(v@),
{
    let n = v.len();
    let e = scan_digits(v, 0);
    assert(v@.subrange(0, n as int) =~= v@);
    if n == 0 || e != n {
        proof {
            if n > 0 {
                crate::chars::lemma_digits_end(v@, 0);
                assert(!crate::chars::is_digit(v@[e as int]));
            }
        }
        return None;
    }
    match decimal_of(v, 0, n, 255) {
        Some(m) => Some(m as u8),
        None => None,
    }
}

/// A parsed recurrence rule.
#[derive(Clone, Debug, PartialEq, Eq)]
pub struct Recur {
    pub freq: Freq,
    pub until: Option<DateTime>,
    pub count: Option<u8>,
    pub interval: Option<u8>,
    pub by_second: Vec<i8>,
    pub by_minute: Vec<i8>,
    pub by_hour: Vec<i8>,
    pub by_day: Vec<WeekdayNum>,
    pub by_monthday: Vec<i8>,
    pub by_yearday: Vec<i16>,
    pub by_weekno: Vec<i8>,
    pub by_month: Vec<i8>,
    pub by_setpos: Vec<i16>,
    pub wkst: Option<Weekday>,
}

impl Recur {
    /// A rule ends at a date or after a count, never both.
    pub open spec fn wf(&self) -> bool {
        !(self.until is Some && self.count is Some)
    }

    /// A rule of the given frequency with nothing else set.
    pub fn new(freq: Freq) -> (r: Recur)
        ensures
            r.freq == freq,
            r.until is None,
            r.count is None,
            r.interval is None,
            r.by_second@.len() == 0,
            r.by_minute@.len() == 0,
            r.by_hour@.len() == 0,
            r.by_day@.len() == 0,
            r.by_monthday@.len() == 0,
            r.by_yearday@.len() == 0,
            r.by_weekno@.len() == 0,
            r.by_month@.len() == 0,
            r.by_setpos@.len() == 0,
            r.wkst is None,
            r.wf(),
    {
        Recur {
            freq,
            until: None,
            count: None,
            interval: None,
            by_second: Vec::new(),
            by_minute: Vec::new(),
            by_hour: Vec::new(),
            by_day: Vec::new(),
            by_monthday: Vec::new(),
            by_yearday: Vec::new(),
            by_weekno: Vec::new(),
            by_month: Vec::new(),
            by_setpos: Vec::new(),
            wkst: None,
        }
    }

    /// The rule ending at `until`. An end date and a count exclude each
    /// other, so the count is cleared.
    pub fn with_until(self, until: DateTime) -> (r: Recur)
        ensures
            r.until == Some(until),
            r.count is None,
            r.wf(),
            r.freq == self.freq,
            r.interval == self.interval,
            r.by_second == self.by_second,
            r.by_minute == self.by_minute,
            r.by_hour == self.by_hour,
            r.by_day == self.by_day,
            r.by_monthday == self.by_monthday,
            r.by_yearday == self.by_yearday,
            r.by_weekno == self.by_weekno,
            r.by_month == self.by_month,
            r.by_setpos == self.by_setpos,
            r.wkst == self.wkst,
    {
        let mut r = self;
        r.until = Some(until);
        r.count = None;
        r
    }

    /// The rule ending after `count` occurrences. An end date and a count
    /// exclude each other, so the end date is cleared.
    pub fn with_count(self, count: u8) -> (r: Recur)
        ensures
            r.count == Some(count),
            r.until is None,
            r.wf(),
            r.freq == self.freq,
            r.interval == self.interval,
            r.by_second == self.by_second,
            r.by_minute == self.by_minute,
            r.by_hour == self.by_hour,
            r.by_day == self.by_day,
            r.by_monthday == self.by_monthday,
            r.by_yearday == self.by_yearday,
            r.by_weekno == self.by_weekno,
            r.by_month == self.by_month,
            r.by_setpos == self.by_setpos,
            r.wkst == self.wkst,
    {
        let mut r = self;
        r.count = Some(count);
        r.until = None;
        r
    }

    /// Parses a recurrence rule; see [`rrule`].
    pub fn from_str(s: &str) -> (r: Result<Recur, Error>)
        ensures
            recur_possible(s@, r),
            r matches Ok(rec) ==> rec.wf(),
    {
        rrule(s)
    }
}

impl std::str::FromStr for Recur {
    type Err = Error;

    fn from_str(s: &str) -> (r: Result<Recur, Error>)
        ensures
            recur_possible(s@, r),
            r matches Ok(rec) ==> rec.wf(),
    {
        rrule(s)
    }
}

/// What the parts of a rule say, before the end date is parsed.
#[verifier::ext_equal]
pub struct Rule {
    pub freq: Option<Freq>,
    pub until: Option<Seq<char>>,
    pub count: Option<u8>,
    pub interval: Option<u8>,
    pub by_second: Seq<int>,
    pub by_minute: Seq<int>,
    pub by_hour: Seq<int>,
    pub by_day: Seq<WeekdayNum>,
    pub by_monthday: Seq<int>,
    pub by_yearday: Seq<int>,
    pub by_weekno: Seq<int>,
    pub by_month: Seq<int>,
    pub by_setpos: Seq<int>,
    pub wkst: Option<Weekday>,
}

impl Rule {
    /// The rule that says nothing.
    pub open spec fn empty() -> Rule {
        Rule {
            freq: None,
            until: None,
            count: None,
            interval: None,
            by_second: Seq::empty(),
            by_minute: Seq::empty(),
            by_hour: Seq::empty(),
            by_day: Seq::empty(),
            by_monthday: Seq::empty(),
            by_yearday: Seq::empty(),
            by_weekno: Seq::empty(),
            by_month: Seq::empty(),
            by_setpos: Seq::empty(),
            wkst: None,
        }
    }
}

/// The rule after a part with one of the keys `FREQ`, `UNTIL`, `COUNT`,
/// `INTERVAL` and `WKST`; `None` for any other key.
pub open spec fn with_limit(rule: Rule, key: Seq<char>, value: Seq<char>, part: Seq<char>) -> Option<
    Result<Rule, ErrorView>,
> {
    if key == "FREQ"@ {
        Some(
            match Freq::of_token(value) {
                Some(f) => Ok(Rule { freq: Some(f), ..rule }),
                None => Err(ErrorView::InvalidFreq(value)),
            },
        )
    } else if key == "UNTIL"@ {
        Some(Ok(Rule { until: Some(value), count: None, ..rule }))
    } else if key == "COUNT"@ {
        Some(
            match small_of(value) {
                Some(n) => Ok(Rule { count: Some(n), until: None, ..rule }),
                None => Err(ErrorView::InvalidRecur(part)),
            },
        )
    } else if key == "INTERVAL"@ {
        Some(
            match small_of(value) {
                Some(n) => Ok(Rule { interval: Some(n), ..rule }),
                None => Err(ErrorView::InvalidRecur(part)),
            },
        )
    } else if key == "WKST"@ {
        Some(
            match Weekday::of_token(value) {
                Some(day) => Ok(Rule { wkst: Some(day), ..rule }),
                None => Err(ErrorView::InvalidEnum(EnumKind::Weekday, value)),
            },
        )
    } else {
        None
    }
}

/// The rule after a part with one of the keys of the by-rules on the
/// clock and the calendar day; `None` for any other key.
pub open spec fn with_by_time(rule: Rule, key: Seq<char>, value: Seq<char>, part: Seq<char>) -> Option<
    Result<Rule, ErrorView>,
> {
    if key == "BYSECOND"@ {
        Some(
            match int_list_of(value, 0, 60) {
                Some(list) => Ok(Rule { by_second: list, ..rule }),
                None => Err(ErrorView::InvalidRecur(part)),
            },
        )
    } else if key == "BYMINUTE"@ {
        Some(
            match int_list_of(value, 0, 59) {
                Some(list) => Ok(Rule { by_minute: list, ..rule }),
                None => Err(ErrorView::InvalidRecur(part)),
            },
        )
    } else if key == "BYHOUR"@ {
        Some(
            match int_list_of(value, 0, 23) {
                Some(list) => Ok(Rule { by_hour: list, ..rule }),
                None => Err(ErrorView::InvalidRecur(part)),
            },
        )
    } else if key == "BYDAY"@ {
        Some(
            match day_list_of(value) {
                Some(list) => Ok(Rule { by_day: list, ..rule }),
                None => Err(ErrorView::InvalidRecur(part)),
            },
        )
    } else {
        None
    }
}

/// The rule after a part with one of the keys of the by-rules on the
/// month and the year; `None` for any other key.
pub open spec fn with_by_date(rule: Rule, key: Seq<char>, value: Seq<char>, part: Seq<char>) -> Option<
    Result<Rule, ErrorView>,
> {
    if key == "BYMONTHDAY"@ {
        Some(
            match int_list_of(value, -31, 31) {
                Some(list) => Ok(Rule { by_monthday: list, ..rule }),
                None => Err(ErrorView::InvalidRecur(part)),
            },
        )
    } else if key == "BYYEARDAY"@ {
        Some(
            match int_list_of(value, -366, 366) {
                Some(list) => Ok(Rule { by_yearday: list, ..rule }),
                None => Err(ErrorView::InvalidRecur(part)),
            },
        )
    } else if key == "BYWEEKNO"@ {
        Some(
            match int_list_of(value, -53, 53) {
                Some(list) => Ok(Rule { by_weekno: list, ..rule }),
                None => Err(ErrorView::InvalidRecur(part)),
            },
        )
    } else if key == "BYMONTH"@ {
        Some(
            match int_list_of(value, 1, 12) {
                Some(list) => Ok(Rule { by_month: list, ..rule }),
                None => Err(ErrorView::InvalidRecur(part)),
            },
        )
    } else if key == "BYSETPOS"@ {
        Some(
            match int_list_of(value, -366, 366) {
                Some(list) => Ok(Rule { by_setpos: list, ..rule }),
                None => Err(ErrorView::InvalidRecur(part)),
            },
        )
    } else {
        None
    }
}

/// The rule after one more part, `KEY=VALUE`. A part without `=` is
/// rejected; a part with an unknown key changes nothing.
#[verifier::opaque]
pub open spec fn read_part(rule: Rule, part: Seq<char>) -> Result<Rule, ErrorView> {
    let q = find_from(part, 0, '=');
    if q >= part.len() {
        Err(ErrorView::InvalidRecur(part))
    } else {
        let key = part.take(q);
        let value = part.skip(q + 1);
        match with_limit(rule, key, value, part) {
            Some(r) => r,
            None => match with_by_time(rule, key, value, part) {
                Some(r) => r,
                None => match with_by_date(rule, key, value, part) {
                    Some(r) => r,
                    None => Ok(rule),
                },
            },
        }
    }
}

/// The rule after all the parts, read in order; the first part that is
/// rejected decides.
pub open spec fn read_parts(parts: Seq<Seq<char>>) -> Result<Rule, ErrorView>
    decreases parts.len(),
{
    if parts.len() == 0 {
        Ok(Rule::empty())
    } else {
        match read_parts(parts.drop_last()) {
            Err(e) => Err(e),
            Ok(rule) => read_part(rule, parts.last()),
        }
    }
}

/// What the parts of the text `s` say.
pub open spec fn rule_of(s: Seq<char>) -> Result<Rule, ErrorView> {
    read_parts(pieces(s, ';'))
}

/// The error for a text that is no rule, whatever its end date: that of
/// its first rejected part, or `InvalidRecur` where it has no frequency.
pub open spec fn recur_rejected(s: Seq<char>) -> Option<ErrorView> {
    match rule_of(s) {
        Err(e) => Some(e),
        Ok(rule) => if rule.freq is None {
            Some(ErrorView::InvalidRecur(s))
        } else {
            None
        },
    }
}

/// `rec` holds what `rule` says, with `freq` as its frequency.
pub open spec fn holds_rule(rec: Recur, rule: Rule) -> bool {
    &&& rule.freq == Some(rec.freq)
    &&& rule.count == rec.count
    &&& rule.interval == rec.interval
    &&& ints_of_i8(rec.by_second@) == rule.by_second
    &&& ints_of_i8(rec.by_minute@) == rule.by_minute
    &&& ints_of_i8(rec.by_hour@) == rule.by_hour
    &&& rec.by_day@ == rule.by_day
    &&& ints_of_i8(rec.by_monthday@) == rule.by_monthday
    &&& ints_of_i16(rec.by_yearday@) == rule.by_yearday
    &&& ints_of_i8(rec.by_weekno@) == rule.by_weekno
    &&& ints_of_i8(rec.by_month@) == rule.by_month
    &&& ints_of_i16(rec.by_setpos@) == rule.by_setpos
    &&& rec.wkst == rule.wkst
    &&& match rule.until {
        None => rec.until is None,
        Some(text) => rec.until matches Some(d) && is_date_of(text, d),
    }
}

/// `rec` is a recurrence rule that `s` writes.
pub open spec fn is_recur_of(s: Seq<char>, rec: Recur) -> bool {
    rule_of(s) matches Ok(rule) && holds_rule(rec, rule)
}

/// `r` is an outcome of parsing `s` as a recurrence rule. A text that is
/// no rule gives its error. A rule without an end date gives the rule. A
/// rule with an end date gives the rule with that date, or `InvalidDate`
/// with the text of the date, and that only where parsing the date is not
/// bound to succeed.
pub open spec fn recur_possible(s: Seq<char>, r: Result<Recur, Error>) -> bool {
    match recur_rejected(s) {
        Some(e) => r matches Err(x) && x@ == e,
        None => match r {
            Ok(rec) => is_recur_of(s, rec),
            Err(x) => rule_of(s) matches Ok(rule) && rule.until matches Some(text) && x@
                == ErrorView::InvalidDate(text) && !date_must_succeed(text),
        },
    }
}

/// The rule while its parts are read.
struct Draft {
    freq: Option<Freq>,
    until: Option<String>,
    count: Option<u8>,
    interval: Option<u8>,
    by_second: Vec<i8>,
    by_minute: Vec<i8>,
    by_hour: Vec<i8>,
    by_day: Vec<WeekdayNum>,
    by_monthday: Vec<i8>,
    by_yearday: Vec<i16>,
    by_weekno: Vec<i8>,
    by_month: Vec<i8>,
    by_setpos: Vec<i16>,
    wkst: Option<Weekday>,
}

impl Draft {
    /// What the draft says so far.
    spec fn rule(&self) -> Rule {
        Rule {
            freq: self.freq,
            until: match self.until {
                Some(text) => Some(text@),
                None => None,
            },
            count: self.count,
            interval: self.interval,
            by_second: ints_of_i8(self.by_second@),
            by_minute: ints_of_i8(self.by_minute@),
            by_hour: ints_of_i8(self.by_hour@),
            by_day: self.by_day@,
            by_monthday: ints_of_i8(self.by_monthday@),
            by_yearday: ints_of_i16(self.by_yearday@),
            by_weekno: ints_of_i8(self.by_weekno@),
            by_month: ints_of_i8(self.by_month@),
            by_setpos: ints_of_i16(self.by_setpos@),
            wkst: self.wkst,
        }
    }

    /// Not both an end date and a count.
    spec fn exclusive(&self) -> bool {
        !(self.until is Some && self.count is Some)
    }

    /// The draft that says nothing.
    fn new() -> (d: Draft)
        ensures
            d.rule() == Rule::empty(),
            d.exclusive(),
    {
        let d = Draft {
            freq: None,
            until: None,
            count: None,
            interval: None,
            by_second: Vec::new(),
            by_minute: Vec::new(),
            by_hour: Vec::new(),
            by_day: Vec::new(),
            by_monthday: Vec::new(),
            by_yearday: Vec::new(),
            by_weekno: Vec::new(),
            by_month: Vec::new(),
            by_setpos: Vec::new(),
            wkst: None,
        };
        assert(d.rule() =~= Rule::empty());
        d
    }
}

/// Whether the exec outcome of reading a part is the one the grammar states.
spec fn agrees(r: Result<Draft, Error>, expected: Result<Rule, ErrorView>) -> bool {
    match expected {
        Ok(rule) => r matches Ok(d) && d.rule() == rule && d.exclusive(),
        Err(e) => r matches Err(x) && x@ == e,
    }
}

/// Reads a part whose key is `FREQ`, `UNTIL`, `COUNT`, `INTERVAL` or
/// `WKST`; any other part is handed back with the draft untouched.
fn limit_part(draft: Draft, key: &[char], value: &[char], part: &[char]) -> (r: Result<
    Result<Draft, Error>,
    Draft,
>)
    requires
        draft.exclusive(),
    ensures
        match with_limit(draft.rule(), key@, value@, part@) {
            Some(expected) => r matches Ok(done) && agrees(done, expected),
            None => r == Err::<Result<Draft, Error>, Draft>(draft),
        },
{
    let mut d = draft;
    if is_literal(key, "FREQ") {
        match Freq::from_chars(value) {
            Ok(f) => {
                d.freq = Some(f);
                assert(d.rule() =~= Rule { freq: Some(f), ..draft.rule() });
                Ok(Ok(d))
            },
            Err(e) => Ok(Err(e)),
        }
    } else if is_literal(key, "UNTIL") {
        let text = string_of(value);
        d.until = Some(text);
        d.count = None;
        assert(d.rule() =~= Rule { until: Some(value@), count: None, ..draft.rule() });
        Ok(Ok(d))
    } else if is_literal(key, "COUNT") {
        match small(value) {
            Some(n) => {
                d.count = Some(n);
                d.until = None;
                assert(d.rule() =~= Rule { count: Some(n), until: None, ..draft.rule() });
                Ok(Ok(d))
            },
            None => Ok(Err(Error::InvalidRecur(string_of(part)))),
        }
    } else if is_literal(key, "INTERVAL") {
        match small(value) {
            Some(n) => {
                d.interval = Some(n);
                assert(d.rule() =~= Rule { interval: Some(n), ..draft.rule() });
                Ok(Ok(d))
            },
            None => Ok(Err(Error::InvalidRecur(string_of(part)))),
        }
    } else if is_literal(key, "WKST") {
        match Weekday::named(value) {
            Some(day) => {
                d.wkst = Some(day);
                assert(d.rule() =~= Rule { wkst: Some(day), ..draft.rule() });
                Ok(Ok(d))
            },
            None => Ok(Err(Error::InvalidEnum(EnumKind::Weekday, string_of(value)))),
        }
    } else {
        Err(d)
    }
}

/// Reads a part whose key is `BYSECOND`, `BYMINUTE`, `BYHOUR` or `BYDAY`;
/// any other part is handed back with the draft untouched.
fn by_time_part(draft: Draft, key: &[char], value: &[char], part: &[char]) -> (r: Result<
    Result<Draft, Error>,
    Draft,
>)
    requires
        draft.exclusive(),
    ensures
        match with_by_time(draft.rule(), key@, value@, part@) {
            Some(expected) => r matches Ok(done) && agrees(done, expected),
            None => r == Err::<Result<Draft, Error>, Draft>(draft),
        },
{
    let mut d = draft;
    if is_literal(key, "BYSECOND") {
        match int_list(value, 0, 60) {
            Some(list) => {
                d.by_second = narrowed(list);
                assert(d.rule() =~= Rule { by_second: ints_of_i16(list@), ..draft.rule() });
                Ok(Ok(d))
            },
            None => Ok(Err(Error::InvalidRecur(string_of(part)))),
        }
    } else if is_literal(key, "BYMINUTE") {
        match int_list(value, 0, 59) {
            Some(list) => {
                d.by_minute = narrowed(list);
                assert(d.rule() =~= Rule { by_minute: ints_of_i16(list@), ..draft.rule() });
                Ok(Ok(d))
            },
            None => Ok(Err(Error::InvalidRecur(string_of(part)))),
        }
    } else if is_literal(key, "BYHOUR") {
        match int_list(value, 0, 23) {
            Some(list) => {
                d.by_hour = narrowed(list);
                assert(d.rule() =~= Rule { by_hour: ints_of_i16(list@), ..draft.rule() });
                Ok(Ok(d))
            },
            None => Ok(Err(Error::InvalidRecur(string_of(part)))),
        }
    } else if is_literal(key, "BYDAY") {
        match day_list(value) {
            Some(list) => {
                d.by_day = list;
                assert(d.rule() =~= Rule { by_day: list@, ..draft.rule() });
                Ok(Ok(d))
            },
            None => Ok(Err(Error::InvalidRecur(string_of(part)))),
        }
    } else {
        Err(d)
    }
}

/// Reads a part whose key is `BYMONTHDAY`, `BYYEARDAY`, `BYWEEKNO`,
/// `BYMONTH` or `BYSETPOS`; any other part is handed back with the draft
/// untouched.
fn by_date_part(draft: Draft, key: &[char], value: &[char], part: &[char]) -> (r: Result<
    Result<Draft, Error>,
    Draft,
>)
    requires
        draft.exclusive(),
    ensures
        match with_by_date(draft.rule(), key@, value@, part@) {
            Some(expected) => r matches Ok(done) && agrees(done, expected),
            None => r == Err::<Result<Draft, Error>, Draft>(draft),
        },
{
    let mut d = draft;
    if is_literal(key, "BYMONTHDAY") {
        match int_list(value, -31, 31) {
            Some(list) => {
                d.by_monthday = narrowed(list);
                assert(d.rule() =~= Rule { by_monthday: ints_of_i16(list@), ..draft.rule() });
                Ok(Ok(d))
            },
            None => Ok(Err(Error::InvalidRecur(string_of(part)))),
        }
    } else if is_literal(key, "BYYEARDAY") {
        match int_list(value, -366, 366) {
            Some(list) => {
                d.by_yearday = list;
                assert(d.rule() =~= Rule { by_yearday: ints_of_i16(list@), ..draft.rule() });
                Ok(Ok(d))
            },
            None => Ok(Err(Error::InvalidRecur(string_of(part)))),
        }
    } else if is_literal(key, "BYWEEKNO") {
        match int_list(value, -53, 53) {
            Some(list) => {
                d.by_weekno = narrowed(list);
                assert(d.rule() =~= Rule { by_weekno: ints_of_i16(list@), ..draft.rule() });
                Ok(Ok(d))
            },
            None => Ok(Err(Error::InvalidRecur(string_of(part)))),
        }
    } else if is_literal(key, "BYMONTH") {
        match int_list(value, 1, 12) {
            Some(list) => {
                d.by_month = narrowed(list);
                assert(d.rule() =~= Rule { by_month: ints_of_i16(list@), ..draft.rule() });
                Ok(Ok(d))
            },
            None => Ok(Err(Error::InvalidRecur(string_of(part)))),
        }
    } else if is_literal(key, "BYSETPOS") {
        match int_list(value, -366, 366) {
            Some(list) => {
                d.by_setpos = list;
                assert(d.rule() =~= Rule { by_setpos: ints_of_i16(list@), ..draft.rule() });
                Ok(Ok(d))
            },
            None => Ok(Err(Error::InvalidRecur(string_of(part)))),
        }
    } else {
        Err(d)
    }
}

/// Reads one part into the draft.
fn part_read(draft: Draft, part: &[char]) -> (r: Result<Draft, Error>)
    requires
        draft.exclusive(),
    ensures
        agrees(r, read_part(draft.rule(), part@)),
{
    reveal(read_part);
    let n = part.len();
    let q = find_char(part, 0, '=');
    if q >= n {
        return Err(Error::InvalidRecur(string_of(part)));
    }
    let key = slice_subrange(part, 0, q);
    let value = slice_subrange(part, q + 1, n);
    assert(part@.subrange(0, q as int) =~= part@.take(q as int));
    assert(part@.subrange(q + 1, n as int) =~= part@.skip(q + 1));
    match limit_part(draft, key, value, part) {
        Ok(done) => done,
        Err(draft) => match by_time_part(draft, key, value, part) {
            Ok(done) => done,
            Err(draft) => match by_date_part(draft, key, value, part) {
                Ok(done) => done,
                Err(draft) => Ok(draft),
            },
        },
    }
}

/// Once a part is rejected, the parts after it change nothing.
pub proof fn lemma_first_error_decides(parts: Seq<Seq<char>>, n: int)
    requires
        0 <= n <= parts.len(),
        read_parts(parts.take(n)) is Err,
    ensures
        read_parts(parts) == read_parts(parts.take(n)),
    decreases parts.len() - n,
{
    if n == parts.len() {
        assert(parts.take(n) =~= parts);
    } else {
        assert(parts.take(n + 1).drop_last() =~= parts.take(n));
        lemma_first_error_decides(parts, n + 1);
    }
}

/// Of `UNTIL` and `COUNT` the one written last stands: after any parts a
/// rule has an end date or a count, never both.
pub proof fn lemma_until_excludes_count(parts: Seq<Seq<char>>)
    ensures
        read_parts(parts) matches Ok(rule) ==> !(rule.until is Some && rule.count is Some),
    decreases parts.len(),
{
    if parts.len() > 0 {
        reveal(read_part);
        lemma_until_excludes_count(parts.drop_last());
    }
}

/// Parses a recurrence rule. `FREQ` is required. Where both `UNTIL` and
/// `COUNT` are written, the later one stands.
pub fn rrule(input: &str) -> (r: Result<Recur, Error>)
    ensures
        recur_possible(input@, r),
        r matches Ok(rec) ==> rec.wf(),
{
    let v = chars_of(input);
    let ranges = split(v.as_slice(), ';');
    let ghost parts = pieces(v@, ';');
    let mut draft = Draft::new();
    let mut k: usize = 0;
    assert(parts.take(0) =~= Seq::<Seq<char>>::empty());
    while k < ranges.len()
        invariant
            k <= ranges@.len(),
            ranges_within(ranges@, v@.len()),
            range_texts(v@, ranges@) == parts,
            parts == pieces(v@, ';'),
            v@ == input@,
            read_parts(parts.take(k as int)) == Ok::<Rule, ErrorView>(draft.rule()),
            draft.exclusive(),
        decreases ranges@.len() - k,
    {
        let (a, b) = ranges[k];
        assert(range_texts(v@, ranges@)[k as int] == v@.subrange(a as int, b as int));
        let part = slice_subrange(v.as_slice(), a, b);
        proof {
            assert(parts.take(k + 1).drop_last() =~= parts.take(k as int));
            assert(parts.take(k + 1).last() == part@);
            assert(read_parts(parts.take(k + 1)) == read_part(draft.rule(), part@));
        }
        match part_read(draft, part) {
            Ok(d) => {
                draft = d;
            },
            Err(e) => {
                proof {
                    lemma_first_error_decides(parts, k + 1);
                }
                return Err(e);
            },
        }
        k += 1;
    }
    assert(parts.take(k as int) =~= parts);
    finished(draft, input)
}

/// The rule of a draft whose parts have all been read.
fn finished(draft: Draft, input: &str) -> (r: Result<Recur, Error>)
    requires
        rule_of(input@) == Ok::<Rule, ErrorView>(draft.rule()),
        draft.exclusive(),
    ensures
        recur_possible(input@, r),
        r matches Ok(rec) ==> rec.wf(),
{
    let freq = match draft.freq {
        Some(f) => f,
        None => {
            return Err(Error::InvalidRecur(input.to_owned()));
        },
    };
    let rec = Recur {
        freq,
        until: None,
        count: draft.count,
        interval: draft.interval,
        by_second: draft.by_second,
        by_minute: draft.by_minute,
        by_hour: draft.by_hour,
        by_day: draft.by_day,
        by_monthday: draft.by_monthday,
        by_yearday: draft.by_yearday,
        by_weekno: draft.by_weekno,
        by_month: draft.by_month,
        by_setpos: draft.by_setpos,
        wkst: draft.wkst,
    };
    match draft.until {
        Some(text) => match date(text.as_str()) {
            Ok(d) => Ok(rec.with_until(d)),
            Err(e) => Err(e),
        },
        None => Ok(rec),
    }
}

} // verus!
