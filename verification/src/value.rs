//! Typed values: the kinds of value a property can hold, and the parser
//! of each kind.
//!
//! Date-times are seen from the machine's time zone, so parsing one has
//! more than one possible outcome. The contracts therefore state which
//! outcomes are possible for a text: a value that the text writes, or
//! the error of its kind.
use vstd::prelude::*;
use crate::chars::{all_digits, chars_of, decimal, decimal_of, scan_digits, string_of_range, texts};
use crate::content_line::{unescape, unescaped};
use crate::datetime::{date, date_must_succeed, is_date_of, offset_in_range, DateTime};
use crate::duration::{duration, parsed_duration, Duration};
use crate::error::{result_view, Error, ErrorView};
use crate::geo::{geo, parsed_geo, Geo};
use crate::period::{period, period_possible, Period};
use crate::recur::{recur_possible, rrule, Recur};
use crate::status::{Class, Status, TimeTransparency};
use crate::timezone::{parsed_offset, utc_offset};

verus! {

/// The kinds of value, each with its grammar.
#[derive(Clone, Copy, Debug, PartialEq, Eq, Structural)]
pub enum ValueKind {
    /// The text as it is written.
    Raw,
    /// Free text, its escapes decoded.
    Text,
    DateTime,
    Duration,
    Period,
    Recur,
    Status,
    Class,
    Transparency,
    /// A number written in digits, up to 32 bits.
    Integer,
    /// A number from 0 to 9.
    Priority,
    /// An offset from UTC, in seconds.
    UtcOffset,
    /// A geographic position.
    Geo,
}

/// A typed value.
#[derive(Clone, Debug, PartialEq, Eq)]
pub enum Value {
    Text(String),
    DateTime(DateTime),
    Duration(Duration),
    Period(Period),
    Recur(Recur),
    Status(Status),
    Class(Class),
    Transparency(TimeTransparency),
    Integer(u32),
    UtcOffset(i32),
    Geo(Geo),
}

/// The number up to `max` that a text of digits writes.
pub open spec fn parsed_integer(s: Seq<char>, max: u32) -> Result<u32, ErrorView> {
    if s.len() > 0 && all_digits(s) && decimal(s) <= max {
        Ok(decimal(s) as u32)
    } else {
        Err(ErrorView::InvalidInteger(s))
    }
}

/// Parses a number written in digits alone, up to `max`.
pub fn integer(input: &str, max: u32) -> (r: Result<u32, Error>)
    ensures
        result_view(r) == parsed_integer(input@, max),
{
    let v = chars_of(input);
    let n = v.len();
    let e = scan_digits(v.as_slice(), 0);
    assert(v@.subrange(0, n as int) =~= v@);
    if n == 0 || e != n {
        proof {
            if n > 0 {
                crate::chars::lemma_digits_end(v@, 0);
                assert(!crate::chars::is_digit(v@[e as int]));
            }
        }
        return Err(Error::InvalidInteger(input.to_owned()));
    }
    match decimal_of(v.as_slice(), 0, n, max as u64) {
        Some(m) => Ok(m as u32),
        None => Err(Error::InvalidInteger(input.to_owned())),
    }
}

/// Whether a value is of the variant that values of `kind` have.
pub open spec fn has_kind(v: Value, kind: ValueKind) -> bool {
    match kind {
        ValueKind::Raw => v is Text,
        ValueKind::Text => v is Text,
        ValueKind::DateTime => v is DateTime,
        ValueKind::Duration => v is Duration,
        ValueKind::Period => v is Period,
        ValueKind::Recur => v is Recur,
        ValueKind::Status => v is Status,
        ValueKind::Class => v is Class,
        ValueKind::Transparency => v is Transparency,
        ValueKind::Integer => v is Integer,
        ValueKind::Priority => v matches Value::Integer(n) && n <= 9,
        ValueKind::UtcOffset => v is UtcOffset,
        ValueKind::Geo => v is Geo,
    }
}

/// `r` is an outcome of parsing `text` as a value of `kind`.
pub open spec fn value_possible(kind: ValueKind, text: Seq<char>, r: Result<Value, Error>) -> bool {
    match kind {
        ValueKind::Raw => r matches Ok(Value::Text(t)) && t@ == text,
        ValueKind::Text => r matches Ok(Value::Text(t)) && t@ == unescaped(text, false),
        ValueKind::DateTime => match r {
            Ok(Value::DateTime(d)) => is_date_of(text, d),
            Ok(_) => false,
            Err(e) => e@ == ErrorView::InvalidDate(text) && !date_must_succeed(text),
        },
        ValueKind::Duration => match parsed_duration(text) {
            Ok(d) => r matches Ok(Value::Duration(x)) && x == d,
            Err(e) => r matches Err(x) && x@ == e,
        },
        ValueKind::Period => match r {
            Ok(Value::Period(p)) => period_possible(text, Ok(p)),
            Ok(_) => false,
            Err(e) => period_possible(text, Err(e)),
        },
        ValueKind::Recur => match r {
            Ok(Value::Recur(rec)) => recur_possible(text, Ok(rec)) && rec.wf(),
            Ok(_) => false,
            Err(e) => recur_possible(text, Err(e)),
        },
        ValueKind::Status => match Status::parsed(text) {
            Ok(s) => r matches Ok(Value::Status(x)) && x == s,
            Err(e) => r matches Err(x) && x@ == e,
        },
        ValueKind::Class => match Class::parsed(text) {
            Ok(c) => r matches Ok(Value::Class(x)) && x == c,
            Err(e) => r matches Err(x) && x@ == e,
        },
        ValueKind::Transparency => match TimeTransparency::parsed(text) {
            Ok(t) => r matches Ok(Value::Transparency(x)) && x == t,
            Err(e) => r matches Err(x) && x@ == e,
        },
        ValueKind::Integer => match parsed_integer(text, u32::MAX) {
            Ok(n) => r matches Ok(Value::Integer(x)) && x == n,
            Err(e) => r matches Err(x) && x@ == e,
        },
        ValueKind::Priority => match parsed_integer(text, 9) {
            Ok(n) => r matches Ok(Value::Integer(x)) && x == n,
            Err(e) => r matches Err(x) && x@ == e,
        },
        ValueKind::UtcOffset => match parsed_offset(text) {
            Ok(o) => r matches Ok(Value::UtcOffset(x)) && x == o && offset_in_range(o as int),
            Err(e) => r matches Err(x) && x@ == e,
        },
        ValueKind::Geo => match parsed_geo(text) {
            Ok(g) => r matches Ok(Value::Geo(x)) && x@ == g,
            Err(e) => r matches Err(x) && x@ == e,
        },
    }
}

/// Whether parsing `text` as a value of `kind` can succeed.
pub open spec fn may_succeed(kind: ValueKind, text: Seq<char>) -> bool {
    exists|v: Value| #[trigger] value_possible(kind, text, Ok(v))
}

/// A value that parsing gives is of the variant of its kind.
pub proof fn lemma_value_has_kind(kind: ValueKind, text: Seq<char>, v: Value)
    requires
        value_possible(kind, text, Ok(v)),
    ensures
        has_kind(v, kind),
{
}

/// Parses a text as a value of the given kind.
pub fn parse_value(kind: ValueKind, text: &str) -> (r: Result<Value, Error>)
    ensures
        value_possible(kind, text@, r),
{
    match kind {
        ValueKind::Raw => Ok(Value::Text(text.to_owned())),
        ValueKind::Text => Ok(Value::Text(unescape(text))),
        ValueKind::DateTime => match date(text) {
            Ok(d) => Ok(Value::DateTime(d)),
            Err(e) => Err(e),
        },
        ValueKind::Duration => match duration(text) {
            Ok(d) => Ok(Value::Duration(d)),
            Err(e) => Err(e),
        },
        ValueKind::Period => match period(text) {
            Ok(p) => Ok(Value::Period(p)),
            Err(e) => Err(e),
        },
        ValueKind::Recur => match rrule(text) {
            Ok(rec) => Ok(Value::Recur(rec)),
            Err(e) => Err(e),
        },
        ValueKind::Status => match Status::from_str(text) {
            Ok(s) => Ok(Value::Status(s)),
            Err(e) => Err(e),
        },
        ValueKind::Class => match Class::from_str(text) {
            Ok(c) => Ok(Value::Class(c)),
            Err(e) => Err(e),
        },
        ValueKind::Transparency => match TimeTransparency::from_str(text) {
            Ok(t) => Ok(Value::Transparency(t)),
            Err(e) => Err(e),
        },
        ValueKind::Integer => match integer(text, u32::MAX) {
            Ok(n) => Ok(Value::Integer(n)),
            Err(e) => Err(e),
        },
        ValueKind::Priority => match integer(text, 9) {
            Ok(n) => Ok(Value::Integer(n)),
            Err(e) => Err(e),
        },
        ValueKind::UtcOffset => match utc_offset(text) {
            Ok(o) => Ok(Value::UtcOffset(o)),
            Err(e) => Err(e),
        },
        ValueKind::Geo => match geo(text) {
            Ok(g) => Ok(Value::Geo(g)),
            Err(e) => Err(e),
        },
    }
}

/// `r` is an outcome of parsing every text of `list` as a value of
/// `kind`, in order. All the values come out together; the first text that
/// is rejected decides the error.
pub open spec fn all_possible(
    kind: ValueKind,
    list: Seq<Seq<char>>,
    r: Result<Seq<Value>, Error>,
) -> bool {
    match r {
        Ok(values) => {
            &&& values.len() == list.len()
            &&& forall|j: int|
                0 <= j < list.len() ==> #[trigger] value_possible(kind, list[j], Ok(values[j]))
        },
        Err(e) => exists|j: int|
            {
                &&& 0 <= j < list.len()
                &&& #[trigger] value_possible(kind, list[j], Err(e))
                &&& forall|k: int| 0 <= k < j ==> #[trigger] may_succeed(kind, list[k])
            },
    }
}

/// The outcome of parsing a list, with its values as a sequence.
pub open spec fn list_outcome(r: Result<Vec<Value>, Error>) -> Result<Seq<Value>, Error> {
    match r {
        Ok(values) => Ok(values@),
        Err(e) => Err(e),
    }
}

/// Parses every text of a list as a value of the given kind.
pub fn parse_all(kind: ValueKind, list: &Vec<String>) -> (r: Result<Vec<Value>, Error>)
    ensures
        all_possible(kind, texts(list@), list_outcome(r)),
{
    let ghost t = texts(list@);
    let mut values: Vec<Value> = Vec::new();
    let mut j: usize = 0;
    while j < list.len()
        invariant
            j <= list@.len(),
            t == texts(list@),
            values@.len() == j,
            forall|k: int| 0 <= k < j ==> #[trigger] value_possible(kind, t[k], Ok(values@[k])),
        decreases list@.len() - j,
    {
        match parse_value(kind, list[j].as_str()) {
            Ok(v) => {
                values.push(v);
            },
            Err(e) => {
                proof {
                    assert(value_possible(kind, t[j as int], Err(e)));
                    assert forall|k: int| 0 <= k < j implies #[trigger] may_succeed(
                        kind,
                        t[k],
                    ) by {
                        assert(value_possible(kind, t[k], Ok(values@[k])));
                    }
                }
                return Err(e);
            },
        }
        j += 1;
    }
    Ok(values)
}

/// The index of the first comma at or after `i` that no backslash takes
/// along, or the length of the text where there is none.
pub open spec fn comma_from(s: Seq<char>, i: int) -> int
    decreases s.len() - i,
{
    if i < 0 || i >= s.len() {
        s.len() as int
    } else if s[i] == ',' {
        i
    } else if s[i] == '\\' {
        if i + 1 < s.len() {
            comma_from(s, i + 2)
        } else {
            s.len() as int
        }
    } else {
        comma_from(s, i + 1)
    }
}

/// The items of a list value from `i` on: the pieces between commas, a
/// comma behind a backslash being part of its item.
pub open spec fn items_from(s: Seq<char>, i: int) -> Seq<Seq<char>>
    decreases s.len() - i,
{
    let e = comma_from(s, i);
    if 0 <= i <= e < s.len() {
        seq![s.subrange(i, e)] + items_from(s, e + 1)
    } else {
        seq![s.subrange(i, s.len() as int)]
    }
}

/// The items of a list value.
pub open spec fn items(s: Seq<char>) -> Seq<Seq<char>> {
    items_from(s, 0)
}

/// The first comma at or after `from` that no backslash takes along.
fn scan_comma(v: &[char], from: usize) -> (end: usize)
    requires
        from <= v@.len(),
    ensures
        end == comma_from(v@, from as int),
        from <= end <= v@.len(),
{
    let n = v.len();
    let mut i: usize = from;
    while i < n
        invariant
            from <= i <= n,
            n == v@.len(),
            comma_from(v@, from as int) == comma_from(v@, i as int),
        decreases n - i,
    {
        let c = v[i];
        if c == ',' {
            return i;
        }
        if c == '\\' {
            if n - i < 2 {
                return n;
            }
            i = i + 2;
        } else {
            i = i + 1;
        }
    }
    i
}

/// Appends the items of a list value to `out`.
pub fn push_items(out: &mut Vec<String>, text: &str)
    ensures
        texts(final(out)@) == texts(old(out)@) + items(text@),
{
    let v = chars_of(text);
    let ghost start = texts(out@);
    let mut i: usize = 0;
    loop
        invariant
            i <= v@.len(),
            v@ == text@,
            start == texts(old(out)@),
            texts(out@) + items_from(v@, i as int) == start + items(v@),
        decreases v@.len() - i,
    {
        let e = scan_comma(v.as_slice(), i);
        let ghost before = out@;
        if e < v.len() {
            out.push(string_of_range(v.as_slice(), i, e));
            assert(texts(out@) =~= texts(before).push(v@.subrange(i as int, e as int)));
            assert(texts(out@) + items_from(v@, e + 1) =~= texts(before) + items_from(
                v@,
                i as int,
            ));
            i = e + 1;
        } else {
            out.push(string_of_range(v.as_slice(), i, v.len()));
            assert(texts(out@) =~= texts(before).push(v@.subrange(i as int, v@.len() as int)));
            assert(texts(out@) =~= texts(before) + items_from(v@, i as int));
            return ;
        }
    }
}

} // verus!
