//! Request status: a status code, a description, and optionally further
//! data, with semicolons between them.
//!
//! The code is two or three numbers with points between them, such as
//! `2.0` or `3.1.1`. The description and the data are texts, and are
//! stored decoded.
use vstd::prelude::*;
use vstd::slice::slice_subrange;
use crate::chars::{chars_of, digits_end, scan_digits, string_of, string_of_range};
use crate::content_line::{unescape_range, unescaped};
use crate::error::{Error, ErrorView};

verus! {

/// A request status.
#[derive(Clone, Debug, PartialEq, Eq)]
pub struct RequestStatus {
    /// The status code, as written.
    pub code: String,
    /// The description, decoded.
    pub description: String,
    /// The further data, decoded, where there is any.
    pub data: Option<String>,
}

/// The mathematical value of a [`RequestStatus`].
pub struct RequestStatusView {
    pub code: Seq<char>,
    pub description: Seq<char>,
    pub data: Option<Seq<char>>,
}

impl View for RequestStatus {
    type V = RequestStatusView;

    open spec fn view(&self) -> RequestStatusView {
        RequestStatusView {
            code: self.code@,
            description: self.description@,
            data: match self.data {
                Some(d) => Some(d@),
                None => None,
            },
        }
    }
}

/// Whether a text is a status code: a number, a point, a number, and
/// optionally a point and a third number.
pub open spec fn is_status_code(s: Seq<char>) -> bool {
    let a = digits_end(s, 0);
    let b = digits_end(s, a + 1);
    let c = digits_end(s, b + 1);
    &&& 0 < a < s.len()
    &&& s[a] == '.'
    &&& a + 1 < b
    &&& if b == s.len() {
        true
    } else {
        s[b] == '.' && b + 1 < c && c == s.len()
    }
}

/// The index of the first semicolon at or after `i` that no backslash
/// takes along, or the length of the text where there is none.
pub open spec fn semicolon_from(s: Seq<char>, i: int) -> int
    decreases s.len() - i,
{
    if i < 0 || i >= s.len() {
        s.len() as int
    } else if s[i] == ';' {
        i
    } else if s[i] == '\\' {
        if i + 1 < s.len() {
            semicolon_from(s, i + 2)
        } else {
            s.len() as int
        }
    } else {
        semicolon_from(s, i + 1)
    }
}

/// What parsing `s` as a request status gives.
pub open spec fn parsed_request_status(s: Seq<char>) -> Result<RequestStatusView, ErrorView> {
    let a = semicolon_from(s, 0);
    let b = semicolon_from(s, a + 1);
    if a < s.len() && is_status_code(s.subrange(0, a)) {
        Ok(
            RequestStatusView {
                code: s.subrange(0, a),
                description: unescaped(s.subrange(a + 1, b), false),
                data: if b < s.len() {
                    Some(unescaped(s.subrange(b + 1, s.len() as int), false))
                } else {
                    None
                },
            },
        )
    } else {
        Err(ErrorView::InvalidRequestStatus(s))
    }
}

/// The outcome of parsing a request status, seen through its views.
pub open spec fn request_status_outcome(r: Result<RequestStatus, Error>) -> Result<
    RequestStatusView,
    ErrorView,
> {
    match r {
        Ok(v) => Ok(v@),
        Err(e) => Err(e@),
    }
}

/// Whether the characters are a status code.
pub fn is_code(v: &[char]) -> (b: bool)
    ensures
        b == is_status_code(v@),
{
    let n = v.len();
    let a = scan_digits(v, 0);
    if a == 0 || a >= n || v[a] != '.' {
        return false;
    }
    let b = scan_digits(v, a + 1);
    if b <= a + 1 {
        return false;
    }
    if b == n {
        return true;
    }
    if v[b] != '.' {
        return false;
    }
    let c = scan_digits(v, b + 1);
    b + 1 < c && c == n
}

/// The first semicolon at or after `from` that no backslash takes along.
fn scan_semicolon(v: &[char], from: usize) -> (end: usize)
    requires
        from <= v@.len(),
    ensures
        end == semicolon_from(v@, from as int),
        from <= end <= v@.len(),
{
    let n = v.len();
    let mut i: usize = from;
    while i < n
        invariant
            from <= i <= n,
            n == v@.len(),
            semicolon_from(v@, from as int) == semicolon_from(v@, i as int),
        decreases n - i,
    {
        let c = v[i];
        if c == ';' {
            return i;
        }
        if c == '\\' {
            if n - i < 2 {
                return n;
            }
            i = i + 2;
        } else {
            i = i + 1;
        }
    }
    i
}

/// Parses a request status such as `2.0;Success` or
/// `3.1;Invalid property value;DTSTART:96-Apr-01`.
pub fn request_status(input: &str) -> (r: Result<RequestStatus, Error>)
    ensures
        request_status_outcome(r) == parsed_request_status(input@),
{
    let v = chars_of(input);
    let n = v.len();
    let a = scan_semicolon(v.as_slice(), 0);
    if a >= n || !is_code(slice_subrange(v.as_slice(), 0, a)) {
        return Err(Error::InvalidRequestStatus(string_of(v.as_slice())));
    }
    let b = scan_semicolon(v.as_slice(), a + 1);
    let data = if b < n {
        Some(unescape_range(v.as_slice(), b + 1, n, false))
    } else {
        None
    };
    Ok(
        RequestStatus {
            code: string_of_range(v.as_slice(), 0, a),
            description: unescape_range(v.as_slice(), a + 1, b, false),
            data,
        },
    )
}

} // verus!
