//! Geographic positions: a latitude and a longitude, each a decimal
//! number, with a semicolon or a comma between them.
//!
//! The two numbers are checked against the grammar of decimal numbers
//! and kept as they are written.
use vstd::prelude::*;
use vstd::slice::slice_subrange;
use crate::chars::{chars_of, digits_end, scan_digits, string_of_range};
use crate::error::{Error, ErrorView};

verus! {

/// A geographic position.
#[derive(Clone, Debug, PartialEq, Eq)]
pub struct Geo {
    /// The latitude in degrees, a decimal number as written.
    pub lat: String,
    /// The longitude in degrees, a decimal number as written.
    pub lon: String,
}

/// The mathematical value of a [`Geo`].
pub struct GeoView {
    pub lat: Seq<char>,
    pub lon: Seq<char>,
}

impl View for Geo {
    type V = GeoView;

    open spec fn view(&self) -> GeoView {
        GeoView { lat: self.lat@, lon: self.lon@ }
    }
}

/// Whether a text writes a decimal number: an optional sign, one or more
/// digits, and optionally a point with one or more digits.
pub open spec fn is_decimal(s: Seq<char>) -> bool {
    let start = if s.len() > 0 && (s[0] == '+' || s[0] == '-') {
        1int
    } else {
        0int
    };
    let whole = digits_end(s, start);
    &&& start < whole
    &&& if whole == s.len() {
        true
    } else {
        s[whole] == '.' && whole + 1 < digits_end(s, whole + 1) && digits_end(s, whole + 1)
            == s.len()
    }
}

/// The index of the first semicolon or comma at or after `i`, or the
/// length of the text where there is none.
pub open spec fn separator_from(s: Seq<char>, i: int) -> int
    decreases s.len() - i,
{
    if 0 <= i < s.len() && s[i] != ';' && s[i] != ',' {
        separator_from(s, i + 1)
    } else if i < s.len() {
        i
    } else {
        s.len() as int
    }
}

/// What parsing `s` as a position gives.
pub open spec fn parsed_geo(s: Seq<char>) -> Result<GeoView, ErrorView> {
    let q = separator_from(s, 0);
    if q < s.len() && is_decimal(s.subrange(0, q)) && is_decimal(
        s.subrange(q + 1, s.len() as int),
    ) {
        Ok(GeoView { lat: s.subrange(0, q), lon: s.subrange(q + 1, s.len() as int) })
    } else {
        Err(ErrorView::InvalidGeo(s))
    }
}

/// The outcome of parsing a position, seen through its views.
pub open spec fn geo_outcome(r: Result<Geo, Error>) -> Result<GeoView, ErrorView> {
    match r {
        Ok(g) => Ok(g@),
        Err(e) => Err(e@),
    }
}

/// Whether the characters write a decimal number.
pub fn is_decimal_number(v: &[char]) -> (b: bool)
    ensures
        b == is_decimal(v@),
{
    let n = v.len();
    let start: usize = if n > 0 && (v[0] == '+' || v[0] == '-') { 1 } else { 0 };
    let whole = scan_digits(v, start);
    if whole <= start {
        return false;
    }
    if whole == n {
        return true;
    }
    if v[whole] != '.' {
        return false;
    }
    let frac = scan_digits(v, whole + 1);
    whole + 1 < frac && frac == n
}

/// Parses a position: two decimal numbers with a semicolon or a comma
/// between them.
pub fn geo(input: &str) -> (r: Result<Geo, Error>)
    ensures
        geo_outcome(r) == parsed_geo(input@),
{
    let v = chars_of(input);
    let n = v.len();
    let mut q: usize = 0;
    while q < n && v[q] != ';' && v[q] != ','
        invariant
            q <= n,
            n == v@.len(),
            separator_from(v@, 0) == separator_from(v@, q as int),
        decreases n - q,
    {
        q += 1;
    }
    if q >= n {
        return Err(Error::InvalidGeo(input.to_owned()));
    }
    let lat_ok = is_decimal_number(slice_subrange(v.as_slice(), 0, q));
    let lon_ok = is_decimal_number(slice_subrange(v.as_slice(), q + 1, n));
    if lat_ok && lon_ok {
        Ok(
            Geo {
                lat: string_of_range(v.as_slice(), 0, q),
                lon: string_of_range(v.as_slice(), q + 1, n),
            },
        )
    } else {
        Err(Error::InvalidGeo(input.to_owned()))
    }
}

} // verus!
