//! Characters and character sequences: the classes the grammars use, and
//! the conversions between `str`, `String` and slices of `char`.
use vstd::prelude::*;

verus! {

/// An ASCII decimal digit.
pub open spec fn is_digit(c: char) -> bool {
    '0' <= c && c <= '9'
}

/// An ASCII letter.
pub open spec fn is_letter(c: char) -> bool {
    ('a' <= c && c <= 'z') || ('A' <= c && c <= 'Z')
}

/// A character of an identifier token: a letter, a digit or a hyphen.
pub open spec fn is_name_char(c: char) -> bool {
    is_letter(c) || is_digit(c) || c == '-'
}

/// The upper-case form of an ASCII letter; any other character is unchanged.
pub open spec fn upper(c: char) -> char {
    if 'a' <= c && c <= 'z' {
        ((c as u8) - 32) as char
    } else {
        c
    }
}

/// `s` with every ASCII letter in upper case.
pub open spec fn upper_seq(s: Seq<char>) -> Seq<char> {
    Seq::new(s.len(), |i: int| upper(s[i]))
}

/// The texts of a sequence of strings.
pub open spec fn texts(v: Seq<String>) -> Seq<Seq<char>> {
    Seq::new(v.len(), |i: int| v[i]@)
}

/// The value of a decimal digit.
pub open spec fn digit_value(c: char) -> nat {
    (c as nat - 48) as nat
}

/// Every character of `s` is a decimal digit.
pub open spec fn all_digits(s: Seq<char>) -> bool {
    forall|i: int| 0 <= i < s.len() ==> is_digit(#[trigger] s[i])
}

/// The number that the digit string `s` writes in base ten (0 for the empty string).
pub open spec fn decimal(s: Seq<char>) -> nat
    decreases s.len(),
{
    if s.len() == 0 {
        0
    } else {
        decimal(s.drop_last()) * 10 + digit_value(s.last())
    }
}

/// The index at which the run of digits that starts at `i` ends.
pub open spec fn digits_end(s: Seq<char>, i: int) -> int
    decreases s.len() - i,
{
    if 0 <= i < s.len() && is_digit(s[i]) {
        digits_end(s, i + 1)
    } else {
        i
    }
}

/// The index of the first occurrence of `c` in `s` at or after `i`, or
/// the length of `s` where there is none.
pub open spec fn find_from(s: Seq<char>, i: int, c: char) -> int
    decreases s.len() - i,
{
    if 0 <= i < s.len() && s[i] != c {
        find_from(s, i + 1, c)
    } else if i < s.len() {
        i
    } else {
        s.len() as int
    }
}

/// The pieces of the text from `i` on that the separator `sep` parts.
/// There is always at least one piece; it may be empty.
pub open spec fn pieces_from(s: Seq<char>, i: int, sep: char) -> Seq<Seq<char>>
    decreases s.len() - i,
{
    let e = find_from(s, i, sep);
    if 0 <= i <= e < s.len() {
        seq![s.subrange(i, e)] + pieces_from(s, e + 1, sep)
    } else {
        seq![s.subrange(i, s.len() as int)]
    }
}

/// The pieces of the text that the separator `sep` parts.
pub open spec fn pieces(s: Seq<char>, sep: char) -> Seq<Seq<char>> {
    pieces_from(s, 0, sep)
}

/// The integer that a text writes: an optional sign and one or more digits.
pub open spec fn signed_of(s: Seq<char>) -> Option<int> {
    let signed = s.len() > 0 && (s[0] == '+' || s[0] == '-');
    let digits = if signed { s.skip(1) } else { s };
    if digits.len() > 0 && all_digits(digits) {
        if s[0] == '-' {
            Some(-(decimal(digits) as int))
        } else {
            Some(decimal(digits) as int)
        }
    } else {
        None
    }
}

/// The ranges of a slice, as texts.
pub open spec fn range_texts(s: Seq<char>, ranges: Seq<(usize, usize)>) -> Seq<Seq<char>> {
    Seq::new(ranges.len(), |k: int| s.subrange(ranges[k].0 as int, ranges[k].1 as int))
}

/// Every range lies inside a text of length `len`.
pub open spec fn ranges_within(ranges: Seq<(usize, usize)>, len: nat) -> bool {
    forall|k: int| 0 <= k < ranges.len() ==> (#[trigger] ranges[k]).0 <= ranges[k].1 <= len
}

/// Whether a character is an ASCII decimal digit.
pub fn is_digit_char(c: char) -> (b: bool)
    ensures
        b == is_digit(c),
{
    c >= '0' && c <= '9'
}

/// Whether a character may stand in an identifier token.
pub fn is_name_character(c: char) -> (b: bool)
    ensures
        b == is_name_char(c),
{
    (c >= 'a' && c <= 'z') || (c >= 'A' && c <= 'Z') || (c >= '0' && c <= '9') || c == '-'
}

/// The upper-case form of an ASCII letter; any other character as it is.
pub fn to_upper(c: char) -> (r: char)
    ensures
        r == upper(c),
{
    if c >= 'a' && c <= 'z' {
        ((c as u8) - 32) as char
    } else {
        c
    }
}

/// The characters of a string slice.
pub fn chars_of(s: &str) -> (out: Vec<char>)
    ensures
        out@ == s@,
{
    let mut out: Vec<char> = Vec::new();
    for c in it: s.chars()
        invariant
            out@ == it.seq().take(it.index() as int),
            it.seq() == s@,
    {
        out.push(c);
    }
    out
}

/// `String::push`: the string afterwards is the string before with `c`
/// appended at its end.
#[verifier::external_body]
pub(crate) fn push_char(s: &mut String, c: char)
    ensures
        final(s)@ == old(s)@.push(c),
{
    s.push(c);
}

/// The string made of the characters `v[from..to]`.
pub fn string_of_range(v: &[char], from: usize, to: usize) -> (s: String)
    requires
        from <= to <= v@.len(),
    ensures
        s@ == v@.subrange(from as int, to as int),
{
    let mut s = String::new();
    let mut i: usize = from;
    while i < to
        invariant
            from <= i <= to <= v@.len(),
            s@ == v@.subrange(from as int, i as int),
        decreases to - i,
    {
        push_char(&mut s, v[i]);
        i += 1;
    }
    s
}

/// The string made of the characters of `v`.
pub fn string_of(v: &[char]) -> (s: String)
    ensures
        s@ == v@,
{
    let s = string_of_range(v, 0, v.len());
    assert(v@.subrange(0, v@.len() as int) =~= v@);
    s
}

/// The string made of the characters `v[from..to]`, letters in upper case.
pub fn upper_string_of_range(v: &[char], from: usize, to: usize) -> (s: String)
    requires
        from <= to <= v@.len(),
    ensures
        s@ == upper_seq(v@.subrange(from as int, to as int)),
{
    let mut s = String::new();
    let mut i: usize = from;
    while i < to
        invariant
            from <= i <= to <= v@.len(),
            s@ == upper_seq(v@.subrange(from as int, i as int)),
        decreases to - i,
    {
        push_char(&mut s, to_upper(v[i]));
        i += 1;
        assert(upper_seq(v@.subrange(from as int, i as int)) =~= upper_seq(
            v@.subrange(from as int, i - 1),
        ).push(upper(v@[i - 1])));
    }
    s
}

/// Whether the characters `v[from..to]` spell the string `lit`.
pub fn range_is(v: &[char], from: usize, to: usize, lit: &str) -> (b: bool)
    requires
        from <= to <= v@.len(),
    ensures
        b == (v@.subrange(from as int, to as int) == lit@),
{
    let ghost sub = v@.subrange(from as int, to as int);
    let mut i: usize = from;
    for c in it: lit.chars()
        invariant
            it.seq() == lit@,
            i == from + it.index(),
            from <= i <= to <= v@.len(),
            sub == v@.subrange(from as int, to as int),
            sub.take(i - from) == lit@.take(i - from),
    {
        if i >= to || v[i] != c {
            assert(sub != lit@) by {
                if sub == lit@ {
                    assert(sub[i - from] == lit@[i - from]);
                }
            }
            return false;
        }
        i += 1;
        assert(sub.take(i - from) =~= sub.take(i - from - 1).push(sub[i - from - 1]));
        assert(lit@.take(i - from) =~= lit@.take(i - from - 1).push(lit@[i - from - 1]));
    }
    if i == to {
        assert(sub.take(i - from) =~= sub);
        assert(lit@.take(i - from) =~= lit@);
    }
    i == to
}

/// Whether the characters of `v` spell the string `lit`.
pub fn is_literal(v: &[char], lit: &str) -> (b: bool)
    ensures
        b == (v@ == lit@),
{
    assert(v@.subrange(0, v@.len() as int) =~= v@);
    range_is(v, 0, v.len(), lit)
}

/// The end of the run of digits that starts at `from`.
pub fn scan_digits(v: &[char], from: usize) -> (end: usize)
    requires
        from <= v@.len(),
    ensures
        end == digits_end(v@, from as int),
        from <= end <= v@.len(),
        all_digits(v@.subrange(from as int, end as int)),
{
    let mut i: usize = from;
    while i < v.len() && is_digit_char(v[i])
        invariant
            from <= i <= v@.len(),
            digits_end(v@, from as int) == digits_end(v@, i as int),
            all_digits(v@.subrange(from as int, i as int)),
        decreases v@.len() - i,
    {
        i += 1;
    }
    i
}

/// The first index at or after `from` that holds `c`, or the length of `v`.
pub fn find_char(v: &[char], from: usize, c: char) -> (at: usize)
    requires
        from <= v@.len(),
    ensures
        at == find_from(v@, from as int, c),
        from <= at <= v@.len(),
        at < v@.len() ==> v@[at as int] == c,
        forall|k: int| from <= k < at ==> v@[k] != c,
{
    let mut i: usize = from;
    while i < v.len() && v[i] != c
        invariant
            from <= i <= v@.len(),
            find_from(v@, from as int, c) == find_from(v@, i as int, c),
            forall|k: int| from <= k < i ==> v@[k] != c,
        decreases v@.len() - i,
    {
        i += 1;
    }
    i
}

/// The number that the digits `v[from..to]` write, where it is at most
/// `max`; `None` where it is larger.
pub fn decimal_of(v: &[char], from: usize, to: usize, max: u64) -> (r: Option<u64>)
    requires
        from <= to <= v@.len(),
        all_digits(v@.subrange(from as int, to as int)),
    ensures
        r == if decimal(v@.subrange(from as int, to as int)) <= max {
            Some(decimal(v@.subrange(from as int, to as int)) as u64)
        } else {
            None::<u64>
        },
{
    let ghost digits = v@.subrange(from as int, to as int);
    let mut acc: u64 = 0;
    let mut i: usize = from;
    while i < to
        invariant
            from <= i <= to <= v@.len(),
            digits == v@.subrange(from as int, to as int),
            all_digits(digits),
            acc == decimal(digits.take(i - from)),
            acc <= max,
        decreases to - i,
    {
        assert(is_digit(digits[i - from]));
        let d: u64 = (v[i] as u8 - 48) as u64;
        proof {
            assert(digits.take(i - from + 1).drop_last() =~= digits.take(i - from));
            assert(digits.take(i - from + 1).last() == v@[i as int]);
            assert(decimal(digits.take(i - from + 1)) == acc * 10 + d);
        }
        if d > max || acc > (max - d) / 10 {
            proof {
                lemma_decimal_prefix(digits, i - from + 1);
            }
            return None;
        }
        acc = acc * 10 + d;
        i += 1;
    }
    assert(digits.take(to - from) =~= digits);
    Some(acc)
}

/// Parts a text at every `sep`: the ranges of its pieces, in order.
pub fn split(v: &[char], sep: char) -> (ranges: Vec<(usize, usize)>)
    ensures
        ranges_within(ranges@, v@.len()),
        range_texts(v@, ranges@) == pieces(v@, sep),
        ranges@.len() > 0,
{
    let mut ranges: Vec<(usize, usize)> = Vec::new();
    let mut i: usize = 0;
    assert(range_texts(v@, ranges@) =~= Seq::<Seq<char>>::empty());
    loop
        invariant
            i <= v@.len(),
            ranges_within(ranges@, v@.len()),
            range_texts(v@, ranges@) + pieces_from(v@, i as int, sep) == pieces(v@, sep),
        decreases v@.len() - i,
    {
        let e = find_char(v, i, sep);
        let ghost before = ranges@;
        if e < v.len() {
            ranges.push((i, e));
            assert(range_texts(v@, ranges@) =~= range_texts(v@, before).push(
                v@.subrange(i as int, e as int),
            ));
            assert(range_texts(v@, ranges@) + pieces_from(v@, e + 1, sep) =~= range_texts(
                v@,
                before,
            ) + pieces_from(v@, i as int, sep));
            i = e + 1;
        } else {
            ranges.push((i, v.len()));
            assert(range_texts(v@, ranges@) =~= range_texts(v@, before).push(
                v@.subrange(i as int, v@.len() as int),
            ));
            assert(range_texts(v@, ranges@) =~= range_texts(v@, before) + pieces_from(
                v@,
                i as int,
                sep,
            ));
            return ranges;
        }
    }
}

/// Reads an integer: an optional sign and one or more digits. `None`
/// where the text is no integer or the integer is outside `-max..=max`.
pub fn signed(v: &[char], max: u32) -> (r: Option<i64>)
    ensures
        r == match signed_of(v@) {
            Some(n) => if -max <= n <= max {
                Some(n as i64)
            } else {
                None::<i64>
            },
            None => None::<i64>,
        },
{
    let n = v.len();
    let has_sign = n > 0 && (v[0] == '+' || v[0] == '-');
    let from: usize = if has_sign { 1 } else { 0 };
    let e = scan_digits(v, from);
    assert(v@.subrange(from as int, n as int) =~= if has_sign { v@.skip(1) } else { v@ });
    if e != n || from == n {
        proof {
            if from < n {
                let digits = v@.subrange(from as int, n as int);
                lemma_digits_end(v@, from as int);
                assert(!is_digit(v@[e as int]));
                assert(digits[e - from] == v@[e as int]);
            }
        }
        return None;
    }
    match decimal_of(v, from, n, max as u64) {
        Some(m) => if v[0] == '-' {
            Some(-(m as i64))
        } else {
            Some(m as i64)
        },
        None => None,
    }
}

/// A run of digits ends at a character that is no digit, or at the end.
pub proof fn lemma_digits_end(s: Seq<char>, i: int)
    requires
        0 <= i <= s.len(),
    ensures
        i <= digits_end(s, i) <= s.len(),
        digits_end(s, i) < s.len() ==> !is_digit(s[digits_end(s, i)]),
    decreases s.len() - i,
{
    if i < s.len() && is_digit(s[i]) {
        lemma_digits_end(s, i + 1);
    }
}

/// A digit string writes a number at least as large as any of its prefixes.
pub proof fn lemma_decimal_prefix(s: Seq<char>, n: int)
    requires
        0 <= n <= s.len(),
    ensures
        decimal(s.take(n)) <= decimal(s),
    decreases s.len() - n,
{
    if n == s.len() {
        assert(s.take(n) =~= s);
    } else {
        lemma_decimal_prefix(s, n + 1);
        assert(s.take(n + 1).drop_last() =~= s.take(n));
    }
}

} // verus!
