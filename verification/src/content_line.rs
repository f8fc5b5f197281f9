//! Content lines: one logical line, `NAME *(";" PARAM) ":" VALUE`, split
//! into its name, its parameters and its raw value.
//!
//! A parameter is `KEY "=" VALUE *("," VALUE)`. A parameter value is either
//! quoted, running from a `"` to the next `"`, or bare, running up to the
//! next `,`, `;`, `:` or `"`. In both a backslash takes the character
//! after it along, so that neither can end anything; the value is stored
//! decoded. The value of the line is everything after the colon that ends
//! the parameters, and is kept as it is written.
use vstd::prelude::*;
use crate::chars::{
    chars_of,
    is_name_char,
    is_name_character,
    push_char,
    string_of,
    string_of_range,
    texts,
    upper_seq,
    upper_string_of_range,
};
use crate::error::{Error, ErrorView};

verus! {

/// One parameter of a content line.
#[derive(Clone, Debug, PartialEq, Eq)]
pub struct Param {
    /// The key, as it is written.
    pub name: String,
    /// The values, decoded, in the order written. There is at least one.
    pub values: Vec<String>,
}

/// One logical line, split.
#[derive(Clone, Debug, PartialEq, Eq)]
pub struct ContentLine {
    /// The name, in upper case.
    pub name: String,
    /// The parameters, in the order written.
    pub params: Vec<Param>,
    /// The value, as it is written.
    pub value: String,
}

/// The mathematical value of a [`Param`].
pub struct ParamView {
    pub name: Seq<char>,
    pub values: Seq<Seq<char>>,
}

/// The mathematical value of a [`ContentLine`].
pub struct ContentLineView {
    pub name: Seq<char>,
    pub params: Seq<ParamView>,
    pub value: Seq<char>,
}

impl View for Param {
    type V = ParamView;

    open spec fn view(&self) -> ParamView {
        ParamView { name: self.name@, values: texts(self.values@) }
    }
}

/// The values of a sequence of parameters.
pub open spec fn param_views(v: Seq<Param>) -> Seq<ParamView> {
    Seq::new(v.len(), |i: int| v[i]@)
}

impl View for ContentLine {
    type V = ContentLineView;

    open spec fn view(&self) -> ContentLineView {
        ContentLineView {
            name: self.name@,
            params: param_views(self.params@),
            value: self.value@,
        }
    }
}

/// A character that a backslash stands before in an escape. In a
/// parameter value these include the quote and the colon.
pub open spec fn is_escapable(c: char, in_param: bool) -> bool {
    c == '\\' || c == ',' || c == ';' || c == 'n' || c == 'N' || (in_param && (c == '"' || c
        == ':'))
}

/// The character that the escape `\c` stands for.
pub open spec fn escaped(c: char) -> char {
    if c == 'n' || c == 'N' {
        '\n'
    } else {
        c
    }
}

/// The text from `i` on with its escapes decoded. A backslash before any
/// other character, or at the end, stays as it is.
pub open spec fn unescaped_from(s: Seq<char>, i: int, in_param: bool) -> Seq<char>
    decreases s.len() - i,
{
    if i < 0 || i >= s.len() {
        Seq::empty()
    } else if s[i] == '\\' && i + 1 < s.len() && is_escapable(s[i + 1], in_param) {
        seq![escaped(s[i + 1])] + unescaped_from(s, i + 2, in_param)
    } else {
        seq![s[i]] + unescaped_from(s, i + 1, in_param)
    }
}

/// The text with its escapes decoded.
pub open spec fn unescaped(s: Seq<char>, in_param: bool) -> Seq<char> {
    unescaped_from(s, 0, in_param)
}

/// The index at which the identifier token that starts at `i` ends.
pub open spec fn name_end(s: Seq<char>, i: int) -> int
    decreases s.len() - i,
{
    if 0 <= i < s.len() && is_name_char(s[i]) {
        name_end(s, i + 1)
    } else {
        i
    }
}

/// The index at which the bare parameter value that starts at `i` ends.
pub open spec fn bare_end(s: Seq<char>, i: int) -> int
    decreases s.len() - i,
{
    if i < 0 || i >= s.len() {
        s.len() as int
    } else if s[i] == ',' || s[i] == ';' || s[i] == ':' || s[i] == '"' {
        i
    } else if s[i] == '\\' {
        if i + 1 < s.len() {
            bare_end(s, i + 2)
        } else {
            s.len() as int
        }
    } else {
        bare_end(s, i + 1)
    }
}

/// The index of the quote that closes the quoted value whose content
/// starts at `i`, or the length of the text where nothing closes it.
pub open spec fn quoted_end(s: Seq<char>, i: int) -> int
    decreases s.len() - i,
{
    if i < 0 || i >= s.len() {
        s.len() as int
    } else if s[i] == '"' {
        i
    } else if s[i] == '\\' {
        if i + 1 < s.len() {
            quoted_end(s, i + 2)
        } else {
            s.len() as int
        }
    } else {
        quoted_end(s, i + 1)
    }
}

/// The parameter value at `i`, decoded, and the index after it.
pub open spec fn param_value_at(s: Seq<char>, i: int) -> Option<(Seq<char>, int)> {
    if 0 <= i < s.len() && s[i] == '"' {
        let q = quoted_end(s, i + 1);
        if q < s.len() {
            Some((unescaped(s.subrange(i + 1, q), true), q + 1))
        } else {
            None
        }
    } else {
        let e = bare_end(s, i);
        Some((unescaped(s.subrange(i, e), true), e))
    }
}

/// The list of parameter values at `i`, separated by commas, and the
/// index after it.
pub open spec fn param_values_at(s: Seq<char>, i: int) -> Option<(Seq<Seq<char>>, int)>
    decreases s.len() - i,
{
    match param_value_at(s, i) {
        None => None,
        Some((value, j)) => if i <= j < s.len() && s[j] == ',' {
            match param_values_at(s, j + 1) {
                None => None,
                Some((rest, k)) => Some((seq![value] + rest, k)),
            }
        } else {
            Some((seq![value], j))
        },
    }
}

/// The parameter whose semicolon is at `i`, and the index after it.
pub open spec fn param_at(s: Seq<char>, i: int) -> Option<(ParamView, int)> {
    let n = name_end(s, i + 1);
    if i + 1 < n < s.len() && s[n] == '=' {
        match param_values_at(s, n + 1) {
            None => None,
            Some((values, j)) => Some((ParamView { name: s.subrange(i + 1, n), values }, j)),
        }
    } else {
        None
    }
}

/// The parameters at `i`, each behind its semicolon, and the index after
/// them.
pub open spec fn params_at(s: Seq<char>, i: int) -> Option<(Seq<ParamView>, int)>
    decreases s.len() - i,
{
    if 0 <= i < s.len() && s[i] == ';' {
        match param_at(s, i) {
            None => None,
            Some((param, j)) => if i < j <= s.len() {
                match params_at(s, j) {
                    None => None,
                    Some((rest, k)) => Some((seq![param] + rest, k)),
                }
            } else {
                None
            },
        }
    } else {
        Some((Seq::empty(), i))
    }
}

/// The content line that a logical line writes, if it writes one.
pub open spec fn line_of(s: Seq<char>) -> Option<ContentLineView> {
    let n = name_end(s, 0);
    if n == 0 {
        None
    } else {
        match params_at(s, n) {
            None => None,
            Some((params, j)) => if 0 <= j < s.len() && s[j] == ':' {
                Some(
                    ContentLineView {
                        name: upper_seq(s.subrange(0, n)),
                        params,
                        value: s.subrange(j + 1, s.len() as int),
                    },
                )
            } else {
                None
            },
        }
    }
}

/// What parsing `s` as a content line gives.
pub open spec fn parsed_line(s: Seq<char>) -> Result<ContentLineView, ErrorView> {
    match line_of(s) {
        Some(line) => Ok(line),
        None => Err(ErrorView::MalformedContentLine(s)),
    }
}

/// `acc` put before the list that `r` holds.
pub open spec fn prepended<T>(acc: Seq<T>, r: Option<(Seq<T>, int)>) -> Option<(Seq<T>, int)> {
    match r {
        None => None,
        Some((rest, k)) => Some((acc + rest, k)),
    }
}

/// Decodes the escapes of `v[from..to]`.
pub fn unescape_range(v: &[char], from: usize, to: usize, in_param: bool) -> (out: String)
    requires
        from <= to <= v@.len(),
    ensures
        out@ == unescaped(v@.subrange(from as int, to as int), in_param),
{
    let ghost sub = v@.subrange(from as int, to as int);
    let mut out = String::new();
    let mut i: usize = from;
    while i < to
        invariant
            from <= i <= to <= v@.len(),
            sub == v@.subrange(from as int, to as int),
            out@ + unescaped_from(sub, i - from, in_param) == unescaped(sub, in_param),
        decreases to - i,
    {
        let ghost before = out@;
        let c = v[i];
        assert(sub[i - from] == c);
        if c == '\\' && to - i > 1 {
            let d = v[i + 1];
            assert(sub[i - from + 1] == d);
            let escapable = d == '\\' || d == ',' || d == ';' || d == 'n' || d == 'N' || (in_param
                && (d == '"' || d == ':'));
            if escapable {
                let e = if d == 'n' || d == 'N' { '\n' } else { d };
                push_char(&mut out, e);
                assert(out@ + unescaped_from(sub, i - from + 2, in_param) =~= before
                    + unescaped_from(sub, i - from, in_param));
                i = i + 2;
                continue ;
            }
        }
        push_char(&mut out, c);
        assert(out@ + unescaped_from(sub, i - from + 1, in_param) =~= before + unescaped_from(
            sub,
            i - from,
            in_param,
        ));
        i = i + 1;
    }
    assert(out@ + unescaped_from(sub, i - from, in_param) =~= out@);
    out
}

/// Decodes the escapes of a text value: `\\`, `\,`, `\;`, and `\n` or `\N`
/// for a line feed.
pub fn unescape(s: &str) -> (out: String)
    ensures
        out@ == unescaped(s@, false),
{
    let v = chars_of(s);
    assert(v@.subrange(0, v@.len() as int) =~= v@);
    unescape_range(v.as_slice(), 0, v.len(), false)
}

/// The end of the identifier token that starts at `from`.
fn scan_name(v: &[char], from: usize) -> (end: usize)
    requires
        from <= v@.len(),
    ensures
        end == name_end(v@, from as int),
        from <= end <= v@.len(),
{
    let mut i: usize = from;
    while i < v.len() && is_name_character(v[i])
        invariant
            from <= i <= v@.len(),
            name_end(v@, from as int) == name_end(v@, i as int),
        decreases v@.len() - i,
    {
        i += 1;
    }
    i
}

/// The end of the bare parameter value that starts at `from`.
fn scan_bare(v: &[char], from: usize) -> (end: usize)
    requires
        from <= v@.len(),
    ensures
        end == bare_end(v@, from as int),
        from <= end <= v@.len(),
{
    let n = v.len();
    let mut i: usize = from;
    while i < n
        invariant
            from <= i <= n,
            n == v@.len(),
            bare_end(v@, from as int) == bare_end(v@, i as int),
        decreases n - i,
    {
        let c = v[i];
        if c == ',' || c == ';' || c == ':' || c == '"' {
            return i;
        }
        if c == '\\' {
            if n - i < 2 {
                return n;
            }
            i = i + 2;
        } else {
            i = i + 1;
        }
    }
    i
}

/// The quote that closes the quoted value whose content starts at `from`.
fn scan_quoted(v: &[char], from: usize) -> (end: usize)
    requires
        from <= v@.len(),
    ensures
        end == quoted_end(v@, from as int),
        from <= end <= v@.len(),
{
    let n = v.len();
    let mut i: usize = from;
    while i < n
        invariant
            from <= i <= n,
            n == v@.len(),
            quoted_end(v@, from as int) == quoted_end(v@, i as int),
        decreases n - i,
    {
        let c = v[i];
        if c == '"' {
            return i;
        }
        if c == '\\' {
            if n - i < 2 {
                return n;
            }
            i = i + 2;
        } else {
            i = i + 1;
        }
    }
    i
}

/// A parsed value and the index after it, as the grammar states them.
pub open spec fn value_outcome(r: Option<(String, usize)>) -> Option<(Seq<char>, int)> {
    match r {
        Some((value, j)) => Some((value@, j as int)),
        None => None,
    }
}

/// A parsed list of values and the index after it, as the grammar states them.
pub open spec fn values_outcome(r: Option<(Vec<String>, usize)>) -> Option<(Seq<Seq<char>>, int)> {
    match r {
        Some((values, j)) => Some((texts(values@), j as int)),
        None => None,
    }
}

/// A parsed parameter and the index after it, as the grammar states them.
pub open spec fn param_outcome(r: Option<(Param, usize)>) -> Option<(ParamView, int)> {
    match r {
        Some((param, j)) => Some((param@, j as int)),
        None => None,
    }
}

/// A parsed list of parameters and the index after it, as the grammar states them.
pub open spec fn params_outcome(r: Option<(Vec<Param>, usize)>) -> Option<(Seq<ParamView>, int)> {
    match r {
        Some((params, j)) => Some((param_views(params@), j as int)),
        None => None,
    }
}

/// Reads one parameter value at `i`.
fn param_value(v: &[char], i: usize) -> (r: Option<(String, usize)>)
    requires
        i <= v@.len(),
    ensures
        value_outcome(r) == param_value_at(v@, i as int),
        r matches Some((_, j)) ==> i <= j <= v@.len(),
{
    if i < v.len() && v[i] == '"' {
        let q = scan_quoted(v, i + 1);
        if q < v.len() {
            Some((unescape_range(v, i + 1, q, true), q + 1))
        } else {
            None
        }
    } else {
        let e = scan_bare(v, i);
        Some((unescape_range(v, i, e, true), e))
    }
}

/// Reads the list of parameter values at `start`.
fn param_values(v: &[char], start: usize) -> (r: Option<(Vec<String>, usize)>)
    requires
        start <= v@.len(),
    ensures
        values_outcome(r) == param_values_at(v@, start as int),
        r matches Some((_, j)) ==> start <= j <= v@.len(),
{
    let mut values: Vec<String> = Vec::new();
    let mut i: usize = start;
    assert(texts(values@) =~= Seq::<Seq<char>>::empty());
    loop
        invariant
            start <= i <= v@.len(),
            param_values_at(v@, start as int) == prepended(
                texts(values@),
                param_values_at(v@, i as int),
            ),
        decreases v@.len() - i,
    {
        match param_value(v, i) {
            None => {
                return None;
            },
            Some((value, j)) => {
                let ghost before = values@;
                let ghost text = value@;
                values.push(value);
                assert(texts(values@) =~= texts(before) + seq![text]);
                if j < v.len() && v[j] == ',' {
                    proof {
                        match param_values_at(v@, j + 1) {
                            Some((rest, _)) => {
                                assert(texts(values@) + rest =~= texts(before) + (seq![text]
                                    + rest));
                            },
                            None => {},
                        }
                    }
                    i = j + 1;
                } else {
                    return Some((values, j));
                }
            },
        }
    }
}

/// Reads the parameter whose semicolon is at `i`.
fn param(v: &[char], i: usize) -> (r: Option<(Param, usize)>)
    requires
        i < v@.len(),
    ensures
        param_outcome(r) == param_at(v@, i as int),
        r matches Some((_, j)) ==> i < j <= v@.len(),
{
    let len = v.len();
    let n = scan_name(v, i + 1);
    if i + 1 < n && n < len && v[n] == '=' {
        match param_values(v, n + 1) {
            None => None,
            Some((values, j)) => Some((Param { name: string_of_range(v, i + 1, n), values }, j)),
        }
    } else {
        None
    }
}

/// Reads the parameters at `start`.
fn params(v: &[char], start: usize) -> (r: Option<(Vec<Param>, usize)>)
    requires
        start <= v@.len(),
    ensures
        params_outcome(r) == params_at(v@, start as int),
        r matches Some((_, j)) ==> start <= j <= v@.len(),
{
    let mut list: Vec<Param> = Vec::new();
    let mut i: usize = start;
    assert(param_views(list@) =~= Seq::<ParamView>::empty());
    while i < v.len() && v[i] == ';'
        invariant
            start <= i <= v@.len(),
            params_at(v@, start as int) == prepended(param_views(list@), params_at(v@, i as int)),
        decreases v@.len() - i,
    {
        match param(v, i) {
            None => {
                return None;
            },
            Some((p, j)) => {
                let ghost before = list@;
                let ghost view = p@;
                list.push(p);
                proof {
                    assert(param_views(list@) =~= param_views(before) + seq![view]);
                    match params_at(v@, j as int) {
                        Some((rest, _)) => {
                            assert(param_views(list@) + rest =~= param_views(before) + (seq![view]
                                + rest));
                        },
                        None => {},
                    }
                }
                i = j;
            },
        }
    }
    assert(param_views(list@) + Seq::<ParamView>::empty() =~= param_views(list@));
    Some((list, i))
}

/// A result seen through the views of its value and of its error.
pub open spec fn outcome<T: View>(r: Result<T, Error>) -> Result<T::V, ErrorView> {
    match r {
        Ok(v) => Ok(v@),
        Err(e) => Err(e@),
    }
}

/// Parses one logical line into its name, parameters and raw value.
pub fn content_line(line: &str) -> (r: Result<ContentLine, Error>)
    ensures
        outcome(r) == parsed_line(line@),
{
    let v = chars_of(line);
    content_line_of_chars(v.as_slice())
}

/// As [`content_line`], on characters.
pub fn content_line_of_chars(v: &[char]) -> (r: Result<ContentLine, Error>)
    ensures
        outcome(r) == parsed_line(v@),
{
    let n = scan_name(v, 0);
    if n == 0 {
        return Err(Error::MalformedContentLine(string_of(v)));
    }
    match params(v, n) {
        None => Err(Error::MalformedContentLine(string_of(v))),
        Some((list, j)) => {
            if j < v.len() && v[j] == ':' {
                Ok(
                    ContentLine {
                        name: upper_string_of_range(v, 0, n),
                        params: list,
                        value: string_of_range(v, j + 1, v.len()),
                    },
                )
            } else {
                Err(Error::MalformedContentLine(string_of(v)))
            }
        },
    }
}

/// An identifier token runs to the first character that cannot stand in
/// one.
pub proof fn lemma_name_end(s: Seq<char>, i: int, n: int)
    requires
        0 <= i <= n <= s.len(),
        forall|k: int| i <= k < n ==> is_name_char(#[trigger] s[k]),
        n < s.len() ==> !is_name_char(s[n]),
    ensures
        name_end(s, i) == n,
    decreases n - i,
{
    if i < n {
        assert(is_name_char(s[i]));
        lemma_name_end(s, i + 1, n);
    }
}

/// A name, a colon and a value make the line of that name, in upper case,
/// without parameters and with that value, whatever the value holds.
pub proof fn lemma_plain_line(name: Seq<char>, value: Seq<char>)
    requires
        name.len() > 0,
        forall|k: int| 0 <= k < name.len() ==> is_name_char(#[trigger] name[k]),
    ensures
        parsed_line(name + seq![':'] + value) == Ok::<ContentLineView, ErrorView>(
            ContentLineView { name: upper_seq(name), params: Seq::empty(), value },
        ),
{
    let s = name + seq![':'] + value;
    let n = name.len() as int;
    assert(s[n] == ':');
    assert forall|k: int| 0 <= k < n implies is_name_char(#[trigger] s[k]) by {
        assert(s[k] == name[k]);
    }
    lemma_name_end(s, 0, n);
    assert(s.subrange(0, n) =~= name);
    assert(s.subrange(n + 1, s.len() as int) =~= value);
}

} // verus!
