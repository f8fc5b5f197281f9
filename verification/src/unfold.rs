//! Line unfolding: raw text to logical lines.
//!
//! A line break is CR LF or a bare LF. A break that is followed by a space
//! or a tab is a fold marker: the break and that one character are
//! removed, which joins the continuation to the line before. What is left
//! is split at its breaks, and empty lines at the end are dropped.
use vstd::prelude::*;
use crate::chars::{chars_of, string_of_range, texts};

verus! {

/// The length of the line break at `i`: 2 for CR LF, 1 for a bare LF, 0
/// where there is none.
pub open spec fn break_len(s: Seq<char>, i: int) -> int {
    if 0 <= i < s.len() && s[i] == '\n' {
        1
    } else if 0 <= i && i + 1 < s.len() && s[i] == '\r' && s[i + 1] == '\n' {
        2
    } else {
        0
    }
}

/// The length of the fold marker at `i`: a line break and the space or
/// tab after it; 0 where there is none.
pub open spec fn fold_len(s: Seq<char>, i: int) -> int {
    let b = break_len(s, i);
    if b > 0 && i + b < s.len() && (s[i + b] == ' ' || s[i + b] == '\t') {
        b + 1
    } else {
        0
    }
}

/// The text from `i` on, without its fold markers.
pub open spec fn unfolded_from(s: Seq<char>, i: int) -> Seq<char>
    decreases s.len() - i,
{
    if i < 0 || i >= s.len() {
        Seq::empty()
    } else if fold_len(s, i) > 0 {
        unfolded_from(s, i + fold_len(s, i))
    } else {
        seq![s[i]] + unfolded_from(s, i + 1)
    }
}

/// The text without its fold markers.
pub open spec fn unfolded(s: Seq<char>) -> Seq<char> {
    unfolded_from(s, 0)
}

/// The index of the first line break at or after `i`, or the length of
/// the text where there is none.
pub open spec fn line_end(s: Seq<char>, i: int) -> int
    decreases s.len() - i,
{
    if 0 <= i < s.len() && break_len(s, i) == 0 {
        line_end(s, i + 1)
    } else if i < s.len() {
        i
    } else {
        s.len() as int
    }
}

/// The lines of the text from `i` on: the pieces between line breaks. A
/// break at the very end opens no further line.
pub open spec fn lines_from(s: Seq<char>, i: int) -> Seq<Seq<char>>
    decreases s.len() - i,
{
    if 0 <= i < s.len() {
        let e = line_end(s, i);
        if i <= e <= s.len() && i < e + break_len(s, e) <= s.len() {
            seq![s.subrange(i, e)] + lines_from(s, e + break_len(s, e))
        } else {
            seq![s.subrange(i, e)]
        }
    } else {
        Seq::empty()
    }
}

/// The lines without the run of empty lines at their end.
pub open spec fn without_empty_tail(lines: Seq<Seq<char>>) -> Seq<Seq<char>>
    decreases lines.len(),
{
    if lines.len() > 0 && lines.last().len() == 0 {
        without_empty_tail(lines.drop_last())
    } else {
        lines
    }
}

/// The logical lines of a raw text.
pub open spec fn logical_lines(s: Seq<char>) -> Seq<Seq<char>> {
    without_empty_tail(lines_from(unfolded(s), 0))
}

/// Where a line ends: at a break, or at the end of the text, and not
/// before the place it was looked for from.
pub proof fn lemma_line_end(s: Seq<char>, i: int)
    requires
        0 <= i <= s.len(),
    ensures
        i <= line_end(s, i) <= s.len(),
        line_end(s, i) < s.len() ==> break_len(s, line_end(s, i)) > 0,
        forall|k: int| i <= k < line_end(s, i) ==> break_len(s, k) == 0,
    decreases s.len() - i,
{
    if i < s.len() && break_len(s, i) == 0 {
        lemma_line_end(s, i + 1);
    }
}

/// The length of the line break at `i`.
fn break_at(v: &[char], i: usize) -> (b: usize)
    requires
        i <= v@.len(),
    ensures
        b == break_len(v@, i as int),
        i + b <= v@.len(),
{
    if i < v.len() && v[i] == '\n' {
        1
    } else if i < v.len() && v.len() - i > 1 && v[i] == '\r' && v[i + 1] == '\n' {
        2
    } else {
        0
    }
}

/// The length of the fold marker at `i`.
fn fold_at(v: &[char], i: usize) -> (f: usize)
    requires
        i <= v@.len(),
    ensures
        f == fold_len(v@, i as int),
        i + f <= v@.len(),
{
    let n = v.len();
    let b = break_at(v, i);
    if b > 0 && i + b < n && (v[i + b] == ' ' || v[i + b] == '\t') {
        b + 1
    } else {
        0
    }
}

/// Removes the fold markers of a text.
pub fn remove_folds(v: &[char]) -> (out: Vec<char>)
    ensures
        out@ == unfolded(v@),
{
    let mut out: Vec<char> = Vec::new();
    let mut i: usize = 0;
    while i < v.len()
        invariant
            i <= v@.len(),
            out@ + unfolded_from(v@, i as int) == unfolded(v@),
        decreases v@.len() - i,
    {
        let f = fold_at(v, i);
        if f > 0 {
            i = i + f;
        } else {
            let ghost before = out@;
            out.push(v[i]);
            assert(out@ + unfolded_from(v@, i + 1) =~= before + unfolded_from(v@, i as int));
            i = i + 1;
        }
    }
    assert(out@ + unfolded_from(v@, i as int) =~= out@);
    out
}

/// Splits a text at its line breaks.
pub fn split_lines(v: &[char]) -> (lines: Vec<String>)
    ensures
        texts(lines@) == lines_from(v@, 0),
{
    let mut lines: Vec<String> = Vec::new();
    let mut i: usize = 0;
    assert(texts(lines@) =~= Seq::<Seq<char>>::empty());
    while i < v.len()
        invariant
            i <= v@.len(),
            texts(lines@) + lines_from(v@, i as int) == lines_from(v@, 0),
        decreases v@.len() - i,
    {
        let mut e: usize = i;
        while e < v.len() && break_at(v, e) == 0
            invariant
                i <= e <= v@.len(),
                line_end(v@, i as int) == line_end(v@, e as int),
            decreases v@.len() - e,
        {
            e = e + 1;
        }
        let b = break_at(v, e);
        let line = string_of_range(v, i, e);
        let ghost before = lines@;
        lines.push(line);
        proof {
            lemma_line_end(v@, i as int);
            assert(texts(lines@) =~= texts(before).push(v@.subrange(i as int, e as int)));
            if e + b > i {
                assert(texts(lines@) + lines_from(v@, e + b) =~= texts(before) + lines_from(
                    v@,
                    i as int,
                ));
            } else {
                assert(e == v@.len());
            }
        }
        i = e + b;
    }
    assert(texts(lines@) + lines_from(v@, i as int) =~= texts(lines@));
    lines
}

/// Drops the empty lines at the end.
pub fn drop_empty_tail(lines: &mut Vec<String>)
    ensures
        texts(final(lines)@) == without_empty_tail(texts(old(lines)@)),
{
    while lines.len() > 0 && lines[lines.len() - 1].as_str().unicode_len() == 0
        invariant
            without_empty_tail(texts(lines@)) == without_empty_tail(texts(old(lines)@)),
        decreases lines@.len(),
    {
        let ghost before = lines@;
        lines.pop();
        assert(texts(lines@) =~= texts(before).drop_last());
    }
}

/// Unfolds a raw text into its logical lines. Every text has lines: no
/// input is rejected.
pub fn unfold(raw: &str) -> (lines: Vec<String>)
    ensures
        texts(lines@) == logical_lines(raw@),
{
    let v = chars_of(raw);
    let u = remove_folds(v.as_slice());
    let mut lines = split_lines(u.as_slice());
    drop_empty_tail(&mut lines);
    lines
}

/// Whether no character of `s` at or after `i` is a line feed.
pub open spec fn no_line_feed_from(s: Seq<char>, i: int) -> bool {
    forall|k: int| i <= k < s.len() ==> #[trigger] s[k] != '\n'
}

/// A text without line feeds has no fold marker: unfolding leaves it as
/// it is.
pub proof fn lemma_unfolded_without_line_feed(s: Seq<char>, i: int)
    requires
        0 <= i <= s.len(),
        no_line_feed_from(s, i),
    ensures
        unfolded_from(s, i) == s.skip(i),
    decreases s.len() - i,
{
    if i < s.len() {
        assert(s[i] != '\n');
        if i + 1 < s.len() {
            assert(s[i + 1] != '\n');
        }
        lemma_unfolded_without_line_feed(s, i + 1);
        assert(seq![s[i]] + s.skip(i + 1) =~= s.skip(i));
    } else {
        assert(s.skip(i) =~= Seq::<char>::empty());
    }
}

/// A text without line feeds has no line break: it ends where it ends.
pub proof fn lemma_line_end_without_line_feed(s: Seq<char>, i: int)
    requires
        0 <= i <= s.len(),
        no_line_feed_from(s, i),
    ensures
        line_end(s, i) == s.len(),
    decreases s.len() - i,
{
    if i < s.len() {
        assert(s[i] != '\n');
        if i + 1 < s.len() {
            assert(s[i + 1] != '\n');
        }
        lemma_line_end_without_line_feed(s, i + 1);
    }
}

/// A text without line feeds is one logical line, or none where it is
/// empty.
pub proof fn lemma_one_line(s: Seq<char>)
    requires
        no_line_feed_from(s, 0),
    ensures
        logical_lines(s) == if s.len() > 0 {
            seq![s]
        } else {
            Seq::<Seq<char>>::empty()
        },
{
    lemma_unfolded_without_line_feed(s, 0);
    assert(s.skip(0) =~= s);
    lemma_line_end_without_line_feed(s, 0);
    if s.len() > 0 {
        assert(s.subrange(0, s.len() as int) =~= s);
        assert(lines_from(s, s.len() as int) =~= Seq::<Seq<char>>::empty());
        assert(break_len(s, s.len() as int) == 0);
        assert(lines_from(s, 0) =~= seq![s]);
        assert(seq![s].last() == s);
    }
}

/// Folding and unfolding: a line that is folded once, by a CR LF and a
/// space or a tab put between two parts of it, unfolds to the line that
/// was folded.
pub proof fn lemma_fold_then_unfold(head: Seq<char>, tail: Seq<char>, blank: char)
    requires
        no_line_feed_from(head, 0),
        no_line_feed_from(tail, 0),
        blank == ' ' || blank == '\t',
    ensures
        unfolded(head + seq!['\r', '\n', blank] + tail) == head + tail,
        logical_lines(head + seq!['\r', '\n', blank] + tail) == logical_lines(head + tail),
{
    let folded = head + seq!['\r', '\n', blank] + tail;
    let n = head.len() as int;
    assert(folded.len() == n + 3 + tail.len());
    assert(folded[n] == '\r' && folded[n + 1] == '\n' && folded[n + 2] == blank);
    assert forall|k: int| n + 3 <= k < folded.len() implies #[trigger] folded[k] != '\n' by {
        assert(folded[k] == tail[k - n - 3]);
    }
    lemma_unfolded_without_line_feed(folded, n + 3);
    assert(folded.skip(n + 3) =~= tail);
    assert(fold_len(folded, n) == 3);
    assert(unfolded_from(folded, n) == tail);
    assert(folded.take(n) =~= head);
    lemma_unfolded_head(folded, head, tail, 0);
    assert(head.skip(0) =~= head);
    let joined = head + tail;
    assert forall|k: int| 0 <= k < joined.len() implies #[trigger] joined[k] != '\n' by {
        if k < n {
            assert(joined[k] == head[k]);
        } else {
            assert(joined[k] == tail[k - n]);
        }
    }
    lemma_unfolded_without_line_feed(joined, 0);
    assert(joined.skip(0) =~= joined);
}

/// Before a fold marker that follows a part without line feeds, unfolding
/// copies that part.
proof fn lemma_unfolded_head(folded: Seq<char>, head: Seq<char>, tail: Seq<char>, i: int)
    requires
        0 <= i <= head.len(),
        no_line_feed_from(head, 0),
        folded.len() >= head.len() + 3,
        folded.take(head.len() as int) == head,
        folded[head.len() as int] == '\r',
        unfolded_from(folded, head.len() as int) == tail,
    ensures
        unfolded_from(folded, i) == head.skip(i) + tail,
    decreases head.len() - i,
{
    let n = head.len() as int;
    if i < n {
        assert(folded[i] == folded.take(n)[i]);
        assert(head[i] != '\n');
        if i + 1 < n {
            assert(folded[i + 1] == folded.take(n)[i + 1]);
            assert(head[i + 1] != '\n');
        }
        assert(fold_len(folded, i) == 0);
        lemma_unfolded_head(folded, head, tail, i + 1);
        assert(seq![folded[i]] + (head.skip(i + 1) + tail) =~= head.skip(i) + tail);
    } else {
        assert(head.skip(i) + tail =~= tail);
    }
}

} // verus!
