//! Components: reading the lines of a component block, and the typed
//! components that are assembled from them.
use vstd::prelude::*;
use vstd::pervasive::unreached;
use crate::assembler::{
    field_possible,
    line_views,
    Cardinality,
    EntryView,
    Field,
    FieldShape,
};
use crate::chars::{chars_of, is_literal, texts};
use crate::assembler::PropertyBag;
use crate::content_line::{content_line, param_views, parsed_line, ContentLine, ContentLineView, Param};
use crate::datetime::DateTime;
use crate::duration::Duration;
use crate::error::{Error, ErrorView};
use crate::geo::Geo;
use crate::recur::Recur;
use crate::status::{Class, Status, TimeTransparency};
use crate::unfold::{logical_lines, unfold};
use crate::value::{all_possible, has_kind, lemma_value_has_kind, value_possible, Value, ValueKind};

pub mod vcalendar;
pub mod vevent;
pub mod vjournal;
pub mod vtimezone;

verus! {

/// What parsing every logical line gives: the content lines in order, or
/// the error of the first line that is malformed.
pub open spec fn parsed_lines(lines: Seq<Seq<char>>) -> Result<Seq<ContentLineView>, ErrorView>
    decreases lines.len(),
{
    if lines.len() == 0 {
        Ok(Seq::empty())
    } else {
        match parsed_lines(lines.drop_last()) {
            Err(e) => Err(e),
            Ok(done) => match parsed_line(lines.last()) {
                Ok(line) => Ok(done.push(line)),
                Err(e) => Err(e),
            },
        }
    }
}

/// Once a line is malformed, the lines after it change nothing.
pub proof fn lemma_first_malformed_decides(lines: Seq<Seq<char>>, n: int)
    requires
        0 <= n <= lines.len(),
        parsed_lines(lines.take(n)) is Err,
    ensures
        parsed_lines(lines) == parsed_lines(lines.take(n)),
    decreases lines.len() - n,
{
    if n == lines.len() {
        assert(lines.take(n) =~= lines);
    } else {
        assert(lines.take(n + 1).drop_last() =~= lines.take(n));
        lemma_first_malformed_decides(lines, n + 1);
    }
}

/// The outcome of reading lines, seen through its views.
pub open spec fn lines_outcome(r: Result<Vec<ContentLine>, Error>) -> Result<
    Seq<ContentLineView>,
    ErrorView,
> {
    match r {
        Ok(lines) => Ok(line_views(lines@)),
        Err(e) => Err(e@),
    }
}

/// Unfolds a raw text and parses each of its logical lines.
pub fn content_lines(raw: &str) -> (r: Result<Vec<ContentLine>, Error>)
    ensures
        lines_outcome(r) == parsed_lines(logical_lines(raw@)),
{
    let logical = unfold(raw);
    let ghost t = texts(logical@);
    let mut lines: Vec<ContentLine> = Vec::new();
    let mut i: usize = 0;
    assert(t.take(0) =~= Seq::<Seq<char>>::empty());
    assert(line_views(lines@) =~= Seq::<ContentLineView>::empty());
    while i < logical.len()
        invariant
            i <= logical@.len(),
            t == texts(logical@),
            t == logical_lines(raw@),
            parsed_lines(t.take(i as int)) == Ok::<Seq<ContentLineView>, ErrorView>(
                line_views(lines@),
            ),
        decreases logical@.len() - i,
    {
        assert(t.take(i + 1).drop_last() =~= t.take(i as int));
        assert(t.take(i + 1).last() == logical@[i as int]@);
        let ghost before = lines@;
        match content_line(logical[i].as_str()) {
            Ok(line) => {
                lines.push(line);
                assert(line_views(lines@) =~= line_views(before).push(line@));
            },
            Err(e) => {
                proof {
                    lemma_first_malformed_decides(t, i + 1);
                }
                return Err(e);
            },
        }
        i += 1;
    }
    assert(t.take(i as int) =~= t);
    Ok(lines)
}

/// Whether a line is the marker `name:tag`, such as `BEGIN:VEVENT`.
pub open spec fn is_marker(line: ContentLineView, name: Seq<char>, tag: Seq<char>) -> bool {
    line.name == name && line.value == tag
}

/// The lines between `BEGIN:tag` and `END:tag`, where the lines are framed
/// by the two; else the tag that was found in place of `tag`: that of the
/// first line where it is not `BEGIN:tag`, that of the last line
/// otherwise, and the empty text where there is no line.
pub open spec fn block_body(lines: Seq<ContentLineView>, tag: Seq<char>) -> Result<
    Seq<ContentLineView>,
    ErrorView,
> {
    if lines.len() == 0 {
        Err(ErrorView::UnsupportedComponentType(Seq::empty()))
    } else if !is_marker(lines[0], "BEGIN"@, tag) {
        Err(ErrorView::UnsupportedComponentType(lines[0].value))
    } else if lines.len() < 2 || !is_marker(lines.last(), "END"@, tag) {
        Err(ErrorView::UnsupportedComponentType(lines.last().value))
    } else {
        Ok(lines.subrange(1, lines.len() - 1))
    }
}

/// Whether a line is the marker `name:tag`.
pub fn marks(line: &ContentLine, name: &str, tag: &str) -> (b: bool)
    ensures
        b == is_marker(line@, name@, tag@),
{
    let n = chars_of(line.name.as_str());
    let v = chars_of(line.value.as_str());
    is_literal(n.as_slice(), name) && is_literal(v.as_slice(), tag)
}

/// Takes the lines between `BEGIN:tag` and `END:tag`.
pub fn body_of(lines: Vec<ContentLine>, tag: &str) -> (r: Result<Vec<ContentLine>, Error>)
    ensures
        lines_outcome(r) == block_body(line_views(lines@), tag@),
{
    let mut lines = lines;
    let ghost all = lines@;
    let n = lines.len();
    if n == 0 {
        return Err(Error::UnsupportedComponentType(String::new()));
    }
    if !marks(&lines[0], "BEGIN", tag) {
        return Err(Error::UnsupportedComponentType(lines[0].value.clone()));
    }
    if n < 2 || !marks(&lines[n - 1], "END", tag) {
        return Err(Error::UnsupportedComponentType(lines[n - 1].value.clone()));
    }
    lines.pop();
    lines.remove(0);
    assert(line_views(lines@) =~= line_views(all).subrange(1, all.len() - 1));
    Ok(lines)
}

/// The entry that declares `name` with a cardinality and a kind.
pub open spec fn entry(name: Seq<char>, cardinality: Cardinality, kind: ValueKind) -> EntryView {
    EntryView { name, cardinality, kind }
}

/// The shapes of a sequence of fields.
pub open spec fn shapes(fields: Seq<Field>) -> Seq<FieldShape> {
    Seq::new(fields.len(), |i: int| fields[i].shape())
}

/// `fields` are possible fields of `lines` under `schema`, one for each
/// entry.
pub open spec fn fields_possible(
    lines: Seq<ContentLineView>,
    schema: Seq<EntryView>,
    fields: Seq<FieldShape>,
) -> bool {
    &&& fields.len() == schema.len()
    &&& forall|i: int|
        0 <= i < schema.len() ==> #[trigger] field_possible(lines, schema[i], Ok(fields[i]))
}

/// What reading the block `tag` from a raw text gives: the lines between
/// its markers, or the error of the first malformed line or of the frame.
pub open spec fn block_of(raw: Seq<char>, tag: Seq<char>) -> Result<
    Seq<ContentLineView>,
    ErrorView,
> {
    match parsed_lines(logical_lines(raw)) {
        Err(e) => Err(e),
        Ok(lines) => block_body(lines, tag),
    }
}

/// Reads the block `tag` from a raw text: unfolds it, parses its lines and
/// takes those between `BEGIN:tag` and `END:tag`.
pub fn read_block(raw: &str, tag: &str) -> (r: Result<Vec<ContentLine>, Error>)
    ensures
        lines_outcome(r) == block_of(raw@, tag@),
{
    match content_lines(raw) {
        Ok(lines) => body_of(lines, tag),
        Err(e) => Err(e),
    }
}

/// A block nested in a component: its tag and its lines.
#[derive(Clone, Debug, PartialEq, Eq)]
pub struct Block {
    pub tag: String,
    pub bag: PropertyBag,
}

/// The mathematical value of a [`Block`].
pub struct BlockView {
    pub tag: Seq<char>,
    pub lines: Seq<ContentLineView>,
}

impl View for Block {
    type V = BlockView;

    open spec fn view(&self) -> BlockView {
        BlockView { tag: self.tag@, lines: line_views(self.bag.lines@) }
    }
}

/// The values of a sequence of blocks.
pub open spec fn block_views(blocks: Seq<Block>) -> Seq<BlockView> {
    Seq::new(blocks.len(), |i: int| blocks[i]@)
}

/// The lines of a component, parted into its own lines and the blocks
/// nested in it.
pub struct Nested {
    pub own: Seq<ContentLineView>,
    pub blocks: Seq<BlockView>,
}

/// The index of the first line at or after `i` that is the marker
/// `END:tag`, or the number of lines where there is none.
pub open spec fn end_from(lines: Seq<ContentLineView>, i: int, tag: Seq<char>) -> int
    decreases lines.len() - i,
{
    if 0 <= i < lines.len() && !is_marker(lines[i], "END"@, tag) {
        end_from(lines, i + 1, tag)
    } else if i < lines.len() {
        i
    } else {
        lines.len() as int
    }
}

/// `own` and `blocks` put before what `r` holds.
pub open spec fn joined(
    own: Seq<ContentLineView>,
    blocks: Seq<BlockView>,
    r: Result<Nested, ErrorView>,
) -> Result<Nested, ErrorView> {
    match r {
        Err(e) => Err(e),
        Ok(rest) => Ok(Nested { own: own + rest.own, blocks: blocks + rest.blocks }),
    }
}

/// The lines from `i` on, parted. A line named `BEGIN` opens a block that
/// runs to the next `END` line with the same tag; a block that is not
/// closed is rejected with its tag. Every other line is the component's
/// own.
pub open spec fn nested_from(lines: Seq<ContentLineView>, i: int) -> Result<Nested, ErrorView>
    decreases lines.len() - i,
{
    if i < 0 || i >= lines.len() {
        Ok(Nested { own: Seq::empty(), blocks: Seq::empty() })
    } else if lines[i].name == "BEGIN"@ {
        let tag = lines[i].value;
        let e = end_from(lines, i + 1, tag);
        if i < e < lines.len() {
            joined(
                Seq::empty(),
                seq![BlockView { tag, lines: lines.subrange(i + 1, e) }],
                nested_from(lines, e + 1),
            )
        } else {
            Err(ErrorView::UnsupportedComponentType(tag))
        }
    } else {
        joined(seq![lines[i]], Seq::empty(), nested_from(lines, i + 1))
    }
}

/// The lines of a component, parted into its own lines and the blocks
/// nested in it.
pub open spec fn nested(lines: Seq<ContentLineView>) -> Result<Nested, ErrorView> {
    nested_from(lines, 0)
}

/// A copy of a list of strings.
pub fn copy_strings(list: &Vec<String>) -> (out: Vec<String>)
    ensures
        texts(out@) == texts(list@),
{
    let mut out: Vec<String> = Vec::new();
    let mut i: usize = 0;
    while i < list.len()
        invariant
            i <= list@.len(),
            out@.len() == i,
            forall|k: int| 0 <= k < i ==> (#[trigger] out@[k])@ == list@[k]@,
        decreases list@.len() - i,
    {
        out.push(list[i].clone());
        i += 1;
    }
    assert(texts(out@) =~= texts(list@));
    out
}

/// A copy of a content line.
pub fn copy_line(line: &ContentLine) -> (out: ContentLine)
    ensures
        out@ == line@,
{
    let mut params: Vec<Param> = Vec::new();
    let mut i: usize = 0;
    while i < line.params.len()
        invariant
            i <= line.params@.len(),
            params@.len() == i,
            forall|k: int| 0 <= k < i ==> (#[trigger] params@[k])@ == line.params@[k]@,
        decreases line.params@.len() - i,
    {
        let p = &line.params[i];
        params.push(Param { name: p.name.clone(), values: copy_strings(&p.values) });
        i += 1;
    }
    assert(param_views(params@) =~= param_views(line.params@));
    ContentLine { name: line.name.clone(), params, value: line.value.clone() }
}

/// A copy of the lines `lines[from..to]`.
pub fn copy_lines(lines: &Vec<ContentLine>, from: usize, to: usize) -> (out: Vec<ContentLine>)
    requires
        from <= to <= lines@.len(),
    ensures
        line_views(out@) == line_views(lines@).subrange(from as int, to as int),
{
    let mut out: Vec<ContentLine> = Vec::new();
    let mut i: usize = from;
    while i < to
        invariant
            from <= i <= to <= lines@.len(),
            out@.len() == i - from,
            forall|k: int| 0 <= k < i - from ==> (#[trigger] out@[k])@ == lines@[from + k]@,
        decreases to - i,
    {
        out.push(copy_line(&lines[i]));
        i += 1;
    }
    assert(line_views(out@) =~= line_views(lines@).subrange(from as int, to as int));
    out
}

/// What reading the block `tag` from a raw text and parting its lines
/// gives.
pub open spec fn parts_of(raw: Seq<char>, tag: Seq<char>) -> Result<Nested, ErrorView> {
    match block_of(raw, tag) {
        Err(e) => Err(e),
        Ok(lines) => nested(lines),
    }
}

/// What parting gives, seen through its views.
pub open spec fn nested_outcome(r: Result<(Vec<ContentLine>, Vec<Block>), Error>) -> Result<
    Nested,
    ErrorView,
> {
    match r {
        Ok((own, blocks)) => Ok(Nested { own: line_views(own@), blocks: block_views(blocks@) }),
        Err(e) => Err(e@),
    }
}

/// Parts the lines of a component into its own lines and the blocks
/// nested in it.
pub fn split_nested(lines: &Vec<ContentLine>) -> (r: Result<(Vec<ContentLine>, Vec<Block>), Error>)
    ensures
        nested_outcome(r) == nested(line_views(lines@)),
{
    let ghost views = line_views(lines@);
    let n = lines.len();
    let mut own: Vec<ContentLine> = Vec::new();
    let mut blocks: Vec<Block> = Vec::new();
    let mut i: usize = 0;
    proof {
        assert(line_views(own@) =~= Seq::<ContentLineView>::empty());
        assert(block_views(blocks@) =~= Seq::<BlockView>::empty());
        lemma_joined_empty(nested_from(views, 0));
    }
    while i < n
        invariant
            i <= n,
            n == lines@.len(),
            views == line_views(lines@),
            nested(views) == joined(
                line_views(own@),
                block_views(blocks@),
                nested_from(views, i as int),
            ),
        decreases n - i,
    {
        let ghost own_before = line_views(own@);
        let ghost blocks_before = block_views(blocks@);
        let name = chars_of(lines[i].name.as_str());
        assert(views[i as int] == lines@[i as int]@);
        if is_literal(name.as_slice(), "BEGIN") {
            let mut e: usize = i + 1;
            while e < n && !marks(&lines[e], "END", lines[i].value.as_str())
                invariant
                    i < e <= n,
                    n == lines@.len(),
                    views == line_views(lines@),
                    end_from(views, i + 1, lines@[i as int].value@) == end_from(
                        views,
                        e as int,
                        lines@[i as int].value@,
                    ),
                decreases n - e,
            {
                assert(views[e as int] == lines@[e as int]@);
                e += 1;
            }
            if e >= n {
                return Err(Error::UnsupportedComponentType(lines[i].value.clone()));
            }
            assert(views[e as int] == lines@[e as int]@);
            let block = Block {
                tag: lines[i].value.clone(),
                bag: PropertyBag::new(copy_lines(lines, i + 1, e)),
            };
            let ghost view = block@;
            blocks.push(block);
            proof {
                assert(block_views(blocks@) =~= blocks_before + seq![view]);
                lemma_joined_twice(
                    own_before,
                    blocks_before,
                    Seq::empty(),
                    seq![view],
                    nested_from(views, e + 1),
                );
            }
            i = e + 1;
        } else {
            let line = copy_line(&lines[i]);
            own.push(line);
            proof {
                assert(line_views(own@) =~= own_before + seq![views[i as int]]);
                lemma_joined_twice(
                    own_before,
                    blocks_before,
                    seq![views[i as int]],
                    Seq::empty(),
                    nested_from(views, i + 1),
                );
            }
            i = i + 1;
        }
    }
    proof {
        lemma_joined_done(line_views(own@), block_views(blocks@));
    }
    Ok((own, blocks))
}

/// Reads the block `tag` from a raw text and parts its lines into its
/// own lines and the blocks nested in it.
pub fn read_parts(raw: &str, tag: &str) -> (r: Result<(Vec<ContentLine>, Vec<Block>), Error>)
    ensures
        nested_outcome(r) == parts_of(raw@, tag@),
{
    match read_block(raw, tag) {
        Ok(lines) => split_nested(&lines),
        Err(e) => Err(e),
    }
}

/// Putting nothing before a result changes nothing.
pub proof fn lemma_joined_empty(r: Result<Nested, ErrorView>)
    ensures
        joined(Seq::empty(), Seq::empty(), r) == r,
{
    match r {
        Ok(rest) => {
            assert(Seq::<ContentLineView>::empty() + rest.own =~= rest.own);
            assert(Seq::<BlockView>::empty() + rest.blocks =~= rest.blocks);
        },
        Err(_) => {},
    }
}

/// Putting two parts before a result, one after the other, is putting
/// both before it at once.
pub proof fn lemma_joined_twice(
    own: Seq<ContentLineView>,
    blocks: Seq<BlockView>,
    more_own: Seq<ContentLineView>,
    more_blocks: Seq<BlockView>,
    r: Result<Nested, ErrorView>,
)
    ensures
        joined(own, blocks, joined(more_own, more_blocks, r)) == joined(
            own + more_own,
            blocks + more_blocks,
            r,
        ),
{
    match r {
        Ok(rest) => {
            assert(own + (more_own + rest.own) =~= (own + more_own) + rest.own);
            assert(blocks + (more_blocks + rest.blocks) =~= (blocks + more_blocks) + rest.blocks);
        },
        Err(_) => {},
    }
}

/// Putting parts before the empty result gives the parts.
pub proof fn lemma_joined_done(own: Seq<ContentLineView>, blocks: Seq<BlockView>)
    ensures
        joined(own, blocks, Ok(Nested { own: Seq::empty(), blocks: Seq::empty() })) == Ok::<
            Nested,
            ErrorView,
        >(Nested { own, blocks }),
{
    assert(own + Seq::<ContentLineView>::empty() =~= own);
    assert(blocks + Seq::<BlockView>::empty() =~= blocks);
}

/// Whether a field has the shape of its cardinality, with values of the
/// variant of its kind.
pub open spec fn fits(shape: FieldShape, cardinality: Cardinality, kind: ValueKind) -> bool {
    match cardinality {
        Cardinality::Required => shape matches FieldShape::One(v) && has_kind(v, kind),
        Cardinality::Optional => shape matches FieldShape::Maybe(o) && (o matches Some(v)
            ==> has_kind(v, kind)),
        Cardinality::Repeated => shape matches FieldShape::Many(list) && forall|i: int|
            0 <= i < list.len() ==> has_kind(#[trigger] list[i], kind),
        Cardinality::RepeatedFlat => shape matches FieldShape::Many(list) && forall|i: int|
            0 <= i < list.len() ==> has_kind(#[trigger] list[i], kind),
    }
}

/// A list that parsing gives holds values of the variant of its kind.
pub proof fn lemma_list_has_kind(kind: ValueKind, list: Seq<Seq<char>>, values: Seq<Value>)
    requires
        all_possible(kind, list, Ok(values)),
    ensures
        forall|i: int| 0 <= i < values.len() ==> has_kind(#[trigger] values[i], kind),
{
    assert forall|i: int| 0 <= i < values.len() implies has_kind(#[trigger] values[i], kind) by {
        assert(value_possible(kind, list[i], Ok(values[i])));
        lemma_value_has_kind(kind, list[i], values[i]);
    }
}

/// A field that assembly gives has the shape that its entry declares.
pub proof fn lemma_field_fits(lines: Seq<ContentLineView>, entry: EntryView, shape: FieldShape)
    requires
        field_possible(lines, entry, Ok(shape)),
    ensures
        fits(shape, entry.cardinality, entry.kind),
{
    let values = crate::assembler::values_named(lines, entry.name);
    match entry.cardinality {
        Cardinality::Required => {
            if let FieldShape::One(v) = shape {
                lemma_value_has_kind(entry.kind, values.last(), v);
            }
        },
        Cardinality::Optional => {
            if let FieldShape::Maybe(Some(v)) = shape {
                lemma_value_has_kind(entry.kind, values.last(), v);
            }
        },
        Cardinality::Repeated => {
            if let FieldShape::Many(list) = shape {
                lemma_list_has_kind(entry.kind, values, list);
            }
        },
        Cardinality::RepeatedFlat => {
            if let FieldShape::Many(list) = shape {
                lemma_list_has_kind(entry.kind, crate::assembler::all_items(values), list);
            }
        },
    }
}

/// The text values of a sequence of strings.
pub open spec fn text_values(v: Seq<String>) -> Seq<Value> {
    Seq::new(v.len(), |i: int| Value::Text(v[i]))
}

/// The date-time values of a sequence of date-times.
pub open spec fn date_values(v: Seq<DateTime>) -> Seq<Value> {
    Seq::new(v.len(), |i: int| Value::DateTime(v[i]))
}

/// An optional string as an optional text value.
pub open spec fn text_value(o: Option<String>) -> Option<Value> {
    match o {
        Some(s) => Some(Value::Text(s)),
        None => None,
    }
}

/// An optional date-time as an optional value.
pub open spec fn date_value(o: Option<DateTime>) -> Option<Value> {
    match o {
        Some(d) => Some(Value::DateTime(d)),
        None => None,
    }
}

/// An optional value of each further kind, as an optional value.
pub open spec fn duration_value(o: Option<Duration>) -> Option<Value> {
    match o {
        Some(d) => Some(Value::Duration(d)),
        None => None,
    }
}

/// An optional classification as an optional value.
pub open spec fn class_value(o: Option<Class>) -> Option<Value> {
    match o {
        Some(c) => Some(Value::Class(c)),
        None => None,
    }
}

/// An optional status as an optional value.
pub open spec fn status_value(o: Option<Status>) -> Option<Value> {
    match o {
        Some(s) => Some(Value::Status(s)),
        None => None,
    }
}

/// An optional transparency as an optional value.
pub open spec fn transparency_value(o: Option<TimeTransparency>) -> Option<Value> {
    match o {
        Some(t) => Some(Value::Transparency(t)),
        None => None,
    }
}

/// An optional rule as an optional value.
pub open spec fn recur_value(o: Option<Recur>) -> Option<Value> {
    match o {
        Some(r) => Some(Value::Recur(r)),
        None => None,
    }
}

/// An optional position as an optional value.
pub open spec fn geo_value(o: Option<Geo>) -> Option<Value> {
    match o {
        Some(g) => Some(Value::Geo(g)),
        None => None,
    }
}

/// An optional number as an optional value.
pub open spec fn integer_value(o: Option<u32>) -> Option<Value> {
    match o {
        Some(n) => Some(Value::Integer(n)),
        None => None,
    }
}

/// An optional priority as an optional value.
pub open spec fn priority_value(o: Option<u8>) -> Option<Value> {
    match o {
        Some(n) => Some(Value::Integer(n as u32)),
        None => None,
    }
}

/// The date-time of an optional field, or the epoch where it is absent.
pub open spec fn date_or_epoch(shape: FieldShape) -> DateTime {
    match shape {
        FieldShape::Maybe(Some(Value::DateTime(d))) => d,
        _ => DateTime { secs: 0, nanos: 0, offset: 0 },
    }
}

/// Takes the last field off a list of fields.
pub(crate) fn take_last(fields: &mut Vec<Field>) -> (f: Field)
    requires
        old(fields)@.len() > 0,
    ensures
        f == old(fields)@.last(),
        final(fields)@ == old(fields)@.drop_last(),
{
    match fields.pop() {
        Some(f) => f,
        None => unreached(),
    }
}

/// The text of a required text field.
pub(crate) fn into_text(f: Field) -> (s: String)
    requires
        f matches Field::One(Value::Text(_)),
    ensures
        f == Field::One(Value::Text(s)),
{
    match f {
        Field::One(Value::Text(s)) => s,
        _ => unreached(),
    }
}

/// The date-time of a required date-time field.
pub(crate) fn into_date(f: Field) -> (d: DateTime)
    requires
        f matches Field::One(Value::DateTime(_)),
    ensures
        f == Field::One(Value::DateTime(d)),
{
    match f {
        Field::One(Value::DateTime(d)) => d,
        _ => unreached(),
    }
}

/// The offset of a required offset field.
pub(crate) fn into_offset(f: Field) -> (o: i32)
    requires
        f matches Field::One(Value::UtcOffset(_)),
    ensures
        f == Field::One(Value::UtcOffset(o)),
{
    match f {
        Field::One(Value::UtcOffset(o)) => o,
        _ => unreached(),
    }
}

/// The text of an optional text field.
pub(crate) fn into_maybe_text(f: Field) -> (o: Option<String>)
    requires
        f matches Field::Maybe(v),
        f matches Field::Maybe(Some(v)) ==> v is Text,
    ensures
        f == Field::Maybe(text_value(o)),
{
    match f {
        Field::Maybe(Some(Value::Text(s))) => Some(s),
        Field::Maybe(None) => None,
        _ => unreached(),
    }
}

/// The date-time of an optional date-time field.
pub(crate) fn into_maybe_date(f: Field) -> (o: Option<DateTime>)
    requires
        f matches Field::Maybe(v),
        f matches Field::Maybe(Some(v)) ==> v is DateTime,
    ensures
        f == Field::Maybe(date_value(o)),
{
    match f {
        Field::Maybe(Some(Value::DateTime(d))) => Some(d),
        Field::Maybe(None) => None,
        _ => unreached(),
    }
}

/// The duration of an optional duration field.
pub(crate) fn into_maybe_duration(f: Field) -> (o: Option<Duration>)
    requires
        f matches Field::Maybe(v),
        f matches Field::Maybe(Some(v)) ==> v is Duration,
    ensures
        f == Field::Maybe(duration_value(o)),
{
    match f {
        Field::Maybe(Some(Value::Duration(d))) => Some(d),
        Field::Maybe(None) => None,
        _ => unreached(),
    }
}

/// The classification of an optional classification field.
pub(crate) fn into_maybe_class(f: Field) -> (o: Option<Class>)
    requires
        f matches Field::Maybe(v),
        f matches Field::Maybe(Some(v)) ==> v is Class,
    ensures
        f == Field::Maybe(class_value(o)),
{
    match f {
        Field::Maybe(Some(Value::Class(c))) => Some(c),
        Field::Maybe(None) => None,
        _ => unreached(),
    }
}

/// The status of an optional status field.
pub(crate) fn into_maybe_status(f: Field) -> (o: Option<Status>)
    requires
        f matches Field::Maybe(v),
        f matches Field::Maybe(Some(v)) ==> v is Status,
    ensures
        f == Field::Maybe(status_value(o)),
{
    match f {
        Field::Maybe(Some(Value::Status(s))) => Some(s),
        Field::Maybe(None) => None,
        _ => unreached(),
    }
}

/// The transparency of an optional transparency field.
pub(crate) fn into_maybe_transparency(f: Field) -> (o: Option<TimeTransparency>)
    requires
        f matches Field::Maybe(v),
        f matches Field::Maybe(Some(v)) ==> v is Transparency,
    ensures
        f == Field::Maybe(transparency_value(o)),
{
    match f {
        Field::Maybe(Some(Value::Transparency(t))) => Some(t),
        Field::Maybe(None) => None,
        _ => unreached(),
    }
}

/// The rule of an optional recurrence field.
pub(crate) fn into_maybe_recur(f: Field) -> (o: Option<Recur>)
    requires
        f matches Field::Maybe(v),
        f matches Field::Maybe(Some(v)) ==> v is Recur,
    ensures
        f == Field::Maybe(recur_value(o)),
{
    match f {
        Field::Maybe(Some(Value::Recur(r))) => Some(r),
        Field::Maybe(None) => None,
        _ => unreached(),
    }
}

/// The position of an optional position field.
pub(crate) fn into_maybe_geo(f: Field) -> (o: Option<Geo>)
    requires
        f matches Field::Maybe(v),
        f matches Field::Maybe(Some(v)) ==> v is Geo,
    ensures
        f == Field::Maybe(geo_value(o)),
{
    match f {
        Field::Maybe(Some(Value::Geo(g))) => Some(g),
        Field::Maybe(None) => None,
        _ => unreached(),
    }
}

/// The number of an optional integer field.
pub(crate) fn into_maybe_integer(f: Field) -> (o: Option<u32>)
    requires
        f matches Field::Maybe(v),
        f matches Field::Maybe(Some(v)) ==> v is Integer,
    ensures
        f == Field::Maybe(integer_value(o)),
{
    match f {
        Field::Maybe(Some(Value::Integer(n))) => Some(n),
        Field::Maybe(None) => None,
        _ => unreached(),
    }
}

/// The number of an optional priority field.
pub(crate) fn into_maybe_priority(f: Field) -> (o: Option<u8>)
    requires
        f matches Field::Maybe(v),
        f matches Field::Maybe(Some(v)) ==> v matches Value::Integer(n) && n <= 9,
    ensures
        f == Field::Maybe(priority_value(o)),
{
    match f {
        Field::Maybe(Some(Value::Integer(n))) => Some(n as u8),
        Field::Maybe(None) => None,
        _ => unreached(),
    }
}

/// The texts of a repeated text field.
pub(crate) fn into_texts(f: Field) -> (out: Vec<String>)
    requires
        f.shape() matches FieldShape::Many(list) && forall|i: int|
            0 <= i < list.len() ==> has_kind(#[trigger] list[i], ValueKind::Raw),
    ensures
        f.shape() == FieldShape::Many(text_values(out@)),
{
    let ghost shape = f.shape();
    let list = match f {
        Field::Many(list) => list,
        _ => unreached(),
    };
    assert(shape == FieldShape::Many(list@));
    assert forall|k: int| 0 <= k < list@.len() implies (#[trigger] list@[k]) is Text by {
        if let FieldShape::Many(values) = shape {
            assert(has_kind(values[k], ValueKind::Raw));
        }
    }
    let mut out: Vec<String> = Vec::new();
    let mut i: usize = 0;
    while i < list.len()
        invariant
            i <= list@.len(),
            out@.len() == i,
            forall|k: int| 0 <= k < list@.len() ==> (#[trigger] list@[k]) is Text,
            forall|k: int| 0 <= k < i ==> list@[k] == Value::Text(#[trigger] out@[k]),
        decreases list@.len() - i,
    {
        assert(list@[i as int] is Text);
        match &list[i] {
            Value::Text(s) => {
                out.push(s.clone());
            },
            _ => {
                assert(false);
            },
        }
        i += 1;
    }
    assert(list@ =~= text_values(out@));
    out
}

/// The date-times of a repeated date-time field.
pub(crate) fn into_dates(f: Field) -> (out: Vec<DateTime>)
    requires
        f.shape() matches FieldShape::Many(list) && forall|i: int|
            0 <= i < list.len() ==> has_kind(#[trigger] list[i], ValueKind::DateTime),
    ensures
        f.shape() == FieldShape::Many(date_values(out@)),
{
    let ghost shape = f.shape();
    let list = match f {
        Field::Many(list) => list,
        _ => unreached(),
    };
    assert(shape == FieldShape::Many(list@));
    assert forall|k: int| 0 <= k < list@.len() implies (#[trigger] list@[k]) is DateTime by {
        if let FieldShape::Many(values) = shape {
            assert(has_kind(values[k], ValueKind::DateTime));
        }
    }
    let mut out: Vec<DateTime> = Vec::new();
    let mut i: usize = 0;
    while i < list.len()
        invariant
            i <= list@.len(),
            out@.len() == i,
            forall|k: int| 0 <= k < list@.len() ==> (#[trigger] list@[k]) is DateTime,
            forall|k: int| 0 <= k < i ==> list@[k] == Value::DateTime(#[trigger] out@[k]),
        decreases list@.len() - i,
    {
        assert(list@[i as int] is DateTime);
        match &list[i] {
            Value::DateTime(d) => {
                out.push(*d);
            },
            _ => {
                assert(false);
            },
        }
        i += 1;
    }
    assert(list@ =~= date_values(out@));
    out
}

} // verus!
