//! Component assembly: the content lines of one component block, put into
//! typed fields under a schema.
//!
//! A schema is an ordered list of declared properties, each with a
//! cardinality and a kind of value. The fields are made in the order of
//! the schema, so the first entry that fails decides the error. Lines
//! whose name the schema does not declare go to the extension buckets:
//! names that begin with `X-` to one, all others to the other.
use vstd::prelude::*;
use crate::chars::{chars_of, texts};
use crate::content_line::{unescaped, ContentLine, ContentLineView};
use crate::error::{Error, ErrorView};
use crate::properties::Properties;
use crate::value::{
    all_possible,
    items,
    parse_all,
    parse_value,
    push_items,
    value_possible,
    Value,
    ValueKind,
};

verus! {

/// How many content lines a declared property binds, and how they combine.
#[derive(Clone, Copy, Debug, PartialEq, Eq, Structural)]
pub enum Cardinality {
    /// A line must be present; where several are, the last one counts.
    Required,
    /// A line may be present; where several are, the last one counts.
    Optional,
    /// Every line gives one element.
    Repeated,
    /// Every line gives a list of elements, and the lists are joined.
    RepeatedFlat,
}

/// One declared property of a schema.
#[derive(Clone, Debug, PartialEq, Eq)]
pub struct SchemaEntry {
    pub name: String,
    pub cardinality: Cardinality,
    pub kind: ValueKind,
}

/// The mathematical value of a [`SchemaEntry`].
pub struct EntryView {
    pub name: Seq<char>,
    pub cardinality: Cardinality,
    pub kind: ValueKind,
}

impl View for SchemaEntry {
    type V = EntryView;

    open spec fn view(&self) -> EntryView {
        EntryView { name: self.name@, cardinality: self.cardinality, kind: self.kind }
    }
}

/// The values of the entries of a schema.
pub open spec fn schema_view(schema: Seq<SchemaEntry>) -> Seq<EntryView> {
    Seq::new(schema.len(), |i: int| schema[i]@)
}

/// The values of a sequence of content lines.
pub open spec fn line_views(lines: Seq<ContentLine>) -> Seq<ContentLineView> {
    Seq::new(lines.len(), |i: int| lines[i]@)
}

/// One assembled field.
#[derive(Clone, Debug, PartialEq, Eq)]
pub enum Field {
    One(Value),
    Maybe(Option<Value>),
    Many(Vec<Value>),
}

/// An assembled field, lists as sequences.
pub enum FieldShape {
    One(Value),
    Maybe(Option<Value>),
    Many(Seq<Value>),
}

impl Field {
    /// The field, lists as sequences.
    pub open spec fn shape(self) -> FieldShape {
        match self {
            Field::One(v) => FieldShape::One(v),
            Field::Maybe(v) => FieldShape::Maybe(v),
            Field::Many(v) => FieldShape::Many(v@),
        }
    }
}

/// The content lines of one component block, in the order written. The
/// lines of one name are the sequence that the bag maps that name to.
#[derive(Clone, Debug, Default, PartialEq, Eq)]
pub struct PropertyBag {
    pub lines: Vec<ContentLine>,
}

/// An assembled component: one field for each entry of the schema, in its
/// order, and the two extension buckets.
#[derive(Clone, Debug, PartialEq, Eq)]
pub struct Assembled {
    pub fields: Vec<Field>,
    pub x_prop: Properties,
    pub iana_prop: Properties,
}

/// The values of the lines named `name`, in the order written.
pub open spec fn values_named(lines: Seq<ContentLineView>, name: Seq<char>) -> Seq<Seq<char>>
    decreases lines.len(),
{
    if lines.len() == 0 {
        Seq::empty()
    } else if lines.last().name == name {
        values_named(lines.drop_last(), name).push(lines.last().value)
    } else {
        values_named(lines.drop_last(), name)
    }
}

/// The items of all the list values, in order.
pub open spec fn all_items(values: Seq<Seq<char>>) -> Seq<Seq<char>>
    decreases values.len(),
{
    if values.len() == 0 {
        Seq::empty()
    } else {
        all_items(values.drop_last()) + items(values.last())
    }
}

/// `r` is an outcome of making the field of `entry` from `lines`.
pub open spec fn field_possible(lines: Seq<ContentLineView>, entry: EntryView, r: Result<
    FieldShape,
    Error,
>) -> bool {
    let values = values_named(lines, entry.name);
    match entry.cardinality {
        Cardinality::Required => if values.len() == 0 {
            r matches Err(e) && e@ == ErrorView::MissingField(entry.name)
        } else {
            match r {
                Ok(FieldShape::One(v)) => value_possible(entry.kind, values.last(), Ok(v)),
                Ok(_) => false,
                Err(e) => value_possible(entry.kind, values.last(), Err(e)),
            }
        },
        Cardinality::Optional => if values.len() == 0 {
            r matches Ok(FieldShape::Maybe(None))
        } else {
            match r {
                Ok(FieldShape::Maybe(Some(v))) => value_possible(
                    entry.kind,
                    values.last(),
                    Ok(v),
                ),
                Ok(_) => false,
                Err(e) => value_possible(entry.kind, values.last(), Err(e)),
            }
        },
        Cardinality::Repeated => match r {
            Ok(FieldShape::Many(list)) => all_possible(entry.kind, values, Ok(list)),
            Ok(_) => false,
            Err(e) => all_possible(entry.kind, values, Err(e)),
        },
        Cardinality::RepeatedFlat => match r {
            Ok(FieldShape::Many(list)) => all_possible(entry.kind, all_items(values), Ok(list)),
            Ok(_) => false,
            Err(e) => all_possible(entry.kind, all_items(values), Err(e)),
        },
    }
}

/// Whether making the field of `entry` from `lines` can succeed.
pub open spec fn field_may_succeed(lines: Seq<ContentLineView>, entry: EntryView) -> bool {
    exists|f: FieldShape| #[trigger] field_possible(lines, entry, Ok(f))
}

/// The outcome of making a field, lists as sequences.
pub open spec fn field_outcome(r: Result<Field, Error>) -> Result<FieldShape, Error> {
    match r {
        Ok(f) => Ok(f.shape()),
        Err(e) => Err(e),
    }
}

/// Whether the schema declares a property named `name`.
pub open spec fn is_declared(schema: Seq<EntryView>, name: Seq<char>) -> bool {
    exists|i: int| 0 <= i < schema.len() && (#[trigger] schema[i]).name == name
}

/// Whether a name is that of an experimental property: it begins with `X-`.
pub open spec fn is_x_name(name: Seq<char>) -> bool {
    name.len() >= 2 && name[0] == 'X' && name[1] == '-'
}

/// The extension bucket for the lines that the schema does not declare:
/// with `x`, of those whose name begins with `X-`; without, of the
/// others. The last line of a name gives its value.
pub open spec fn extensions(lines: Seq<ContentLineView>, schema: Seq<EntryView>, x: bool) -> Map<
    Seq<char>,
    Seq<char>,
>
    decreases lines.len(),
{
    if lines.len() == 0 {
        Map::empty()
    } else {
        let rest = extensions(lines.drop_last(), schema, x);
        let line = lines.last();
        if !is_declared(schema, line.name) && is_x_name(line.name) == x {
            rest.insert(line.name, line.value)
        } else {
            rest
        }
    }
}

/// `r` is an outcome of assembling `lines` under `schema`: a component
/// with a possible field for every entry and both extension buckets, or
/// the error of the first entry that fails.
pub open spec fn assembly_possible(lines: Seq<ContentLineView>, schema: Seq<EntryView>, r: Result<
    Assembled,
    Error,
>) -> bool {
    match r {
        Ok(c) => {
            &&& c.fields@.len() == schema.len()
            &&& forall|i: int|
                0 <= i < schema.len() ==> #[trigger] field_possible(
                    lines,
                    schema[i],
                    Ok(c.fields@[i].shape()),
                )
            &&& c.x_prop@ == extensions(lines, schema, true)
            &&& c.iana_prop@ == extensions(lines, schema, false)
        },
        Err(e) => exists|i: int|
            {
                &&& 0 <= i < schema.len()
                &&& #[trigger] field_possible(lines, schema[i], Err(e))
                &&& forall|k: int| 0 <= k < i ==> #[trigger] field_may_succeed(lines, schema[k])
            },
    }
}

impl PropertyBag {
    /// The bag of the given lines.
    pub fn new(lines: Vec<ContentLine>) -> (bag: PropertyBag)
        ensures
            bag.lines == lines,
    {
        PropertyBag { lines }
    }

    /// The values of the lines named `name`, in the order written.
    pub fn values(&self, name: &str) -> (out: Vec<String>)
        ensures
            texts(out@) == values_named(line_views(self.lines@), name@),
    {
        values_of(&self.lines, name)
    }
}

impl SchemaEntry {
    /// The entry that declares `name` with a cardinality and a kind.
    pub fn new(name: &str, cardinality: Cardinality, kind: ValueKind) -> (e: SchemaEntry)
        ensures
            e@ == (EntryView { name: name@, cardinality, kind }),
    {
        SchemaEntry { name: name.to_owned(), cardinality, kind }
    }
}

/// The values of the lines named `name`, in the order written.
pub fn values_of(lines: &Vec<ContentLine>, name: &str) -> (out: Vec<String>)
    ensures
        texts(out@) == values_named(line_views(lines@), name@),
{
    let ghost views = line_views(lines@);
    let wanted = name.to_owned();
    let mut out: Vec<String> = Vec::new();
    let mut i: usize = 0;
    assert(views.take(0) =~= Seq::<ContentLineView>::empty());
    assert(texts(out@) =~= Seq::<Seq<char>>::empty());
    while i < lines.len()
        invariant
            i <= lines@.len(),
            wanted@ == name@,
            views == line_views(lines@),
            texts(out@) == values_named(views.take(i as int), name@),
        decreases lines@.len() - i,
    {
        let ghost before = out@;
        assert(views.take(i + 1).drop_last() =~= views.take(i as int));
        assert(views.take(i + 1).last() == lines@[i as int]@);
        if lines[i].name == wanted {
            out.push(lines[i].value.clone());
            assert(texts(out@) =~= texts(before).push(lines@[i as int].value@));
        }
        i += 1;
    }
    assert(views.take(i as int) =~= views);
    out
}

/// The items of all the list values, in order.
pub fn items_of(values: &Vec<String>) -> (out: Vec<String>)
    ensures
        texts(out@) == all_items(texts(values@)),
{
    let ghost t = texts(values@);
    let mut out: Vec<String> = Vec::new();
    let mut i: usize = 0;
    assert(t.take(0) =~= Seq::<Seq<char>>::empty());
    assert(texts(out@) =~= Seq::<Seq<char>>::empty());
    while i < values.len()
        invariant
            i <= values@.len(),
            t == texts(values@),
            texts(out@) == all_items(t.take(i as int)),
        decreases values@.len() - i,
    {
        assert(t.take(i + 1).drop_last() =~= t.take(i as int));
        assert(t.take(i + 1).last() == values@[i as int]@);
        push_items(&mut out, values[i].as_str());
        i += 1;
    }
    assert(t.take(i as int) =~= t);
    out
}

/// Makes the field that a schema entry declares from the lines of a
/// component.
pub fn field(lines: &Vec<ContentLine>, entry: &SchemaEntry) -> (r: Result<Field, Error>)
    ensures
        field_possible(line_views(lines@), entry@, field_outcome(r)),
{
    let values = values_of(lines, entry.name.as_str());
    let n = values.len();
    assert(n > 0 ==> texts(values@).last() == values@[n - 1]@);
    match entry.cardinality {
        Cardinality::Required => {
            if n == 0 {
                Err(Error::MissingField(entry.name.clone()))
            } else {
                match parse_value(entry.kind, values[n - 1].as_str()) {
                    Ok(v) => Ok(Field::One(v)),
                    Err(e) => Err(e),
                }
            }
        },
        Cardinality::Optional => {
            if n == 0 {
                Ok(Field::Maybe(None))
            } else {
                match parse_value(entry.kind, values[n - 1].as_str()) {
                    Ok(v) => Ok(Field::Maybe(Some(v))),
                    Err(e) => Err(e),
                }
            }
        },
        Cardinality::Repeated => match parse_all(entry.kind, &values) {
            Ok(list) => Ok(Field::Many(list)),
            Err(e) => Err(e),
        },
        Cardinality::RepeatedFlat => {
            let pieces = items_of(&values);
            match parse_all(entry.kind, &pieces) {
                Ok(list) => Ok(Field::Many(list)),
                Err(e) => Err(e),
            }
        },
    }
}

/// Whether the schema declares a property named `name`.
pub fn declares(schema: &Vec<SchemaEntry>, name: &String) -> (b: bool)
    ensures
        b == is_declared(schema_view(schema@), name@),
{
    let ghost views = schema_view(schema@);
    let mut i: usize = 0;
    while i < schema.len()
        invariant
            i <= schema@.len(),
            views == schema_view(schema@),
            forall|k: int| 0 <= k < i ==> (#[trigger] views[k]).name != name@,
        decreases schema@.len() - i,
    {
        if schema[i].name == *name {
            assert(views[i as int].name == name@);
            return true;
        }
        i += 1;
    }
    false
}

/// Whether a name begins with `X-`.
pub fn is_experimental(name: &str) -> (b: bool)
    ensures
        b == is_x_name(name@),
{
    let v = chars_of(name);
    v.len() >= 2 && v[0] == 'X' && v[1] == '-'
}

/// Routes the lines that the schema does not declare into the two
/// extension buckets.
pub fn route_extensions(lines: &Vec<ContentLine>, schema: &Vec<SchemaEntry>) -> (r: (
    Properties,
    Properties,
))
    ensures
        r.0@ == extensions(line_views(lines@), schema_view(schema@), true),
        r.1@ == extensions(line_views(lines@), schema_view(schema@), false),
{
    let ghost views = line_views(lines@);
    let mut x_prop = Properties::new();
    let mut iana_prop = Properties::new();
    let mut i: usize = 0;
    assert(views.take(0) =~= Seq::<ContentLineView>::empty());
    while i < lines.len()
        invariant
            i <= lines@.len(),
            views == line_views(lines@),
            x_prop@ == extensions(views.take(i as int), schema_view(schema@), true),
            iana_prop@ == extensions(views.take(i as int), schema_view(schema@), false),
        decreases lines@.len() - i,
    {
        assert(views.take(i + 1).drop_last() =~= views.take(i as int));
        assert(views.take(i + 1).last() == lines@[i as int]@);
        if !declares(schema, &lines[i].name) {
            if is_experimental(lines[i].name.as_str()) {
                x_prop.insert(lines[i].name.clone(), lines[i].value.clone());
            } else {
                iana_prop.insert(lines[i].name.clone(), lines[i].value.clone());
            }
        }
        i += 1;
    }
    assert(views.take(i as int) =~= views);
    (x_prop, iana_prop)
}

/// Assembles the lines of a component under a schema.
pub fn assemble(bag: &PropertyBag, schema: &Vec<SchemaEntry>) -> (r: Result<Assembled, Error>)
    ensures
        assembly_possible(line_views(bag.lines@), schema_view(schema@), r),
{
    let ghost lines = line_views(bag.lines@);
    let ghost entries = schema_view(schema@);
    let mut fields: Vec<Field> = Vec::new();
    let mut i: usize = 0;
    while i < schema.len()
        invariant
            i <= schema@.len(),
            fields@.len() == i,
            lines == line_views(bag.lines@),
            entries == schema_view(schema@),
            forall|k: int|
                0 <= k < i ==> #[trigger] field_possible(lines, entries[k], Ok(fields@[k].shape())),
        decreases schema@.len() - i,
    {
        match field(&bag.lines, &schema[i]) {
            Ok(f) => {
                fields.push(f);
            },
            Err(e) => {
                proof {
                    assert(field_possible(lines, entries[i as int], Err(e)));
                    assert forall|k: int| 0 <= k < i implies #[trigger] field_may_succeed(
                        lines,
                        entries[k],
                    ) by {
                        assert(field_possible(lines, entries[k], Ok(fields@[k].shape())));
                    }
                }
                return Err(e);
            },
        }
        i += 1;
    }
    let (x_prop, iana_prop) = route_extensions(&bag.lines, schema);
    Ok(Assembled { fields, x_prop, iana_prop })
}

/// Whether making the field of `entry` from `lines` cannot fail: no error
/// is a possible outcome of it.
pub open spec fn field_cannot_fail(lines: Seq<ContentLineView>, entry: EntryView) -> bool {
    forall|e: Error| !#[trigger] field_possible(lines, entry, Err(e))
}

/// Where no entry of the schema can fail, assembly gives a component.
pub proof fn lemma_assembly_succeeds(
    lines: Seq<ContentLineView>,
    schema: Seq<EntryView>,
    r: Result<Assembled, Error>,
)
    requires
        assembly_possible(lines, schema, r),
        forall|i: int| 0 <= i < schema.len() ==> field_cannot_fail(lines, #[trigger] schema[i]),
    ensures
        r is Ok,
{
    if let Err(e) = r {
        let i = choose|i: int|
            {
                &&& 0 <= i < schema.len()
                &&& #[trigger] field_possible(lines, schema[i], Err(e))
                &&& forall|k: int| 0 <= k < i ==> #[trigger] field_may_succeed(lines, schema[k])
            };
        assert(field_cannot_fail(lines, schema[i]));
    }
}

/// A required property without a line fails the assembly: no component
/// comes out. Where no entry before it can fail, the error is
/// `MissingField` with the name of the property.
pub proof fn lemma_missing_required_field(
    lines: Seq<ContentLineView>,
    schema: Seq<EntryView>,
    i: int,
    r: Result<Assembled, Error>,
)
    requires
        0 <= i < schema.len(),
        schema[i].cardinality == Cardinality::Required,
        values_named(lines, schema[i].name).len() == 0,
        assembly_possible(lines, schema, r),
    ensures
        r is Err,
        (forall|k: int, e: Error| 0 <= k < i ==> !#[trigger] field_possible(lines, schema[k], Err(e)))
            ==> (r matches Err(e) && e@ == ErrorView::MissingField(schema[i].name)),
{
    match r {
        Ok(c) => {
            assert(field_possible(lines, schema[i], Ok(c.fields@[i].shape())));
        },
        Err(e) => {
            let j = choose|j: int|
                {
                    &&& 0 <= j < schema.len()
                    &&& #[trigger] field_possible(lines, schema[j], Err(e))
                    &&& forall|k: int|
                        0 <= k < j ==> #[trigger] field_may_succeed(lines, schema[k])
                };
            if i < j {
                assert(field_may_succeed(lines, schema[i]));
            }
        },
    }
}

/// A line that the schema does not declare is in exactly one bucket,
/// under its name: in the first where the name begins with `X-`, in the
/// second otherwise.
pub proof fn lemma_extension_routing(
    lines: Seq<ContentLineView>,
    schema: Seq<EntryView>,
    k: int,
)
    requires
        0 <= k < lines.len(),
        !is_declared(schema, lines[k].name),
    ensures
        extensions(lines, schema, is_x_name(lines[k].name)).contains_key(lines[k].name),
        !extensions(lines, schema, !is_x_name(lines[k].name)).contains_key(lines[k].name),
    decreases lines.len(),
{
    let name = lines[k].name;
    if extensions(lines, schema, !is_x_name(name)).contains_key(name) {
        lemma_bucket_names(lines, schema, !is_x_name(name), name);
    }
    if k < lines.len() - 1 {
        assert(lines.drop_last()[k] == lines[k]);
        lemma_extension_routing(lines.drop_last(), schema, k);
    }
}

/// A bucket holds only names that the schema does not declare, and only
/// names of its own sort.
pub proof fn lemma_bucket_names(
    lines: Seq<ContentLineView>,
    schema: Seq<EntryView>,
    x: bool,
    name: Seq<char>,
)
    requires
        extensions(lines, schema, x).contains_key(name),
    ensures
        !is_declared(schema, name),
        is_x_name(name) == x,
    decreases lines.len(),
{
    if lines.len() > 0 {
        let line = lines.last();
        if !is_declared(schema, line.name) && is_x_name(line.name) == x && line.name == name {
        } else {
            lemma_bucket_names(lines.drop_last(), schema, x, name);
        }
    }
}

/// The value of a name in a bucket is the value of the last line of that
/// name.
pub proof fn lemma_bucket_value(
    lines: Seq<ContentLineView>,
    schema: Seq<EntryView>,
    x: bool,
    name: Seq<char>,
)
    requires
        extensions(lines, schema, x).contains_key(name),
    ensures
        values_named(lines, name).len() > 0,
        extensions(lines, schema, x)[name] == values_named(lines, name).last(),
    decreases lines.len(),
{
    lemma_bucket_names(lines, schema, x, name);
    if lines.len() > 0 {
        let line = lines.last();
        if line.name == name {
        } else {
            lemma_bucket_value(lines.drop_last(), schema, x, name);
        }
    }
}

/// A list field of texts that is built by joining holds the items of all
/// its lines, in the order written, each decoded.
pub proof fn lemma_flat_text_field(
    lines: Seq<ContentLineView>,
    name: Seq<char>,
    list: Seq<Value>,
)
    requires
        field_possible(
            lines,
            EntryView { name, cardinality: Cardinality::RepeatedFlat, kind: ValueKind::Text },
            Ok(FieldShape::Many(list)),
        ),
    ensures
        list.len() == all_items(values_named(lines, name)).len(),
        forall|j: int|
            0 <= j < list.len() ==> ((#[trigger] list[j]) matches Value::Text(t) && t@
                == unescaped(all_items(values_named(lines, name))[j], false)),
{
    let written = all_items(values_named(lines, name));
    assert forall|j: int| 0 <= j < list.len() implies ((#[trigger] list[j]) matches Value::Text(
        t,
    ) && t@ == unescaped(written[j], false)) by {
        assert(value_possible(ValueKind::Text, written[j], Ok(list[j])));
    }
}

/// The items of lists written one after the other are the items of the
/// first followed by the items of the second.
pub proof fn lemma_all_items_join(first: Seq<Seq<char>>, second: Seq<Seq<char>>)
    ensures
        all_items(first + second) == all_items(first) + all_items(second),
    decreases second.len(),
{
    if second.len() == 0 {
        assert(first + second =~= first);
        assert(all_items(first) + all_items(second) =~= all_items(first));
    } else {
        assert((first + second).drop_last() =~= first + second.drop_last());
        assert((first + second).last() == second.last());
        lemma_all_items_join(first, second.drop_last());
        assert(all_items(first) + (all_items(second.drop_last()) + items(second.last()))
            =~= (all_items(first) + all_items(second.drop_last())) + items(second.last()));
    }
}

} // verus!
