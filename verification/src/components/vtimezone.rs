//! The time zone component and its observances.
use vstd::prelude::*;
use crate::assembler::{
    assemble,
    assembly_possible,
    extensions,
    field_cannot_fail,
    field_possible,
    lemma_assembly_succeeds,
    line_views,
    schema_view,
    Cardinality,
    EntryView,
    Field,
    FieldShape,
    PropertyBag,
    SchemaEntry,
};
use crate::chars::{chars_of, is_literal};
use crate::components::{
    block_views,
    date_value,
    entry,
    fields_possible,
    fits,
    into_date,
    into_maybe_date,
    into_maybe_recur,
    into_maybe_text,
    into_offset,
    into_text,
    into_texts,
    lemma_field_fits,
    parts_of,
    read_parts,
    recur_value,
    shapes,
    take_last,
    text_value,
    text_values,
    Block,
    BlockView,
};
use crate::content_line::ContentLineView;
use crate::datetime::DateTime;
use crate::error::{Error, ErrorView};
use crate::properties::Properties;
use crate::recur::Recur;
use crate::value::{Value, ValueKind};

verus! {

/// One observance of a time zone: its standard or its daylight time.
#[derive(Clone, Debug, PartialEq, Eq)]
pub struct Prop {
    pub dtstart: DateTime,
    pub tzoffsetto: i32,
    pub tzoffsetfrom: i32,
    pub rrule: Option<Recur>,
    pub comment: Vec<String>,
    pub rdate: Vec<String>,
    pub tzname: Vec<String>,
    pub x_prop: Properties,
    pub iana_prop: Properties,
}

impl Prop {
    /// Whether nothing is set: the start is the epoch, both offsets are
    /// those of UTC, every list is empty, the rule is absent.
    pub open spec fn is_blank(self) -> bool {
        &&& self.dtstart == (DateTime { secs: 0, nanos: 0, offset: 0 })
        &&& self.tzoffsetto == 0
        &&& self.tzoffsetfrom == 0
        &&& self.rrule is None
        &&& self.comment@.len() == 0
        &&& self.rdate@.len() == 0
        &&& self.tzname@.len() == 0
        &&& self.x_prop@ == Map::<Seq<char>, Seq<char>>::empty()
        &&& self.iana_prop@ == Map::<Seq<char>, Seq<char>>::empty()
    }

    /// The observance with nothing set.
    #[must_use]
    pub fn new() -> (p: Prop)
        ensures
            p.is_blank(),
    {
        Prop {
            dtstart: DateTime::epoch(),
            tzoffsetto: 0,
            tzoffsetfrom: 0,
            rrule: None,
            comment: Vec::new(),
            rdate: Vec::new(),
            tzname: Vec::new(),
            x_prop: Properties::new(),
            iana_prop: Properties::new(),
        }
    }

    /// The schema of an observance: its declared properties, in order.
    pub open spec fn schema_spec() -> Seq<EntryView> {
        seq![
            entry("DTSTART"@, Cardinality::Required, ValueKind::DateTime),
            entry("TZOFFSETTO"@, Cardinality::Required, ValueKind::UtcOffset),
            entry("TZOFFSETFROM"@, Cardinality::Required, ValueKind::UtcOffset),
            entry("RRULE"@, Cardinality::Optional, ValueKind::Recur),
            entry("COMMENT"@, Cardinality::Repeated, ValueKind::Text),
            entry("RDATE"@, Cardinality::RepeatedFlat, ValueKind::Raw),
            entry("TZNAME"@, Cardinality::Repeated, ValueKind::Text),
        ]
    }

    /// The schema of an observance: its declared properties, in order.
    pub fn schema() -> (schema: Vec<SchemaEntry>)
        ensures
            schema_view(schema@) == Prop::schema_spec(),
    {
        let mut schema: Vec<SchemaEntry> = Vec::new();
        schema.push(SchemaEntry::new("DTSTART", Cardinality::Required, ValueKind::DateTime));
        schema.push(SchemaEntry::new("TZOFFSETTO", Cardinality::Required, ValueKind::UtcOffset));
        schema.push(SchemaEntry::new("TZOFFSETFROM", Cardinality::Required, ValueKind::UtcOffset));
        schema.push(SchemaEntry::new("RRULE", Cardinality::Optional, ValueKind::Recur));
        schema.push(SchemaEntry::new("COMMENT", Cardinality::Repeated, ValueKind::Text));
        schema.push(SchemaEntry::new("RDATE", Cardinality::RepeatedFlat, ValueKind::Raw));
        schema.push(SchemaEntry::new("TZNAME", Cardinality::Repeated, ValueKind::Text));
        assert(schema_view(schema@) =~= Prop::schema_spec());
        schema
    }

    /// Whether the observance holds the assembled fields, one for each
    /// entry of the schema.
    pub open spec fn holds(self, fields: Seq<FieldShape>) -> bool {
        &&& fields.len() == 7
        &&& fields[0] == FieldShape::One(Value::DateTime(self.dtstart))
        &&& fields[1] == FieldShape::One(Value::UtcOffset(self.tzoffsetto))
        &&& fields[2] == FieldShape::One(Value::UtcOffset(self.tzoffsetfrom))
        &&& fields[3] == FieldShape::Maybe(recur_value(self.rrule))
        &&& fields[4] == FieldShape::Many(text_values(self.comment@))
        &&& fields[5] == FieldShape::Many(text_values(self.rdate@))
        &&& fields[6] == FieldShape::Many(text_values(self.tzname@))
    }

    /// Whether the fields have the shapes that the schema declares.
    pub open spec fn fits_schema(fields: Seq<FieldShape>) -> bool {
        &&& fields.len() == 7
        &&& fits(fields[0], Cardinality::Required, ValueKind::DateTime)
        &&& fits(fields[1], Cardinality::Required, ValueKind::UtcOffset)
        &&& fits(fields[2], Cardinality::Required, ValueKind::UtcOffset)
        &&& fits(fields[3], Cardinality::Optional, ValueKind::Recur)
        &&& fits(fields[4], Cardinality::Repeated, ValueKind::Text)
        &&& fits(fields[5], Cardinality::RepeatedFlat, ValueKind::Raw)
        &&& fits(fields[6], Cardinality::Repeated, ValueKind::Text)
    }

    /// The observance of the assembled fields and buckets.
    fn from_fields(
        fields: Vec<Field>,
        x_prop: Properties,
        iana_prop: Properties,
    ) -> (r: Prop)
        requires
            Prop::fits_schema(shapes(fields@)),
        ensures
            r.holds(shapes(fields@)),
            r.x_prop == x_prop,
            r.iana_prop == iana_prop,
    {
        let ghost all = shapes(fields@);
        let mut fields = fields;
        assert(fields@.last().shape() == all[6]);
        let tzname = into_texts(take_last(&mut fields));
        assert(fields@.last().shape() == all[5]);
        let rdate = into_texts(take_last(&mut fields));
        assert(fields@.last().shape() == all[4]);
        let comment = into_texts(take_last(&mut fields));
        assert(fields@.last().shape() == all[3]);
        let rrule = into_maybe_recur(take_last(&mut fields));
        assert(fields@.last().shape() == all[2]);
        let tzoffsetfrom = into_offset(take_last(&mut fields));
        assert(fields@.last().shape() == all[1]);
        let tzoffsetto = into_offset(take_last(&mut fields));
        assert(fields@.last().shape() == all[0]);
        let dtstart = into_date(take_last(&mut fields));
        let p = Prop {
            dtstart,
            tzoffsetto,
            tzoffsetfrom,
            rrule,
            comment,
            rdate,
            tzname,
            x_prop,
            iana_prop,
        };
        p
    }
}

impl Default for Prop {
    fn default() -> (p: Prop)
        ensures
            p.is_blank(),
    {
        Prop::new()
    }
}

/// `p` is an observance that `lines` write.
pub open spec fn is_prop_of(lines: Seq<ContentLineView>, p: Prop) -> bool {
    exists|fields: Seq<FieldShape>|
        {
            &&& #[trigger] fields_possible(lines, Prop::schema_spec(), fields)
            &&& p.holds(fields)
            &&& p.x_prop@ == extensions(lines, Prop::schema_spec(), true)
            &&& p.iana_prop@ == extensions(lines, Prop::schema_spec(), false)
        }
}

/// `r` is an outcome of making an observance from `lines`.
pub open spec fn prop_possible(lines: Seq<ContentLineView>, r: Result<Prop, Error>) -> bool {
    match r {
        Ok(p) => is_prop_of(lines, p),
        Err(e) => assembly_possible(lines, Prop::schema_spec(), Err(e)),
    }
}

impl Prop {
    /// Makes an observance from the lines of its block.
    pub fn from_bag(bag: &PropertyBag) -> (r: Result<Prop, Error>)
        ensures
            prop_possible(line_views(bag.lines@), r),
    {
        let ghost lines = line_views(bag.lines@);
        let schema = Prop::schema();
        let component = match assemble(bag, &schema) {
            Ok(c) => c,
            Err(e) => {
                return Err(e);
            },
        };
        let ghost fields = shapes(component.fields@);
        proof {
            assert(fields_possible(lines, Prop::schema_spec(), fields)) by {
                assert forall|i: int| 0 <= i < 7 implies #[trigger] field_possible(
                    lines,
                    Prop::schema_spec()[i],
                    Ok(fields[i]),
                ) by {
                    assert(field_possible(lines, schema_view(schema@)[i], Ok(
                        component.fields@[i].shape(),
                    )));
                }
            }
            Prop::lemma_fits(lines, fields);
        }
        Ok(Prop::from_fields(component.fields, component.x_prop, component.iana_prop))
    }

    /// Where no entry of the schema can fail, the observance is made.
    pub proof fn lemma_succeeds(lines: Seq<ContentLineView>, r: Result<Prop, Error>)
        requires
            prop_possible(lines, r),
            forall|i: int|
                0 <= i < Prop::schema_spec().len() ==> field_cannot_fail(
                    lines,
                    #[trigger] Prop::schema_spec()[i],
                ),
        ensures
            r is Ok,
    {
        if let Err(e) = r {
            lemma_assembly_succeeds(lines, Prop::schema_spec(), Err(e));
        }
    }

    /// Fields that assembly gives under the schema of observances have the
    /// shapes that the schema declares.
    pub proof fn lemma_fits(lines: Seq<ContentLineView>, fields: Seq<FieldShape>)
        requires
            fields_possible(lines, Prop::schema_spec(), fields),
        ensures
            Prop::fits_schema(fields),
    {
        let schema = Prop::schema_spec();
        assert forall|i: int| 0 <= i < 7 implies fits(
            fields[i],
            schema[i].cardinality,
            schema[i].kind,
        ) by {
            assert(field_possible(lines, schema[i], Ok(fields[i])));
            lemma_field_fits(lines, schema[i], fields[i]);
        }
        assert(fits(fields[0], schema[0].cardinality, schema[0].kind));
        assert(fits(fields[1], schema[1].cardinality, schema[1].kind));
        assert(fits(fields[2], schema[2].cardinality, schema[2].kind));
        assert(fits(fields[3], schema[3].cardinality, schema[3].kind));
        assert(fits(fields[4], schema[4].cardinality, schema[4].kind));
        assert(fits(fields[5], schema[5].cardinality, schema[5].kind));
        assert(fits(fields[6], schema[6].cardinality, schema[6].kind));
    }
}

/// Whether a tag is that of an observance.
pub open spec fn is_observance_tag(tag: Seq<char>) -> bool {
    tag == "STANDARD"@ || tag == "DAYLIGHT"@
}

/// `props` are observances of the blocks tagged `tag`, one for each such
/// block, in order.
pub open spec fn observances_possible(blocks: Seq<BlockView>, tag: Seq<char>, props: Seq<Prop>) -> bool
    decreases blocks.len(),
{
    if blocks.len() == 0 {
        props.len() == 0
    } else if blocks.last().tag == tag {
        &&& props.len() > 0
        &&& is_prop_of(blocks.last().lines, props.last())
        &&& observances_possible(blocks.drop_last(), tag, props.drop_last())
    } else {
        observances_possible(blocks.drop_last(), tag, props)
    }
}

/// `e` is the error of the block at `k`: its tag is that of no
/// observance, or its lines make no observance.
pub open spec fn is_block_error(block: BlockView, e: Error) -> bool {
    if is_observance_tag(block.tag) {
        prop_possible(block.lines, Err(e))
    } else {
        e@ == ErrorView::UnsupportedComponentType(block.tag)
    }
}

/// A time zone.
#[derive(Clone, Debug, PartialEq, Eq)]
pub struct VTimezone {
    pub tzid: String,
    pub last_modified: Option<DateTime>,
    pub tzurl: Option<String>,
    pub standard: Vec<Prop>,
    pub daylight: Vec<Prop>,
    pub x_prop: Properties,
    pub iana_prop: Properties,
}

/// `z` is a time zone that `lines` and the nested `blocks` write.
pub open spec fn is_zone_of(lines: Seq<ContentLineView>, blocks: Seq<BlockView>, z: VTimezone) -> bool {
    &&& exists|fields: Seq<FieldShape>|
        {
            &&& #[trigger] fields_possible(lines, VTimezone::schema_spec(), fields)
            &&& z.holds(fields)
        }
    &&& z.x_prop@ == extensions(lines, VTimezone::schema_spec(), true)
    &&& z.iana_prop@ == extensions(lines, VTimezone::schema_spec(), false)
    &&& observances_possible(blocks, "STANDARD"@, z.standard@)
    &&& observances_possible(blocks, "DAYLIGHT"@, z.daylight@)
    &&& forall|k: int| 0 <= k < blocks.len() ==> is_observance_tag((#[trigger] blocks[k]).tag)
}

/// Whether the block can be made an observance: its tag is that of an
/// observance, and its lines write one.
pub open spec fn block_may_succeed(block: BlockView) -> bool {
    is_observance_tag(block.tag) && exists|p: Prop| #[trigger] is_prop_of(block.lines, p)
}

/// Whether the fields of a time zone can be made from `lines`.
pub open spec fn zone_fields_may_succeed(lines: Seq<ContentLineView>) -> bool {
    exists|fields: Seq<FieldShape>| #[trigger]
        fields_possible(lines, VTimezone::schema_spec(), fields)
}

/// `r` is an outcome of making a time zone from `lines` and the nested
/// `blocks`. The fields of the zone are made first, then the blocks in
/// order; whatever fails first decides the error.
pub open spec fn zone_possible(
    lines: Seq<ContentLineView>,
    blocks: Seq<BlockView>,
    r: Result<VTimezone, Error>,
) -> bool {
    match r {
        Ok(z) => is_zone_of(lines, blocks, z),
        Err(e) => {
            ||| assembly_possible(lines, VTimezone::schema_spec(), Err(e))
            ||| {
                &&& zone_fields_may_succeed(lines)
                &&& exists|k: int|
                    {
                        &&& 0 <= k < blocks.len()
                        &&& #[trigger] is_block_error(blocks[k], e)
                        &&& forall|j: int| 0 <= j < k ==> #[trigger] block_may_succeed(blocks[j])
                    }
            }
        },
    }
}

/// `r` is an outcome of parsing the raw text of a time zone block.
pub open spec fn zone_text_possible(raw: Seq<char>, r: Result<VTimezone, Error>) -> bool {
    match parts_of(raw, "VTIMEZONE"@) {
        Err(e) => r matches Err(x) && x@ == e,
        Ok(parts) => zone_possible(parts.own, parts.blocks, r),
    }
}

impl VTimezone {
    /// Parses the raw text of a time zone block, `BEGIN:VTIMEZONE` to
    /// `END:VTIMEZONE`, with the blocks of its observances nested in it.
    pub fn parse(raw: &str) -> (r: Result<VTimezone, Error>)
        ensures
            zone_text_possible(raw@, r),
    {
        match read_parts(raw, "VTIMEZONE") {
            Ok((own, blocks)) => VTimezone::from_parts(&PropertyBag::new(own), &blocks),
            Err(e) => Err(e),
        }
    }

    /// Whether nothing is set: every text and list is empty, every
    /// optional field is absent.
    pub open spec fn is_blank(self) -> bool {
        &&& self.tzid@.len() == 0
        &&& self.last_modified is None
        &&& self.tzurl is None
        &&& self.standard@.len() == 0
        &&& self.daylight@.len() == 0
        &&& self.x_prop@ == Map::<Seq<char>, Seq<char>>::empty()
        &&& self.iana_prop@ == Map::<Seq<char>, Seq<char>>::empty()
    }

    /// The time zone with nothing set.
    #[must_use]
    pub fn new() -> (z: VTimezone)
        ensures
            z.is_blank(),
    {
        VTimezone {
            tzid: String::new(),
            last_modified: None,
            tzurl: None,
            standard: Vec::new(),
            daylight: Vec::new(),
            x_prop: Properties::new(),
            iana_prop: Properties::new(),
        }
    }

    /// The schema of a time zone: its declared properties, in order.
    pub open spec fn schema_spec() -> Seq<EntryView> {
        seq![
            entry("TZID"@, Cardinality::Required, ValueKind::Raw),
            entry("LAST-MODIFIED"@, Cardinality::Optional, ValueKind::DateTime),
            entry("TZURL"@, Cardinality::Optional, ValueKind::Raw),
        ]
    }

    /// The schema of a time zone: its declared properties, in order.
    pub fn schema() -> (schema: Vec<SchemaEntry>)
        ensures
            schema_view(schema@) == VTimezone::schema_spec(),
    {
        let mut schema: Vec<SchemaEntry> = Vec::new();
        schema.push(SchemaEntry::new("TZID", Cardinality::Required, ValueKind::Raw));
        schema.push(SchemaEntry::new("LAST-MODIFIED", Cardinality::Optional, ValueKind::DateTime));
        schema.push(SchemaEntry::new("TZURL", Cardinality::Optional, ValueKind::Raw));
        assert(schema_view(schema@) =~= VTimezone::schema_spec());
        schema
    }

    /// Whether the time zone holds the assembled fields, one for each
    /// entry of the schema.
    pub open spec fn holds(self, fields: Seq<FieldShape>) -> bool {
        &&& fields.len() == 3
        &&& fields[0] == FieldShape::One(Value::Text(self.tzid))
        &&& fields[1] == FieldShape::Maybe(date_value(self.last_modified))
        &&& fields[2] == FieldShape::Maybe(text_value(self.tzurl))
    }

    /// Makes a time zone from the lines of its block and from the blocks
    /// nested in it. Each nested block is assembled under the schema of
    /// observances and joins the list of its tag.
    pub fn from_parts(bag: &PropertyBag, blocks: &Vec<Block>) -> (r: Result<VTimezone, Error>)
        ensures
            zone_possible(line_views(bag.lines@), block_views(blocks@), r),
    {
        let ghost lines = line_views(bag.lines@);
        let ghost views = block_views(blocks@);
        let schema = VTimezone::schema();
        let component = match assemble(bag, &schema) {
            Ok(c) => c,
            Err(e) => {
                return Err(e);
            },
        };
        let ghost fields = shapes(component.fields@);
        proof {
            assert(fields_possible(lines, VTimezone::schema_spec(), fields)) by {
                assert forall|i: int| 0 <= i < 3 implies #[trigger] field_possible(
                    lines,
                    VTimezone::schema_spec()[i],
                    Ok(fields[i]),
                ) by {
                    assert(field_possible(lines, schema_view(schema@)[i], Ok(
                        component.fields@[i].shape(),
                    )));
                }
            }
            let entries = VTimezone::schema_spec();
            lemma_field_fits(lines, entries[0], fields[0]);
            lemma_field_fits(lines, entries[1], fields[1]);
            lemma_field_fits(lines, entries[2], fields[2]);
        }
        let mut list = component.fields;
        let tzurl = into_maybe_text(take_last(&mut list));
        let last_modified = into_maybe_date(take_last(&mut list));
        let tzid = into_text(take_last(&mut list));
        let mut standard: Vec<Prop> = Vec::new();
        let mut daylight: Vec<Prop> = Vec::new();
        let mut k: usize = 0;
        assert(views.take(0) =~= Seq::<BlockView>::empty());
        while k < blocks.len()
            invariant
                k <= blocks@.len(),
                views == block_views(blocks@),
                observances_possible(views.take(k as int), "STANDARD"@, standard@),
                observances_possible(views.take(k as int), "DAYLIGHT"@, daylight@),
                forall|j: int| 0 <= j < k ==> is_observance_tag((#[trigger] views[j]).tag),
                forall|j: int| 0 <= j < k ==> #[trigger] block_may_succeed(views[j]),
                lines == line_views(bag.lines@),
                zone_fields_may_succeed(lines),
            decreases blocks@.len() - k,
        {
            let tag = chars_of(blocks[k].tag.as_str());
            let is_standard = is_literal(tag.as_slice(), "STANDARD");
            let is_daylight = is_literal(tag.as_slice(), "DAYLIGHT");
            proof {
                reveal_strlit("STANDARD");
                reveal_strlit("DAYLIGHT");
                assert("STANDARD"@[0] != "DAYLIGHT"@[0]);
                assert(views.take(k + 1).drop_last() =~= views.take(k as int));
                assert(views.take(k + 1).last() == views[k as int]);
            }
            if !is_standard && !is_daylight {
                assert(is_block_error(
                    views[k as int],
                    Error::UnsupportedComponentType(blocks@[k as int].tag),
                ));
                return Err(Error::UnsupportedComponentType(blocks[k].tag.clone()));
            }
            match Prop::from_bag(&blocks[k].bag) {
                Ok(p) => {
                    assert(is_prop_of(views[k as int].lines, p));
                    assert(block_may_succeed(views[k as int]));
                    let ghost before_standard = standard@;
                    let ghost before_daylight = daylight@;
                    if is_standard {
                        standard.push(p);
                        assert(standard@.drop_last() =~= before_standard);
                    } else {
                        daylight.push(p);
                        assert(daylight@.drop_last() =~= before_daylight);
                    }
                },
                Err(e) => {
                    assert(is_block_error(views[k as int], e));
                    return Err(e);
                },
            }
            k += 1;
        }
        assert(views.take(k as int) =~= views);
        Ok(
            VTimezone {
                tzid,
                last_modified,
                tzurl,
                standard,
                daylight,
                x_prop: component.x_prop,
                iana_prop: component.iana_prop,
            },
        )
    }
}

impl Default for VTimezone {
    fn default() -> (z: VTimezone)
        ensures
            z.is_blank(),
    {
        VTimezone::new()
    }
}

} // verus!
