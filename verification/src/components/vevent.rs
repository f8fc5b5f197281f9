//! The event component.
use vstd::prelude::*;
use crate::assembler::{
    assemble,
    assembly_possible,
    extensions,
    field_cannot_fail,
    field_possible,
    lemma_assembly_succeeds,
    line_views,
    schema_view,
    values_named,
    values_of,
    Cardinality,
    EntryView,
    Field,
    FieldShape,
    PropertyBag,
    SchemaEntry,
};
use crate::chars::texts;
use crate::components::{
    class_value,
    date_or_epoch,
    date_value,
    date_values,
    duration_value,
    entry,
    fields_possible,
    fits,
    geo_value,
    integer_value,
    into_date,
    into_dates,
    into_maybe_class,
    into_maybe_date,
    into_maybe_duration,
    into_maybe_geo,
    into_maybe_integer,
    into_maybe_priority,
    into_maybe_recur,
    into_maybe_status,
    into_maybe_text,
    into_maybe_transparency,
    into_text,
    into_texts,
    lemma_field_fits,
    parts_of,
    priority_value,
    read_parts,
    recur_value,
    shapes,
    status_value,
    take_last,
    text_value,
    text_values,
    transparency_value,
};
use crate::content_line::ContentLineView;
use crate::datetime::{instant_plus, is_sum_of, DateTime};
use crate::duration::{lemma_parsed_duration_wf, Duration};
use crate::error::{Error, ErrorView};
use crate::geo::Geo;
use crate::properties::Properties;
use crate::recur::Recur;
use crate::status::{Class, Status, TimeTransparency};
use crate::value::{Value, ValueKind};

verus! {

/// An event.
#[derive(Clone, Debug, PartialEq, Eq)]
pub struct VEvent {
    pub dtstamp: DateTime,
    pub uid: String,
    pub dtstart: DateTime,
    pub dtend: DateTime,
    pub class: Option<Class>,
    pub created: Option<DateTime>,
    pub description: Option<String>,
    pub geo: Option<Geo>,
    pub last_modified: Option<DateTime>,
    pub location: Option<String>,
    pub organizer: Option<String>,
    pub priority: Option<u8>,
    pub seq: Option<u32>,
    pub status: Option<Status>,
    pub summary: Option<String>,
    pub transp: Option<TimeTransparency>,
    pub url: Option<String>,
    pub recurid: Option<String>,
    pub rrule: Option<Recur>,
    pub attach: Vec<String>,
    pub attendee: Vec<String>,
    pub categories: Vec<String>,
    pub comment: Vec<String>,
    pub contact: Vec<String>,
    pub exdate: Vec<DateTime>,
    pub rstatus: Vec<String>,
    pub related: Vec<String>,
    pub resources: Vec<String>,
    pub rdate: Vec<String>,
    pub x_prop: Properties,
    pub iana_prop: Properties,
}

impl VEvent {
    /// Whether nothing is set: every date-time is the epoch, every text
    /// and list is empty, every optional field is absent.
    pub open spec fn is_blank(self) -> bool {
        &&& self.dtstamp == (DateTime { secs: 0, nanos: 0, offset: 0 })
        &&& self.uid@.len() == 0
        &&& self.dtstart == (DateTime { secs: 0, nanos: 0, offset: 0 })
        &&& self.dtend == (DateTime { secs: 0, nanos: 0, offset: 0 })
        &&& self.class is None
        &&& self.created is None
        &&& self.description is None
        &&& self.geo is None
        &&& self.last_modified is None
        &&& self.location is None
        &&& self.organizer is None
        &&& self.priority is None
        &&& self.seq is None
        &&& self.status is None
        &&& self.summary is None
        &&& self.transp is None
        &&& self.url is None
        &&& self.recurid is None
        &&& self.rrule is None
        &&& self.attach@.len() == 0
        &&& self.attendee@.len() == 0
        &&& self.categories@.len() == 0
        &&& self.comment@.len() == 0
        &&& self.contact@.len() == 0
        &&& self.exdate@.len() == 0
        &&& self.rstatus@.len() == 0
        &&& self.related@.len() == 0
        &&& self.resources@.len() == 0
        &&& self.rdate@.len() == 0
        &&& self.x_prop@ == Map::<Seq<char>, Seq<char>>::empty()
        &&& self.iana_prop@ == Map::<Seq<char>, Seq<char>>::empty()
    }

    /// The event with nothing set.
    #[must_use]
    pub fn new() -> (ev: VEvent)
        ensures
            ev.is_blank(),
    {
        VEvent {
            dtstamp: DateTime::epoch(),
            uid: String::new(),
            dtstart: DateTime::epoch(),
            dtend: DateTime::epoch(),
            class: None,
            created: None,
            description: None,
            geo: None,
            last_modified: None,
            location: None,
            organizer: None,
            priority: None,
            seq: None,
            status: None,
            summary: None,
            transp: None,
            url: None,
            recurid: None,
            rrule: None,
            attach: Vec::new(),
            attendee: Vec::new(),
            categories: Vec::new(),
            comment: Vec::new(),
            contact: Vec::new(),
            exdate: Vec::new(),
            rstatus: Vec::new(),
            related: Vec::new(),
            resources: Vec::new(),
            rdate: Vec::new(),
            x_prop: Properties::new(),
            iana_prop: Properties::new(),
        }
    }

    /// The schema of an event: its declared properties, in order.
    pub open spec fn schema_spec() -> Seq<EntryView> {
        seq![
            entry("DTSTAMP"@, Cardinality::Required, ValueKind::DateTime),
            entry("UID"@, Cardinality::Required, ValueKind::Raw),
            entry("DTSTART"@, Cardinality::Optional, ValueKind::DateTime),
            entry("DTEND"@, Cardinality::Optional, ValueKind::DateTime),
            entry("DURATION"@, Cardinality::Optional, ValueKind::Duration),
            entry("CLASS"@, Cardinality::Optional, ValueKind::Class),
            entry("CREATED"@, Cardinality::Optional, ValueKind::DateTime),
            entry("DESCRIPTION"@, Cardinality::Optional, ValueKind::Text),
            entry("GEO"@, Cardinality::Optional, ValueKind::Geo),
            entry("LAST-MODIFIED"@, Cardinality::Optional, ValueKind::DateTime),
            entry("LOCATION"@, Cardinality::Optional, ValueKind::Text),
            entry("ORGANIZER"@, Cardinality::Optional, ValueKind::Raw),
            entry("PRIORITY"@, Cardinality::Optional, ValueKind::Priority),
            entry("SEQ"@, Cardinality::Optional, ValueKind::Integer),
            entry("STATUS"@, Cardinality::Optional, ValueKind::Status),
            entry("SUMMARY"@, Cardinality::Optional, ValueKind::Text),
            entry("STRANSP"@, Cardinality::Optional, ValueKind::Transparency),
            entry("URL"@, Cardinality::Optional, ValueKind::Raw),
            entry("RECURID"@, Cardinality::Optional, ValueKind::Raw),
            entry("RRULE"@, Cardinality::Optional, ValueKind::Recur),
            entry("ATTACH"@, Cardinality::Repeated, ValueKind::Raw),
            entry("ATTENDEE"@, Cardinality::Repeated, ValueKind::Raw),
            entry("CATEGORIES"@, Cardinality::RepeatedFlat, ValueKind::Text),
            entry("COMMENT"@, Cardinality::Repeated, ValueKind::Text),
            entry("CONTACT"@, Cardinality::Repeated, ValueKind::Text),
            entry("EXDATE"@, Cardinality::RepeatedFlat, ValueKind::DateTime),
            entry("RSTATUS"@, Cardinality::Repeated, ValueKind::Raw),
            entry("RELATED-TO"@, Cardinality::Repeated, ValueKind::Raw),
            entry("RESOURCES"@, Cardinality::RepeatedFlat, ValueKind::Text),
            entry("RDATE"@, Cardinality::RepeatedFlat, ValueKind::Raw),
        ]
    }

    /// The schema of an event: its declared properties, in order.
    pub fn schema() -> (schema: Vec<SchemaEntry>)
        ensures
            schema_view(schema@) == VEvent::schema_spec(),
    {
        let mut schema: Vec<SchemaEntry> = Vec::new();
        schema.push(SchemaEntry::new("DTSTAMP", Cardinality::Required, ValueKind::DateTime));
        schema.push(SchemaEntry::new("UID", Cardinality::Required, ValueKind::Raw));
        schema.push(SchemaEntry::new("DTSTART", Cardinality::Optional, ValueKind::DateTime));
        schema.push(SchemaEntry::new("DTEND", Cardinality::Optional, ValueKind::DateTime));
        schema.push(SchemaEntry::new("DURATION", Cardinality::Optional, ValueKind::Duration));
        schema.push(SchemaEntry::new("CLASS", Cardinality::Optional, ValueKind::Class));
        schema.push(SchemaEntry::new("CREATED", Cardinality::Optional, ValueKind::DateTime));
        schema.push(SchemaEntry::new("DESCRIPTION", Cardinality::Optional, ValueKind::Text));
        schema.push(SchemaEntry::new("GEO", Cardinality::Optional, ValueKind::Geo));
        schema.push(SchemaEntry::new("LAST-MODIFIED", Cardinality::Optional, ValueKind::DateTime));
        schema.push(SchemaEntry::new("LOCATION", Cardinality::Optional, ValueKind::Text));
        schema.push(SchemaEntry::new("ORGANIZER", Cardinality::Optional, ValueKind::Raw));
        schema.push(SchemaEntry::new("PRIORITY", Cardinality::Optional, ValueKind::Priority));
        schema.push(SchemaEntry::new("SEQ", Cardinality::Optional, ValueKind::Integer));
        schema.push(SchemaEntry::new("STATUS", Cardinality::Optional, ValueKind::Status));
        schema.push(SchemaEntry::new("SUMMARY", Cardinality::Optional, ValueKind::Text));
        schema.push(SchemaEntry::new("STRANSP", Cardinality::Optional, ValueKind::Transparency));
        schema.push(SchemaEntry::new("URL", Cardinality::Optional, ValueKind::Raw));
        schema.push(SchemaEntry::new("RECURID", Cardinality::Optional, ValueKind::Raw));
        schema.push(SchemaEntry::new("RRULE", Cardinality::Optional, ValueKind::Recur));
        schema.push(SchemaEntry::new("ATTACH", Cardinality::Repeated, ValueKind::Raw));
        schema.push(SchemaEntry::new("ATTENDEE", Cardinality::Repeated, ValueKind::Raw));
        schema.push(SchemaEntry::new("CATEGORIES", Cardinality::RepeatedFlat, ValueKind::Text));
        schema.push(SchemaEntry::new("COMMENT", Cardinality::Repeated, ValueKind::Text));
        schema.push(SchemaEntry::new("CONTACT", Cardinality::Repeated, ValueKind::Text));
        schema.push(SchemaEntry::new("EXDATE", Cardinality::RepeatedFlat, ValueKind::DateTime));
        schema.push(SchemaEntry::new("RSTATUS", Cardinality::Repeated, ValueKind::Raw));
        schema.push(SchemaEntry::new("RELATED-TO", Cardinality::Repeated, ValueKind::Raw));
        schema.push(SchemaEntry::new("RESOURCES", Cardinality::RepeatedFlat, ValueKind::Text));
        schema.push(SchemaEntry::new("RDATE", Cardinality::RepeatedFlat, ValueKind::Raw));
        assert(schema_view(schema@) =~= VEvent::schema_spec());
        schema
    }

    /// Whether the event holds the assembled fields, one for each entry of
    /// the schema. The end of the event is stated by [`VEvent::end_rule`].
    pub open spec fn holds(self, fields: Seq<FieldShape>) -> bool {
        &&& fields.len() == 30
        &&& fields[0] == FieldShape::One(Value::DateTime(self.dtstamp))
        &&& fields[1] == FieldShape::One(Value::Text(self.uid))
        &&& self.dtstart == date_or_epoch(fields[2])
        &&& fields[5] == FieldShape::Maybe(class_value(self.class))
        &&& fields[6] == FieldShape::Maybe(date_value(self.created))
        &&& fields[7] == FieldShape::Maybe(text_value(self.description))
        &&& fields[8] == FieldShape::Maybe(geo_value(self.geo))
        &&& fields[9] == FieldShape::Maybe(date_value(self.last_modified))
        &&& fields[10] == FieldShape::Maybe(text_value(self.location))
        &&& fields[11] == FieldShape::Maybe(text_value(self.organizer))
        &&& fields[12] == FieldShape::Maybe(priority_value(self.priority))
        &&& fields[13] == FieldShape::Maybe(integer_value(self.seq))
        &&& fields[14] == FieldShape::Maybe(status_value(self.status))
        &&& fields[15] == FieldShape::Maybe(text_value(self.summary))
        &&& fields[16] == FieldShape::Maybe(transparency_value(self.transp))
        &&& fields[17] == FieldShape::Maybe(text_value(self.url))
        &&& fields[18] == FieldShape::Maybe(text_value(self.recurid))
        &&& fields[19] == FieldShape::Maybe(recur_value(self.rrule))
        &&& fields[20] == FieldShape::Many(text_values(self.attach@))
        &&& fields[21] == FieldShape::Many(text_values(self.attendee@))
        &&& fields[22] == FieldShape::Many(text_values(self.categories@))
        &&& fields[23] == FieldShape::Many(text_values(self.comment@))
        &&& fields[24] == FieldShape::Many(text_values(self.contact@))
        &&& fields[25] == FieldShape::Many(date_values(self.exdate@))
        &&& fields[26] == FieldShape::Many(text_values(self.rstatus@))
        &&& fields[27] == FieldShape::Many(text_values(self.related@))
        &&& fields[28] == FieldShape::Many(text_values(self.resources@))
        &&& fields[29] == FieldShape::Many(text_values(self.rdate@))
    }

    /// The end of the event: the start moved by the duration where one is
    /// written, else the end that is written, else the epoch.
    pub open spec fn end_rule(self, end: FieldShape, span: FieldShape) -> bool {
        match span {
            FieldShape::Maybe(Some(Value::Duration(d))) => is_sum_of(
                self.dtstart,
                d.total(),
                self.dtend,
            ),
            _ => self.dtend == date_or_epoch(end),
        }
    }

    /// Whether the fields have the shapes that the schema declares.
    pub open spec fn fits_schema(fields: Seq<FieldShape>) -> bool {
        &&& fields.len() == 30
        &&& fits(fields[0], Cardinality::Required, ValueKind::DateTime)
        &&& fits(fields[1], Cardinality::Required, ValueKind::Raw)
        &&& fits(fields[2], Cardinality::Optional, ValueKind::DateTime)
        &&& fits(fields[3], Cardinality::Optional, ValueKind::DateTime)
        &&& fits(fields[4], Cardinality::Optional, ValueKind::Duration)
        &&& fits(fields[5], Cardinality::Optional, ValueKind::Class)
        &&& fits(fields[6], Cardinality::Optional, ValueKind::DateTime)
        &&& fits(fields[7], Cardinality::Optional, ValueKind::Text)
        &&& fits(fields[8], Cardinality::Optional, ValueKind::Geo)
        &&& fits(fields[9], Cardinality::Optional, ValueKind::DateTime)
        &&& fits(fields[10], Cardinality::Optional, ValueKind::Text)
        &&& fits(fields[11], Cardinality::Optional, ValueKind::Raw)
        &&& fits(fields[12], Cardinality::Optional, ValueKind::Priority)
        &&& fits(fields[13], Cardinality::Optional, ValueKind::Integer)
        &&& fits(fields[14], Cardinality::Optional, ValueKind::Status)
        &&& fits(fields[15], Cardinality::Optional, ValueKind::Text)
        &&& fits(fields[16], Cardinality::Optional, ValueKind::Transparency)
        &&& fits(fields[17], Cardinality::Optional, ValueKind::Raw)
        &&& fits(fields[18], Cardinality::Optional, ValueKind::Raw)
        &&& fits(fields[19], Cardinality::Optional, ValueKind::Recur)
        &&& fits(fields[20], Cardinality::Repeated, ValueKind::Raw)
        &&& fits(fields[21], Cardinality::Repeated, ValueKind::Raw)
        &&& fits(fields[22], Cardinality::RepeatedFlat, ValueKind::Text)
        &&& fits(fields[23], Cardinality::Repeated, ValueKind::Text)
        &&& fits(fields[24], Cardinality::Repeated, ValueKind::Text)
        &&& fits(fields[25], Cardinality::RepeatedFlat, ValueKind::DateTime)
        &&& fits(fields[26], Cardinality::Repeated, ValueKind::Raw)
        &&& fits(fields[27], Cardinality::Repeated, ValueKind::Raw)
        &&& fits(fields[28], Cardinality::RepeatedFlat, ValueKind::Text)
        &&& fits(fields[29], Cardinality::RepeatedFlat, ValueKind::Raw)
    }

    /// The event of the assembled fields and buckets, its end still the
    /// epoch, with the end and the duration that were written.
    fn from_fields(
        fields: Vec<Field>,
        x_prop: Properties,
        iana_prop: Properties,
    ) -> (r: (VEvent, Option<DateTime>, Option<Duration>))
        requires
            VEvent::fits_schema(shapes(fields@)),
        ensures
            r.0.holds(shapes(fields@)),
            r.0.x_prop == x_prop,
            r.0.iana_prop == iana_prop,
            r.0.dtend == (DateTime { secs: 0, nanos: 0, offset: 0 }),
            shapes(fields@)[3] == FieldShape::Maybe(date_value(r.1)),
            shapes(fields@)[4] == FieldShape::Maybe(duration_value(r.2)),
    {
        let ghost all = shapes(fields@);
        let mut fields = fields;
        assert(fields@.last().shape() == all[29]);
        let rdate = into_texts(take_last(&mut fields));
        assert(fields@.last().shape() == all[28]);
        let resources = into_texts(take_last(&mut fields));
        assert(fields@.last().shape() == all[27]);
        let related = into_texts(take_last(&mut fields));
        assert(fields@.last().shape() == all[26]);
        let rstatus = into_texts(take_last(&mut fields));
        assert(fields@.last().shape() == all[25]);
        let exdate = into_dates(take_last(&mut fields));
        assert(fields@.last().shape() == all[24]);
        let contact = into_texts(take_last(&mut fields));
        assert(fields@.last().shape() == all[23]);
        let comment = into_texts(take_last(&mut fields));
        assert(fields@.last().shape() == all[22]);
        let categories = into_texts(take_last(&mut fields));
        assert(fields@.last().shape() == all[21]);
        let attendee = into_texts(take_last(&mut fields));
        assert(fields@.last().shape() == all[20]);
        let attach = into_texts(take_last(&mut fields));
        assert(fields@.last().shape() == all[19]);
        let rrule = into_maybe_recur(take_last(&mut fields));
        assert(fields@.last().shape() == all[18]);
        let recurid = into_maybe_text(take_last(&mut fields));
        assert(fields@.last().shape() == all[17]);
        let url = into_maybe_text(take_last(&mut fields));
        assert(fields@.last().shape() == all[16]);
        let transp = into_maybe_transparency(take_last(&mut fields));
        assert(fields@.last().shape() == all[15]);
        let summary = into_maybe_text(take_last(&mut fields));
        assert(fields@.last().shape() == all[14]);
        let status = into_maybe_status(take_last(&mut fields));
        assert(fields@.last().shape() == all[13]);
        let seq = into_maybe_integer(take_last(&mut fields));
        assert(fields@.last().shape() == all[12]);
        let priority = into_maybe_priority(take_last(&mut fields));
        assert(fields@.last().shape() == all[11]);
        let organizer = into_maybe_text(take_last(&mut fields));
        assert(fields@.last().shape() == all[10]);
        let location = into_maybe_text(take_last(&mut fields));
        assert(fields@.last().shape() == all[9]);
        let last_modified = into_maybe_date(take_last(&mut fields));
        assert(fields@.last().shape() == all[8]);
        let geo = into_maybe_geo(take_last(&mut fields));
        assert(fields@.last().shape() == all[7]);
        let description = into_maybe_text(take_last(&mut fields));
        assert(fields@.last().shape() == all[6]);
        let created = into_maybe_date(take_last(&mut fields));
        assert(fields@.last().shape() == all[5]);
        let class = into_maybe_class(take_last(&mut fields));
        assert(fields@.last().shape() == all[4]);
        let span = into_maybe_duration(take_last(&mut fields));
        assert(fields@.last().shape() == all[3]);
        let end = into_maybe_date(take_last(&mut fields));
        assert(fields@.last().shape() == all[2]);
        let dtstart = into_maybe_date(take_last(&mut fields));
        assert(fields@.last().shape() == all[1]);
        let uid = into_text(take_last(&mut fields));
        assert(fields@.last().shape() == all[0]);
        let dtstamp = into_date(take_last(&mut fields));
        let dtstart = match dtstart {
            Some(d) => d,
            None => DateTime::epoch(),
        };
        let ev = VEvent {
            dtstamp,
            uid,
            dtstart,
            dtend: DateTime::epoch(),
            class,
            created,
            description,
            geo,
            last_modified,
            location,
            organizer,
            priority,
            seq,
            status,
            summary,
            transp,
            url,
            recurid,
            rrule,
            attach,
            attendee,
            categories,
            comment,
            contact,
            exdate,
            rstatus,
            related,
            resources,
            rdate,
            x_prop,
            iana_prop,
        };
        (ev, end, span)
    }
}

impl Default for VEvent {
    fn default() -> (ev: VEvent)
        ensures
            ev.is_blank(),
    {
        VEvent::new()
    }
}

/// `ev` is an event that `lines` write: it holds possible fields of the
/// lines under the schema of events, its end follows from them, and its
/// buckets hold the lines that the schema does not declare.
pub open spec fn is_event_of(lines: Seq<ContentLineView>, ev: VEvent) -> bool {
    exists|fields: Seq<FieldShape>|
        {
            &&& #[trigger] fields_possible(lines, VEvent::schema_spec(), fields)
            &&& ev.holds(fields)
            &&& ev.end_rule(fields[3], fields[4])
            &&& ev.x_prop@ == extensions(lines, VEvent::schema_spec(), true)
            &&& ev.iana_prop@ == extensions(lines, VEvent::schema_spec(), false)
        }
}

/// Whether the start of the fields cannot be moved by their duration:
/// a duration is written, and chrono has no sum of the start and it.
pub open spec fn end_is_missing(fields: Seq<FieldShape>) -> bool {
    fields[4] matches FieldShape::Maybe(Some(Value::Duration(d))) && instant_plus(
        date_or_epoch(fields[2]).secs,
        date_or_epoch(fields[2]).nanos,
        d.total() as i64,
    ) is None
}

/// `e` is the error of an event whose fields can all be made, but whose
/// start cannot be moved by its duration: `InvalidDuration` with the text
/// of the duration.
pub open spec fn is_end_error(lines: Seq<ContentLineView>, e: Error) -> bool {
    &&& values_named(lines, "DURATION"@).len() > 0
    &&& e@ == ErrorView::InvalidDuration(values_named(lines, "DURATION"@).last())
    &&& exists|fields: Seq<FieldShape>|
        #[trigger] fields_possible(lines, VEvent::schema_spec(), fields) && end_is_missing(fields)
}

/// `r` is an outcome of making an event from `lines`.
pub open spec fn event_possible(lines: Seq<ContentLineView>, r: Result<VEvent, Error>) -> bool {
    match r {
        Ok(ev) => is_event_of(lines, ev),
        Err(e) => assembly_possible(lines, VEvent::schema_spec(), Err(e)) || is_end_error(
            lines,
            e,
        ),
    }
}

/// `r` is an outcome of parsing the raw text of an event block.
pub open spec fn event_text_possible(raw: Seq<char>, r: Result<VEvent, Error>) -> bool {
    match parts_of(raw, "VEVENT"@) {
        Err(e) => r matches Err(x) && x@ == e,
        Ok(parts) => event_possible(parts.own, r),
    }
}

impl VEvent {
    /// Makes an event from the lines of its block. Where a duration is
    /// written, the end is the start moved by it, whatever end is written.
    pub fn from_bag(bag: &PropertyBag) -> (r: Result<VEvent, Error>)
        ensures
            event_possible(line_views(bag.lines@), r),
    {
        let ghost lines = line_views(bag.lines@);
        let schema = VEvent::schema();
        let component = match assemble(bag, &schema) {
            Ok(c) => c,
            Err(e) => {
                return Err(e);
            },
        };
        let ghost fields = shapes(component.fields@);
        proof {
            assert(fields_possible(lines, VEvent::schema_spec(), fields)) by {
                assert forall|i: int| 0 <= i < 30 implies #[trigger] field_possible(
                    lines,
                    VEvent::schema_spec()[i],
                    Ok(fields[i]),
                ) by {
                    assert(field_possible(lines, schema_view(schema@)[i], Ok(
                        component.fields@[i].shape(),
                    )));
                }
            }
            VEvent::lemma_fits(lines, fields);
        }
        let (mut ev, end, span) = VEvent::from_fields(
            component.fields,
            component.x_prop,
            component.iana_prop,
        );
        match span {
            Some(d) => {
                proof {
                    assert(field_possible(lines, VEvent::schema_spec()[4], Ok(fields[4])));
                    lemma_parsed_duration_wf(values_named(lines, "DURATION"@).last());
                }
                match ev.dtstart.plus(&d) {
                    Some(moved) => {
                        ev.dtend = moved;
                    },
                    None => {
                        let written = values_of(&bag.lines, "DURATION");
                        let n = written.len();
                        assert(texts(written@).last() == written@[n - 1]@);
                        assert(end_is_missing(fields));
                        return Err(Error::InvalidDuration(written[n - 1].clone()));
                    },
                }
            },
            None => {
                match end {
                    Some(t) => {
                        ev.dtend = t;
                    },
                    None => {},
                }
            },
        }
        Ok(ev)
    }

    /// Where no entry of the schema can fail and no duration is written, the event is made.
    pub proof fn lemma_succeeds(lines: Seq<ContentLineView>, r: Result<VEvent, Error>)
        requires
            event_possible(lines, r),
            forall|i: int|
                0 <= i < VEvent::schema_spec().len() ==> field_cannot_fail(
                    lines,
                    #[trigger] VEvent::schema_spec()[i],
                ),
            values_named(lines, "DURATION"@).len() == 0,
        ensures
            r is Ok,
    {
        if let Err(e) = r {
            lemma_assembly_succeeds(lines, VEvent::schema_spec(), Err(e));
        }
    }

    /// Fields that assembly gives under the schema of events have the
    /// shapes that the schema declares.
    pub proof fn lemma_fits(lines: Seq<ContentLineView>, fields: Seq<FieldShape>)
        requires
            fields_possible(lines, VEvent::schema_spec(), fields),
        ensures
            VEvent::fits_schema(fields),
    {
        let schema = VEvent::schema_spec();
        assert forall|i: int| 0 <= i < 30 implies fits(
            fields[i],
            schema[i].cardinality,
            schema[i].kind,
        ) by {
            assert(field_possible(lines, schema[i], Ok(fields[i])));
            lemma_field_fits(lines, schema[i], fields[i]);
        }
        assert(fits(fields[0], schema[0].cardinality, schema[0].kind));
        assert(fits(fields[1], schema[1].cardinality, schema[1].kind));
        assert(fits(fields[2], schema[2].cardinality, schema[2].kind));
        assert(fits(fields[3], schema[3].cardinality, schema[3].kind));
        assert(fits(fields[4], schema[4].cardinality, schema[4].kind));
        assert(fits(fields[5], schema[5].cardinality, schema[5].kind));
        assert(fits(fields[6], schema[6].cardinality, schema[6].kind));
        assert(fits(fields[7], schema[7].cardinality, schema[7].kind));
        assert(fits(fields[8], schema[8].cardinality, schema[8].kind));
        assert(fits(fields[9], schema[9].cardinality, schema[9].kind));
        assert(fits(fields[10], schema[10].cardinality, schema[10].kind));
        assert(fits(fields[11], schema[11].cardinality, schema[11].kind));
        assert(fits(fields[12], schema[12].cardinality, schema[12].kind));
        assert(fits(fields[13], schema[13].cardinality, schema[13].kind));
        assert(fits(fields[14], schema[14].cardinality, schema[14].kind));
        assert(fits(fields[15], schema[15].cardinality, schema[15].kind));
        assert(fits(fields[16], schema[16].cardinality, schema[16].kind));
        assert(fits(fields[17], schema[17].cardinality, schema[17].kind));
        assert(fits(fields[18], schema[18].cardinality, schema[18].kind));
        assert(fits(fields[19], schema[19].cardinality, schema[19].kind));
        assert(fits(fields[20], schema[20].cardinality, schema[20].kind));
        assert(fits(fields[21], schema[21].cardinality, schema[21].kind));
        assert(fits(fields[22], schema[22].cardinality, schema[22].kind));
        assert(fits(fields[23], schema[23].cardinality, schema[23].kind));
        assert(fits(fields[24], schema[24].cardinality, schema[24].kind));
        assert(fits(fields[25], schema[25].cardinality, schema[25].kind));
        assert(fits(fields[26], schema[26].cardinality, schema[26].kind));
        assert(fits(fields[27], schema[27].cardinality, schema[27].kind));
        assert(fits(fields[28], schema[28].cardinality, schema[28].kind));
        assert(fits(fields[29], schema[29].cardinality, schema[29].kind));
    }

    /// Parses the raw text of an event block, `BEGIN:VEVENT` to
    /// `END:VEVENT`. Blocks nested in it are passed over.
    pub fn parse(raw: &str) -> (r: Result<VEvent, Error>)
        ensures
            event_text_possible(raw@, r),
    {
        match read_parts(raw, "VEVENT") {
            Ok((own, _)) => VEvent::from_bag(&PropertyBag::new(own)),
            Err(e) => Err(e),
        }
    }
}

} // verus!
