//! The journal component.
use vstd::prelude::*;
use crate::assembler::{
    assemble,
    assembly_possible,
    extensions,
    field_cannot_fail,
    field_possible,
    lemma_assembly_succeeds,
    line_views,
    schema_view,
    Cardinality,
    EntryView,
    Field,
    FieldShape,
    PropertyBag,
    SchemaEntry,
};
use crate::components::{
    class_value,
    date_or_epoch,
    date_value,
    date_values,
    entry,
    fields_possible,
    fits,
    integer_value,
    into_date,
    into_dates,
    into_maybe_class,
    into_maybe_date,
    into_maybe_integer,
    into_maybe_recur,
    into_maybe_status,
    into_maybe_text,
    into_text,
    into_texts,
    lemma_field_fits,
    parts_of,
    read_parts,
    recur_value,
    shapes,
    status_value,
    take_last,
    text_value,
    text_values,
};
use crate::content_line::ContentLineView;
use crate::datetime::DateTime;
use crate::error::Error;
use crate::properties::Properties;
use crate::recur::Recur;
use crate::status::{Class, Status};
use crate::value::{Value, ValueKind};

verus! {

/// A journal entry.
#[derive(Clone, Debug, PartialEq, Eq)]
pub struct VJournal {
    pub dtstamp: DateTime,
    pub uid: String,
    pub class: Option<Class>,
    pub created: Option<DateTime>,
    pub dtstart: DateTime,
    pub last_modified: Option<DateTime>,
    pub organizer: Option<String>,
    pub recurid: Option<String>,
    pub seq: Option<u32>,
    pub status: Option<Status>,
    pub summary: Option<String>,
    pub url: Option<String>,
    pub rrule: Option<Recur>,
    pub attach: Vec<String>,
    pub attendee: Vec<String>,
    pub categories: Vec<String>,
    pub comment: Vec<String>,
    pub contact: Vec<String>,
    pub description: Vec<String>,
    pub exdate: Vec<DateTime>,
    pub related: Vec<String>,
    pub rdate: Vec<String>,
    pub rstatus: Vec<String>,
    pub x_prop: Properties,
    pub iana_prop: Properties,
}

impl VJournal {
    /// Whether nothing is set: every date-time is the epoch, every text
    /// and list is empty, every optional field is absent.
    pub open spec fn is_blank(self) -> bool {
        &&& self.dtstamp == (DateTime { secs: 0, nanos: 0, offset: 0 })
        &&& self.uid@.len() == 0
        &&& self.class is None
        &&& self.created is None
        &&& self.dtstart == (DateTime { secs: 0, nanos: 0, offset: 0 })
        &&& self.last_modified is None
        &&& self.organizer is None
        &&& self.recurid is None
        &&& self.seq is None
        &&& self.status is None
        &&& self.summary is None
        &&& self.url is None
        &&& self.rrule is None
        &&& self.attach@.len() == 0
        &&& self.attendee@.len() == 0
        &&& self.categories@.len() == 0
        &&& self.comment@.len() == 0
        &&& self.contact@.len() == 0
        &&& self.description@.len() == 0
        &&& self.exdate@.len() == 0
        &&& self.related@.len() == 0
        &&& self.rdate@.len() == 0
        &&& self.rstatus@.len() == 0
        &&& self.x_prop@ == Map::<Seq<char>, Seq<char>>::empty()
        &&& self.iana_prop@ == Map::<Seq<char>, Seq<char>>::empty()
    }

    /// The journal entry with nothing set.
    #[must_use]
    pub fn new() -> (j: VJournal)
        ensures
            j.is_blank(),
    {
        VJournal {
            dtstamp: DateTime::epoch(),
            uid: String::new(),
            class: None,
            created: None,
            dtstart: DateTime::epoch(),
            last_modified: None,
            organizer: None,
            recurid: None,
            seq: None,
            status: None,
            summary: None,
            url: None,
            rrule: None,
            attach: Vec::new(),
            attendee: Vec::new(),
            categories: Vec::new(),
            comment: Vec::new(),
            contact: Vec::new(),
            description: Vec::new(),
            exdate: Vec::new(),
            related: Vec::new(),
            rdate: Vec::new(),
            rstatus: Vec::new(),
            x_prop: Properties::new(),
            iana_prop: Properties::new(),
        }
    }

    /// The schema of a journal entry: its declared properties, in order.
    pub open spec fn schema_spec() -> Seq<EntryView> {
        seq![
            entry("DTSTAMP"@, Cardinality::Required, ValueKind::DateTime),
            entry("UID"@, Cardinality::Required, ValueKind::Raw),
            entry("CLASS"@, Cardinality::Optional, ValueKind::Class),
            entry("CREATED"@, Cardinality::Optional, ValueKind::DateTime),
            entry("DTSTART"@, Cardinality::Optional, ValueKind::DateTime),
            entry("LAST-MODIFIED"@, Cardinality::Optional, ValueKind::DateTime),
            entry("ORGANIZER"@, Cardinality::Optional, ValueKind::Raw),
            entry("RECURID"@, Cardinality::Optional, ValueKind::Raw),
            entry("SEQ"@, Cardinality::Optional, ValueKind::Integer),
            entry("STATUS"@, Cardinality::Optional, ValueKind::Status),
            entry("SUMMARY"@, Cardinality::Optional, ValueKind::Text),
            entry("URL"@, Cardinality::Optional, ValueKind::Raw),
            entry("RRULE"@, Cardinality::Optional, ValueKind::Recur),
            entry("ATTACH"@, Cardinality::Repeated, ValueKind::Raw),
            entry("ATTENDEE"@, Cardinality::Repeated, ValueKind::Raw),
            entry("CATEGORIES"@, Cardinality::RepeatedFlat, ValueKind::Text),
            entry("COMMENT"@, Cardinality::Repeated, ValueKind::Text),
            entry("CONTACT"@, Cardinality::Repeated, ValueKind::Text),
            entry("DESCRIPTION"@, Cardinality::Repeated, ValueKind::Text),
            entry("EXDATE"@, Cardinality::RepeatedFlat, ValueKind::DateTime),
            entry("RELATED-TO"@, Cardinality::Repeated, ValueKind::Raw),
            entry("RDATE"@, Cardinality::RepeatedFlat, ValueKind::Raw),
            entry("RSTATUS"@, Cardinality::Repeated, ValueKind::Raw),
        ]
    }

    /// The schema of a journal entry: its declared properties, in order.
    pub fn schema() -> (schema: Vec<SchemaEntry>)
        ensures
            schema_view(schema@) == VJournal::schema_spec(),
    {
        let mut schema: Vec<SchemaEntry> = Vec::new();
        schema.push(SchemaEntry::new("DTSTAMP", Cardinality::Required, ValueKind::DateTime));
        schema.push(SchemaEntry::new("UID", Cardinality::Required, ValueKind::Raw));
        schema.push(SchemaEntry::new("CLASS", Cardinality::Optional, ValueKind::Class));
        schema.push(SchemaEntry::new("CREATED", Cardinality::Optional, ValueKind::DateTime));
        schema.push(SchemaEntry::new("DTSTART", Cardinality::Optional, ValueKind::DateTime));
        schema.push(SchemaEntry::new("LAST-MODIFIED", Cardinality::Optional, ValueKind::DateTime));
        schema.push(SchemaEntry::new("ORGANIZER", Cardinality::Optional, ValueKind::Raw));
        schema.push(SchemaEntry::new("RECURID", Cardinality::Optional, ValueKind::Raw));
        schema.push(SchemaEntry::new("SEQ", Cardinality::Optional, ValueKind::Integer));
        schema.push(SchemaEntry::new("STATUS", Cardinality::Optional, ValueKind::Status));
        schema.push(SchemaEntry::new("SUMMARY", Cardinality::Optional, ValueKind::Text));
        schema.push(SchemaEntry::new("URL", Cardinality::Optional, ValueKind::Raw));
        schema.push(SchemaEntry::new("RRULE", Cardinality::Optional, ValueKind::Recur));
        schema.push(SchemaEntry::new("ATTACH", Cardinality::Repeated, ValueKind::Raw));
        schema.push(SchemaEntry::new("ATTENDEE", Cardinality::Repeated, ValueKind::Raw));
        schema.push(SchemaEntry::new("CATEGORIES", Cardinality::RepeatedFlat, ValueKind::Text));
        schema.push(SchemaEntry::new("COMMENT", Cardinality::Repeated, ValueKind::Text));
        schema.push(SchemaEntry::new("CONTACT", Cardinality::Repeated, ValueKind::Text));
        schema.push(SchemaEntry::new("DESCRIPTION", Cardinality::Repeated, ValueKind::Text));
        schema.push(SchemaEntry::new("EXDATE", Cardinality::RepeatedFlat, ValueKind::DateTime));
        schema.push(SchemaEntry::new("RELATED-TO", Cardinality::Repeated, ValueKind::Raw));
        schema.push(SchemaEntry::new("RDATE", Cardinality::RepeatedFlat, ValueKind::Raw));
        schema.push(SchemaEntry::new("RSTATUS", Cardinality::Repeated, ValueKind::Raw));
        assert(schema_view(schema@) =~= VJournal::schema_spec());
        schema
    }

    /// Whether the journal entry holds the assembled fields, one for each
    /// entry of the schema.
    pub open spec fn holds(self, fields: Seq<FieldShape>) -> bool {
        &&& fields.len() == 23
        &&& fields[0] == FieldShape::One(Value::DateTime(self.dtstamp))
        &&& fields[1] == FieldShape::One(Value::Text(self.uid))
        &&& fields[2] == FieldShape::Maybe(class_value(self.class))
        &&& fields[3] == FieldShape::Maybe(date_value(self.created))
        &&& self.dtstart == date_or_epoch(fields[4])
        &&& fields[5] == FieldShape::Maybe(date_value(self.last_modified))
        &&& fields[6] == FieldShape::Maybe(text_value(self.organizer))
        &&& fields[7] == FieldShape::Maybe(text_value(self.recurid))
        &&& fields[8] == FieldShape::Maybe(integer_value(self.seq))
        &&& fields[9] == FieldShape::Maybe(status_value(self.status))
        &&& fields[10] == FieldShape::Maybe(text_value(self.summary))
        &&& fields[11] == FieldShape::Maybe(text_value(self.url))
        &&& fields[12] == FieldShape::Maybe(recur_value(self.rrule))
        &&& fields[13] == FieldShape::Many(text_values(self.attach@))
        &&& fields[14] == FieldShape::Many(text_values(self.attendee@))
        &&& fields[15] == FieldShape::Many(text_values(self.categories@))
        &&& fields[16] == FieldShape::Many(text_values(self.comment@))
        &&& fields[17] == FieldShape::Many(text_values(self.contact@))
        &&& fields[18] == FieldShape::Many(text_values(self.description@))
        &&& fields[19] == FieldShape::Many(date_values(self.exdate@))
        &&& fields[20] == FieldShape::Many(text_values(self.related@))
        &&& fields[21] == FieldShape::Many(text_values(self.rdate@))
        &&& fields[22] == FieldShape::Many(text_values(self.rstatus@))
    }

    /// Whether the fields have the shapes that the schema declares.
    pub open spec fn fits_schema(fields: Seq<FieldShape>) -> bool {
        &&& fields.len() == 23
        &&& fits(fields[0], Cardinality::Required, ValueKind::DateTime)
        &&& fits(fields[1], Cardinality::Required, ValueKind::Raw)
        &&& fits(fields[2], Cardinality::Optional, ValueKind::Class)
        &&& fits(fields[3], Cardinality::Optional, ValueKind::DateTime)
        &&& fits(fields[4], Cardinality::Optional, ValueKind::DateTime)
        &&& fits(fields[5], Cardinality::Optional, ValueKind::DateTime)
        &&& fits(fields[6], Cardinality::Optional, ValueKind::Raw)
        &&& fits(fields[7], Cardinality::Optional, ValueKind::Raw)
        &&& fits(fields[8], Cardinality::Optional, ValueKind::Integer)
        &&& fits(fields[9], Cardinality::Optional, ValueKind::Status)
        &&& fits(fields[10], Cardinality::Optional, ValueKind::Text)
        &&& fits(fields[11], Cardinality::Optional, ValueKind::Raw)
        &&& fits(fields[12], Cardinality::Optional, ValueKind::Recur)
        &&& fits(fields[13], Cardinality::Repeated, ValueKind::Raw)
        &&& fits(fields[14], Cardinality::Repeated, ValueKind::Raw)
        &&& fits(fields[15], Cardinality::RepeatedFlat, ValueKind::Text)
        &&& fits(fields[16], Cardinality::Repeated, ValueKind::Text)
        &&& fits(fields[17], Cardinality::Repeated, ValueKind::Text)
        &&& fits(fields[18], Cardinality::Repeated, ValueKind::Text)
        &&& fits(fields[19], Cardinality::RepeatedFlat, ValueKind::DateTime)
        &&& fits(fields[20], Cardinality::Repeated, ValueKind::Raw)
        &&& fits(fields[21], Cardinality::RepeatedFlat, ValueKind::Raw)
        &&& fits(fields[22], Cardinality::Repeated, ValueKind::Raw)
    }

    /// The journal entry of the assembled fields and buckets.
    fn from_fields(
        fields: Vec<Field>,
        x_prop: Properties,
        iana_prop: Properties,
    ) -> (r: VJournal)
        requires
            VJournal::fits_schema(shapes(fields@)),
        ensures
            r.holds(shapes(fields@)),
            r.x_prop == x_prop,
            r.iana_prop == iana_prop,
    {
        let ghost all = shapes(fields@);
        let mut fields = fields;
        assert(fields@.last().shape() == all[22]);
        let rstatus = into_texts(take_last(&mut fields));
        assert(fields@.last().shape() == all[21]);
        let rdate = into_texts(take_last(&mut fields));
        assert(fields@.last().shape() == all[20]);
        let related = into_texts(take_last(&mut fields));
        assert(fields@.last().shape() == all[19]);
        let exdate = into_dates(take_last(&mut fields));
        assert(fields@.last().shape() == all[18]);
        let description = into_texts(take_last(&mut fields));
        assert(fields@.last().shape() == all[17]);
        let contact = into_texts(take_last(&mut fields));
        assert(fields@.last().shape() == all[16]);
        let comment = into_texts(take_last(&mut fields));
        assert(fields@.last().shape() == all[15]);
        let categories = into_texts(take_last(&mut fields));
        assert(fields@.last().shape() == all[14]);
        let attendee = into_texts(take_last(&mut fields));
        assert(fields@.last().shape() == all[13]);
        let attach = into_texts(take_last(&mut fields));
        assert(fields@.last().shape() == all[12]);
        let rrule = into_maybe_recur(take_last(&mut fields));
        assert(fields@.last().shape() == all[11]);
        let url = into_maybe_text(take_last(&mut fields));
        assert(fields@.last().shape() == all[10]);
        let summary = into_maybe_text(take_last(&mut fields));
        assert(fields@.last().shape() == all[9]);
        let status = into_maybe_status(take_last(&mut fields));
        assert(fields@.last().shape() == all[8]);
        let seq = into_maybe_integer(take_last(&mut fields));
        assert(fields@.last().shape() == all[7]);
        let recurid = into_maybe_text(take_last(&mut fields));
        assert(fields@.last().shape() == all[6]);
        let organizer = into_maybe_text(take_last(&mut fields));
        assert(fields@.last().shape() == all[5]);
        let last_modified = into_maybe_date(take_last(&mut fields));
        assert(fields@.last().shape() == all[4]);
        let dtstart = into_maybe_date(take_last(&mut fields));
        assert(fields@.last().shape() == all[3]);
        let created = into_maybe_date(take_last(&mut fields));
        assert(fields@.last().shape() == all[2]);
        let class = into_maybe_class(take_last(&mut fields));
        assert(fields@.last().shape() == all[1]);
        let uid = into_text(take_last(&mut fields));
        assert(fields@.last().shape() == all[0]);
        let dtstamp = into_date(take_last(&mut fields));
        let dtstart = match dtstart {
            Some(d) => d,
            None => DateTime::epoch(),
        };
        let j = VJournal {
            dtstamp,
            uid,
            class,
            created,
            dtstart,
            last_modified,
            organizer,
            recurid,
            seq,
            status,
            summary,
            url,
            rrule,
            attach,
            attendee,
            categories,
            comment,
            contact,
            description,
            exdate,
            related,
            rdate,
            rstatus,
            x_prop,
            iana_prop,
        };
        j
    }
}

impl Default for VJournal {
    fn default() -> (j: VJournal)
        ensures
            j.is_blank(),
    {
        VJournal::new()
    }
}

/// `j` is a journal entry that `lines` write: it holds possible fields of
/// the lines under the schema of journal entries, and its buckets hold the
/// lines that the schema does not declare.
pub open spec fn is_journal_of(lines: Seq<ContentLineView>, j: VJournal) -> bool {
    exists|fields: Seq<FieldShape>|
        {
            &&& #[trigger] fields_possible(lines, VJournal::schema_spec(), fields)
            &&& j.holds(fields)
            &&& j.x_prop@ == extensions(lines, VJournal::schema_spec(), true)
            &&& j.iana_prop@ == extensions(lines, VJournal::schema_spec(), false)
        }
}

/// `r` is an outcome of making a journal entry from `lines`.
pub open spec fn journal_possible(lines: Seq<ContentLineView>, r: Result<VJournal, Error>) -> bool {
    match r {
        Ok(j) => is_journal_of(lines, j),
        Err(e) => assembly_possible(lines, VJournal::schema_spec(), Err(e)),
    }
}

/// `r` is an outcome of parsing the raw text of a journal block.
pub open spec fn journal_text_possible(raw: Seq<char>, r: Result<VJournal, Error>) -> bool {
    match parts_of(raw, "VJOURNAL"@) {
        Err(e) => r matches Err(x) && x@ == e,
        Ok(parts) => journal_possible(parts.own, r),
    }
}

impl VJournal {
    /// Makes a journal entry from the lines of its block.
    pub fn from_bag(bag: &PropertyBag) -> (r: Result<VJournal, Error>)
        ensures
            journal_possible(line_views(bag.lines@), r),
    {
        let ghost lines = line_views(bag.lines@);
        let schema = VJournal::schema();
        let component = match assemble(bag, &schema) {
            Ok(c) => c,
            Err(e) => {
                return Err(e);
            },
        };
        let ghost fields = shapes(component.fields@);
        proof {
            assert(fields_possible(lines, VJournal::schema_spec(), fields)) by {
                assert forall|i: int| 0 <= i < 23 implies #[trigger] field_possible(
                    lines,
                    VJournal::schema_spec()[i],
                    Ok(fields[i]),
                ) by {
                    assert(field_possible(lines, schema_view(schema@)[i], Ok(
                        component.fields@[i].shape(),
                    )));
                }
            }
            VJournal::lemma_fits(lines, fields);
        }
        Ok(VJournal::from_fields(component.fields, component.x_prop, component.iana_prop))
    }

    /// Where no entry of the schema can fail, the journal entry is made.
    pub proof fn lemma_succeeds(lines: Seq<ContentLineView>, r: Result<VJournal, Error>)
        requires
            journal_possible(lines, r),
            forall|i: int|
                0 <= i < VJournal::schema_spec().len() ==> field_cannot_fail(
                    lines,
                    #[trigger] VJournal::schema_spec()[i],
                ),
        ensures
            r is Ok,
    {
        if let Err(e) = r {
            lemma_assembly_succeeds(lines, VJournal::schema_spec(), Err(e));
        }
    }

    /// Fields that assembly gives under the schema of journal entries have
    /// the shapes that the schema declares.
    pub proof fn lemma_fits(lines: Seq<ContentLineView>, fields: Seq<FieldShape>)
        requires
            fields_possible(lines, VJournal::schema_spec(), fields),
        ensures
            VJournal::fits_schema(fields),
    {
        let schema = VJournal::schema_spec();
        assert forall|i: int| 0 <= i < 23 implies fits(
            fields[i],
            schema[i].cardinality,
            schema[i].kind,
        ) by {
            assert(field_possible(lines, schema[i], Ok(fields[i])));
            lemma_field_fits(lines, schema[i], fields[i]);
        }
        assert(fits(fields[0], schema[0].cardinality, schema[0].kind));
        assert(fits(fields[1], schema[1].cardinality, schema[1].kind));
        assert(fits(fields[2], schema[2].cardinality, schema[2].kind));
        assert(fits(fields[3], schema[3].cardinality, schema[3].kind));
        assert(fits(fields[4], schema[4].cardinality, schema[4].kind));
        assert(fits(fields[5], schema[5].cardinality, schema[5].kind));
        assert(fits(fields[6], schema[6].cardinality, schema[6].kind));
        assert(fits(fields[7], schema[7].cardinality, schema[7].kind));
        assert(fits(fields[8], schema[8].cardinality, schema[8].kind));
        assert(fits(fields[9], schema[9].cardinality, schema[9].kind));
        assert(fits(fields[10], schema[10].cardinality, schema[10].kind));
        assert(fits(fields[11], schema[11].cardinality, schema[11].kind));
        assert(fits(fields[12], schema[12].cardinality, schema[12].kind));
        assert(fits(fields[13], schema[13].cardinality, schema[13].kind));
        assert(fits(fields[14], schema[14].cardinality, schema[14].kind));
        assert(fits(fields[15], schema[15].cardinality, schema[15].kind));
        assert(fits(fields[16], schema[16].cardinality, schema[16].kind));
        assert(fits(fields[17], schema[17].cardinality, schema[17].kind));
        assert(fits(fields[18], schema[18].cardinality, schema[18].kind));
        assert(fits(fields[19], schema[19].cardinality, schema[19].kind));
        assert(fits(fields[20], schema[20].cardinality, schema[20].kind));
        assert(fits(fields[21], schema[21].cardinality, schema[21].kind));
        assert(fits(fields[22], schema[22].cardinality, schema[22].kind));
    }

    /// Parses the raw text of a journal block, `BEGIN:VJOURNAL` to
    /// `END:VJOURNAL`. Blocks nested in it are passed over.
    pub fn parse(raw: &str) -> (r: Result<VJournal, Error>)
        ensures
            journal_text_possible(raw@, r),
    {
        match read_parts(raw, "VJOURNAL") {
            Ok((own, _)) => VJournal::from_bag(&PropertyBag::new(own)),
            Err(e) => Err(e),
        }
    }
}

} // verus!
