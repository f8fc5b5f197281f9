use icalendar::assembler::{field, values_of};
use icalendar::components::content_lines;
use icalendar::value::{integer, parse_all};
use icalendar::{
    assemble, parse_value, Block, Cardinality, Class, ContentLine, Error, Field, Freq, Geo, Prop,
    Properties, PropertyBag, SchemaEntry, Status, TimeTransparency, VEvent, VJournal, VTimezone,
    Value, ValueKind,
};

fn bag(text: &str) -> PropertyBag {
    PropertyBag::new(content_lines(text).unwrap())
}

fn strings(items: &[&str]) -> Vec<String> {
    items.iter().map(|s| s.to_string()).collect()
}

fn texts(items: &[&str]) -> Vec<Value> {
    items.iter().map(|s| Value::Text(s.to_string())).collect()
}

const EVENT: &str = "BEGIN:VEVENT\r\n\
DTSTAMP:19970901T130000Z\r\n\
UID:19970901T130000Z-123401@example.com\r\n\
DTSTART:19970903T163000Z\r\n\
DTEND:19970903T190000Z\r\n\
SUMMARY:Annual Employee Meeting\\, part 1\r\n\
DESCRIPTION:Project XYZ Status Meeting\\nBring \r\n your notes\r\n\
CLASS:PRIVATE\r\n\
STATUS:CONFIRMED\r\n\
STRANSP:TRANSPARENT\r\n\
PRIORITY:5\r\n\
SEQ:2\r\n\
GEO:37.386013;-122.082932\r\n\
LOCATION:1CP Conference Room 4350\r\n\
ORGANIZER;CN=John Smith:mailto:jsmith@example.com\r\n\
URL:http://example.com/pub/calendars/jsmith/mytime.ics\r\n\
RECURID:19960401\r\n\
CREATED:19960329T133000Z\r\n\
LAST-MODIFIED:19960817T133000Z\r\n\
RRULE:FREQ=WEEKLY;COUNT=10;BYDAY=MO,WE\r\n\
ATTACH:http://example.com/a.doc\r\n\
ATTACH:http://example.com/b.doc\r\n\
ATTENDEE;RSVP=TRUE:mailto:a@example.com\r\n\
CATEGORIES:BUSINESS,HUMAN RESOURCES\r\n\
CATEGORIES:MEETING\r\n\
COMMENT:first\\; draft\r\n\
CONTACT:Jim Dolittle\\, ABC Industries\r\n\
EXDATE:19960402T010000Z,19960403T010000Z\r\n\
EXDATE:19960404T010000Z\r\n\
RSTATUS:2.0;Success\r\n\
RELATED-TO:jsmith.part7.19960817T083000.xyzMail@example.com\r\n\
RESOURCES:EASEL,PROJECTOR\r\n\
RDATE:19970714T123000Z,19970715T123000Z\r\n\
X-CUSTOM-PROP:custom\r\n\
X-CUSTOM-PROP:custom again\r\n\
FOOBAR:something\r\n\
SEQUENCE:7\r\n\
END:VEVENT\r\n";

#[test]
fn test_parse_vevent() {
    let ev = VEvent::parse(EVENT).unwrap();
    assert_eq!(ev.dtstamp.secs, 873118800);
    assert_eq!(ev.uid, "19970901T130000Z-123401@example.com");
    assert_eq!(ev.dtstart.secs, 873304200);
    assert_eq!(ev.dtend.secs, 873313200);
    assert_eq!(ev.summary, Some("Annual Employee Meeting, part 1".to_string()));
    assert_eq!(ev.description, Some("Project XYZ Status Meeting\nBring your notes".to_string()));
    assert_eq!(ev.class, Some(Class::Private));
    assert_eq!(ev.status, Some(Status::Confirmed));
    assert_eq!(ev.transp, Some(TimeTransparency::Transparent));
    assert_eq!(ev.priority, Some(5));
    assert_eq!(ev.seq, Some(2));
    assert_eq!(
        ev.geo,
        Some(Geo { lat: "37.386013".to_string(), lon: "-122.082932".to_string() })
    );
    assert_eq!(ev.location, Some("1CP Conference Room 4350".to_string()));
    assert_eq!(ev.organizer, Some("mailto:jsmith@example.com".to_string()));
    assert_eq!(ev.url, Some("http://example.com/pub/calendars/jsmith/mytime.ics".to_string()));
    assert_eq!(ev.recurid, Some("19960401".to_string()));
    assert_eq!(ev.created.unwrap().secs, 828106200);
    assert_eq!(ev.last_modified.unwrap().secs, 840288600);
    let rule = ev.rrule.clone().unwrap();
    assert_eq!(rule.freq, Freq::Weekly);
    assert_eq!(rule.count, Some(10));
    assert_eq!(rule.by_day.len(), 2);
    assert_eq!(ev.attach, strings(&["http://example.com/a.doc", "http://example.com/b.doc"]));
    assert_eq!(ev.attendee, strings(&["mailto:a@example.com"]));
    assert_eq!(ev.categories, strings(&["BUSINESS", "HUMAN RESOURCES", "MEETING"]));
    assert_eq!(ev.comment, strings(&["first; draft"]));
    assert_eq!(ev.contact, strings(&["Jim Dolittle, ABC Industries"]));
    assert_eq!(
        ev.exdate.iter().map(|d| d.secs).collect::<Vec<i64>>(),
        vec![828406800, 828493200, 828579600]
    );
    assert_eq!(ev.rstatus, strings(&["2.0;Success"]));
    assert_eq!(ev.related, strings(&["jsmith.part7.19960817T083000.xyzMail@example.com"]));
    assert_eq!(ev.resources, strings(&["EASEL", "PROJECTOR"]));
    assert_eq!(ev.rdate, strings(&["19970714T123000Z", "19970715T123000Z"]));
    assert_eq!(ev.x_prop.get("X-CUSTOM-PROP"), Some(&"custom again".to_string()));
    assert_eq!(ev.x_prop.entries.len(), 2);
    assert_eq!(ev.iana_prop.get("FOOBAR"), Some(&"something".to_string()));
    assert_eq!(ev.iana_prop.get("SEQUENCE"), Some(&"7".to_string()));
    assert_eq!(ev.iana_prop.get("X-CUSTOM-PROP"), None);
    assert_eq!(ev.x_prop.get("FOOBAR"), None);
}

#[test]
fn event_with_nothing_set() {
    let ev = VEvent::new();
    assert_eq!(ev.dtstamp.secs, 0);
    assert_eq!(ev.uid, "");
    assert_eq!(ev.dtend, ev.dtstart);
    assert_eq!(ev.class, None);
    assert_eq!(ev.rrule, None);
    assert!(ev.categories.is_empty());
    assert!(ev.x_prop.is_empty());
    assert!(ev.iana_prop.is_empty());
    let j = VJournal::new();
    assert_eq!(j.uid, "");
    assert!(j.description.is_empty());
    let z = VTimezone::new();
    assert_eq!(z.tzid, "");
    assert!(z.standard.is_empty());
    let p = Prop::new();
    assert_eq!((p.tzoffsetto, p.tzoffsetfrom), (0, 0));
    assert_eq!(Prop::default(), p);
}

#[test]
fn event_end_is_the_start_moved_by_the_duration() {
    let ev = VEvent::parse(
        "BEGIN:VEVENT\r\nUID:1\r\nDTSTAMP:20200101T000000Z\r\nDTSTART:20200101T100000Z\r\n\
         DTEND:20200101T230000Z\r\nDURATION:PT1H30M\r\nEND:VEVENT\r\n",
    )
    .unwrap();
    assert_eq!(ev.dtstart.secs, 1577872800);
    assert_eq!(ev.dtend.secs, 1577872800 + 5400);
}

#[test]
fn event_whose_start_cannot_be_moved_is_rejected() {
    assert_eq!(
        VEvent::parse(
            "BEGIN:VEVENT\r\nUID:1\r\nDTSTAMP:20200101T000000Z\r\nDTSTART:20200101T100000Z\r\n\
             DURATION:PT9223372036854775S\r\nEND:VEVENT\r\n",
        ),
        Err(Error::InvalidDuration("PT9223372036854775S".to_string()))
    );
}

#[test]
fn event_without_end_or_start() {
    let ev = VEvent::parse("BEGIN:VEVENT\r\nUID:1\r\nDTSTAMP:20200101T000000Z\r\nEND:VEVENT").unwrap();
    assert_eq!(ev.dtstart.secs, 0);
    assert_eq!(ev.dtend.secs, 0);
}

#[test]
fn event_without_uid_is_rejected() {
    assert_eq!(
        VEvent::parse("BEGIN:VEVENT\r\nDTSTAMP:20200101T000000Z\r\nSUMMARY:x\r\nEND:VEVENT\r\n"),
        Err(Error::MissingField("UID".to_string()))
    );
    assert_eq!(
        VEvent::from_bag(&bag("UID:1\r\n")),
        Err(Error::MissingField("DTSTAMP".to_string()))
    );
}

#[test]
fn event_reports_the_first_entry_that_fails() {
    assert_eq!(
        VEvent::from_bag(&bag("UID:1\r\nDTSTAMP:20200101T000000Z\r\nSTATUS:done\r\nCLASS:open\r\n")),
        Err(Error::InvalidEnum(icalendar::EnumKind::Class, "open".to_string()))
    );
    assert_eq!(
        VEvent::from_bag(&bag("UID:1\r\nDTSTAMP:20200101T000000Z\r\nPRIORITY:10\r\n")),
        Err(Error::InvalidInteger("10".to_string()))
    );
    assert_eq!(
        VEvent::from_bag(&bag("UID:1\r\nDTSTAMP:20200101T000000Z\r\nEXDATE:20200101T000000Z,x\r\n")),
        Err(Error::InvalidDate("x".to_string()))
    );
    assert_eq!(
        VEvent::parse("BEGIN:VJOURNAL\r\nEND:VJOURNAL\r\n"),
        Err(Error::UnsupportedComponentType("VJOURNAL".to_string()))
    );
    assert_eq!(
        VEvent::parse("BEGIN:VEVENT\r\nnot a line\r\nEND:VEVENT\r\n"),
        Err(Error::MalformedContentLine("not a line".to_string()))
    );
}

#[test]
fn parse() {
    let j = VJournal::parse(
        "BEGIN:VJOURNAL\r\n\
UID:19970901T130000Z-123405@example.com\r\n\
DTSTAMP:19970901T130000Z\r\n\
DTSTART:19970317T000000Z\r\n\
SUMMARY:Staff meeting minutes\r\n\
DESCRIPTION:1. Staff meeting: Participants include Joe\\, Lisa\r\n\
DESCRIPTION:2. Telephone Conference\r\n\
CLASS:PUBLIC\r\n\
STATUS:DRAFT\r\n\
SEQ:1\r\n\
CATEGORIES:A,B\r\n\
CATEGORIES:C\r\n\
RRULE:FREQ=MONTHLY\r\n\
X-NOTE:kept\r\n\
END:VJOURNAL\r\n",
    )
    .unwrap();
    assert_eq!(j.uid, "19970901T130000Z-123405@example.com");
    assert_eq!(j.dtstamp.secs, 873118800);
    assert_eq!(j.dtstart.secs, 858556800);
    assert_eq!(j.summary, Some("Staff meeting minutes".to_string()));
    assert_eq!(
        j.description,
        strings(&["1. Staff meeting: Participants include Joe, Lisa", "2. Telephone Conference"])
    );
    assert_eq!(j.class, Some(Class::Public));
    assert_eq!(j.status, Some(Status::Draft));
    assert_eq!(j.seq, Some(1));
    assert_eq!(j.categories, strings(&["A", "B", "C"]));
    assert_eq!(j.rrule.unwrap().freq, Freq::Monthly);
    assert_eq!(j.x_prop.get("X-NOTE"), Some(&"kept".to_string()));
    assert!(j.iana_prop.is_empty());
    assert_eq!(
        VJournal::parse("BEGIN:VJOURNAL\r\nDTSTAMP:19970901T130000Z\r\nEND:VJOURNAL\r\n"),
        Err(Error::MissingField("UID".to_string()))
    );
}

#[test]
fn repeated_flat_field_joins_the_lists_in_order() {
    let b = bag("CATEGORIES:A,B\r\nOTHER:x\r\nCATEGORIES:C\r\n");
    let entry = SchemaEntry::new("CATEGORIES", Cardinality::RepeatedFlat, ValueKind::Text);
    assert_eq!(field(&b.lines, &entry), Ok(Field::Many(texts(&["A", "B", "C"]))));
    assert_eq!(b.values("CATEGORIES"), strings(&["A,B", "C"]));
    assert_eq!(values_of(&b.lines, "NONE"), Vec::<String>::new());
}

#[test]
fn repeated_flat_field_splits_at_commas_that_are_not_escaped() {
    let b = bag("RESOURCES:a\\,b,c\\\\,d\r\nRESOURCES:\r\n");
    let entry = SchemaEntry::new("RESOURCES", Cardinality::RepeatedFlat, ValueKind::Text);
    assert_eq!(field(&b.lines, &entry), Ok(Field::Many(texts(&["a,b", "c\\", "d", ""]))));
    let raw = SchemaEntry::new("RESOURCES", Cardinality::RepeatedFlat, ValueKind::Raw);
    assert_eq!(field(&b.lines, &raw), Ok(Field::Many(texts(&["a\\,b", "c\\\\", "d", ""]))));
}

#[test]
fn fields_of_each_cardinality() {
    let b = bag("A:1\r\nB:x\r\nA:2\r\n");
    let required = SchemaEntry::new("A", Cardinality::Required, ValueKind::Integer);
    assert_eq!(field(&b.lines, &required), Ok(Field::One(Value::Integer(2))));
    let optional = SchemaEntry::new("A", Cardinality::Optional, ValueKind::Integer);
    assert_eq!(field(&b.lines, &optional), Ok(Field::Maybe(Some(Value::Integer(2)))));
    let repeated = SchemaEntry::new("A", Cardinality::Repeated, ValueKind::Integer);
    assert_eq!(
        field(&b.lines, &repeated),
        Ok(Field::Many(vec![Value::Integer(1), Value::Integer(2)]))
    );
    let absent = SchemaEntry::new("C", Cardinality::Optional, ValueKind::Integer);
    assert_eq!(field(&b.lines, &absent), Ok(Field::Maybe(None)));
    let none = SchemaEntry::new("C", Cardinality::Repeated, ValueKind::Integer);
    assert_eq!(field(&b.lines, &none), Ok(Field::Many(vec![])));
    let missing = SchemaEntry::new("C", Cardinality::Required, ValueKind::Integer);
    assert_eq!(field(&b.lines, &missing), Err(Error::MissingField("C".to_string())));
    let bad = SchemaEntry::new("B", Cardinality::Repeated, ValueKind::Integer);
    assert_eq!(field(&b.lines, &bad), Err(Error::InvalidInteger("x".to_string())));
}

#[test]
fn assembly_routes_what_the_schema_does_not_declare() {
    let b = bag("UID:1\r\nX-CUSTOM-PROP:a\r\nFOOBAR:b\r\nX-CUSTOM-PROP:c\r\nX:d\r\nx-low:e\r\n");
    let schema = vec![SchemaEntry::new("UID", Cardinality::Required, ValueKind::Raw)];
    let c = assemble(&b, &schema).unwrap();
    assert_eq!(c.fields, vec![Field::One(Value::Text("1".to_string()))]);
    assert_eq!(c.x_prop.get("X-CUSTOM-PROP"), Some(&"c".to_string()));
    assert_eq!(c.x_prop.get("X-LOW"), Some(&"e".to_string()));
    assert_eq!(c.x_prop.get("FOOBAR"), None);
    assert_eq!(c.x_prop.get("UID"), None);
    assert_eq!(c.iana_prop.get("FOOBAR"), Some(&"b".to_string()));
    assert_eq!(c.iana_prop.get("X"), Some(&"d".to_string()));
    assert_eq!(c.iana_prop.get("X-CUSTOM-PROP"), None);
    assert_eq!(c.iana_prop.get("UID"), None);
    assert!(c.x_prop.contains_key("X-CUSTOM-PROP"));
    assert!(!c.iana_prop.contains_key("X-CUSTOM-PROP"));
}

#[test]
fn assembly_fails_on_a_missing_required_field() {
    let b = bag("SUMMARY:x\r\n");
    let schema = vec![
        SchemaEntry::new("SUMMARY", Cardinality::Optional, ValueKind::Text),
        SchemaEntry::new("UID", Cardinality::Required, ValueKind::Raw),
        SchemaEntry::new("DTSTAMP", Cardinality::Required, ValueKind::DateTime),
    ];
    assert_eq!(assemble(&b, &schema), Err(Error::MissingField("UID".to_string())));
    assert_eq!(assemble(&b, &vec![]).unwrap().fields, vec![]);
}

#[test]
fn values_of_each_kind() {
    assert_eq!(parse_value(ValueKind::Raw, "a\\,b"), Ok(Value::Text("a\\,b".to_string())));
    assert_eq!(parse_value(ValueKind::Text, "a\\,b"), Ok(Value::Text("a,b".to_string())));
    assert_eq!(parse_value(ValueKind::Integer, "4294967295"), Ok(Value::Integer(u32::MAX)));
    assert_eq!(
        parse_value(ValueKind::Integer, "4294967296"),
        Err(Error::InvalidInteger("4294967296".to_string()))
    );
    assert_eq!(parse_value(ValueKind::Priority, "9"), Ok(Value::Integer(9)));
    assert_eq!(parse_value(ValueKind::Priority, "-1"), Err(Error::InvalidInteger("-1".to_string())));
    assert_eq!(parse_value(ValueKind::UtcOffset, "-0800"), Ok(Value::UtcOffset(-28800)));
    assert_eq!(parse_value(ValueKind::Status, "FINAL"), Ok(Value::Status(Status::Final)));
    assert_eq!(parse_value(ValueKind::Class, "PUBLIC"), Ok(Value::Class(Class::Public)));
    assert_eq!(
        parse_value(ValueKind::Transparency, "OPAQUE"),
        Ok(Value::Transparency(TimeTransparency::Opaque))
    );
    assert_eq!(
        parse_value(ValueKind::Duration, "PT1S"),
        Ok(Value::Duration(icalendar::duration("PT1S").unwrap()))
    );
    assert!(matches!(parse_value(ValueKind::DateTime, "20200101T000000Z"), Ok(Value::DateTime(_))));
    assert!(matches!(parse_value(ValueKind::Period, "20200101T000000Z/PT1H"), Ok(Value::Period(_))));
    assert!(matches!(parse_value(ValueKind::Recur, "FREQ=DAILY"), Ok(Value::Recur(_))));
    assert_eq!(integer("007", 9), Ok(7));
    assert_eq!(integer("", 9), Err(Error::InvalidInteger(String::new())));
    assert_eq!(
        parse_all(ValueKind::Integer, &strings(&["1", "x", "y"])),
        Err(Error::InvalidInteger("x".to_string()))
    );
}

#[test]
fn properties_keep_the_last_value_of_a_name() {
    let mut p = Properties::new();
    assert!(p.is_empty());
    assert_eq!(p.get("A"), None);
    p.insert("A".to_string(), "1".to_string());
    p.insert("B".to_string(), "2".to_string());
    p.insert("A".to_string(), "3".to_string());
    assert_eq!(p.get("A"), Some(&"3".to_string()));
    assert_eq!(p.get("B"), Some(&"2".to_string()));
    assert_eq!(p.get("a"), None);
    assert_eq!(p.entries.len(), 3);
    assert!(!p.is_empty());
}

fn block(tag: &str, text: &str) -> Block {
    Block { tag: tag.to_string(), bag: bag(text) }
}

const STANDARD: &str = "DTSTART:19981025T020000Z\r\nTZOFFSETFROM:-0400\r\nTZOFFSETTO:-0500\r\n\
TZNAME:EST\r\nRRULE:FREQ=YEARLY;BYDAY=-1SU;BYMONTH=10\r\nCOMMENT:back\r\nRDATE:19981025T020000,19991031T020000\r\n";

const DAYLIGHT: &str = "DTSTART:19990404T020000Z\r\nTZOFFSETFROM:-0500\r\nTZOFFSETTO:-0400\r\nTZNAME:EDT\r\n";

#[test]
fn time_zone_with_its_observances() {
    let own = bag("TZID:America/New_York\r\nLAST-MODIFIED:20050809T050000Z\r\nTZURL:http://x.example/ny\r\nX-LIC-LOCATION:America/New_York\r\n");
    let blocks = vec![
        block("STANDARD", STANDARD),
        block("DAYLIGHT", DAYLIGHT),
        block("STANDARD", "DTSTART:20001029T020000Z\r\nTZOFFSETFROM:-0400\r\nTZOFFSETTO:-0500\r\n"),
    ];
    let z = VTimezone::from_parts(&own, &blocks).unwrap();
    assert_eq!(z.tzid, "America/New_York");
    assert_eq!(z.last_modified.unwrap().secs, 1123563600);
    assert_eq!(z.tzurl, Some("http://x.example/ny".to_string()));
    assert_eq!(z.x_prop.get("X-LIC-LOCATION"), Some(&"America/New_York".to_string()));
    assert_eq!(z.standard.len(), 2);
    assert_eq!(z.daylight.len(), 1);
    assert_eq!(z.standard[0].dtstart.secs, 909280800);
    assert_eq!(z.standard[0].tzoffsetfrom, -14400);
    assert_eq!(z.standard[0].tzoffsetto, -18000);
    assert_eq!(z.standard[0].tzname, strings(&["EST"]));
    assert_eq!(z.standard[0].comment, strings(&["back"]));
    assert_eq!(z.standard[0].rdate, strings(&["19981025T020000", "19991031T020000"]));
    assert_eq!(z.standard[0].rrule.clone().unwrap().by_month, vec![10]);
    assert_eq!(z.standard[1].dtstart.secs, 972784800);
    assert_eq!(z.daylight[0].tzoffsetto, -14400);
    assert_eq!(z.daylight[0].tzname, strings(&["EDT"]));
}

#[test]
fn time_zone_rejections() {
    let own = bag("TZID:Z\r\n");
    assert_eq!(
        VTimezone::from_parts(&bag(""), &vec![]),
        Err(Error::MissingField("TZID".to_string()))
    );
    assert_eq!(
        VTimezone::from_parts(&own, &vec![block("VALARM", "")]),
        Err(Error::UnsupportedComponentType("VALARM".to_string()))
    );
    assert_eq!(
        VTimezone::from_parts(&own, &vec![block("DAYLIGHT", "DTSTART:19990404T020000Z\r\n")]),
        Err(Error::MissingField("TZOFFSETTO".to_string()))
    );
    assert_eq!(
        VTimezone::from_parts(
            &own,
            &vec![block("STANDARD", "DTSTART:19990404T020000Z\r\nTZOFFSETTO:x\r\nTZOFFSETFROM:+0100\r\n")]
        ),
        Err(Error::InvalidOffset("x".to_string()))
    );
    assert_eq!(Prop::from_bag(&bag("")), Err(Error::MissingField("DTSTART".to_string())));
}

#[test]
fn schema_of_each_component() {
    let names: Vec<String> = VEvent::schema().into_iter().map(|e| e.name).collect();
    assert_eq!(names.len(), 30);
    assert_eq!(names[0], "DTSTAMP");
    assert_eq!(names[29], "RDATE");
    assert_eq!(VJournal::schema().len(), 23);
    assert_eq!(Prop::schema().len(), 7);
    assert_eq!(VTimezone::schema().len(), 3);
    let line = ContentLine { name: "A".to_string(), params: vec![], value: "b".to_string() };
    assert_eq!(PropertyBag::new(vec![line.clone()]).lines, vec![line]);
}
