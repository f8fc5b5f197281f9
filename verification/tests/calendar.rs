use icalendar::components::{read_parts, split_nested};
use icalendar::components::content_lines;
use icalendar::{calendar, component, Block, Component, Error, PropertyBag, VEvent, VTimezone};

const CALENDAR: &str = "BEGIN:VCALENDAR\r\n\
VERSION:2.0\r\n\
PRODID:-//ABC Corporation//NONSGML My Product//EN\r\n\
BEGIN:VTIMEZONE\r\n\
TZID:America/New_York\r\n\
BEGIN:STANDARD\r\n\
DTSTART:19981025T020000Z\r\n\
TZOFFSETFROM:-0400\r\n\
TZOFFSETTO:-0500\r\n\
TZNAME:EST\r\n\
END:STANDARD\r\n\
BEGIN:DAYLIGHT\r\n\
DTSTART:19990404T020000Z\r\n\
TZOFFSETFROM:-0500\r\n\
TZOFFSETTO:-0400\r\n\
TZNAME:EDT\r\n\
END:DAYLIGHT\r\n\
END:VTIMEZONE\r\n\
BEGIN:VEVENT\r\n\
DTSTAMP:19980309T231000Z\r\n\
UID:guid-1.example.com\r\n\
DESCRIPTION:Project XYZ Status Meeting\r\n\
BEGIN:VALARM\r\n\
ACTION:DISPLAY\r\n\
DESCRIPTION:Reminder\r\n\
END:VALARM\r\n\
SUMMARY:XYZ Project Status\r\n\
END:VEVENT\r\n\
BEGIN:VJOURNAL\r\n\
DTSTAMP:19970324T120000Z\r\n\
UID:uid5@example.com\r\n\
END:VJOURNAL\r\n\
END:VCALENDAR\r\n";

#[test]
fn calendar_gives_its_components_in_order() {
    let list = calendar(CALENDAR).unwrap();
    assert_eq!(list.len(), 3);
    match &list[0] {
        Component::Timezone(z) => {
            assert_eq!(z.tzid, "America/New_York");
            assert_eq!(z.standard.len(), 1);
            assert_eq!(z.daylight.len(), 1);
            assert_eq!(z.standard[0].tzoffsetto, -18000);
            assert_eq!(z.daylight[0].tzname, vec!["EDT".to_string()]);
        }
        other => panic!("{:?}", other),
    }
    match &list[1] {
        Component::Event(ev) => {
            assert_eq!(ev.uid, "guid-1.example.com");
            assert_eq!(ev.description, Some("Project XYZ Status Meeting".to_string()));
            assert_eq!(ev.summary, Some("XYZ Project Status".to_string()));
            assert!(ev.iana_prop.is_empty());
        }
        other => panic!("{:?}", other),
    }
    match &list[2] {
        Component::Journal(j) => assert_eq!(j.uid, "uid5@example.com"),
        other => panic!("{:?}", other),
    }
}

#[test]
fn calendar_rejections() {
    assert_eq!(
        calendar("BEGIN:VCALENDAR\r\nBEGIN:VFREEBUSY\r\nUID:1\r\nEND:VFREEBUSY\r\nEND:VCALENDAR\r\n"),
        Err(Error::UnsupportedComponentType("VFREEBUSY".to_string()))
    );
    assert_eq!(
        calendar("BEGIN:VCALENDAR\r\nBEGIN:VEVENT\r\nUID:1\r\nEND:VCALENDAR\r\n"),
        Err(Error::UnsupportedComponentType("VEVENT".to_string()))
    );
    assert_eq!(
        calendar("BEGIN:VCALENDAR\r\nBEGIN:VEVENT\r\nUID:1\r\nEND:VEVENT\r\nBEGIN:VFREEBUSY\r\nEND:VFREEBUSY\r\nEND:VCALENDAR\r\n"),
        Err(Error::MissingField("DTSTAMP".to_string()))
    );
    assert_eq!(
        calendar("BEGIN:VEVENT\r\nEND:VEVENT\r\n"),
        Err(Error::UnsupportedComponentType("VEVENT".to_string()))
    );
    assert_eq!(calendar("BEGIN:VCALENDAR\r\nVERSION:2.0\r\nEND:VCALENDAR\r\n"), Ok(vec![]));
}

#[test]
fn component_is_named_by_the_tag_of_its_block() {
    let lines = content_lines("UID:1\r\nDTSTAMP:20200101T000000Z\r\n").unwrap();
    let block = Block { tag: "VEVENT".to_string(), bag: PropertyBag::new(lines.clone()) };
    match component(&block).unwrap() {
        Component::Event(ev) => assert_eq!(ev, VEvent::from_bag(&PropertyBag::new(lines.clone())).unwrap()),
        other => panic!("{:?}", other),
    }
    let other = Block { tag: "vevent".to_string(), bag: PropertyBag::new(lines) };
    assert_eq!(component(&other), Err(Error::UnsupportedComponentType("vevent".to_string())));
}

#[test]
fn nested_blocks_are_parted_from_own_lines() {
    let lines = content_lines("A:1\r\nBEGIN:X\r\nB:2\r\nBEGIN:Y\r\nEND:X\r\nC:3\r\nBEGIN:Z\r\nEND:Z\r\n").unwrap();
    let (own, blocks) = split_nested(&lines).unwrap();
    assert_eq!(own.iter().map(|l| l.name.as_str()).collect::<Vec<&str>>(), vec!["A", "C"]);
    assert_eq!(blocks.len(), 2);
    assert_eq!(blocks[0].tag, "X");
    assert_eq!(
        blocks[0].bag.lines.iter().map(|l| l.name.as_str()).collect::<Vec<&str>>(),
        vec!["B", "BEGIN"]
    );
    assert_eq!(blocks[1].tag, "Z");
    assert!(blocks[1].bag.lines.is_empty());
    let open = content_lines("A:1\r\nBEGIN:X\r\nEND:Y\r\n").unwrap();
    assert_eq!(split_nested(&open), Err(Error::UnsupportedComponentType("X".to_string())));
    assert_eq!(
        read_parts("BEGIN:T\r\nA:1\r\nEND:T\r\n", "T").map(|(own, blocks)| (own.len(), blocks.len())),
        Ok((1, 0))
    );
}

#[test]
fn time_zone_from_its_text() {
    let z = VTimezone::parse(
        "BEGIN:VTIMEZONE\r\nTZID:Europe/Paris\r\nBEGIN:DAYLIGHT\r\nDTSTART:19810329T010000Z\r\n\
TZOFFSETFROM:+0100\r\nTZOFFSETTO:+0200\r\nEND:DAYLIGHT\r\nEND:VTIMEZONE\r\n",
    )
    .unwrap();
    assert_eq!(z.tzid, "Europe/Paris");
    assert_eq!(z.daylight.len(), 1);
    assert_eq!(z.daylight[0].tzoffsetfrom, 3600);
    assert_eq!(z.daylight[0].tzoffsetto, 7200);
    assert_eq!(z.daylight[0].dtstart.secs, 354675600);
    assert!(z.standard.is_empty());
    assert_eq!(
        VTimezone::parse("BEGIN:VTIMEZONE\r\nTZID:Z\r\nBEGIN:VALARM\r\nEND:VALARM\r\nEND:VTIMEZONE\r\n"),
        Err(Error::UnsupportedComponentType("VALARM".to_string()))
    );
}
