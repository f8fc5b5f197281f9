use icalendar::components::{body_of, content_lines, read_block};
use icalendar::{content_line, unfold, ContentLine, Error, Param, Text};

fn line(name: &str, params: Vec<Param>, value: &str) -> ContentLine {
    ContentLine { name: name.to_string(), params, value: value.to_string() }
}

fn param(name: &str, values: &[&str]) -> Param {
    Param { name: name.to_string(), values: values.iter().map(|v| v.to_string()).collect() }
}

#[test]
fn unfold_removes_the_break_and_one_white_space() {
    assert_eq!(unfold("SUMMARY:Hello\r\n  World"), vec!["SUMMARY:Hello World".to_string()]);
    assert_eq!(unfold("SUMMARY:Hello\r\n World"), vec!["SUMMARY:HelloWorld".to_string()]);
    assert_eq!(unfold("SUMMARY:Hel\n\tlo"), vec!["SUMMARY:Hello".to_string()]);
    assert_eq!(unfold("A:1\r\n \r\n 2"), vec!["A:12".to_string()]);
}

#[test]
fn unfold_splits_at_either_line_break() {
    assert_eq!(unfold("A:1\r\nB:2\nC:3"), vec!["A:1", "B:2", "C:3"]);
    assert_eq!(unfold("A:1\r\n\r\nB:2\r\n"), vec!["A:1", "", "B:2"]);
}

#[test]
fn unfold_drops_empty_lines_at_the_end() {
    assert_eq!(unfold("A:1\r\n\r\n\n"), vec!["A:1"]);
    assert_eq!(unfold(""), Vec::<String>::new());
    assert_eq!(unfold("\r\n\n"), Vec::<String>::new());
}

#[test]
fn unfold_keeps_a_lone_carriage_return() {
    assert_eq!(unfold("A:1\rB"), vec!["A:1\rB"]);
    assert_eq!(unfold("A:1\r"), vec!["A:1\r"]);
}

#[test]
fn content_line_without_parameters() {
    assert_eq!(content_line("SUMMARY:Hello World"), Ok(line("SUMMARY", vec![], "Hello World")));
    assert_eq!(content_line("summary:x"), Ok(line("SUMMARY", vec![], "x")));
    assert_eq!(content_line("X-a1:"), Ok(line("X-A1", vec![], "")));
}

#[test]
fn content_line_keeps_the_value_as_written() {
    assert_eq!(
        content_line("DESCRIPTION:a\\,b:c;d\\n"),
        Ok(line("DESCRIPTION", vec![], "a\\,b:c;d\\n"))
    );
    assert_eq!(
        content_line("RRULE:FREQ=DAILY;COUNT=2"),
        Ok(line("RRULE", vec![], "FREQ=DAILY;COUNT=2"))
    );
}

#[test]
fn content_line_with_parameters() {
    assert_eq!(
        content_line("DTSTART;TZID=America/New_York;VALUE=DATE-TIME:19980119T020000"),
        Ok(line(
            "DTSTART",
            vec![param("TZID", &["America/New_York"]), param("VALUE", &["DATE-TIME"])],
            "19980119T020000"
        ))
    );
    assert_eq!(
        content_line("ATTENDEE;MEMBER=\"mailto:a@x.org\",\"mailto:b@x.org\";cn=Bob:mailto:bob@x.org"),
        Ok(line(
            "ATTENDEE",
            vec![param("MEMBER", &["mailto:a@x.org", "mailto:b@x.org"]), param("cn", &["Bob"])],
            "mailto:bob@x.org"
        ))
    );
    assert_eq!(content_line("A;B=:v"), Ok(line("A", vec![param("B", &[""])], "v")));
    assert_eq!(content_line("A;B=,:v"), Ok(line("A", vec![param("B", &["", ""])], "v")));
}

#[test]
fn content_line_decodes_parameter_values() {
    assert_eq!(
        content_line("A;B=\"x\\\"y\\\\\";C=p\\:q\\,r\\;s\\nt:v"),
        Ok(line("A", vec![param("B", &["x\"y\\"]), param("C", &["p:q,r;s\nt"])], "v"))
    );
    assert_eq!(
        content_line("A;B=\"a;b,c:d\":v"),
        Ok(line("A", vec![param("B", &["a;b,c:d"])], "v"))
    );
}

#[test]
fn content_line_malformed() {
    for text in [
        "",
        ":value",
        "NAME",
        "NAME;",
        "NAME;KEY",
        "NAME;KEY=value",
        "NAME;=v:x",
        "NA ME:x",
        "NAME;K=\"open:x",
        "NAME;K=a\"b\":x",
        "NAME;K=\"a\"b:x",
        "NAME;K=v\\",
        "NAME,K:x",
    ] {
        assert_eq!(
            content_line(text),
            Err(Error::MalformedContentLine(text.to_string())),
            "{}",
            text
        );
    }
}

#[test]
fn folded_line_is_unfolded_before_it_is_parsed() {
    let lines = content_lines("SUMMARY:Hello\r\n  World\r\nUID:1\r\n").unwrap();
    assert_eq!(lines, vec![line("SUMMARY", vec![], "Hello World"), line("UID", vec![], "1")]);
}

#[test]
fn content_lines_report_the_first_malformed_line() {
    assert_eq!(
        content_lines("A:1\r\nbad line\r\nalso bad\r\n"),
        Err(Error::MalformedContentLine("bad line".to_string()))
    );
    assert_eq!(content_lines(""), Ok(vec![]));
}

#[test]
fn block_is_framed_by_its_markers() {
    assert_eq!(
        read_block("BEGIN:VEVENT\r\nUID:1\r\nEND:VEVENT\r\n", "VEVENT"),
        Ok(vec![line("UID", vec![], "1")])
    );
    assert_eq!(read_block("begin:VEVENT\r\nend:VEVENT", "VEVENT"), Ok(vec![]));
    assert_eq!(
        read_block("BEGIN:VFREEBUSY\r\nEND:VFREEBUSY\r\n", "VEVENT"),
        Err(Error::UnsupportedComponentType("VFREEBUSY".to_string()))
    );
    assert_eq!(
        read_block("BEGIN:VEVENT\r\nUID:1\r\n", "VEVENT"),
        Err(Error::UnsupportedComponentType("1".to_string()))
    );
    assert_eq!(
        read_block("BEGIN:VEVENT", "VEVENT"),
        Err(Error::UnsupportedComponentType("VEVENT".to_string()))
    );
    assert_eq!(read_block("", "VEVENT"), Err(Error::UnsupportedComponentType(String::new())));
    assert_eq!(body_of(vec![], "X"), Err(Error::UnsupportedComponentType(String::new())));
}

#[test]
fn text_of_a_content_line() {
    let t = Text::from_content_line(
        content_line("SUMMARY;LANGUAGE=en:Bastille Day\\, 14\\nJuly").unwrap(),
    );
    assert_eq!(t.text, "Bastille Day, 14\nJuly");
    assert_eq!(t.params, vec![param("LANGUAGE", &["en"])]);
}

#[test]
fn texts_outside_ascii_are_taken_as_they_are() {
    assert_eq!(unfold("SUMMARY:caf\u{e9}\r\n \u{2603}\r\n"), vec!["SUMMARY:caf\u{e9}\u{2603}"]);
    assert_eq!(
        content_line("SUMMARY;LANGUAGE=\"fr\u{e7}\":d\u{e9}j\u{e0}"),
        Ok(line("SUMMARY", vec![param("LANGUAGE", &["fr\u{e7}"])], "d\u{e9}j\u{e0}"))
    );
    assert_eq!(
        content_line("\u{e9}:x"),
        Err(Error::MalformedContentLine("\u{e9}:x".to_string()))
    );
    assert_eq!(
        icalendar::date("\u{ff12}\u{ff10}\u{ff12}\u{ff10}0101"),
        Err(Error::InvalidDate("\u{ff12}\u{ff10}\u{ff12}\u{ff10}0101".to_string()))
    );
    assert_eq!(
        icalendar::date("\u{3000}2020101"),
        Err(Error::InvalidDate("\u{3000}2020101".to_string()))
    );
    assert_eq!(
        icalendar::utc_offset("\u{2212}0100"),
        Ok(-3600)
    );
    assert_eq!(
        icalendar::duration("P\u{661}D"),
        Err(Error::InvalidDuration("P\u{661}D".to_string()))
    );
}
