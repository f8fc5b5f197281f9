use icalendar::datetime::{DateTime, MAX_SECS, MAX_SPAN, MIN_SECS};
use icalendar::duration::MAX_SECONDS;
use icalendar::{
    request_status, RequestStatus, geo, Geo, date, duration, period, rrule, tzid, tzname, tzoffsetfrom, tzoffsetto, tzurl, unescape,
    utc_offset, Class, Duration, EnumKind, Error, Freq, Period, Recur, Status, Text,
    TimeTransparency, Weekday, WeekdayNum,
};

#[test]
fn duration_with_every_component() {
    let d = duration("P1W2DT3H4M5S").unwrap();
    assert_eq!(d, Duration { weeks: 1, days: 2, hours: 3, minutes: 4, seconds: 5 });
    assert_eq!(d.num_seconds(), 1 * 604800 + 2 * 86400 + 3 * 3600 + 4 * 60 + 5);
    assert_eq!(d.num_seconds(), 788645);
}

#[test]
fn duration_components_are_optional() {
    assert_eq!(duration("P"), Ok(Duration::zero()));
    assert_eq!(duration("PT"), Ok(Duration::zero()));
    assert_eq!(
        duration("P15DT5H0M20S"),
        Ok(Duration { weeks: 0, days: 15, hours: 5, minutes: 0, seconds: 20 })
    );
    assert_eq!(duration("P7W"), Ok(Duration { weeks: 7, days: 0, hours: 0, minutes: 0, seconds: 0 }));
    assert_eq!(
        duration("PT30M"),
        Ok(Duration { weeks: 0, days: 0, hours: 0, minutes: 30, seconds: 0 })
    );
}

#[test]
fn duration_negative_negates_the_whole_span() {
    let d = duration("-PT15M").unwrap();
    assert_eq!(d, Duration { weeks: 0, days: 0, hours: 0, minutes: -15, seconds: 0 });
    assert_eq!(d.num_seconds(), -900);
    assert!(d.is_valid());
    assert_eq!(d.negated(), duration("PT15M").unwrap());
    let e = duration("-P1W1D").unwrap();
    assert_eq!(e.num_seconds(), -(604800 + 86400));
}

#[test]
fn duration_rejects_what_is_not_the_grammar() {
    for text in ["", "1W", "P1Wx", "P1D1W", "PT1S1M", "P1H", "PD", "P-1D", "+P1D", "P1DT1H "] {
        assert_eq!(duration(text), Err(Error::InvalidDuration(text.to_string())), "{}", text);
    }
}

#[test]
fn duration_rejects_a_span_that_is_too_long() {
    let longest = format!("PT{}S", MAX_SECONDS);
    assert_eq!(duration(&longest).unwrap().num_seconds(), MAX_SECONDS);
    let too_long = format!("PT{}S", MAX_SECONDS as i128 + 1);
    assert_eq!(duration(&too_long), Err(Error::InvalidDuration(too_long.clone())));
    let huge = "P99999999999999999999999999W";
    assert_eq!(duration(huge), Err(Error::InvalidDuration(huge.to_string())));
    assert!(!Duration { weeks: 1, days: -1, hours: 0, minutes: 0, seconds: 0 }.is_valid());
    assert!(!Duration { weeks: i64::MAX, days: 0, hours: 0, minutes: 0, seconds: 0 }.is_valid());
}

#[test]
fn date_in_utc_is_the_instant_written() {
    let d = date("20200101T120000Z").unwrap();
    assert_eq!(d.secs, 1577880000);
    assert_eq!(d.nanos, 0);
    assert!(-86400 < d.offset && d.offset < 86400);
    assert_eq!(d.timestamp(), 1577880000);
    assert_eq!(d.local_timestamp(), Some(1577880000 + d.offset as i64));
    let e = date("19700101T000000Z").unwrap();
    assert_eq!((e.secs, e.nanos), (0, 0));
}

#[test]
fn date_round_trips_through_utc() {
    let d = date("20240229T235959Z").unwrap();
    let local = d.local_timestamp().unwrap();
    let back = DateTime::from_local(local, d.nanos, d.offset).unwrap();
    assert_eq!(back, d);
    assert_eq!(back.secs, 1709251199);
}

#[test]
fn date_alone_is_midnight() {
    assert_eq!(date("20200101"), date("20200101T000000"));
    assert_eq!(date("19991231"), date("19991231T000000"));
    let d = date("20200101").unwrap();
    assert_eq!(d.secs + d.offset as i64, 1577836800);
}

#[test]
fn date_without_z_is_a_local_reading() {
    let d = date("20200615T083000").unwrap();
    assert_eq!(d.secs + d.offset as i64, 1592209800);
    assert_eq!(d.local_timestamp(), Some(1592209800));
}

#[test]
fn date_rejects_what_chrono_rejects() {
    for text in ["", "2020", "20201301T000000", "20200101T250000", "hello", "20200101T0000", "Z"] {
        assert_eq!(date(text), Err(Error::InvalidDate(text.to_string())), "{}", text);
    }
}

#[test]
fn date_takes_one_trailing_z_and_no_more() {
    assert_eq!(
        date("20200101T120000ZZ"),
        Err(Error::InvalidDate("20200101T120000ZZ".to_string()))
    );
    assert_eq!(date("20240101ZZ"), Err(Error::InvalidDate("20240101ZZ".to_string())));
    assert_eq!(date("ZZ"), Err(Error::InvalidDate("ZZ".to_string())));
    assert_eq!(date("20200101T120000Z").unwrap().secs, 1577880000);
}

#[test]
fn date_time_pieces() {
    assert_eq!(DateTime::epoch(), DateTime { secs: 0, nanos: 0, offset: 0 });
    assert_eq!(DateTime::default(), DateTime::epoch());
    assert_eq!(DateTime::from_utc(5, 6, 7), DateTime { secs: 5, nanos: 6, offset: 7 });
    assert_eq!(
        DateTime::from_local(3600, 0, 3600),
        Some(DateTime { secs: 0, nanos: 0, offset: 3600 })
    );
    assert_eq!(DateTime::from_local(i64::MIN, 0, 1), None);
    assert_eq!(DateTime { secs: i64::MAX, nanos: 0, offset: 1 }.local_timestamp(), None);
    assert_eq!(
        icalendar::datetime::localized(10, 0, true, Some(60)),
        Some(DateTime { secs: 10, nanos: 0, offset: 60 })
    );
    assert_eq!(
        icalendar::datetime::localized(10, 0, false, Some(60)),
        Some(DateTime { secs: -50, nanos: 0, offset: 60 })
    );
    assert_eq!(icalendar::datetime::localized(10, 0, false, None), None);
    assert_eq!(DateTime::seen_at(1, 2, None), None);
}

#[test]
fn date_time_plus_duration() {
    let start = date("20200101T120000Z").unwrap();
    let end = start.plus(&duration("PT1H30M").unwrap()).unwrap();
    assert_eq!(end.secs, 1577880000 + 5400);
    assert_eq!(end.nanos, 0);
    let before = start.plus(&duration("-P1D").unwrap()).unwrap();
    assert_eq!(before.secs, 1577880000 - 86400);
    let far = Duration { weeks: 0, days: 0, hours: 0, minutes: 0, seconds: MAX_SECONDS };
    assert_eq!(start.plus(&far), None);
}

#[test]
fn period_with_end_and_with_duration() {
    let p = period("19970101T180000Z/19970102T070000Z").unwrap();
    match p {
        Period::StartEnd(x) => {
            assert_eq!(x.start.secs, 852141600);
            assert_eq!(x.end.secs, 852188400);
        }
        Period::StartDur(_) => panic!("an end was written"),
    }
    let q = period("19970101T180000Z/PT5H30M").unwrap();
    match q {
        Period::StartDur(x) => {
            assert_eq!(x.start.secs, 852141600);
            assert_eq!(x.duration.num_seconds(), 19800);
        }
        Period::StartEnd(_) => panic!("a duration was written"),
    }
}

#[test]
fn period_rejects_with_the_whole_text() {
    for text in ["19970101T180000Z", "x/PT1H", "19970101T180000Z/", "19970101T180000Z/P1X", "19970101T180000Z/-PT1H"] {
        assert_eq!(period(text), Err(Error::InvalidPeriod(text.to_string())), "{}", text);
    }
}

#[test]
fn status_tokens() {
    assert_eq!(Status::from_str("TENTATIVE"), Ok(Status::Tentative));
    assert_eq!(Status::from_str("CONFIRMED"), Ok(Status::Confirmed));
    assert_eq!(Status::from_str("CANCELLED"), Ok(Status::Cancelled));
    assert_eq!(Status::from_str("NEEDS-ACTION"), Ok(Status::NeedsAction));
    assert_eq!(Status::from_str("COMPLETED"), Ok(Status::Completed));
    assert_eq!(Status::from_str("IN-PROCESS"), Ok(Status::InProcess));
    assert_eq!(Status::from_str("DRAFT"), Ok(Status::Draft));
    assert_eq!(Status::from_str("FINAL"), Ok(Status::Final));
    assert_eq!(
        Status::from_str("final"),
        Err(Error::InvalidEnum(EnumKind::Status, "final".to_string()))
    );
    assert_eq!(Status::from_str(""), Err(Error::InvalidEnum(EnumKind::Status, String::new())));
}

#[test]
fn class_and_transparency_tokens() {
    assert_eq!(Class::from_str("PUBLIC"), Ok(Class::Public));
    assert_eq!(Class::from_str("PRIVATE"), Ok(Class::Private));
    assert_eq!(Class::from_str("CONFIDENTIAL"), Ok(Class::Confidential));
    assert_eq!(
        Class::from_str("SECRET"),
        Err(Error::InvalidEnum(EnumKind::Class, "SECRET".to_string()))
    );
    assert_eq!(TimeTransparency::from_str("OPAQUE"), Ok(TimeTransparency::Opaque));
    assert_eq!(TimeTransparency::from_str("TRANSPARENT"), Ok(TimeTransparency::Transparent));
    assert_eq!(
        TimeTransparency::from_str("CLEAR"),
        Err(Error::InvalidEnum(EnumKind::TimeTransparency, "CLEAR".to_string()))
    );
}

#[test]
fn freq_tokens() {
    assert_eq!(Freq::from_str("SECONDLY"), Ok(Freq::Secondly));
    assert_eq!(Freq::from_str("MINUTELY"), Ok(Freq::Minutely));
    assert_eq!(Freq::from_str("HOURLY"), Ok(Freq::Hourly));
    assert_eq!(Freq::from_str("DAILY"), Ok(Freq::Daily));
    assert_eq!(Freq::from_str("WEEKLY"), Ok(Freq::Weekly));
    assert_eq!(Freq::from_str("MONTHLY"), Ok(Freq::Monthly));
    assert_eq!(Freq::from_str("YEARLY"), Ok(Freq::Yearly));
    assert_eq!(Freq::from_str("daily"), Err(Error::InvalidFreq("daily".to_string())));
}

#[test]
fn weekday_tokens() {
    assert_eq!(Weekday::from_str("SU"), Ok(Weekday::Sunday));
    assert_eq!(Weekday::from_str("MO"), Ok(Weekday::Monday));
    assert_eq!(Weekday::from_str("TU"), Ok(Weekday::Tuesday));
    assert_eq!(Weekday::from_str("WE"), Ok(Weekday::Wenesday));
    assert_eq!(Weekday::from_str("TH"), Ok(Weekday::Thurday));
    assert_eq!(Weekday::from_str("FR"), Ok(Weekday::Friday));
    assert_eq!(Weekday::from_str("SA"), Ok(Weekday::Saturday));
    assert_eq!(
        Weekday::from_str("MON"),
        Err(Error::InvalidEnum(EnumKind::Weekday, "MON".to_string()))
    );
    assert!(Weekday::Sunday < Weekday::Saturday);
}

#[test]
fn weekday_with_ordinal() {
    assert_eq!(
        WeekdayNum::from_str("MO"),
        Ok(WeekdayNum { weekday: Weekday::Monday, ord: None })
    );
    assert_eq!(
        WeekdayNum::from_str("-1FR"),
        Ok(WeekdayNum { weekday: Weekday::Friday, ord: Some(-1) })
    );
    assert_eq!(
        WeekdayNum::from_str("+2TU"),
        Ok(WeekdayNum { weekday: Weekday::Tuesday, ord: Some(2) })
    );
    assert_eq!(
        WeekdayNum::from_str("53SA"),
        Ok(WeekdayNum { weekday: Weekday::Saturday, ord: Some(53) })
    );
    for text in ["54SA", "0MO", "-MO", "1", "MO1", "", "-54SU"] {
        assert_eq!(
            WeekdayNum::from_str(text),
            Err(Error::InvalidEnum(EnumKind::Weekday, text.to_string())),
            "{}",
            text
        );
    }
}

#[test]
fn rrule_rejects_an_unknown_frequency() {
    assert_eq!(
        rrule("FREQ=FORTNIGHTLY"),
        Err(Error::InvalidFreq("FORTNIGHTLY".to_string()))
    );
    assert_eq!(
        Recur::from_str("FREQ=FORTNIGHTLY;COUNT=2"),
        Err(Error::InvalidFreq("FORTNIGHTLY".to_string()))
    );
}

#[test]
fn rrule_of_until_and_count_the_last_stands() {
    let a = rrule("FREQ=DAILY;UNTIL=20201231T000000Z;COUNT=5").unwrap();
    assert_eq!(a.count, Some(5));
    assert_eq!(a.until, None);
    let b = rrule("FREQ=DAILY;COUNT=5;UNTIL=20201231T000000Z").unwrap();
    assert_eq!(b.count, None);
    assert_eq!(b.until.unwrap().secs, 1609372800);
}

#[test]
fn rrule_with_every_part() {
    let r = rrule(
        "FREQ=YEARLY;INTERVAL=2;BYSECOND=0,60;BYMINUTE=59;BYHOUR=0,23;BYDAY=MO,-1FR,+2TU;\
         BYMONTHDAY=1,-31;BYYEARDAY=366,-366;BYWEEKNO=53,-1;BYMONTH=1,12;BYSETPOS=-1;WKST=SU;X-OTHER=1",
    )
    .unwrap();
    let mut expected = Recur::new(Freq::Yearly);
    expected.interval = Some(2);
    expected.by_second = vec![0, 60];
    expected.by_minute = vec![59];
    expected.by_hour = vec![0, 23];
    expected.by_day = vec![
        WeekdayNum { weekday: Weekday::Monday, ord: None },
        WeekdayNum { weekday: Weekday::Friday, ord: Some(-1) },
        WeekdayNum { weekday: Weekday::Tuesday, ord: Some(2) },
    ];
    expected.by_monthday = vec![1, -31];
    expected.by_yearday = vec![366, -366];
    expected.by_weekno = vec![53, -1];
    expected.by_month = vec![1, 12];
    expected.by_setpos = vec![-1];
    expected.wkst = Some(Weekday::Sunday);
    assert_eq!(r, expected);
}

#[test]
fn rrule_a_later_part_replaces_an_earlier_one() {
    let r = rrule("FREQ=DAILY;BYMONTH=1,2;FREQ=WEEKLY;BYMONTH=3").unwrap();
    assert_eq!(r.freq, Freq::Weekly);
    assert_eq!(r.by_month, vec![3]);
}

#[test]
fn rrule_rejections() {
    assert_eq!(rrule("COUNT=5"), Err(Error::InvalidRecur("COUNT=5".to_string())));
    assert_eq!(rrule(""), Err(Error::InvalidRecur(String::new())));
    assert_eq!(rrule("FREQ=DAILY;"), Err(Error::InvalidRecur(String::new())));
    assert_eq!(rrule("FREQ=DAILY;COUNT"), Err(Error::InvalidRecur("COUNT".to_string())));
    assert_eq!(
        rrule("FREQ=DAILY;COUNT=256"),
        Err(Error::InvalidRecur("COUNT=256".to_string()))
    );
    assert_eq!(
        rrule("FREQ=DAILY;INTERVAL=x"),
        Err(Error::InvalidRecur("INTERVAL=x".to_string()))
    );
    assert_eq!(
        rrule("FREQ=DAILY;BYMONTHDAY=0"),
        Err(Error::InvalidRecur("BYMONTHDAY=0".to_string()))
    );
    assert_eq!(
        rrule("FREQ=DAILY;BYMONTHDAY=32"),
        Err(Error::InvalidRecur("BYMONTHDAY=32".to_string()))
    );
    assert_eq!(
        rrule("FREQ=DAILY;BYHOUR=-1"),
        Err(Error::InvalidRecur("BYHOUR=-1".to_string()))
    );
    assert_eq!(
        rrule("FREQ=DAILY;BYMONTH=1,,2"),
        Err(Error::InvalidRecur("BYMONTH=1,,2".to_string()))
    );
    assert_eq!(
        rrule("FREQ=DAILY;BYDAY=MO,XX"),
        Err(Error::InvalidRecur("BYDAY=MO,XX".to_string()))
    );
    assert_eq!(
        rrule("FREQ=DAILY;WKST=XX"),
        Err(Error::InvalidEnum(EnumKind::Weekday, "XX".to_string()))
    );
    assert_eq!(
        rrule("FREQ=DAILY;UNTIL=tomorrow"),
        Err(Error::InvalidDate("tomorrow".to_string()))
    );
    assert_eq!(
        rrule("FREQ=DAILY;UNTIL=tomorrow;COUNT=x"),
        Err(Error::InvalidRecur("COUNT=x".to_string()))
    );
}

#[test]
fn offsets_from_utc() {
    assert_eq!(tzoffsetfrom("+0100"), Ok(3600));
    assert_eq!(tzoffsetto("-0500"), Ok(-18000));
    assert_eq!(utc_offset("+05:30"), Ok(19800));
    assert_eq!(utc_offset("+0000"), Ok(0));
    assert_eq!(utc_offset("0100"), Err(Error::InvalidOffset("0100".to_string())));
    assert_eq!(utc_offset("+9900"), Err(Error::InvalidOffset("+9900".to_string())));
    assert_eq!(utc_offset(""), Err(Error::InvalidOffset(String::new())));
}

#[test]
fn time_zone_texts_are_kept() {
    assert_eq!(tzid("America/New_York"), Ok("America/New_York".to_string()));
    assert_eq!(tzname("EST"), Ok("EST".to_string()));
    assert_eq!(tzurl("http://zones.example.com/tz/x.ics"), Ok("http://zones.example.com/tz/x.ics".to_string()));
}

#[test]
fn text_escapes_are_decoded() {
    assert_eq!(unescape("a\\,b\\;c\\\\d\\ne\\Nf"), "a,b;c\\d\ne\nf");
    assert_eq!(unescape("plain"), "plain");
    assert_eq!(unescape("\\x\\"), "\\x\\");
    assert_eq!(unescape("\\\"\\:"), "\\\"\\:");
    assert_eq!(unescape(""), "");
    let t = Text::parse("Project XYZ\\, final\\nround");
    assert_eq!(t.as_str(), "Project XYZ, final\nround");
    assert_eq!(t.to_text(), "Project XYZ, final\nround".to_string());
    assert!(t.params.is_empty());
}

#[test]
fn error_carries_its_text() {
    assert_eq!(Error::MissingField("UID".to_string()).text(), "UID");
    assert_eq!(Error::InvalidEnum(EnumKind::Class, "x".to_string()).text(), "x");
    assert_eq!(Error::InvalidGeo("1;".to_string()).text(), "1;");
}

#[test]
fn geo_is_two_decimal_numbers() {
    assert_eq!(
        geo("37.386013;-122.082932"),
        Ok(Geo { lat: "37.386013".to_string(), lon: "-122.082932".to_string() })
    );
    assert_eq!(geo("+1,2"), Ok(Geo { lat: "+1".to_string(), lon: "2".to_string() }));
    for text in ["", "1", "1;", ";2", "a;b", "1.;2", ".5;2", "1;2;3", "1e5;2", "1 ;2", "--1;2", "1;2."] {
        assert_eq!(geo(text), Err(Error::InvalidGeo(text.to_string())), "{}", text);
    }
    assert!(icalendar::geo::is_decimal_number(&['-', '0', '.', '5']));
    assert!(!icalendar::geo::is_decimal_number(&['-']));
}

#[test]
fn request_status_is_a_code_a_description_and_data() {
    assert_eq!(
        request_status("2.0;Success"),
        Ok(RequestStatus {
            code: "2.0".to_string(),
            description: "Success".to_string(),
            data: None
        })
    );
    assert_eq!(
        request_status("3.1.1;Invalid value\\; see\\, here;DTSTART:96-Apr-01;x"),
        Ok(RequestStatus {
            code: "3.1.1".to_string(),
            description: "Invalid value; see, here".to_string(),
            data: Some("DTSTART:96-Apr-01;x".to_string())
        })
    );
    assert_eq!(
        request_status("2.8;;"),
        Ok(RequestStatus { code: "2.8".to_string(), description: String::new(), data: Some(String::new()) })
    );
    for text in ["", "2.0", "2;Success", "2.;x", ".0;x", "2.0.;x", "2.0.1.1;x", "a.b;x", "2.0 ;x"] {
        assert_eq!(
            request_status(text),
            Err(Error::InvalidRequestStatus(text.to_string())),
            "{}",
            text
        );
    }
}

#[test]
fn error_messages() {
    assert_eq!(Error::MissingField("UID".to_string()).message(), "missing field: UID");
    assert_eq!(Error::InvalidDate("x".to_string()).message(), "invalid date: x");
    assert_eq!(
        Error::InvalidEnum(EnumKind::Weekday, "XX".to_string()).message(),
        "invalid weekday: XX"
    );
    assert_eq!(Error::InvalidFreq(String::new()).label(), "invalid frequency");
    assert_eq!(
        Error::UnsupportedComponentType("VX".to_string()).message(),
        "unsupported component type: VX"
    );
}

#[test]
fn tokens_name_their_values() {
    for s in [
        Status::Tentative,
        Status::Confirmed,
        Status::Cancelled,
        Status::NeedsAction,
        Status::Completed,
        Status::InProcess,
        Status::Draft,
        Status::Final,
    ] {
        assert_eq!(Status::from_str(s.token()), Ok(s));
    }
    for c in [Class::Public, Class::Private, Class::Confidential] {
        assert_eq!(Class::from_str(c.token()), Ok(c));
    }
    for t in [TimeTransparency::Opaque, TimeTransparency::Transparent] {
        assert_eq!(TimeTransparency::from_str(t.token()), Ok(t));
    }
    for f in [
        Freq::Secondly,
        Freq::Minutely,
        Freq::Hourly,
        Freq::Daily,
        Freq::Weekly,
        Freq::Monthly,
        Freq::Yearly,
    ] {
        assert_eq!(Freq::from_str(f.token()), Ok(f));
    }
    for d in [
        Weekday::Sunday,
        Weekday::Monday,
        Weekday::Tuesday,
        Weekday::Wenesday,
        Weekday::Thurday,
        Weekday::Friday,
        Weekday::Saturday,
    ] {
        assert_eq!(Weekday::from_str(d.token()), Ok(d));
    }
    assert_eq!("FINAL".parse::<Status>(), Ok(Status::Final));
    assert_eq!("PUBLIC".parse::<Class>(), Ok(Class::Public));
    assert_eq!("OPAQUE".parse::<TimeTransparency>(), Ok(TimeTransparency::Opaque));
    assert_eq!("DAILY".parse::<Freq>(), Ok(Freq::Daily));
    assert_eq!("MO".parse::<Weekday>(), Ok(Weekday::Monday));
    assert_eq!(
        "-1MO".parse::<WeekdayNum>(),
        Ok(WeekdayNum { weekday: Weekday::Monday, ord: Some(-1) })
    );
    assert_eq!("FREQ=DAILY".parse::<Recur>(), Ok(Recur::new(Freq::Daily)));
    assert_eq!(WeekdayNum::parse("SU"), Ok(WeekdayNum { weekday: Weekday::Sunday, ord: None }));
}

#[test]
fn rule_ends_at_a_date_or_after_a_count() {
    let end = date("20201231T000000Z").unwrap();
    let r = Recur::new(Freq::Daily).with_count(3).with_until(end);
    assert_eq!((r.until, r.count), (Some(end), None));
    let q = r.clone().with_count(7);
    assert_eq!((q.until, q.count), (None, Some(7)));
    assert_eq!(q.freq, Freq::Daily);
}

#[test]
fn range_of_instants_is_that_of_chrono() {
    assert_eq!(chrono::DateTime::<chrono::Utc>::MIN_UTC.timestamp(), MIN_SECS);
    assert_eq!(chrono::DateTime::<chrono::Utc>::MAX_UTC.timestamp(), MAX_SECS);
    assert!(chrono::DateTime::from_timestamp(MIN_SECS, 0).is_some());
    assert!(chrono::DateTime::from_timestamp(MIN_SECS - 1, 0).is_none());
    assert!(chrono::DateTime::from_timestamp(MAX_SECS, 1_999_999_999).is_some());
    assert!(chrono::DateTime::from_timestamp(MAX_SECS + 1, 0).is_none());
    assert!(chrono::DateTime::from_timestamp(-1, 1_000_000_000).is_some());
    assert!(chrono::DateTime::from_timestamp(-2, 1_000_000_000).is_none());
    assert!(chrono::DateTime::from_timestamp(59, 2_000_000_000).is_none());
    assert!(chrono::TimeDelta::try_seconds(MAX_SPAN).is_some());
    assert!(chrono::TimeDelta::try_seconds(-MAX_SPAN).is_some());
    assert!(chrono::TimeDelta::try_seconds(MAX_SPAN + 1).is_none());
    assert!(chrono::TimeDelta::try_seconds(-MAX_SPAN - 1).is_none());
    assert_eq!(MAX_SPAN, MAX_SECONDS);
}

fn seconds(n: i64) -> Duration {
    Duration { weeks: 0, days: 0, hours: 0, minutes: 0, seconds: n }
}

fn instant(secs: i64, nanos: u32) -> DateTime {
    DateTime { secs, nanos, offset: 0 }
}

fn moved(start: DateTime, by: i64) -> Option<(i64, u32)> {
    start.plus(&seconds(by)).map(|d| (d.secs, d.nanos))
}

#[test]
fn sum_at_the_ends_of_the_range() {
    assert_eq!(moved(instant(MAX_SECS, 0), 0), Some((MAX_SECS, 0)));
    assert_eq!(moved(instant(MAX_SECS, 0), 1), None);
    assert_eq!(moved(instant(MAX_SECS - 5, 7), 5), Some((MAX_SECS, 7)));
    assert_eq!(moved(instant(MIN_SECS, 0), 0), Some((MIN_SECS, 0)));
    assert_eq!(moved(instant(MIN_SECS, 0), -1), None);
    assert_eq!(moved(instant(MIN_SECS + 5, 0), -5), Some((MIN_SECS, 0)));
    assert_eq!(moved(instant(MAX_SECS + 1, 0), -10), None);
    assert_eq!(moved(instant(MIN_SECS - 1, 0), 10), None);
    assert_eq!(moved(instant(0, 2_000_000_000), 0), None);
    assert_eq!(moved(instant(0, 1_000_000_000), 0), None);
    assert_eq!(moved(instant(MIN_SECS, 0), MAX_SECS - MIN_SECS), Some((MAX_SECS, 0)));
    assert_eq!(moved(instant(MAX_SECS, 999_999_999), MIN_SECS - MAX_SECS), Some((MIN_SECS, 999_999_999)));
    assert_eq!(moved(instant(0, 0), MAX_SPAN), None);
    assert_eq!(moved(instant(0, 0), -MAX_SPAN), None);
    assert_eq!(moved(instant(-86_401, 5), 86_402), Some((1, 5)));
}

#[test]
fn sum_from_a_leap_second() {
    let leap = date("20161231T235960Z").unwrap();
    assert_eq!((leap.secs, leap.nanos), (1483228799, 1_000_000_000));
    assert_eq!(moved(leap, 10), Some((1483228809, 0)));
    assert_eq!(moved(leap, -10), Some((1483228790, 0)));
    assert_eq!(moved(leap, 0), Some((1483228799, 1_000_000_000)));
    assert_eq!(moved(leap, 1), Some((1483228800, 0)));
    assert_eq!(moved(leap, -1), Some((1483228799, 0)));
    assert_eq!(moved(instant(-1, 1_500_000_000), 2), Some((1, 500_000_000)));
    assert_eq!(moved(instant(-1, 1_500_000_000), -2), Some((-2, 500_000_000)));
    assert_eq!(moved(instant(MAX_SECS, 1_200_000_000), 1), None);
    assert_eq!(moved(instant(MAX_SECS, 1_200_000_000), -1), Some((MAX_SECS, 200_000_000)));
    assert_eq!(moved(instant(MAX_SECS, 1_200_000_000), 0), Some((MAX_SECS, 1_200_000_000)));
}

#[test]
fn date_in_utc_is_parsed_wherever_chrono_reads_it() {
    for text in ["00010101T000000Z", "99991231T235959Z", "20240229T235960Z", "00000101T000000Z"] {
        assert!(date(text).is_ok(), "{}", text);
    }
    let first = date("00010101T000000Z").unwrap();
    assert_eq!(first.secs, -62135596800);
    assert!(MIN_SECS <= first.secs && first.secs <= MAX_SECS);
}

#[test]
fn period_in_utc_is_parsed_wherever_both_halves_are() {
    assert!(period("20200101T000000Z/20200102T000000Z").is_ok());
    assert!(period("20200101T000000Z/P1D").is_ok());
    assert_eq!(
        period("20200101T000000ZZ/P1D"),
        Err(Error::InvalidPeriod("20200101T000000ZZ/P1D".to_string()))
    );
}

fn expected_sum(secs: i64, nanos: u32, by: i64) -> Option<(i64, u32)> {
    let held = MIN_SECS <= secs
        && secs <= MAX_SECS
        && nanos < 2_000_000_000
        && (nanos < 1_000_000_000 || secs.rem_euclid(60) == 59);
    if !held || by < -MAX_SPAN || by > MAX_SPAN {
        return None;
    }
    let (sum, left) = if nanos < 1_000_000_000 || by == 0 {
        (secs as i128 + by as i128, nanos)
    } else if by > 0 {
        (secs as i128 + by as i128, nanos - 1_000_000_000)
    } else {
        (secs as i128 + 1 + by as i128, nanos - 1_000_000_000)
    };
    if (MIN_SECS as i128) <= sum && sum <= MAX_SECS as i128 {
        Some((sum as i64, left))
    } else {
        None
    }
}

#[test]
fn sum_is_what_is_stated_of_it() {
    let starts = [
        MIN_SECS - 1,
        MIN_SECS,
        MIN_SECS + 59,
        -86_401,
        -61,
        -1,
        0,
        59,
        119,
        1483228799,
        MAX_SECS - 60,
        MAX_SECS,
        MAX_SECS + 1,
    ];
    let parts = [0, 1, 999_999_999, 1_000_000_000, 1_500_000_000, 1_999_999_999, 2_000_000_000];
    let spans = [
        -MAX_SPAN,
        MIN_SECS - MAX_SECS,
        -31_622_400,
        -86_400,
        -61,
        -60,
        -2,
        -1,
        0,
        1,
        2,
        60,
        61,
        86_400,
        31_622_400,
        MAX_SECS - MIN_SECS,
        MAX_SPAN,
    ];
    for secs in starts {
        for nanos in parts {
            for by in spans {
                assert_eq!(
                    moved(instant(secs, nanos), by),
                    expected_sum(secs, nanos, by),
                    "{} {} {}",
                    secs,
                    nanos,
                    by
                );
                assert_eq!(
                    chrono::DateTime::from_timestamp(secs, nanos).is_some(),
                    expected_sum(secs, nanos, 0).is_some(),
                    "{} {}",
                    secs,
                    nanos
                );
            }
        }
    }
}
