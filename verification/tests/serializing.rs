use web_ical::{Calendar, Event, FieldName, IcsError, UtcInstant};

fn instant(
    year: u16,
    month: u8,
    day: u8,
    hour: u8,
    minute: u8,
    second: u8,
) -> UtcInstant {
    UtcInstant { year, month, day, hour, minute, second }
}

fn full_event(uid: &str, start: UtcInstant, end: UtcInstant) -> Event {
    let mut ev = Event::empty();
    ev.dtstart = Some(start);
    ev.dtend = Some(end);
    ev.dtstamp = Some(instant(2019, 5, 22, 23, 27, 1));
    ev.uid = Some(uid.to_string());
    ev.created = Some(instant(2019, 5, 1, 8, 0, 0));
    ev.description = Some("The description".to_string());
    ev.last_modified = Some(instant(2019, 5, 2, 9, 30, 0));
    ev.location = Some("Homestead FL".to_string());
    ev.sequence = Some(0);
    ev.status = Some("CONFIRMED".to_string());
    ev.summary = Some("My business (Not available)".to_string());
    ev.transp = Some("OPAQUE".to_string());
    ev
}

#[test]
fn create_fills_header_fields() {
    let cal = Calendar::create(
        "-//My Business Inc//My Calendar 70.9054//EN",
        "2.0",
        "GREGORIAN",
        "PUBLISH",
        "example@gmail.com",
        "America/New_York",
    );
    assert_eq!(cal.prodid, "-//My Business Inc//My Calendar 70.9054//EN");
    assert_eq!(cal.version, "2.0");
    assert_eq!(cal.calscale.as_deref(), Some("GREGORIAN"));
    assert_eq!(cal.method.as_deref(), Some("PUBLISH"));
    assert_eq!(cal.x_wr_calname.as_deref(), Some("example@gmail.com"));
    assert_eq!(cal.x_wr_timezone.as_deref(), Some("America/New_York"));
    assert!(cal.name.is_none());
    assert!(cal.events.is_empty());
}

#[test]
fn add_event_appends_in_order() {
    let mut cal = Calendar::create("p", "2.0", "GREGORIAN", "PUBLISH", "n", "UTC");
    cal.add_event(full_event("a", instant(2023, 1, 1, 9, 0, 0), instant(2023, 1, 1, 10, 0, 0)));
    cal.add_event(full_event("b", instant(2023, 1, 2, 9, 0, 0), instant(2023, 1, 2, 10, 0, 0)));
    assert_eq!(cal.events.len(), 2);
    assert_eq!(cal.events[0].uid.as_deref(), Some("a"));
    assert_eq!(cal.events[1].uid.as_deref(), Some("b"));
}

#[test]
fn export_has_fixed_order_and_crlf() {
    let mut cal = Calendar::create("p", "2.0", "GREGORIAN", "PUBLISH", "n", "UTC");
    cal.add_event(full_event("u1", instant(2023, 6, 1, 9, 0, 0), instant(2023, 6, 1, 10, 0, 0)));
    let text = cal.export_to().expect("serialize");
    let expected = "BEGIN:VCALENDAR\r\nPRODID:p\r\nCALSCALE:GREGORIAN\r\nVERSION:2.0\r\nMETHOD:PUBLISH\r\nX-WR-CALNAME:n\r\nX-WR-TIMEZONE:UTC\r\nBEGIN:VEVENT\r\nDTSTART:20230601T090000Z\r\nDTEND:20230601T100000Z\r\nDTSTAMP:20190522T232701Z\r\nUID:u1\r\nCREATED:20190501T080000Z\r\nDESCRIPTION:The description\r\nLAST-MODIFIED:20190502T093000Z\r\nLOCATION:Homestead FL\r\nSEQUENCE:0\r\nSTATUS:CONFIRMED\r\nSUMMARY:My business (Not available)\r\nTRANSP:OPAQUE\r\nEND:VEVENT\r\nEND:VCALENDAR\r\n";
    assert_eq!(text, expected);
}

#[test]
fn export_without_optional_headers() {
    let mut cal = Calendar::create("p", "2.0", "x", "x", "x", "x");
    cal.calscale = None;
    cal.method = None;
    cal.x_wr_calname = None;
    cal.x_wr_timezone = None;
    let text = cal.export_to().expect("serialize");
    assert_eq!(text, "BEGIN:VCALENDAR\r\nPRODID:p\r\nVERSION:2.0\r\nEND:VCALENDAR\r\n");
}

#[test]
fn export_reports_first_missing_field() {
    let mut cal = Calendar::create("p", "2.0", "g", "m", "n", "t");
    let mut ev = full_event("u", instant(2023, 1, 1, 0, 0, 0), instant(2023, 1, 2, 0, 0, 0));
    ev.description = None;
    cal.add_event(full_event("ok", instant(2023, 1, 1, 0, 0, 0), instant(2023, 1, 2, 0, 0, 0)));
    cal.add_event(ev);
    assert_eq!(
        cal.export_to(),
        Err(IcsError::MissingEventField { event: 1, field: FieldName::Description })
    );
}

#[test]
fn round_trip_reproduces_emitted_fields() {
    let mut cal = Calendar::create("-//T//", "2.0", "GREGORIAN", "PUBLISH", "cal", "UTC");
    cal.add_event(full_event("u1", instant(2024, 2, 29, 8, 15, 30), instant(2024, 3, 1, 8, 15, 30)));
    cal.add_event(full_event("u2", instant(2023, 12, 31, 23, 59, 59), instant(2024, 1, 1, 0, 0, 0)));
    let text = cal.export_to().expect("serialize");
    let back = Calendar::new_from_data(&text).expect("reparse");
    assert_eq!(back.prodid, cal.prodid);
    assert_eq!(back.version, cal.version);
    assert_eq!(back.calscale, cal.calscale);
    assert_eq!(back.method, cal.method);
    assert_eq!(back.x_wr_calname, cal.x_wr_calname);
    assert_eq!(back.x_wr_timezone, cal.x_wr_timezone);
    assert_eq!(back.events.len(), cal.events.len());
    for (a, b) in cal.events.iter().zip(back.events.iter()) {
        assert_eq!(a.dtstart, b.dtstart);
        assert_eq!(a.dtend, b.dtend);
        assert_eq!(a.dtstamp, b.dtstamp);
        assert_eq!(a.uid, b.uid);
        assert_eq!(a.created, b.created);
        assert_eq!(a.description, b.description);
        assert_eq!(a.last_modified, b.last_modified);
        assert_eq!(a.location, b.location);
        assert_eq!(a.sequence, b.sequence);
        assert_eq!(a.status, b.status);
        assert_eq!(a.summary, b.summary);
        assert_eq!(a.transp, b.transp);
    }
}

#[test]
fn is_all_day_spans() {
    let mut ev = Event::empty();
    assert_eq!(ev.is_all_day(), None);
    ev.dtstart = Some(instant(2023, 1, 1, 0, 0, 0));
    assert_eq!(ev.is_all_day(), None);
    ev.dtend = Some(instant(2023, 1, 2, 0, 0, 0));
    assert_eq!(ev.is_all_day(), Some(true));
    ev.dtend = Some(instant(2023, 1, 1, 23, 59, 59));
    assert_eq!(ev.is_all_day(), Some(false));
    // across a month boundary in a leap year
    ev.dtstart = Some(instant(2024, 2, 28, 12, 0, 0));
    ev.dtend = Some(instant(2024, 2, 29, 12, 0, 0));
    assert_eq!(ev.is_all_day(), Some(true));
}

#[test]
fn check_consistency_requires_uid_and_dtstamp() {
    let mut ev = Event::empty();
    assert!(!ev.check_consistency(true));
    ev.uid = Some("u".to_string());
    ev.dtstamp = Some(instant(2023, 1, 1, 0, 0, 0));
    assert!(ev.check_consistency(true));
    assert!(!ev.check_consistency(false));
    ev.dtstart = Some(instant(2023, 1, 1, 0, 0, 0));
    assert!(ev.check_consistency(false));
}

#[test]
fn set_dt_start_parses_date_and_refuses_twice() {
    let mut ev = Event::empty();
    assert_eq!(ev.set_dt_start("20230101"), Ok(()));
    assert_eq!(ev.dtstart, Some(instant(2023, 1, 1, 0, 0, 0)));
    assert_eq!(
        ev.set_dt_start("20230202"),
        Err(IcsError::DuplicateField(FieldName::Dtstart))
    );
    let mut other = Event::empty();
    assert_eq!(other.set_dt_start("2023-01-01"), Err(IcsError::DateTimeParseFailure));
    assert!(other.dtstart.is_none());
}

#[test]
fn well_formedness_checks() {
    let mut cal = Calendar::create("p", "2.0", "g", "m", "n", "t");
    cal.add_event(full_event("u", instant(2023, 1, 1, 0, 0, 0), instant(2023, 1, 2, 0, 0, 0)));
    assert!(cal.is_well_formed());
    let mut bad = Event::empty();
    bad.dtstart = Some(instant(2023, 13, 1, 0, 0, 0));
    assert!(!bad.is_well_formed());
    cal.add_event(bad);
    assert!(!cal.is_well_formed());
}
