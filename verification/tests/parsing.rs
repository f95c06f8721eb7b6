use web_ical::{Calendar, DiagnosticKind, FieldName, IcsError, UtcInstant};

fn instant(
    year: u16,
    month: u8,
    day: u8,
    hour: u8,
    minute: u8,
    second: u8,
) -> UtcInstant {
    UtcInstant { year, month, day, hour, minute, second }
}

#[test]
fn end_to_end_sample() {
    let text = "BEGIN:VCALENDAR\r\nPRODID:-//T//\r\nVERSION:2.0\r\nBEGIN:VEVENT\r\nUID:1\r\nDTSTAMP:20190522T232701Z\r\nSUMMARY:Test\r\nEND:VEVENT\r\nEND:VCALENDAR\r\n";
    let cal = Calendar::new_from_data(text).expect("parse");
    assert_eq!(cal.prodid, "-//T//");
    assert_eq!(cal.version, "2.0");
    assert_eq!(cal.events.len(), 1);
    let ev = &cal.events[0];
    assert_eq!(ev.uid.as_deref(), Some("1"));
    assert_eq!(ev.dtstamp, Some(instant(2019, 5, 22, 23, 27, 1)));
    assert_eq!(ev.summary.as_deref(), Some("Test"));
    assert!(ev.dtstart.is_none());
    assert!(ev.dtend.is_none());
    assert!(ev.created.is_none());
    assert!(ev.description.is_none());
    assert!(ev.last_modified.is_none());
    assert!(ev.location.is_none());
    assert!(ev.organizer.is_none());
    assert!(ev.sequence.is_none());
    assert!(ev.status.is_none());
    assert!(ev.transp.is_none());
    assert!(ev.repeat.is_none());
    assert!(ev.class.is_none());
    assert!(ev.geo.is_none());
    assert!(ev.priority.is_none());
    assert!(ev.recur_id.is_none());
    assert!(ev.url.is_none());
}

#[test]
fn sequence_decodes_to_integer() {
    let text = "BEGIN:VCALENDAR\r\nPRODID:p\r\nVERSION:2.0\r\nBEGIN:VEVENT\r\nSEQUENCE:3\r\nEND:VEVENT\r\nEND:VCALENDAR\r\n";
    let cal = Calendar::new_from_data(text).expect("parse");
    assert_eq!(cal.events[0].sequence, Some(3));
}

#[test]
fn sequence_accepts_plus_sign_and_leading_zeroes() {
    let text = "BEGIN:VCALENDAR\r\nPRODID:p\r\nVERSION:2.0\r\nBEGIN:VEVENT\r\nSEQUENCE:+0042\r\nEND:VEVENT\r\nEND:VCALENDAR\r\n";
    let cal = Calendar::new_from_data(text).expect("parse");
    assert_eq!(cal.events[0].sequence, Some(42));
}

#[test]
fn non_numeric_sequence_is_fatal() {
    let text = "BEGIN:VCALENDAR\r\nPRODID:p\r\nVERSION:2.0\r\nBEGIN:VEVENT\r\nSEQUENCE:abc\r\nEND:VEVENT\r\nEND:VCALENDAR\r\n";
    assert_eq!(Calendar::new_from_data(text).err(), Some(IcsError::NumericParseFailure));
}

#[test]
fn overflowing_sequence_is_fatal() {
    let text = "BEGIN:VCALENDAR\r\nPRODID:p\r\nVERSION:2.0\r\nBEGIN:VEVENT\r\nSEQUENCE:4294967296\r\nEND:VEVENT\r\nEND:VCALENDAR\r\n";
    assert_eq!(Calendar::new_from_data(text).err(), Some(IcsError::NumericParseFailure));
    let max = "BEGIN:VCALENDAR\r\nPRODID:p\r\nVERSION:2.0\r\nBEGIN:VEVENT\r\nSEQUENCE:4294967295\r\nEND:VEVENT\r\nEND:VCALENDAR\r\n";
    let cal = Calendar::new_from_data(max).expect("parse");
    assert_eq!(cal.events[0].sequence, Some(u32::MAX));
}

#[test]
fn date_only_dtstart_is_midnight_utc() {
    let text = "BEGIN:VCALENDAR\r\nPRODID:p\r\nVERSION:2.0\r\nBEGIN:VEVENT\r\nDTSTART;VALUE=DATE:20230101\r\nEND:VEVENT\r\nEND:VCALENDAR\r\n";
    let cal = Calendar::new_from_data(text).expect("parse");
    assert_eq!(cal.events[0].dtstart, Some(instant(2023, 1, 1, 0, 0, 0)));
}

#[test]
fn plain_dtstart_parses_date_time() {
    let text = "BEGIN:VCALENDAR\r\nPRODID:p\r\nVERSION:2.0\r\nBEGIN:VEVENT\r\nDTSTART:20230101T000000Z\r\nEND:VEVENT\r\nEND:VCALENDAR\r\n";
    let cal = Calendar::new_from_data(text).expect("parse");
    assert_eq!(cal.events[0].dtstart, Some(instant(2023, 1, 1, 0, 0, 0)));
}

#[test]
fn rrule_freq_without_until() {
    let text = "BEGIN:VCALENDAR\r\nPRODID:p\r\nVERSION:2.0\r\nBEGIN:VEVENT\r\nRRULE:FREQ=WEEKLY\r\nEND:VEVENT\r\nEND:VCALENDAR\r\n";
    let cal = Calendar::new_from_data(text).expect("parse");
    let rep = cal.events[0].repeat.as_ref().expect("repeat");
    assert_eq!(rep.freq, "WEEKLY");
    assert!(rep.until.is_none());
}

#[test]
fn rrule_with_until_bound() {
    let text = "BEGIN:VCALENDAR\r\nPRODID:p\r\nVERSION:2.0\r\nBEGIN:VEVENT\r\nRRULE:FREQ=DAILY;UNTIL=20240131T120000Z\r\nEND:VEVENT\r\nEND:VCALENDAR\r\n";
    let cal = Calendar::new_from_data(text).expect("parse");
    let rep = cal.events[0].repeat.as_ref().expect("repeat");
    assert_eq!(rep.freq, "DAILY");
    assert_eq!(rep.until, Some(instant(2024, 1, 31, 12, 0, 0)));
}

#[test]
fn rrule_without_freq_is_discarded() {
    let text = "BEGIN:VCALENDAR\r\nPRODID:p\r\nVERSION:2.0\r\nBEGIN:VEVENT\r\nRRULE:UNTIL=20240131T120000Z\r\nEND:VEVENT\r\nEND:VCALENDAR\r\n";
    let out = web_ical::parse_ics(text).expect("parse");
    assert!(out.calendar.events[0].repeat.is_none());
    assert!(out.diagnostics.iter().any(|d| d.kind == DiagnosticKind::BadRecurrenceRule));
}

#[test]
fn missing_terminator_is_structural_error() {
    let text = "BEGIN:VCALENDAR\r\nPRODID:p\r\nVERSION:2.0\r\n";
    assert_eq!(Calendar::new_from_data(text).err(), Some(IcsError::UnexpectedEndOfInput));
}

#[test]
fn unclosed_event_is_structural_error() {
    let text = "BEGIN:VCALENDAR\r\nPRODID:p\r\nVERSION:2.0\r\nBEGIN:VEVENT\r\nUID:1\r\nEND:VCALENDAR\r\n";
    assert_eq!(Calendar::new_from_data(text).err(), Some(IcsError::UnexpectedEndOfInput));
}

#[test]
fn missing_calendar_begin_is_structural_error() {
    assert_eq!(
        Calendar::new_from_data("PRODID:p\r\nEND:VCALENDAR\r\n").err(),
        Some(IcsError::MissingCalendarBegin)
    );
    assert_eq!(Calendar::new_from_data("").err(), Some(IcsError::MissingCalendarBegin));
}

#[test]
fn duplicate_prodid_is_reported() {
    let text = "BEGIN:VCALENDAR\r\nPRODID:p\r\nPRODID:q\r\nVERSION:2.0\r\nEND:VCALENDAR\r\n";
    assert_eq!(
        Calendar::new_from_data(text).err(),
        Some(IcsError::DuplicateField(FieldName::Prodid))
    );
}

#[test]
fn missing_prodid_or_version_is_reported() {
    assert_eq!(
        Calendar::new_from_data("BEGIN:VCALENDAR\r\nVERSION:2.0\r\nEND:VCALENDAR\r\n").err(),
        Some(IcsError::MissingProdid)
    );
    assert_eq!(
        Calendar::new_from_data("BEGIN:VCALENDAR\r\nPRODID:p\r\nEND:VCALENDAR\r\n").err(),
        Some(IcsError::MissingVersion)
    );
}

#[test]
fn malformed_lines_do_not_change_event_count() {
    let clean = "BEGIN:VCALENDAR\r\nPRODID:p\r\nVERSION:2.0\r\nBEGIN:VEVENT\r\nUID:1\r\nEND:VEVENT\r\nBEGIN:VEVENT\r\nUID:2\r\nEND:VEVENT\r\nEND:VCALENDAR\r\n";
    let noisy = "BEGIN:VCALENDAR\r\nPRODID:p\r\nnonsense without separator\r\nVERSION:2.0\r\nBEGIN:VEVENT\r\nmore nonsense\r\nUID:1\r\nEND:VEVENT\r\nanother bad line\r\nBEGIN:VEVENT\r\nUID:2\r\nEND:VEVENT\r\nEND:VCALENDAR\r\n";
    let a = Calendar::new_from_data(clean).expect("parse");
    let out = web_ical::parse_ics(noisy).expect("parse");
    assert_eq!(a.events.len(), 2);
    assert_eq!(out.calendar.events.len(), 2);
    let malformed = out
        .diagnostics
        .iter()
        .filter(|d| d.kind == DiagnosticKind::MalformedLine)
        .count();
    assert_eq!(malformed, 3);
}

#[test]
fn events_keep_input_order() {
    let text = "BEGIN:VCALENDAR\r\nPRODID:p\r\nVERSION:2.0\r\nBEGIN:VEVENT\r\nUID:first\r\nEND:VEVENT\r\nBEGIN:VEVENT\r\nUID:second\r\nEND:VEVENT\r\nBEGIN:VEVENT\r\nUID:third\r\nEND:VEVENT\r\nEND:VCALENDAR\r\n";
    let cal = Calendar::new_from_data(text).expect("parse");
    let uids: Vec<&str> = cal.events.iter().map(|e| e.uid.as_deref().unwrap()).collect();
    assert_eq!(uids, vec!["first", "second", "third"]);
}

#[test]
fn lf_terminated_lines_are_accepted() {
    let text = "BEGIN:VCALENDAR\nPRODID:p\nVERSION:2.0\nBEGIN:VEVENT\nUID:1\nEND:VEVENT\nEND:VCALENDAR\n";
    let cal = Calendar::new_from_data(text).expect("parse");
    assert_eq!(cal.events.len(), 1);
    assert_eq!(cal.events[0].uid.as_deref(), Some("1"));
}

#[test]
fn header_fields_are_gathered() {
    let text = "BEGIN:VCALENDAR\r\nPRODID:p\r\nVERSION:2.0\r\nCALSCALE:GREGORIAN\r\nMETHOD:PUBLISH\r\nNAME:home\r\nX-WR-CALNAME:Home\r\nX-WR-TIMEZONE:Europe/Berlin\r\nEND:VCALENDAR\r\n";
    let cal = Calendar::new_from_data(text).expect("parse");
    assert_eq!(cal.calscale.as_deref(), Some("GREGORIAN"));
    assert_eq!(cal.method.as_deref(), Some("PUBLISH"));
    assert_eq!(cal.name.as_deref(), Some("home"));
    assert_eq!(cal.x_wr_calname.as_deref(), Some("Home"));
    assert_eq!(cal.x_wr_timezone.as_deref(), Some("Europe/Berlin"));
}

#[test]
fn unknown_keys_are_logged_and_ignored() {
    let text = "BEGIN:VCALENDAR\r\nPRODID:p\r\nVERSION:2.0\r\nX-CUSTOM:zzz\r\nBEGIN:VEVENT\r\nX-OTHER:yyy\r\nEND:VEVENT\r\nEND:VCALENDAR\r\n";
    let out = web_ical::parse_ics(text).expect("parse");
    assert_eq!(out.calendar.events.len(), 1);
    let unknown = out
        .diagnostics
        .iter()
        .filter(|d| d.kind == DiagnosticKind::UnknownProperty)
        .count();
    assert_eq!(unknown, 2);
}

#[test]
fn bad_optional_datetime_leaves_field_unset() {
    let text = "BEGIN:VCALENDAR\r\nPRODID:p\r\nVERSION:2.0\r\nBEGIN:VEVENT\r\nDTSTART:not-a-date\r\nEND:VEVENT\r\nEND:VCALENDAR\r\n";
    let out = web_ical::parse_ics(text).expect("parse");
    assert!(out.calendar.events[0].dtstart.is_none());
    assert!(out.diagnostics.iter().any(|d| d.kind == DiagnosticKind::DateTimeParseFailure));
}

#[test]
fn trailing_input_after_terminator_is_ignored() {
    let text = "BEGIN:VCALENDAR\r\nPRODID:p\r\nVERSION:2.0\r\nEND:VCALENDAR\r\nGARBAGE\r\n";
    let cal = Calendar::new_from_data(text).expect("parse");
    assert_eq!(cal.prodid, "p");
}

#[test]
fn value_may_contain_colons() {
    let text = "BEGIN:VCALENDAR\r\nPRODID:p\r\nVERSION:2.0\r\nBEGIN:VEVENT\r\nURL:https://example.test/a\r\nEND:VEVENT\r\nEND:VCALENDAR\r\n";
    let cal = Calendar::new_from_data(text).expect("parse");
    assert_eq!(cal.events[0].url.as_deref(), Some("https://example.test/a"));
}
