use web_ical::datetime::{format_datetime, parse_date, parse_datetime};
use web_ical::UtcInstant;

fn instant(
    year: u16,
    month: u8,
    day: u8,
    hour: u8,
    minute: u8,
    second: u8,
) -> UtcInstant {
    UtcInstant { year, month, day, hour, minute, second }
}

#[test]
fn parses_with_and_without_zulu_suffix() {
    assert_eq!(parse_datetime("20190522T232701Z"), Some(instant(2019, 5, 22, 23, 27, 1)));
    assert_eq!(parse_datetime("20190522T232701"), Some(instant(2019, 5, 22, 23, 27, 1)));
}

#[test]
fn rejects_wrong_shapes() {
    assert_eq!(parse_datetime(""), None);
    assert_eq!(parse_datetime("20190522"), None);
    assert_eq!(parse_datetime("20190522 232701Z"), None);
    assert_eq!(parse_datetime("20190522T232701X"), None);
    assert_eq!(parse_datetime("2019-05-22T23:27:01"), None);
    assert_eq!(parse_datetime("20190522T232701Z1"), None);
}

#[test]
fn rejects_out_of_range_components() {
    assert_eq!(parse_datetime("20191322T000000Z"), None);
    assert_eq!(parse_datetime("20190500T000000Z"), None);
    assert_eq!(parse_datetime("20190532T000000Z"), None);
    assert_eq!(parse_datetime("20190522T240000Z"), None);
    assert_eq!(parse_datetime("20190522T236000Z"), None);
    assert_eq!(parse_datetime("20190522T232760Z"), None);
}

#[test]
fn knows_month_lengths_and_leap_years() {
    assert_eq!(parse_datetime("20240229T000000Z"), Some(instant(2024, 2, 29, 0, 0, 0)));
    assert_eq!(parse_datetime("20230229T000000Z"), None);
    assert_eq!(parse_datetime("19000229T000000Z"), None);
    assert_eq!(parse_datetime("20000229T000000Z"), Some(instant(2000, 2, 29, 0, 0, 0)));
    assert_eq!(parse_datetime("20230431T000000Z"), None);
    assert_eq!(parse_datetime("20230430T000000Z"), Some(instant(2023, 4, 30, 0, 0, 0)));
}

#[test]
fn date_only_form() {
    assert_eq!(parse_date("20230101"), Some(instant(2023, 1, 1, 0, 0, 0)));
    assert_eq!(parse_date("20230132"), None);
    assert_eq!(parse_date("202301"), None);
    assert_eq!(parse_date("20230101T"), None);
}

#[test]
fn formats_sixteen_characters_with_zulu() {
    assert_eq!(format_datetime(&instant(2019, 5, 22, 23, 27, 1)), "20190522T232701Z");
    assert_eq!(format_datetime(&instant(1, 1, 1, 0, 0, 0)), "00010101T000000Z");
    assert_eq!(format_datetime(&instant(9999, 12, 31, 23, 59, 59)), "99991231T235959Z");
}

#[test]
fn format_then_parse_is_identity() {
    let cases = [
        instant(2024, 2, 29, 8, 15, 30),
        instant(1970, 1, 1, 0, 0, 0),
        instant(2000, 12, 31, 23, 59, 59),
    ];
    for c in cases {
        assert_eq!(parse_datetime(&format_datetime(&c)), Some(c));
    }
}

#[test]
fn timeline_seconds_counts_days() {
    let a = instant(2023, 1, 1, 0, 0, 0);
    let b = instant(2023, 1, 2, 0, 0, 0);
    assert_eq!(b.timeline_seconds() - a.timeline_seconds(), 86400);
    // leap day between the two
    let c = instant(2024, 2, 28, 0, 0, 0);
    let d = instant(2024, 3, 1, 0, 0, 0);
    assert_eq!(d.timeline_seconds() - c.timeline_seconds(), 2 * 86400);
    // a year with no leap day between
    let e = instant(2023, 3, 1, 0, 0, 0);
    let f = instant(2024, 3, 1, 0, 0, 0);
    assert_eq!(f.timeline_seconds() - e.timeline_seconds(), 366 * 86400);
}
