//! Laws of the parser and the serializer, stated and proved over the spec
//! machine of [`crate::parse`] and the renderer of [`crate::serialize`].

use vstd::prelude::*;
use crate::datetime::{lemma_format_datetime_chars, lemma_format_parse_datetime,
    spec_format_datetime, spec_parse_date, spec_parse_datetime};
use crate::decimal::{dec_digits, lemma_dec_digits_val, lemma_format_parse_u32, spec_parse_u32};
use crate::model::{CalendarView, Diagnostic, DiagnosticKind, EventView, RepeatView,
    spec_empty_event};
use crate::parse::{bare_key, diag, empty_builder, finish_cal, has_colon, key_of, key_param,
    rrule_first, rrule_second, run_cal, run_event, spec_parse, spec_parse_records, value_of,
    CalBuilderView, ParseOutcomeView};
use crate::serialize::{crlf, event_complete, header_text, lemma_add_assoc, lemma_add_empty,
    render_calendar, render_event, render_events};
use crate::tokenize::{clean_line, lemma_first_ix_is, lemma_records_of_lines, lines_crlf,
    spec_records};

verus! {

broadcast use vstd::string::group_string_axioms;

/// How many event blocks open at calendar level from record `i` on and are
/// closed by a matching `END:VEVENT`.  A record with no `:` never matches a
/// marker, so malformed records do not figure in the count.
pub open spec fn count_vevents_cal(recs: Seq<Seq<char>>, i: int) -> int
    decreases recs.len() - i, 1int,
{
    if i < 0 || i >= recs.len() {
        0
    } else {
        let l = recs[i];
        if l == "END:VCALENDAR"@ {
            0
        } else if has_colon(l) && key_of(l) == "BEGIN"@ && value_of(l) == "VEVENT"@ {
            count_vevents_event(recs, i + 1)
        } else {
            count_vevents_cal(recs, i + 1)
        }
    }
}

/// As `count_vevents_cal`, from inside an open event block.
pub open spec fn count_vevents_event(recs: Seq<Seq<char>>, i: int) -> int
    decreases recs.len() - i, 0int,
{
    if i < 0 || i >= recs.len() {
        0
    } else if recs[i] == "END:VEVENT"@ {
        1 + count_vevents_cal(recs, i + 1)
    } else {
        count_vevents_event(recs, i + 1)
    }
}


/// The events the machine will close, in marker order, from calendar state
/// at record `i`: empty once `END:VCALENDAR` is met or input runs out.
pub open spec fn blocks_cal(recs: Seq<Seq<char>>, i: int) -> Seq<EventView>
    decreases recs.len() - i, 1int,
{
    if i < 0 || i >= recs.len() {
        Seq::empty()
    } else {
        let l = recs[i];
        if l == "END:VCALENDAR"@ {
            Seq::empty()
        } else if has_colon(l) && key_of(l) == "BEGIN"@ && value_of(l) == "VEVENT"@ {
            blocks_event(recs, i + 1, spec_empty_event())
        } else {
            blocks_cal(recs, i + 1)
        }
    }
}

/// As `blocks_cal`, inside an open block with the event gathered so far;
/// the block's event heads the list when its `END:VEVENT` arrives.
pub open spec fn blocks_event(recs: Seq<Seq<char>>, i: int, ev: EventView) -> Seq<EventView>
    decreases recs.len() - i, 0int,
{
    if i < 0 || i >= recs.len() {
        Seq::empty()
    } else {
        let l = recs[i];
        if l == "END:VEVENT"@ {
            seq![ev] + blocks_cal(recs, i + 1)
        } else if !has_colon(l) {
            blocks_event(recs, i + 1, ev)
        } else {
            let kf = key_of(l);
            let v = value_of(l);
            let k = bare_key(kf);
            if k == "CLASS"@ {
                blocks_event(recs, i + 1, EventView { class: Some(v), ..ev })
            } else if k == "GEO"@ {
                blocks_event(recs, i + 1, EventView { geo: Some(v), ..ev })
            } else if k == "PRIORITY"@ {
                blocks_event(recs, i + 1, EventView { priority: Some(v), ..ev })
            } else if k == "RECUR-ID"@ {
                blocks_event(recs, i + 1, EventView { recur_id: Some(v), ..ev })
            } else if k == "URL"@ {
                blocks_event(recs, i + 1, EventView { url: Some(v), ..ev })
            } else if k == "UID"@ {
                blocks_event(recs, i + 1, EventView { uid: Some(v), ..ev })
            } else if k == "DESCRIPTION"@ {
                blocks_event(recs, i + 1, EventView { description: Some(v), ..ev })
            } else if k == "LOCATION"@ {
                blocks_event(recs, i + 1, EventView { location: Some(v), ..ev })
            } else if k == "SEQUENCE"@ {
                match spec_parse_u32(v) {
                    Some(n) => blocks_event(recs, i + 1, EventView { sequence: Some(n), ..ev }),
                    None => Seq::empty(),
                }
            } else if k == "STATUS"@ {
                blocks_event(recs, i + 1, EventView { status: Some(v), ..ev })
            } else if k == "SUMMARY"@ {
                blocks_event(recs, i + 1, EventView { summary: Some(v), ..ev })
            } else if k == "TRANSP"@ {
                blocks_event(recs, i + 1, EventView { transp: Some(v), ..ev })
            } else if k == "ORGANIZER"@ {
                blocks_event(recs, i + 1, EventView { organizer: Some(v), ..ev })
            } else if k == "RRULE"@ {
                let c1 = rrule_first(v);
                if c1.len() >= 5 && c1.take(5) == "FREQ="@ {
                    let freq = c1.skip(5);
                    match rrule_second(v) {
                        None => blocks_event(recs, i + 1, EventView {
                            repeat: Some(RepeatView { freq, until: None }), ..ev }),
                        Some(c2) => {
                            if c2.len() >= 6 && c2.take(6) == "UNTIL="@ {
                                match spec_parse_datetime(c2.skip(6)) {
                                    Some(u) => blocks_event(recs, i + 1, EventView {
                                        repeat: Some(RepeatView { freq, until: Some(u) }), ..ev }),
                                    None => blocks_event(recs, i + 1, EventView {
                                        repeat: Some(RepeatView { freq, until: None }), ..ev }),
                                }
                            } else {
                                blocks_event(recs, i + 1, EventView {
                                    repeat: Some(RepeatView { freq, until: None }), ..ev })
                            }
                        },
                    }
                } else {
                    blocks_event(recs, i + 1, ev)
                }
            } else if k == "DTSTART"@ {
                let parsed = if key_param(kf) == "VALUE=DATE"@ {
                    spec_parse_date(v)
                } else {
                    spec_parse_datetime(v)
                };
                match parsed {
                    Some(tv) => blocks_event(recs, i + 1, EventView { dtstart: Some(tv), ..ev }),
                    None => blocks_event(recs, i + 1, ev),
                }
            } else if k == "DTEND"@ {
                match spec_parse_datetime(v) {
                    Some(tv) => blocks_event(recs, i + 1, EventView { dtend: Some(tv), ..ev }),
                    None => blocks_event(recs, i + 1, ev),
                }
            } else if k == "DTSTAMP"@ {
                match spec_parse_datetime(v) {
                    Some(tv) => blocks_event(recs, i + 1, EventView { dtstamp: Some(tv), ..ev }),
                    None => blocks_event(recs, i + 1, ev),
                }
            } else if k == "CREATED"@ {
                match spec_parse_datetime(v) {
                    Some(tv) => blocks_event(recs, i + 1, EventView { created: Some(tv), ..ev }),
                    None => blocks_event(recs, i + 1, ev),
                }
            } else if k == "LAST-MODIFIED"@ {
                match spec_parse_datetime(v) {
                    Some(tv) => blocks_event(recs, i + 1, EventView {
                        last_modified: Some(tv), ..ev }),
                    None => blocks_event(recs, i + 1, ev),
                }
            } else {
                blocks_event(recs, i + 1, ev)
            }
        }
    }
}

/// Lengths and distinguishing characters of the dispatch keys, so that the
/// solver can tell any two of them apart.
proof fn lemma_key_facts()
    ensures
        "NAME"@.len() == 4,
        "PRODID"@.len() == 6 && "PRODID"@[0] == 'P',
        "VERSION"@.len() == 7 && "VERSION"@[0] == 'V',
        "CALSCALE"@.len() == 8 && "CALSCALE"@[0] == 'C',
        "METHOD"@.len() == 6 && "METHOD"@[0] == 'M',
        "X-WR-CALNAME"@.len() == 12 && "X-WR-CALNAME"@[0] == 'X',
        "X-WR-TIMEZONE"@.len() == 13 && "X-WR-TIMEZONE"@[0] == 'X',
        "BEGIN"@.len() == 5 && "BEGIN"@[0] == 'B',
        "VEVENT"@.len() == 6 && "VEVENT"@[0] == 'V',
        "CLASS"@.len() == 5 && "CLASS"@[0] == 'C',
        "GEO"@.len() == 3 && "GEO"@[0] == 'G',
        "PRIORITY"@.len() == 8 && "PRIORITY"@[0] == 'P',
        "RECUR-ID"@.len() == 8 && "RECUR-ID"@[0] == 'R',
        "URL"@.len() == 3 && "URL"@[0] == 'U' && "URL"@[1] == 'R',
        "UID"@.len() == 3 && "UID"@[0] == 'U' && "UID"@[1] == 'I',
        "DESCRIPTION"@.len() == 11 && "DESCRIPTION"@[0] == 'D',
        "LOCATION"@.len() == 8 && "LOCATION"@[0] == 'L',
        "SEQUENCE"@.len() == 8 && "SEQUENCE"@[0] == 'S',
        "STATUS"@.len() == 6 && "STATUS"@[0] == 'S',
        "SUMMARY"@.len() == 7 && "SUMMARY"@[0] == 'S',
        "TRANSP"@.len() == 6 && "TRANSP"@[0] == 'T',
        "ORGANIZER"@.len() == 9 && "ORGANIZER"@[0] == 'O',
        "RRULE"@.len() == 5 && "RRULE"@[0] == 'R',
        "DTSTART"@.len() == 7 && "DTSTART"@[0] == 'D' && "DTSTART"@[5] == 'R',
        "DTEND"@.len() == 5 && "DTEND"@[0] == 'D',
        "DTSTAMP"@.len() == 7 && "DTSTAMP"@[0] == 'D' && "DTSTAMP"@[5] == 'M',
        "CREATED"@.len() == 7 && "CREATED"@[0] == 'C',
        "LAST-MODIFIED"@.len() == 13 && "LAST-MODIFIED"@[0] == 'L',
        "END:VCALENDAR"@.len() == 13 && "END:VCALENDAR"@[3] == ':' && "END:VCALENDAR"@[0]
            == 'E',
        "END:VEVENT"@.len() == 10 && "END:VEVENT"@[3] == ':' && "END:VEVENT"@[0] == 'E',
        "BEGIN:VEVENT"@.len() == 12 && "BEGIN:VEVENT"@[0] == 'B',
        "VALUE=DATE"@.len() == 10,
{
    reveal_strlit("BEGIN:VEVENT");
    reveal_strlit("VALUE=DATE");
    reveal_strlit("NAME");
    reveal_strlit("PRODID");
    reveal_strlit("VERSION");
    reveal_strlit("CALSCALE");
    reveal_strlit("METHOD");
    reveal_strlit("X-WR-CALNAME");
    reveal_strlit("X-WR-TIMEZONE");
    reveal_strlit("BEGIN");
    reveal_strlit("VEVENT");
    reveal_strlit("CLASS");
    reveal_strlit("GEO");
    reveal_strlit("PRIORITY");
    reveal_strlit("RECUR-ID");
    reveal_strlit("URL");
    reveal_strlit("UID");
    reveal_strlit("DESCRIPTION");
    reveal_strlit("LOCATION");
    reveal_strlit("SEQUENCE");
    reveal_strlit("STATUS");
    reveal_strlit("SUMMARY");
    reveal_strlit("TRANSP");
    reveal_strlit("ORGANIZER");
    reveal_strlit("RRULE");
    reveal_strlit("DTSTART");
    reveal_strlit("DTEND");
    reveal_strlit("DTSTAMP");
    reveal_strlit("CREATED");
    reveal_strlit("LAST-MODIFIED");
    reveal_strlit("END:VCALENDAR");
    reveal_strlit("END:VEVENT");
}

/// A calendar-level record other than `END:VCALENDAR` either stops the
/// machine with an error, opens an event on `BEGIN:VEVENT`, or moves it one
/// record on with the gathered events untouched.
proof fn lemma_cal_step(recs: Seq<Seq<char>>, i: int, b: CalBuilderView, diags: Seq<Diagnostic>)
    requires
        0 <= i < recs.len(),
        recs[i] != "END:VCALENDAR"@,
    ensures
        ({
            let r = run_cal(recs, i, b, diags);
            let l = recs[i];
            let opens = has_colon(l) && key_of(l) == "BEGIN"@ && value_of(l) == "VEVENT"@;
            ||| r.result is Err
            ||| (opens && r == run_event(recs, i + 1, spec_empty_event(), b, diags)
                && blocks_cal(recs, i) == blocks_event(recs, i + 1, spec_empty_event()))
            ||| (!opens && blocks_cal(recs, i) == blocks_cal(recs, i + 1) && exists|
                b2: CalBuilderView,
                d2: Seq<Diagnostic>,
            |
                (r == #[trigger] run_cal(recs, i + 1, b2, d2) && b2.events == b.events))
        }),
{
    lemma_key_facts();
    let l = recs[i];
    let r = run_cal(recs, i, b, diags);
    if !has_colon(l) {
        assert(r == run_cal(recs, i + 1, b, diags.push(diag(DiagnosticKind::MalformedLine, i))));
    } else {
        let k = key_of(l);
        let v = value_of(l);
        if k == "NAME"@ {
            assert(r == run_cal(recs, i + 1, CalBuilderView { name: Some(v), ..b }, diags));
        } else if k == "PRODID"@ {
            if b.prodid is None {
                assert(r == run_cal(recs, i + 1, CalBuilderView { prodid: Some(v), ..b }, diags));
            }
        } else if k == "VERSION"@ {
            if b.version is None {
                assert(r == run_cal(recs, i + 1, CalBuilderView { version: Some(v), ..b }, diags));
            }
        } else if k == "CALSCALE"@ {
            assert(r == run_cal(recs, i + 1, CalBuilderView { calscale: Some(v), ..b }, diags));
        } else if k == "METHOD"@ {
            assert(r == run_cal(recs, i + 1, CalBuilderView { method: Some(v), ..b }, diags));
        } else if k == "X-WR-CALNAME"@ {
            assert(r == run_cal(recs, i + 1, CalBuilderView { x_wr_calname: Some(v), ..b },
                diags));
        } else if k == "X-WR-TIMEZONE"@ {
            assert(r == run_cal(recs, i + 1, CalBuilderView { x_wr_timezone: Some(v), ..b },
                diags));
        } else if k == "BEGIN"@ {
            if v == "VEVENT"@ {
                assert(r == run_event(recs, i + 1, spec_empty_event(), b, diags));
            } else {
                assert(r == run_cal(recs, i + 1, b, diags));
            }
        } else {
            assert(r == run_cal(recs, i + 1, b, diags.push(diag(DiagnosticKind::UnknownProperty,
                i))));
        }
    }
}

/// An event-level record other than `END:VEVENT` either stops the machine
/// with an error or moves it one record on within the same event block.
proof fn lemma_event_step(
    recs: Seq<Seq<char>>,
    i: int,
    ev: EventView,
    b: CalBuilderView,
    diags: Seq<Diagnostic>,
)
    requires
        0 <= i < recs.len(),
        recs[i] != "END:VEVENT"@,
    ensures
        ({
            let r = run_event(recs, i, ev, b, diags);
            ||| r.result is Err
            ||| exists|ev2: EventView, d2: Seq<Diagnostic>|
                (r == #[trigger] run_event(recs, i + 1, ev2, b, d2) && blocks_event(recs, i, ev)
                    == blocks_event(recs, i + 1, ev2))
        }),
{
    lemma_key_facts();
    let l = recs[i];
    let r = run_event(recs, i, ev, b, diags);
    if !has_colon(l) {
        assert(r == run_event(recs, i + 1, ev, b, diags.push(diag(DiagnosticKind::MalformedLine,
            i))));
        assert(blocks_event(recs, i, ev) == blocks_event(recs, i + 1, ev));
    } else {
        let kf = key_of(l);
        let v = value_of(l);
        let k = bare_key(kf);
        if k == "CLASS"@ {
            assert(r == run_event(recs, i + 1, EventView { class: Some(v), ..ev }, b, diags));
            assert(blocks_event(recs, i, ev) == blocks_event(recs, i + 1, EventView { class: Some(v), ..ev }));
        } else if k == "GEO"@ {
            assert(r == run_event(recs, i + 1, EventView { geo: Some(v), ..ev }, b, diags));
            assert(blocks_event(recs, i, ev) == blocks_event(recs, i + 1, EventView { geo: Some(v), ..ev }));
        } else if k == "PRIORITY"@ {
            assert(r == run_event(recs, i + 1, EventView { priority: Some(v), ..ev }, b, diags));
            assert(blocks_event(recs, i, ev) == blocks_event(recs, i + 1, EventView { priority: Some(v), ..ev }));
        } else if k == "RECUR-ID"@ {
            assert(r == run_event(recs, i + 1, EventView { recur_id: Some(v), ..ev }, b, diags));
            assert(blocks_event(recs, i, ev) == blocks_event(recs, i + 1, EventView { recur_id: Some(v), ..ev }));
        } else if k == "URL"@ {
            assert(r == run_event(recs, i + 1, EventView { url: Some(v), ..ev }, b, diags));
            assert(blocks_event(recs, i, ev) == blocks_event(recs, i + 1, EventView { url: Some(v), ..ev }));
        } else if k == "UID"@ {
            assert(r == run_event(recs, i + 1, EventView { uid: Some(v), ..ev }, b, diags));
            assert(blocks_event(recs, i, ev) == blocks_event(recs, i + 1, EventView { uid: Some(v), ..ev }));
        } else if k == "DESCRIPTION"@ {
            assert(r == run_event(recs, i + 1, EventView { description: Some(v), ..ev }, b,
                diags));
            assert(blocks_event(recs, i, ev) == blocks_event(recs, i + 1, EventView { description: Some(v), ..ev }));
        } else if k == "LOCATION"@ {
            assert(r == run_event(recs, i + 1, EventView { location: Some(v), ..ev }, b, diags));
            assert(blocks_event(recs, i, ev) == blocks_event(recs, i + 1, EventView { location: Some(v), ..ev }));
        } else if k == "SEQUENCE"@ {
            match spec_parse_u32(v) {
                Some(n) => {
                    assert(r == run_event(recs, i + 1, EventView { sequence: Some(n), ..ev }, b,
                        diags));
                    assert(blocks_event(recs, i, ev) == blocks_event(recs, i + 1, EventView { sequence: Some(n), ..ev }));
                },
                None => {
                    assert(r.result is Err);
                },
            }
        } else if k == "STATUS"@ {
            assert(r == run_event(recs, i + 1, EventView { status: Some(v), ..ev }, b, diags));
            assert(blocks_event(recs, i, ev) == blocks_event(recs, i + 1, EventView { status: Some(v), ..ev }));
        } else if k == "SUMMARY"@ {
            assert(r == run_event(recs, i + 1, EventView { summary: Some(v), ..ev }, b, diags));
            assert(blocks_event(recs, i, ev) == blocks_event(recs, i + 1, EventView { summary: Some(v), ..ev }));
        } else if k == "TRANSP"@ {
            assert(r == run_event(recs, i + 1, EventView { transp: Some(v), ..ev }, b, diags));
            assert(blocks_event(recs, i, ev) == blocks_event(recs, i + 1, EventView { transp: Some(v), ..ev }));
        } else if k == "ORGANIZER"@ {
            assert(r == run_event(recs, i + 1, EventView { organizer: Some(v), ..ev }, b, diags));
            assert(blocks_event(recs, i, ev) == blocks_event(recs, i + 1, EventView { organizer: Some(v), ..ev }));
        } else if k == "RRULE"@ {
            let c1 = rrule_first(v);
            if c1.len() >= 5 && c1.take(5) == "FREQ="@ {
                let freq = c1.skip(5);
                match rrule_second(v) {
                    None => {
                        assert(r == run_event(recs, i + 1, EventView {
                            repeat: Some(RepeatView { freq, until: None }), ..ev }, b, diags));
                        assert(blocks_event(recs, i, ev) == blocks_event(recs, i + 1, EventView { repeat: Some(RepeatView { freq, until: None }), ..ev }));
                    },
                    Some(c2) => {
                        if c2.len() >= 6 && c2.take(6) == "UNTIL="@ {
                            match spec_parse_datetime(c2.skip(6)) {
                                Some(u) => {
                                    assert(r == run_event(recs, i + 1, EventView {
                                        repeat: Some(RepeatView { freq, until: Some(u) }), ..ev },
                                        b, diags));
                                    assert(blocks_event(recs, i, ev) == blocks_event(recs, i + 1, EventView { repeat: Some(RepeatView { freq, until: Some(u) }), ..ev }));
                                },
                                None => {
                                    assert(r == run_event(recs, i + 1, EventView {
                                        repeat: Some(RepeatView { freq, until: None }), ..ev }, b,
                                        diags.push(diag(DiagnosticKind::DateTimeParseFailure,
                                        i))));
                                    assert(blocks_event(recs, i, ev) == blocks_event(recs, i + 1, EventView { repeat: Some(RepeatView { freq, until: None }), ..ev }));
                                },
                            }
                        } else {
                            assert(r == run_event(recs, i + 1, EventView {
                                repeat: Some(RepeatView { freq, until: None }), ..ev }, b,
                                diags.push(diag(DiagnosticKind::BadRecurrenceRule, i))));
                            assert(blocks_event(recs, i, ev) == blocks_event(recs, i + 1, EventView { repeat: Some(RepeatView { freq, until: None }), ..ev }));
                        }
                    },
                }
            } else {
                assert(r == run_event(recs, i + 1, ev, b, diags.push(diag(
                    DiagnosticKind::BadRecurrenceRule, i))));
                assert(blocks_event(recs, i, ev) == blocks_event(recs, i + 1, ev));
            }
        } else if k == "DTSTART"@ {
            let parsed = if key_param(kf) == "VALUE=DATE"@ {
                spec_parse_date(v)
            } else {
                spec_parse_datetime(v)
            };
            match parsed {
                Some(tv) => {
                    assert(r == run_event(recs, i + 1, EventView { dtstart: Some(tv), ..ev }, b,
                        diags));
                    assert(blocks_event(recs, i, ev) == blocks_event(recs, i + 1, EventView { dtstart: Some(tv), ..ev }));
                },
                None => {
                    assert(r == run_event(recs, i + 1, ev, b, diags.push(diag(
                        DiagnosticKind::DateTimeParseFailure, i))));
                    assert(blocks_event(recs, i, ev) == blocks_event(recs, i + 1, ev));
                },
            }
        } else if k == "DTEND"@ {
            match spec_parse_datetime(v) {
                Some(tv) => {
                    assert(r == run_event(recs, i + 1, EventView { dtend: Some(tv), ..ev }, b,
                        diags));
                    assert(blocks_event(recs, i, ev) == blocks_event(recs, i + 1, EventView { dtend: Some(tv), ..ev }));
                },
                None => {
                    assert(r == run_event(recs, i + 1, ev, b, diags.push(diag(
                        DiagnosticKind::DateTimeParseFailure, i))));
                    assert(blocks_event(recs, i, ev) == blocks_event(recs, i + 1, ev));
                },
            }
        } else if k == "DTSTAMP"@ {
            match spec_parse_datetime(v) {
                Some(tv) => {
                    assert(r == run_event(recs, i + 1, EventView { dtstamp: Some(tv), ..ev }, b,
                        diags));
                    assert(blocks_event(recs, i, ev) == blocks_event(recs, i + 1, EventView { dtstamp: Some(tv), ..ev }));
                },
                None => {
                    assert(r == run_event(recs, i + 1, ev, b, diags.push(diag(
                        DiagnosticKind::DateTimeParseFailure, i))));
                    assert(blocks_event(recs, i, ev) == blocks_event(recs, i + 1, ev));
                },
            }
        } else if k == "CREATED"@ {
            match spec_parse_datetime(v) {
                Some(tv) => {
                    assert(r == run_event(recs, i + 1, EventView { created: Some(tv), ..ev }, b,
                        diags));
                    assert(blocks_event(recs, i, ev) == blocks_event(recs, i + 1, EventView { created: Some(tv), ..ev }));
                },
                None => {
                    assert(r == run_event(recs, i + 1, ev, b, diags.push(diag(
                        DiagnosticKind::DateTimeParseFailure, i))));
                    assert(blocks_event(recs, i, ev) == blocks_event(recs, i + 1, ev));
                },
            }
        } else if k == "LAST-MODIFIED"@ {
            match spec_parse_datetime(v) {
                Some(tv) => {
                    assert(r == run_event(recs, i + 1, EventView { last_modified: Some(tv),
                        ..ev }, b, diags));
                    assert(blocks_event(recs, i, ev) == blocks_event(recs, i + 1, EventView { last_modified: Some(tv), ..ev }));
                },
                None => {
                    assert(r == run_event(recs, i + 1, ev, b, diags.push(diag(
                        DiagnosticKind::DateTimeParseFailure, i))));
                    assert(blocks_event(recs, i, ev) == blocks_event(recs, i + 1, ev));
                },
            }
        } else {
            assert(r == run_event(recs, i + 1, ev, b, diags.push(diag(
                DiagnosticKind::UnknownProperty, i))));
            assert(blocks_event(recs, i, ev) == blocks_event(recs, i + 1, ev));
        }
    }
}

proof fn lemma_count_cal_all(recs: Seq<Seq<char>>, i: int)
    ensures
        forall|b: CalBuilderView, diags: Seq<Diagnostic>|
            (#[trigger] run_cal(recs, i, b, diags)).result matches Ok(c) ==> c.events.len()
                == b.events.len() + count_vevents_cal(recs, i),
    decreases recs.len() - i, 1int,
{
    if 0 <= i < recs.len() {
        lemma_count_cal_all(recs, i + 1);
        lemma_count_event_all(recs, i + 1);
        assert forall|b: CalBuilderView, diags: Seq<Diagnostic>|
            (#[trigger] run_cal(recs, i, b, diags)).result matches Ok(c) ==> c.events.len()
                == b.events.len() + count_vevents_cal(recs, i) by {
            let l = recs[i];
            let r = run_cal(recs, i, b, diags);
            let cnt = count_vevents_cal(recs, i);
            if l == "END:VCALENDAR"@ {
                assert(cnt == 0);
            } else {
                lemma_cal_step(recs, i, b, diags);
                if has_colon(l) && key_of(l) == "BEGIN"@ && value_of(l) == "VEVENT"@ {
                    assert(cnt == count_vevents_event(recs, i + 1));
                } else {
                    assert(cnt == count_vevents_cal(recs, i + 1));
                }
            }
        }
    }
}

proof fn lemma_count_event_all(recs: Seq<Seq<char>>, i: int)
    ensures
        forall|ev: EventView, b: CalBuilderView, diags: Seq<Diagnostic>|
            (#[trigger] run_event(recs, i, ev, b, diags)).result matches Ok(c) ==> c.events.len()
                == b.events.len() + count_vevents_event(recs, i),
    decreases recs.len() - i, 0int,
{
    if 0 <= i < recs.len() {
        lemma_count_event_all(recs, i + 1);
        lemma_count_cal_all(recs, i + 1);
        assert forall|ev: EventView, b: CalBuilderView, diags: Seq<Diagnostic>|
            (#[trigger] run_event(recs, i, ev, b, diags)).result matches Ok(c)
                ==> c.events.len() == b.events.len() + count_vevents_event(recs, i) by {
            let l = recs[i];
            let r = run_event(recs, i, ev, b, diags);
            let cnt = count_vevents_event(recs, i);
            if l == "END:VEVENT"@ {
                assert(r == run_cal(recs, i + 1, CalBuilderView { events: b.events.push(ev), ..b },
                    diags));
                assert(cnt == 1 + count_vevents_cal(recs, i + 1));
            } else {
                lemma_event_step(recs, i, ev, b, diags);
                assert(cnt == count_vevents_event(recs, i + 1));
            }
        }
    }
}

/// One event per closed block: a successful parse yields exactly as many
/// events as there are `BEGIN:VEVENT` markers whose block is closed by a
/// matching `END:VEVENT`.  A record with no `:` is never such a marker, so
/// however many malformed lines stand between the valid ones, the event
/// count does not change.
pub proof fn lemma_event_count(text: Seq<char>)
    ensures
        spec_parse(text).result matches Ok(c) ==> c.events.len() == count_vevents_cal(
            spec_records(text),
            1,
        ),
{
    let recs = spec_records(text);
    if recs.len() > 0 && recs[0] == "BEGIN:VCALENDAR"@ {
        lemma_count_cal_all(recs, 1);
        assert(empty_builder().events.len() == 0);
    }
}


proof fn lemma_blocks_cal_all(recs: Seq<Seq<char>>, i: int)
    ensures
        forall|b: CalBuilderView, diags: Seq<Diagnostic>|
            (#[trigger] run_cal(recs, i, b, diags)).result matches Ok(c) ==> c.events == b.events
                + blocks_cal(recs, i),
    decreases recs.len() - i, 1int,
{
    if 0 <= i < recs.len() {
        lemma_blocks_cal_all(recs, i + 1);
        lemma_blocks_event_all(recs, i + 1);
        assert forall|b: CalBuilderView, diags: Seq<Diagnostic>|
            (#[trigger] run_cal(recs, i, b, diags)).result matches Ok(c) ==> c.events == b.events
                + blocks_cal(recs, i) by {
            let l = recs[i];
            let r = run_cal(recs, i, b, diags);
            if l == "END:VCALENDAR"@ {
                assert(blocks_cal(recs, i) == Seq::<EventView>::empty());
                lemma_add_empty(b.events);
            } else {
                lemma_cal_step(recs, i, b, diags);
            }
        }
    } else {
        assert forall|b: CalBuilderView, diags: Seq<Diagnostic>|
            (#[trigger] run_cal(recs, i, b, diags)).result matches Ok(c) ==> c.events == b.events
                + blocks_cal(recs, i) by {
            assert(run_cal(recs, i, b, diags).result is Err);
        }
    }
}

proof fn lemma_blocks_event_all(recs: Seq<Seq<char>>, i: int)
    ensures
        forall|ev: EventView, b: CalBuilderView, diags: Seq<Diagnostic>|
            (#[trigger] run_event(recs, i, ev, b, diags)).result matches Ok(c) ==> c.events
                == b.events + blocks_event(recs, i, ev),
    decreases recs.len() - i, 0int,
{
    if 0 <= i < recs.len() {
        lemma_blocks_event_all(recs, i + 1);
        lemma_blocks_cal_all(recs, i + 1);
        assert forall|ev: EventView, b: CalBuilderView, diags: Seq<Diagnostic>|
            (#[trigger] run_event(recs, i, ev, b, diags)).result matches Ok(c) ==> c.events
                == b.events + blocks_event(recs, i, ev) by {
            let l = recs[i];
            let r = run_event(recs, i, ev, b, diags);
            if l == "END:VEVENT"@ {
                assert(r == run_cal(recs, i + 1, CalBuilderView { events: b.events.push(ev), ..b },
                    diags));
                assert(blocks_event(recs, i, ev) == seq![ev] + blocks_cal(recs, i + 1));
                assert(b.events.push(ev) + blocks_cal(recs, i + 1) =~= b.events + (seq![ev]
                    + blocks_cal(recs, i + 1)));
            } else {
                lemma_event_step(recs, i, ev, b, diags);
            }
        }
    } else {
        assert forall|ev: EventView, b: CalBuilderView, diags: Seq<Diagnostic>|
            (#[trigger] run_event(recs, i, ev, b, diags)).result matches Ok(c) ==> c.events
                == b.events + blocks_event(recs, i, ev) by {
            assert(run_event(recs, i, ev, b, diags).result is Err);
        }
    }
}

/// Events come out in marker order: a successful parse returns exactly the
/// events of the closed `BEGIN:VEVENT` blocks, ordered as their markers
/// stood in the input (`blocks_cal` walks the records once, front to back,
/// and lists one event per closed block as it meets it).
pub proof fn lemma_events_in_marker_order(text: Seq<char>)
    ensures
        spec_parse(text).result matches Ok(c) ==> c.events == blocks_cal(spec_records(text), 1),
{
    let recs = spec_records(text);
    if recs.len() > 0 && recs[0] == "BEGIN:VCALENDAR"@ {
        lemma_blocks_cal_all(recs, 1);
        lemma_add_empty(blocks_cal(recs, 1));
    }
}

proof fn lemma_end_markers_have_colon()
    ensures
        has_colon("END:VCALENDAR"@),
        has_colon("END:VEVENT"@),
{
    lemma_key_facts();
    reveal_strlit("END:VCALENDAR");
    reveal_strlit("END:VEVENT");
    lemma_first_ix_is("END:VCALENDAR"@, ':', 3);
    lemma_first_ix_is("END:VEVENT"@, ':', 3);
}

proof fn lemma_count_suffix_cal(recs1: Seq<Seq<char>>, i1: int, recs2: Seq<Seq<char>>, i2: int)
    requires
        0 <= i1 <= recs1.len(),
        0 <= i2 <= recs2.len(),
        recs1.skip(i1) == recs2.skip(i2),
    ensures
        count_vevents_cal(recs1, i1) == count_vevents_cal(recs2, i2),
    decreases recs1.len() - i1, 1int,
{
    assert(recs1.skip(i1).len() == recs1.len() - i1);
    assert(recs2.skip(i2).len() == recs2.len() - i2);
    if i1 < recs1.len() {
        assert(recs1[i1] == recs1.skip(i1)[0]);
        assert(recs2[i2] == recs2.skip(i2)[0]);
        assert(recs1[i1] == recs2[i2]);
        assert(recs1.skip(i1 + 1) =~= recs2.skip(i2 + 1)) by {
            assert(forall|m: int| 0 <= m < recs1.len() - i1 - 1 ==> #[trigger] recs1.skip(
                i1 + 1,
            )[m] == recs1.skip(i1)[m + 1]);
            assert(forall|m: int| 0 <= m < recs2.len() - i2 - 1 ==> #[trigger] recs2.skip(
                i2 + 1,
            )[m] == recs2.skip(i2)[m + 1]);
        }
        lemma_count_suffix_cal(recs1, i1 + 1, recs2, i2 + 1);
        lemma_count_suffix_event(recs1, i1 + 1, recs2, i2 + 1);
    }
}

proof fn lemma_count_suffix_event(recs1: Seq<Seq<char>>, i1: int, recs2: Seq<Seq<char>>, i2: int)
    requires
        0 <= i1 <= recs1.len(),
        0 <= i2 <= recs2.len(),
        recs1.skip(i1) == recs2.skip(i2),
    ensures
        count_vevents_event(recs1, i1) == count_vevents_event(recs2, i2),
    decreases recs1.len() - i1, 0int,
{
    assert(recs1.skip(i1).len() == recs1.len() - i1);
    assert(recs2.skip(i2).len() == recs2.len() - i2);
    if i1 < recs1.len() {
        assert(recs1[i1] == recs1.skip(i1)[0]);
        assert(recs2[i2] == recs2.skip(i2)[0]);
        assert(recs1[i1] == recs2[i2]);
        assert(recs1.skip(i1 + 1) =~= recs2.skip(i2 + 1)) by {
            assert(forall|m: int| 0 <= m < recs1.len() - i1 - 1 ==> #[trigger] recs1.skip(
                i1 + 1,
            )[m] == recs1.skip(i1)[m + 1]);
            assert(forall|m: int| 0 <= m < recs2.len() - i2 - 1 ==> #[trigger] recs2.skip(
                i2 + 1,
            )[m] == recs2.skip(i2)[m + 1]);
        }
        lemma_count_suffix_event(recs1, i1 + 1, recs2, i2 + 1);
        lemma_count_suffix_cal(recs1, i1 + 1, recs2, i2 + 1);
    }
}

proof fn lemma_count_remove_cal(recs: Seq<Seq<char>>, p: int, i: int)
    requires
        0 <= i <= p < recs.len(),
        !has_colon(recs[p]),
    ensures
        count_vevents_cal(recs.take(p) + recs.skip(p + 1), i) == count_vevents_cal(recs, i),
        count_vevents_event(recs.take(p) + recs.skip(p + 1), i) == count_vevents_event(recs, i),
    decreases p - i,
{
    lemma_end_markers_have_colon();
    let recs2 = recs.take(p) + recs.skip(p + 1);
    assert(recs2.len() == recs.len() - 1);
    if i == p {
        assert(recs[p] != "END:VCALENDAR"@);
        assert(recs[p] != "END:VEVENT"@);
        assert(count_vevents_cal(recs, p) == count_vevents_cal(recs, p + 1));
        assert(count_vevents_event(recs, p) == count_vevents_event(recs, p + 1));
        assert(recs2.skip(p) =~= recs.skip(p + 1)) by {
            assert(forall|m: int| 0 <= m < recs2.len() - p ==> #[trigger] recs2.skip(p)[m]
                == recs2[p + m]);
            assert(forall|m: int| 0 <= m < recs2.len() - p ==> recs2[p + m] == #[trigger] recs.skip(
                p + 1,
            )[m]);
        }
        lemma_count_suffix_cal(recs2, p, recs, p + 1);
        lemma_count_suffix_event(recs2, p, recs, p + 1);
    } else {
        assert(recs2[i] == recs[i]);
        lemma_count_remove_cal(recs, p, i + 1);
    }
}

/// The other half of the malformed-line law: removing a record with no `:`
/// from anywhere after the opening record leaves the closed-block count
/// untouched.  With `lemma_event_count`, however many such records are
/// interspersed, a successful parse's event count never changes.
pub proof fn lemma_malformed_record_does_not_count(recs: Seq<Seq<char>>, p: int)
    requires
        1 <= p < recs.len(),
        !has_colon(recs[p]),
    ensures
        count_vevents_cal(recs.take(p) + recs.skip(p + 1), 1) == count_vevents_cal(recs, 1),
{
    lemma_count_remove_cal(recs, p, 1);
}

proof fn lemma_lines_crlf_concat(a: Seq<Seq<char>>, b: Seq<Seq<char>>)
    ensures
        lines_crlf(a + b) == lines_crlf(a) + lines_crlf(b),
    decreases a.len(),
{
    if a.len() == 0 {
        assert(a + b =~= b);
        lemma_add_empty(lines_crlf(b));
    } else {
        assert((a + b).drop_first() =~= a.drop_first() + b);
        assert((a + b)[0] == a[0]);
        assert((a + b).len() > 0);
        lemma_lines_crlf_concat(a.drop_first(), b);
        lemma_add_assoc(a[0] + crlf(), lines_crlf(a.drop_first()), lines_crlf(b));
    }
}

proof fn lemma_lines_crlf_single(l: Seq<char>)
    ensures
        lines_crlf(seq![l]) == (l + crlf()),
{
    assert(seq![l].drop_first() =~= Seq::<Seq<char>>::empty());
    assert(lines_crlf(Seq::<Seq<char>>::empty()) == Seq::<char>::empty());
    assert(seq![l][0] == l);
    assert(lines_crlf(seq![l]) == (l + crlf()) + Seq::<char>::empty());
    lemma_add_empty(l + crlf());
}

/// The serializer's header, record by record.
pub open spec fn header_lines(c: CalendarView) -> Seq<Seq<char>> {
    seq!["BEGIN:VCALENDAR"@] + seq!["PRODID:"@ + c.prodid] + (match c.calscale {
        Some(v) => seq!["CALSCALE:"@ + v],
        None => Seq::<Seq<char>>::empty(),
    }) + seq!["VERSION:"@ + c.version] + (match c.method {
        Some(v) => seq!["METHOD:"@ + v],
        None => Seq::<Seq<char>>::empty(),
    }) + (match c.x_wr_calname {
        Some(v) => seq!["X-WR-CALNAME:"@ + v],
        None => Seq::<Seq<char>>::empty(),
    }) + (match c.x_wr_timezone {
        Some(v) => seq!["X-WR-TIMEZONE:"@ + v],
        None => Seq::<Seq<char>>::empty(),
    })
}

/// One serialized event block, record by record.
pub open spec fn event_lines(e: EventView) -> Seq<Seq<char>> {
    seq!["BEGIN:VEVENT"@] + seq!["DTSTART:"@ + spec_format_datetime(e.dtstart.unwrap())] + seq![
        "DTEND:"@ + spec_format_datetime(e.dtend.unwrap()),
    ] + seq!["DTSTAMP:"@ + spec_format_datetime(e.dtstamp.unwrap())] + seq![
        "UID:"@ + e.uid.unwrap(),
    ] + seq!["CREATED:"@ + spec_format_datetime(e.created.unwrap())] + seq![
        "DESCRIPTION:"@ + e.description.unwrap(),
    ] + seq!["LAST-MODIFIED:"@ + spec_format_datetime(e.last_modified.unwrap())] + seq![
        "LOCATION:"@ + e.location.unwrap(),
    ] + seq!["SEQUENCE:"@ + dec_digits(e.sequence.unwrap() as nat)] + seq![
        "STATUS:"@ + e.status.unwrap(),
    ] + seq!["SUMMARY:"@ + e.summary.unwrap()] + seq!["TRANSP:"@ + e.transp.unwrap()] + seq![
        "END:VEVENT"@,
    ]
}

pub open spec fn events_lines(evs: Seq<EventView>) -> Seq<Seq<char>>
    decreases evs.len(),
{
    if evs.len() == 0 {
        Seq::empty()
    } else {
        event_lines(evs[0]) + events_lines(evs.drop_first())
    }
}

/// Everything the serializer emits, record by record.
pub open spec fn all_lines(c: CalendarView) -> Seq<Seq<char>> {
    header_lines(c) + events_lines(c.events) + seq!["END:VCALENDAR"@]
}

proof fn lemma_header_text_is_lines(c: CalendarView)
    ensures
        header_text(c) == lines_crlf(header_lines(c)),
{
    reveal(header_text);
    reveal_strlit("BEGIN:VCALENDAR\r\n");
    reveal_strlit("BEGIN:VCALENDAR");
    let s1 = seq!["BEGIN:VCALENDAR"@];
    let s2 = seq!["PRODID:"@ + c.prodid];
    let s3 = (match c.calscale {
        Some(v) => seq!["CALSCALE:"@ + v],
        None => Seq::<Seq<char>>::empty(),
    });
    let s4 = seq!["VERSION:"@ + c.version];
    let s5 = (match c.method {
        Some(v) => seq!["METHOD:"@ + v],
        None => Seq::<Seq<char>>::empty(),
    });
    let s6 = (match c.x_wr_calname {
        Some(v) => seq!["X-WR-CALNAME:"@ + v],
        None => Seq::<Seq<char>>::empty(),
    });
    let s7 = (match c.x_wr_timezone {
        Some(v) => seq!["X-WR-TIMEZONE:"@ + v],
        None => Seq::<Seq<char>>::empty(),
    });
    lemma_lines_crlf_concat(s1 + s2 + s3 + s4 + s5 + s6, s7);
    lemma_lines_crlf_concat(s1 + s2 + s3 + s4 + s5, s6);
    lemma_lines_crlf_concat(s1 + s2 + s3 + s4, s5);
    lemma_lines_crlf_concat(s1 + s2 + s3, s4);
    lemma_lines_crlf_concat(s1 + s2, s3);
    lemma_lines_crlf_concat(s1, s2);
    lemma_lines_crlf_single("BEGIN:VCALENDAR"@);
    lemma_lines_crlf_single("PRODID:"@ + c.prodid);
    lemma_lines_crlf_single("VERSION:"@ + c.version);
    assert("BEGIN:VCALENDAR\r\n"@ =~= "BEGIN:VCALENDAR"@ + crlf());
    match c.calscale {
        Some(v) => {
            lemma_lines_crlf_single("CALSCALE:"@ + v);
        },
        None => {},
    }
    match c.method {
        Some(v) => {
            lemma_lines_crlf_single("METHOD:"@ + v);
        },
        None => {},
    }
    match c.x_wr_calname {
        Some(v) => {
            lemma_lines_crlf_single("X-WR-CALNAME:"@ + v);
        },
        None => {},
    }
    match c.x_wr_timezone {
        Some(v) => {
            lemma_lines_crlf_single("X-WR-TIMEZONE:"@ + v);
        },
        None => {},
    }
    assert(header_text(c) =~= lines_crlf(header_lines(c)));
}

#[verifier::rlimit(100)]
proof fn lemma_render_event_is_lines(e: EventView)
    ensures
        render_event(e) == lines_crlf(event_lines(e)),
{
    reveal(render_event);
    reveal_strlit("BEGIN:VEVENT\r\n");
    reveal_strlit("BEGIN:VEVENT");
    reveal_strlit("END:VEVENT\r\n");
    reveal_strlit("END:VEVENT");
    let l0 = "BEGIN:VEVENT"@;
    let l1 = "DTSTART:"@ + spec_format_datetime(e.dtstart.unwrap());
    let l2 = "DTEND:"@ + spec_format_datetime(e.dtend.unwrap());
    let l3 = "DTSTAMP:"@ + spec_format_datetime(e.dtstamp.unwrap());
    let l4 = "UID:"@ + e.uid.unwrap();
    let l5 = "CREATED:"@ + spec_format_datetime(e.created.unwrap());
    let l6 = "DESCRIPTION:"@ + e.description.unwrap();
    let l7 = "LAST-MODIFIED:"@ + spec_format_datetime(e.last_modified.unwrap());
    let l8 = "LOCATION:"@ + e.location.unwrap();
    let l9 = "SEQUENCE:"@ + dec_digits(e.sequence.unwrap() as nat);
    let l10 = "STATUS:"@ + e.status.unwrap();
    let l11 = "SUMMARY:"@ + e.summary.unwrap();
    let l12 = "TRANSP:"@ + e.transp.unwrap();
    let l13 = "END:VEVENT"@;
    let s0 = seq![l0];
    let s1 = seq![l1];
    let s2 = seq![l2];
    let s3 = seq![l3];
    let s4 = seq![l4];
    let s5 = seq![l5];
    let s6 = seq![l6];
    let s7 = seq![l7];
    let s8 = seq![l8];
    let s9 = seq![l9];
    let s10 = seq![l10];
    let s11 = seq![l11];
    let s12 = seq![l12];
    let s13 = seq![l13];
    lemma_lines_crlf_concat(s0 + s1 + s2 + s3 + s4 + s5 + s6 + s7 + s8 + s9 + s10 + s11 + s12, s13);
    lemma_lines_crlf_concat(s0 + s1 + s2 + s3 + s4 + s5 + s6 + s7 + s8 + s9 + s10 + s11, s12);
    lemma_lines_crlf_concat(s0 + s1 + s2 + s3 + s4 + s5 + s6 + s7 + s8 + s9 + s10, s11);
    lemma_lines_crlf_concat(s0 + s1 + s2 + s3 + s4 + s5 + s6 + s7 + s8 + s9, s10);
    lemma_lines_crlf_concat(s0 + s1 + s2 + s3 + s4 + s5 + s6 + s7 + s8, s9);
    lemma_lines_crlf_concat(s0 + s1 + s2 + s3 + s4 + s5 + s6 + s7, s8);
    lemma_lines_crlf_concat(s0 + s1 + s2 + s3 + s4 + s5 + s6, s7);
    lemma_lines_crlf_concat(s0 + s1 + s2 + s3 + s4 + s5, s6);
    lemma_lines_crlf_concat(s0 + s1 + s2 + s3 + s4, s5);
    lemma_lines_crlf_concat(s0 + s1 + s2 + s3, s4);
    lemma_lines_crlf_concat(s0 + s1 + s2, s3);
    lemma_lines_crlf_concat(s0 + s1, s2);
    lemma_lines_crlf_concat(s0, s1);
    lemma_lines_crlf_single(l0);
    lemma_lines_crlf_single(l1);
    lemma_lines_crlf_single(l2);
    lemma_lines_crlf_single(l3);
    lemma_lines_crlf_single(l4);
    lemma_lines_crlf_single(l5);
    lemma_lines_crlf_single(l6);
    lemma_lines_crlf_single(l7);
    lemma_lines_crlf_single(l8);
    lemma_lines_crlf_single(l9);
    lemma_lines_crlf_single(l10);
    lemma_lines_crlf_single(l11);
    lemma_lines_crlf_single(l12);
    lemma_lines_crlf_single(l13);
    let u0 = l0 + crlf();
    let u1 = u0 + (l1 + crlf());
    let u2 = u1 + (l2 + crlf());
    let u3 = u2 + (l3 + crlf());
    let u4 = u3 + (l4 + crlf());
    let u5 = u4 + (l5 + crlf());
    let u6 = u5 + (l6 + crlf());
    let u7 = u6 + (l7 + crlf());
    let u8 = u7 + (l8 + crlf());
    let u9 = u8 + (l9 + crlf());
    let u10 = u9 + (l10 + crlf());
    let u11 = u10 + (l11 + crlf());
    let u12 = u11 + (l12 + crlf());
    let u13 = u12 + (l13 + crlf());
    assert(lines_crlf(event_lines(e)) == u13);
    assert(u0 =~= "BEGIN:VEVENT\r\n"@);
    let v0 = "BEGIN:VEVENT\r\n"@;
    lemma_add_assoc(v0, l1, crlf());
    lemma_add_assoc(v0, "DTSTART:"@, spec_format_datetime(e.dtstart.unwrap()));
    let v1 = ((v0 + "DTSTART:"@) + spec_format_datetime(e.dtstart.unwrap())) + crlf();
    assert(v1 == u1);
    lemma_add_assoc(v1, l2, crlf());
    lemma_add_assoc(v1, "DTEND:"@, spec_format_datetime(e.dtend.unwrap()));
    let v2 = ((v1 + "DTEND:"@) + spec_format_datetime(e.dtend.unwrap())) + crlf();
    assert(v2 == u2);
    lemma_add_assoc(v2, l3, crlf());
    lemma_add_assoc(v2, "DTSTAMP:"@, spec_format_datetime(e.dtstamp.unwrap()));
    let v3 = ((v2 + "DTSTAMP:"@) + spec_format_datetime(e.dtstamp.unwrap())) + crlf();
    assert(v3 == u3);
    lemma_add_assoc(v3, l4, crlf());
    lemma_add_assoc(v3, "UID:"@, e.uid.unwrap());
    let v4 = ((v3 + "UID:"@) + e.uid.unwrap()) + crlf();
    assert(v4 == u4);
    lemma_add_assoc(v4, l5, crlf());
    lemma_add_assoc(v4, "CREATED:"@, spec_format_datetime(e.created.unwrap()));
    let v5 = ((v4 + "CREATED:"@) + spec_format_datetime(e.created.unwrap())) + crlf();
    assert(v5 == u5);
    lemma_add_assoc(v5, l6, crlf());
    lemma_add_assoc(v5, "DESCRIPTION:"@, e.description.unwrap());
    let v6 = ((v5 + "DESCRIPTION:"@) + e.description.unwrap()) + crlf();
    assert(v6 == u6);
    lemma_add_assoc(v6, l7, crlf());
    lemma_add_assoc(v6, "LAST-MODIFIED:"@, spec_format_datetime(e.last_modified.unwrap()));
    let v7 = ((v6 + "LAST-MODIFIED:"@) + spec_format_datetime(e.last_modified.unwrap())) + crlf();
    assert(v7 == u7);
    lemma_add_assoc(v7, l8, crlf());
    lemma_add_assoc(v7, "LOCATION:"@, e.location.unwrap());
    let v8 = ((v7 + "LOCATION:"@) + e.location.unwrap()) + crlf();
    assert(v8 == u8);
    lemma_add_assoc(v8, l9, crlf());
    lemma_add_assoc(v8, "SEQUENCE:"@, dec_digits(e.sequence.unwrap() as nat));
    let v9 = ((v8 + "SEQUENCE:"@) + dec_digits(e.sequence.unwrap() as nat)) + crlf();
    assert(v9 == u9);
    lemma_add_assoc(v9, l10, crlf());
    lemma_add_assoc(v9, "STATUS:"@, e.status.unwrap());
    let v10 = ((v9 + "STATUS:"@) + e.status.unwrap()) + crlf();
    assert(v10 == u10);
    lemma_add_assoc(v10, l11, crlf());
    lemma_add_assoc(v10, "SUMMARY:"@, e.summary.unwrap());
    let v11 = ((v10 + "SUMMARY:"@) + e.summary.unwrap()) + crlf();
    assert(v11 == u11);
    lemma_add_assoc(v11, l12, crlf());
    lemma_add_assoc(v11, "TRANSP:"@, e.transp.unwrap());
    let v12 = ((v11 + "TRANSP:"@) + e.transp.unwrap()) + crlf();
    assert(v12 == u12);
    assert(l13 + crlf() =~= "END:VEVENT\r\n"@);
    let v13 = v12 + "END:VEVENT\r\n"@;
    assert(v13 == u13);
    assert(render_event(e) == v13);
}

proof fn lemma_render_events_is_lines(evs: Seq<EventView>)
    ensures
        render_events(evs) == lines_crlf(events_lines(evs)),
    decreases evs.len(),
{
    if evs.len() == 0 {
    } else {
        lemma_render_events_is_lines(evs.drop_first());
        lemma_render_event_is_lines(evs[0]);
        lemma_lines_crlf_concat(event_lines(evs[0]), events_lines(evs.drop_first()));
    }
}

/// The serializer's flat output is its records, each CRLF-terminated.
proof fn lemma_render_is_join(c: CalendarView)
    ensures
        render_calendar(c) == lines_crlf(all_lines(c)),
{
    reveal_strlit("END:VCALENDAR\r\n");
    reveal_strlit("END:VCALENDAR");
    lemma_header_text_is_lines(c);
    lemma_render_events_is_lines(c.events);
    let h = header_lines(c);
    let ev = events_lines(c.events);
    let e = seq!["END:VCALENDAR"@];
    assert(all_lines(c) == (h + ev) + e);
    lemma_lines_crlf_concat(h + ev, e);
    lemma_lines_crlf_concat(h, ev);
    lemma_lines_crlf_single("END:VCALENDAR"@);
    assert("END:VCALENDAR\r\n"@ =~= "END:VCALENDAR"@ + crlf());
    lemma_add_assoc(lines_crlf(h), lines_crlf(ev), "END:VCALENDAR\r\n"@);
}

/// The string fields an event sends through a round trip must not carry
/// line terminators of their own.
pub open spec fn event_round_trip_ready(e: EventView) -> bool {
    &&& event_complete(e)
    &&& e.wf()
    &&& clean_line(e.uid.unwrap())
    &&& clean_line(e.description.unwrap())
    &&& clean_line(e.location.unwrap())
    &&& clean_line(e.status.unwrap())
    &&& clean_line(e.summary.unwrap())
    &&& clean_line(e.transp.unwrap())
}

/// What the round-trip law asks of a calendar: well-formed instants, every
/// emitted event field present, and no line terminators inside the emitted
/// string values.
pub open spec fn calendar_round_trip_ready(c: CalendarView) -> bool {
    &&& clean_line(c.prodid)
    &&& clean_line(c.version)
    &&& (match c.calscale {
        Some(v) => clean_line(v),
        None => true,
    })
    &&& (match c.method {
        Some(v) => clean_line(v),
        None => true,
    })
    &&& (match c.x_wr_calname {
        Some(v) => clean_line(v),
        None => true,
    })
    &&& (match c.x_wr_timezone {
        Some(v) => clean_line(v),
        None => true,
    })
    &&& forall|k: int| 0 <= k < c.events.len() ==> event_round_trip_ready(#[trigger] c.events[k])
}

proof fn lemma_clean_concat(a: Seq<char>, b: Seq<char>)
    requires
        clean_line(a),
        clean_line(b),
    ensures
        clean_line(a + b),
{
    assert forall|k: int| 0 <= k < (a + b).len() implies (a + b)[k] != '\n' && (a + b)[k]
        != '\r' by {
        if k < a.len() {
            assert((a + b)[k] == a[k]);
        } else {
            assert((a + b)[k] == b[k - a.len()]);
        }
    }
}

proof fn lemma_fmt_clean(i: crate::datetime::UtcInstant)
    requires
        i.valid(),
    ensures
        clean_line(spec_format_datetime(i)),
{
    lemma_format_datetime_chars(i);
}

proof fn lemma_dec_clean(n: nat)
    ensures
        clean_line(dec_digits(n)),
{
    lemma_dec_digits_val(n);
}

/// Every key literal the serializer writes, with its colon, is free of line
/// terminators.
proof fn lemma_key_literals_clean()
    ensures
        clean_line("BEGIN:VCALENDAR"@),
        clean_line("END:VCALENDAR"@),
        clean_line("BEGIN:VEVENT"@),
        clean_line("END:VEVENT"@),
        clean_line("PRODID:"@),
        clean_line("VERSION:"@),
        clean_line("CALSCALE:"@),
        clean_line("METHOD:"@),
        clean_line("X-WR-CALNAME:"@),
        clean_line("X-WR-TIMEZONE:"@),
        clean_line("DTSTART:"@),
        clean_line("DTEND:"@),
        clean_line("DTSTAMP:"@),
        clean_line("UID:"@),
        clean_line("CREATED:"@),
        clean_line("DESCRIPTION:"@),
        clean_line("LAST-MODIFIED:"@),
        clean_line("LOCATION:"@),
        clean_line("SEQUENCE:"@),
        clean_line("STATUS:"@),
        clean_line("SUMMARY:"@),
        clean_line("TRANSP:"@),
{
    reveal_strlit("BEGIN:VCALENDAR");
    reveal_strlit("END:VCALENDAR");
    reveal_strlit("BEGIN:VEVENT");
    reveal_strlit("END:VEVENT");
    reveal_strlit("PRODID:");
    reveal_strlit("VERSION:");
    reveal_strlit("CALSCALE:");
    reveal_strlit("METHOD:");
    reveal_strlit("X-WR-CALNAME:");
    reveal_strlit("X-WR-TIMEZONE:");
    reveal_strlit("DTSTART:");
    reveal_strlit("DTEND:");
    reveal_strlit("DTSTAMP:");
    reveal_strlit("UID:");
    reveal_strlit("CREATED:");
    reveal_strlit("DESCRIPTION:");
    reveal_strlit("LAST-MODIFIED:");
    reveal_strlit("LOCATION:");
    reveal_strlit("SEQUENCE:");
    reveal_strlit("STATUS:");
    reveal_strlit("SUMMARY:");
    reveal_strlit("TRANSP:");
}

#[verifier::rlimit(100)]
proof fn lemma_event_lines_clean(e: EventView)
    requires
        event_round_trip_ready(e),
    ensures
        event_lines(e).len() == 14,
        forall|j: int| 0 <= j < 14 ==> clean_line(#[trigger] event_lines(e)[j]),
{
    lemma_key_literals_clean();
    lemma_fmt_clean(e.dtstart.unwrap());
    lemma_fmt_clean(e.dtend.unwrap());
    lemma_fmt_clean(e.dtstamp.unwrap());
    lemma_fmt_clean(e.created.unwrap());
    lemma_fmt_clean(e.last_modified.unwrap());
    lemma_dec_clean(e.sequence.unwrap() as nat);
    lemma_clean_concat("DTSTART:"@, spec_format_datetime(e.dtstart.unwrap()));
    lemma_clean_concat("DTEND:"@, spec_format_datetime(e.dtend.unwrap()));
    lemma_clean_concat("DTSTAMP:"@, spec_format_datetime(e.dtstamp.unwrap()));
    lemma_clean_concat("UID:"@, e.uid.unwrap());
    lemma_clean_concat("CREATED:"@, spec_format_datetime(e.created.unwrap()));
    lemma_clean_concat("DESCRIPTION:"@, e.description.unwrap());
    lemma_clean_concat("LAST-MODIFIED:"@, spec_format_datetime(e.last_modified.unwrap()));
    lemma_clean_concat("LOCATION:"@, e.location.unwrap());
    lemma_clean_concat("SEQUENCE:"@, dec_digits(e.sequence.unwrap() as nat));
    lemma_clean_concat("STATUS:"@, e.status.unwrap());
    lemma_clean_concat("SUMMARY:"@, e.summary.unwrap());
    lemma_clean_concat("TRANSP:"@, e.transp.unwrap());
    assert(event_lines(e)[0] == "BEGIN:VEVENT"@);
    assert(event_lines(e)[1] == "DTSTART:"@ + spec_format_datetime(e.dtstart.unwrap()));
    assert(event_lines(e)[2] == "DTEND:"@ + spec_format_datetime(e.dtend.unwrap()));
    assert(event_lines(e)[3] == "DTSTAMP:"@ + spec_format_datetime(e.dtstamp.unwrap()));
    assert(event_lines(e)[4] == "UID:"@ + e.uid.unwrap());
    assert(event_lines(e)[5] == "CREATED:"@ + spec_format_datetime(e.created.unwrap()));
    assert(event_lines(e)[6] == "DESCRIPTION:"@ + e.description.unwrap());
    assert(event_lines(e)[7] == "LAST-MODIFIED:"@ + spec_format_datetime(
        e.last_modified.unwrap()));
    assert(event_lines(e)[8] == "LOCATION:"@ + e.location.unwrap());
    assert(event_lines(e)[9] == "SEQUENCE:"@ + dec_digits(e.sequence.unwrap() as nat));
    assert(event_lines(e)[10] == "STATUS:"@ + e.status.unwrap());
    assert(event_lines(e)[11] == "SUMMARY:"@ + e.summary.unwrap());
    assert(event_lines(e)[12] == "TRANSP:"@ + e.transp.unwrap());
    assert(event_lines(e)[13] == "END:VEVENT"@);
}

proof fn lemma_events_lines_clean(evs: Seq<EventView>)
    requires
        forall|k: int| 0 <= k < evs.len() ==> event_round_trip_ready(#[trigger] evs[k]),
    ensures
        events_lines(evs).len() == 14 * evs.len(),
        forall|j: int| 0 <= j < events_lines(evs).len() ==> clean_line(
            #[trigger] events_lines(evs)[j],
        ),
    decreases evs.len(),
{
    if evs.len() > 0 {
        lemma_event_lines_clean(evs[0]);
        lemma_events_lines_clean(evs.drop_first());
        assert forall|j: int| 0 <= j < events_lines(evs).len() implies clean_line(
            #[trigger] events_lines(evs)[j],
        ) by {
            if j < 14 {
                assert(events_lines(evs)[j] == event_lines(evs[0])[j]);
            } else {
                assert(events_lines(evs)[j] == events_lines(evs.drop_first())[j - 14]);
            }
        }
    }
}

proof fn lemma_header_lines_clean(c: CalendarView)
    requires
        calendar_round_trip_ready(c),
    ensures
        2 <= header_lines(c).len() <= 7,
        forall|j: int| 0 <= j < header_lines(c).len() ==> clean_line(
            #[trigger] header_lines(c)[j],
        ),
{
    lemma_key_literals_clean();
    lemma_clean_concat("PRODID:"@, c.prodid);
    lemma_clean_concat("VERSION:"@, c.version);
    match c.calscale {
        Some(v) => {
            lemma_clean_concat("CALSCALE:"@, v);
        },
        None => {},
    }
    match c.method {
        Some(v) => {
            lemma_clean_concat("METHOD:"@, v);
        },
        None => {},
    }
    match c.x_wr_calname {
        Some(v) => {
            lemma_clean_concat("X-WR-CALNAME:"@, v);
        },
        None => {},
    }
    match c.x_wr_timezone {
        Some(v) => {
            lemma_clean_concat("X-WR-TIMEZONE:"@, v);
        },
        None => {},
    }
}

/// Tokenizing what the serializer wrote gives back exactly its records.
proof fn lemma_records_of_render(c: CalendarView)
    requires
        calendar_round_trip_ready(c),
    ensures
        spec_records(render_calendar(c)) == all_lines(c),
{
    lemma_render_is_join(c);
    lemma_header_lines_clean(c);
    lemma_events_lines_clean(c.events);
    lemma_key_literals_clean();
    let al = all_lines(c);
    let h = header_lines(c);
    let ev = events_lines(c.events);
    assert(al.len() == h.len() + ev.len() + 1);
    assert forall|j: int| 0 <= j < al.len() implies clean_line(#[trigger] al[j]) by {
        if j < h.len() {
            assert(al[j] == h[j]);
        } else if j < h.len() + ev.len() {
            assert(al[j] == ev[j - h.len()]);
        } else {
            assert(al[j] == "END:VCALENDAR"@);
        }
    }
    lemma_records_of_lines(al);
}

/// Splitting a record built as key, colon, value gives that key and value
/// back, provided the key itself holds no colon.
proof fn lemma_split_kv(k: Seq<char>, v: Seq<char>)
    requires
        forall|j: int| 0 <= j < k.len() ==> k[j] != ':',
    ensures
        has_colon(k + seq![':'] + v),
        key_of(k + seq![':'] + v) == k,
        value_of(k + seq![':'] + v) == v,
{
    let l = k + seq![':'] + v;
    assert(l[k.len() as int] == ':');
    assert(forall|m: int| 0 <= m < k.len() ==> l[m] == k[m]);
    lemma_first_ix_is(l, ':', k.len() as int);
    assert(key_of(l) =~= k);
    assert(value_of(l) =~= v);
}

/// A key without a semicolon has itself as bare key and no parameters.
proof fn lemma_no_semi(k: Seq<char>)
    requires
        forall|j: int| 0 <= j < k.len() ==> k[j] != ';',
    ensures
        bare_key(k) == k,
        key_param(k) == Seq::<char>::empty(),
{
    lemma_first_ix_is(k, ';', k.len() as int);
    assert(bare_key(k) =~= k);
}

/// Each emitted key literal, decomposed at its colon, and the absence of
/// separators inside the bare keys.
#[verifier::rlimit(100)]
proof fn lemma_colon_forms()
    ensures
        "PRODID:"@ == "PRODID"@ + seq![':'],
        "VERSION:"@ == "VERSION"@ + seq![':'],
        "CALSCALE:"@ == "CALSCALE"@ + seq![':'],
        "METHOD:"@ == "METHOD"@ + seq![':'],
        "X-WR-CALNAME:"@ == "X-WR-CALNAME"@ + seq![':'],
        "X-WR-TIMEZONE:"@ == "X-WR-TIMEZONE"@ + seq![':'],
        "DTSTART:"@ == "DTSTART"@ + seq![':'],
        "DTEND:"@ == "DTEND"@ + seq![':'],
        "DTSTAMP:"@ == "DTSTAMP"@ + seq![':'],
        "UID:"@ == "UID"@ + seq![':'],
        "CREATED:"@ == "CREATED"@ + seq![':'],
        "DESCRIPTION:"@ == "DESCRIPTION"@ + seq![':'],
        "LAST-MODIFIED:"@ == "LAST-MODIFIED"@ + seq![':'],
        "LOCATION:"@ == "LOCATION"@ + seq![':'],
        "SEQUENCE:"@ == "SEQUENCE"@ + seq![':'],
        "STATUS:"@ == "STATUS"@ + seq![':'],
        "SUMMARY:"@ == "SUMMARY"@ + seq![':'],
        "TRANSP:"@ == "TRANSP"@ + seq![':'],
        forall|j: int| 0 <= j < "PRODID"@.len() ==> "PRODID"@[j] != ':',
        forall|j: int| 0 <= j < "VERSION"@.len() ==> "VERSION"@[j] != ':',
        forall|j: int| 0 <= j < "CALSCALE"@.len() ==> "CALSCALE"@[j] != ':',
        forall|j: int| 0 <= j < "METHOD"@.len() ==> "METHOD"@[j] != ':',
        forall|j: int| 0 <= j < "X-WR-CALNAME"@.len() ==> "X-WR-CALNAME"@[j] != ':',
        forall|j: int| 0 <= j < "X-WR-TIMEZONE"@.len() ==> "X-WR-TIMEZONE"@[j] != ':',
        forall|j: int| 0 <= j < "DTSTART"@.len() ==> "DTSTART"@[j] != ':',
        forall|j: int| 0 <= j < "DTEND"@.len() ==> "DTEND"@[j] != ':',
        forall|j: int| 0 <= j < "DTSTAMP"@.len() ==> "DTSTAMP"@[j] != ':',
        forall|j: int| 0 <= j < "UID"@.len() ==> "UID"@[j] != ':',
        forall|j: int| 0 <= j < "CREATED"@.len() ==> "CREATED"@[j] != ':',
        forall|j: int| 0 <= j < "DESCRIPTION"@.len() ==> "DESCRIPTION"@[j] != ':',
        forall|j: int| 0 <= j < "LAST-MODIFIED"@.len() ==> "LAST-MODIFIED"@[j] != ':',
        forall|j: int| 0 <= j < "LOCATION"@.len() ==> "LOCATION"@[j] != ':',
        forall|j: int| 0 <= j < "SEQUENCE"@.len() ==> "SEQUENCE"@[j] != ':',
        forall|j: int| 0 <= j < "STATUS"@.len() ==> "STATUS"@[j] != ':',
        forall|j: int| 0 <= j < "SUMMARY"@.len() ==> "SUMMARY"@[j] != ':',
        forall|j: int| 0 <= j < "TRANSP"@.len() ==> "TRANSP"@[j] != ':',
        forall|j: int| 0 <= j < "BEGIN"@.len() ==> "BEGIN"@[j] != ':',
        forall|j: int| 0 <= j < "DTSTART"@.len() ==> "DTSTART"@[j] != ';',
        forall|j: int| 0 <= j < "DTEND"@.len() ==> "DTEND"@[j] != ';',
        forall|j: int| 0 <= j < "DTSTAMP"@.len() ==> "DTSTAMP"@[j] != ';',
        forall|j: int| 0 <= j < "UID"@.len() ==> "UID"@[j] != ';',
        forall|j: int| 0 <= j < "CREATED"@.len() ==> "CREATED"@[j] != ';',
        forall|j: int| 0 <= j < "DESCRIPTION"@.len() ==> "DESCRIPTION"@[j] != ';',
        forall|j: int| 0 <= j < "LAST-MODIFIED"@.len() ==> "LAST-MODIFIED"@[j] != ';',
        forall|j: int| 0 <= j < "LOCATION"@.len() ==> "LOCATION"@[j] != ';',
        forall|j: int| 0 <= j < "SEQUENCE"@.len() ==> "SEQUENCE"@[j] != ';',
        forall|j: int| 0 <= j < "STATUS"@.len() ==> "STATUS"@[j] != ';',
        forall|j: int| 0 <= j < "SUMMARY"@.len() ==> "SUMMARY"@[j] != ';',
        forall|j: int| 0 <= j < "TRANSP"@.len() ==> "TRANSP"@[j] != ';',
        "BEGIN:VEVENT"@ == "BEGIN"@ + seq![':'] + "VEVENT"@,
{
    reveal_strlit("CALSCALE:");
    reveal_strlit("CALSCALE");
    reveal_strlit("CREATED:");
    reveal_strlit("CREATED");
    reveal_strlit("DESCRIPTION:");
    reveal_strlit("DESCRIPTION");
    reveal_strlit("DTEND:");
    reveal_strlit("DTEND");
    reveal_strlit("DTSTAMP:");
    reveal_strlit("DTSTAMP");
    reveal_strlit("DTSTART:");
    reveal_strlit("DTSTART");
    reveal_strlit("LAST-MODIFIED:");
    reveal_strlit("LAST-MODIFIED");
    reveal_strlit("LOCATION:");
    reveal_strlit("LOCATION");
    reveal_strlit("METHOD:");
    reveal_strlit("METHOD");
    reveal_strlit("PRODID:");
    reveal_strlit("PRODID");
    reveal_strlit("SEQUENCE:");
    reveal_strlit("SEQUENCE");
    reveal_strlit("STATUS:");
    reveal_strlit("STATUS");
    reveal_strlit("SUMMARY:");
    reveal_strlit("SUMMARY");
    reveal_strlit("TRANSP:");
    reveal_strlit("TRANSP");
    reveal_strlit("UID:");
    reveal_strlit("UID");
    reveal_strlit("VERSION:");
    reveal_strlit("VERSION");
    reveal_strlit("X-WR-CALNAME:");
    reveal_strlit("X-WR-CALNAME");
    reveal_strlit("X-WR-TIMEZONE:");
    reveal_strlit("X-WR-TIMEZONE");
    reveal_strlit("BEGIN");
    reveal_strlit("VEVENT");
    reveal_strlit("BEGIN:VEVENT");
    assert("PRODID:"@ =~= "PRODID"@ + seq![':']);
    assert("VERSION:"@ =~= "VERSION"@ + seq![':']);
    assert("CALSCALE:"@ =~= "CALSCALE"@ + seq![':']);
    assert("METHOD:"@ =~= "METHOD"@ + seq![':']);
    assert("X-WR-CALNAME:"@ =~= "X-WR-CALNAME"@ + seq![':']);
    assert("X-WR-TIMEZONE:"@ =~= "X-WR-TIMEZONE"@ + seq![':']);
    assert("DTSTART:"@ =~= "DTSTART"@ + seq![':']);
    assert("DTEND:"@ =~= "DTEND"@ + seq![':']);
    assert("DTSTAMP:"@ =~= "DTSTAMP"@ + seq![':']);
    assert("UID:"@ =~= "UID"@ + seq![':']);
    assert("CREATED:"@ =~= "CREATED"@ + seq![':']);
    assert("DESCRIPTION:"@ =~= "DESCRIPTION"@ + seq![':']);
    assert("LAST-MODIFIED:"@ =~= "LAST-MODIFIED"@ + seq![':']);
    assert("LOCATION:"@ =~= "LOCATION"@ + seq![':']);
    assert("SEQUENCE:"@ =~= "SEQUENCE"@ + seq![':']);
    assert("STATUS:"@ =~= "STATUS"@ + seq![':']);
    assert("SUMMARY:"@ =~= "SUMMARY"@ + seq![':']);
    assert("TRANSP:"@ =~= "TRANSP"@ + seq![':']);
    assert("BEGIN:VEVENT"@ =~= "BEGIN"@ + seq![':'] + "VEVENT"@);
}


/// What one serialized event block parses back to: every field of the fixed
/// emission list as it was, everything else absent.
pub open spec fn reparsed_event(e: EventView) -> EventView {
    EventView {
        dtstamp: e.dtstamp,
        uid: e.uid,
        dtstart: e.dtstart,
        dtend: e.dtend,
        created: e.created,
        description: e.description,
        last_modified: e.last_modified,
        location: e.location,
        organizer: None,
        sequence: e.sequence,
        status: e.status,
        summary: e.summary,
        transp: e.transp,
        repeat: None,
        class: None,
        geo: None,
        priority: None,
        recur_id: None,
        url: None,
    }
}

pub open spec fn reparsed_events(evs: Seq<EventView>) -> Seq<EventView>
    decreases evs.len(),
{
    if evs.len() == 0 {
        Seq::empty()
    } else {
        seq![reparsed_event(evs[0])] + reparsed_events(evs.drop_first())
    }
}

/// Running the machine over one serialized event block appends exactly the
/// reparsed event and moves past the block.
#[verifier::rlimit(100)]
#[verifier::spinoff_prover]
proof fn lemma_parse_one_event(
    recs: Seq<Seq<char>>,
    i: int,
    e: EventView,
    b: CalBuilderView,
    diags: Seq<Diagnostic>,
)
    requires
        0 <= i,
        i + 14 <= recs.len(),
        forall|m: int| 0 <= m < 14 ==> recs[i + m] == event_lines(e)[m],
        event_round_trip_ready(e),
    ensures
        run_cal(recs, i, b, diags) == run_cal(recs, i + 14, (CalBuilderView {
            events: b.events.push(reparsed_event(e)),
            ..b
        }), diags),
{
    lemma_key_facts();
    lemma_colon_forms();
    lemma_format_parse_datetime(e.dtstart.unwrap());
    lemma_format_parse_datetime(e.dtend.unwrap());
    lemma_format_parse_datetime(e.dtstamp.unwrap());
    lemma_format_parse_datetime(e.created.unwrap());
    lemma_format_parse_datetime(e.last_modified.unwrap());
    lemma_format_parse_u32(e.sequence.unwrap());
    assert(event_lines(e)[0] == "BEGIN:VEVENT"@);
    assert(event_lines(e)[1] == "DTSTART:"@ + spec_format_datetime(e.dtstart.unwrap()));
    assert(event_lines(e)[2] == "DTEND:"@ + spec_format_datetime(e.dtend.unwrap()));
    assert(event_lines(e)[3] == "DTSTAMP:"@ + spec_format_datetime(e.dtstamp.unwrap()));
    assert(event_lines(e)[4] == "UID:"@ + e.uid.unwrap());
    assert(event_lines(e)[5] == "CREATED:"@ + spec_format_datetime(e.created.unwrap()));
    assert(event_lines(e)[6] == "DESCRIPTION:"@ + e.description.unwrap());
    assert(event_lines(e)[7] == "LAST-MODIFIED:"@ + spec_format_datetime(e.last_modified.unwrap()));
    assert(event_lines(e)[8] == "LOCATION:"@ + e.location.unwrap());
    assert(event_lines(e)[9] == "SEQUENCE:"@ + dec_digits(e.sequence.unwrap() as nat));
    assert(event_lines(e)[10] == "STATUS:"@ + e.status.unwrap());
    assert(event_lines(e)[11] == "SUMMARY:"@ + e.summary.unwrap());
    assert(event_lines(e)[12] == "TRANSP:"@ + e.transp.unwrap());
    assert(event_lines(e)[13] == "END:VEVENT"@);
    let ev0 = spec_empty_event();
    assert(recs[i] == "BEGIN:VEVENT"@);
    lemma_split_kv("BEGIN"@, "VEVENT"@);
    assert(recs[i] != "END:VCALENDAR"@);
    assert(run_cal(recs, i, b, diags) == run_event(recs, i + 1, ev0, b, diags));
    let l1 = recs[i + 1];
    assert(l1 == "DTSTART"@ + seq![':'] + spec_format_datetime(e.dtstart.unwrap()));
    lemma_split_kv("DTSTART"@, spec_format_datetime(e.dtstart.unwrap()));
    lemma_no_semi("DTSTART"@);
    assert(l1[0] == 'D');
    assert(l1 != "END:VEVENT"@);
    let ev1 = EventView { dtstart: e.dtstart, ..ev0 };
    assert(run_event(recs, i + 1, ev0, b, diags) == run_event(recs, i + 2, ev1, b, diags));
    let l2 = recs[i + 2];
    assert(l2 == "DTEND"@ + seq![':'] + spec_format_datetime(e.dtend.unwrap()));
    lemma_split_kv("DTEND"@, spec_format_datetime(e.dtend.unwrap()));
    lemma_no_semi("DTEND"@);
    assert(l2[0] == 'D');
    assert(l2 != "END:VEVENT"@);
    let ev2 = EventView { dtend: e.dtend, ..ev1 };
    assert(run_event(recs, i + 2, ev1, b, diags) == run_event(recs, i + 3, ev2, b, diags));
    let l3 = recs[i + 3];
    assert(l3 == "DTSTAMP"@ + seq![':'] + spec_format_datetime(e.dtstamp.unwrap()));
    lemma_split_kv("DTSTAMP"@, spec_format_datetime(e.dtstamp.unwrap()));
    lemma_no_semi("DTSTAMP"@);
    assert(l3[0] == 'D');
    assert(l3 != "END:VEVENT"@);
    let ev3 = EventView { dtstamp: e.dtstamp, ..ev2 };
    assert(run_event(recs, i + 3, ev2, b, diags) == run_event(recs, i + 4, ev3, b, diags));
    let l4 = recs[i + 4];
    assert(l4 == "UID"@ + seq![':'] + e.uid.unwrap());
    lemma_split_kv("UID"@, e.uid.unwrap());
    lemma_no_semi("UID"@);
    assert(l4[0] == 'U');
    assert(l4 != "END:VEVENT"@);
    let ev4 = EventView { uid: e.uid, ..ev3 };
    assert(run_event(recs, i + 4, ev3, b, diags) == run_event(recs, i + 5, ev4, b, diags));
    let l5 = recs[i + 5];
    assert(l5 == "CREATED"@ + seq![':'] + spec_format_datetime(e.created.unwrap()));
    lemma_split_kv("CREATED"@, spec_format_datetime(e.created.unwrap()));
    lemma_no_semi("CREATED"@);
    assert(l5[0] == 'C');
    assert(l5 != "END:VEVENT"@);
    let ev5 = EventView { created: e.created, ..ev4 };
    assert(run_event(recs, i + 5, ev4, b, diags) == run_event(recs, i + 6, ev5, b, diags));
    let l6 = recs[i + 6];
    assert(l6 == "DESCRIPTION"@ + seq![':'] + e.description.unwrap());
    lemma_split_kv("DESCRIPTION"@, e.description.unwrap());
    lemma_no_semi("DESCRIPTION"@);
    assert(l6[0] == 'D');
    assert(l6 != "END:VEVENT"@);
    let ev6 = EventView { description: e.description, ..ev5 };
    assert(run_event(recs, i + 6, ev5, b, diags) == run_event(recs, i + 7, ev6, b, diags));
    let l7 = recs[i + 7];
    assert(l7 == "LAST-MODIFIED"@ + seq![':'] + spec_format_datetime(e.last_modified.unwrap()));
    lemma_split_kv("LAST-MODIFIED"@, spec_format_datetime(e.last_modified.unwrap()));
    lemma_no_semi("LAST-MODIFIED"@);
    assert(l7[0] == 'L');
    assert(l7 != "END:VEVENT"@);
    let ev7 = EventView { last_modified: e.last_modified, ..ev6 };
    assert(run_event(recs, i + 7, ev6, b, diags) == run_event(recs, i + 8, ev7, b, diags));
    let l8 = recs[i + 8];
    assert(l8 == "LOCATION"@ + seq![':'] + e.location.unwrap());
    lemma_split_kv("LOCATION"@, e.location.unwrap());
    lemma_no_semi("LOCATION"@);
    assert(l8[0] == 'L');
    assert(l8 != "END:VEVENT"@);
    let ev8 = EventView { location: e.location, ..ev7 };
    assert(run_event(recs, i + 8, ev7, b, diags) == run_event(recs, i + 9, ev8, b, diags));
    let l9 = recs[i + 9];
    assert(l9 == "SEQUENCE"@ + seq![':'] + dec_digits(e.sequence.unwrap() as nat));
    lemma_split_kv("SEQUENCE"@, dec_digits(e.sequence.unwrap() as nat));
    lemma_no_semi("SEQUENCE"@);
    assert(l9[0] == 'S');
    assert(l9 != "END:VEVENT"@);
    let ev9 = EventView { sequence: e.sequence, ..ev8 };
    assert(run_event(recs, i + 9, ev8, b, diags) == run_event(recs, i + 10, ev9, b, diags));
    let l10 = recs[i + 10];
    assert(l10 == "STATUS"@ + seq![':'] + e.status.unwrap());
    lemma_split_kv("STATUS"@, e.status.unwrap());
    lemma_no_semi("STATUS"@);
    assert(l10[0] == 'S');
    assert(l10 != "END:VEVENT"@);
    let ev10 = EventView { status: e.status, ..ev9 };
    assert(run_event(recs, i + 10, ev9, b, diags) == run_event(recs, i + 11, ev10, b, diags));
    let l11 = recs[i + 11];
    assert(l11 == "SUMMARY"@ + seq![':'] + e.summary.unwrap());
    lemma_split_kv("SUMMARY"@, e.summary.unwrap());
    lemma_no_semi("SUMMARY"@);
    assert(l11[0] == 'S');
    assert(l11 != "END:VEVENT"@);
    let ev11 = EventView { summary: e.summary, ..ev10 };
    assert(run_event(recs, i + 11, ev10, b, diags) == run_event(recs, i + 12, ev11, b, diags));
    let l12 = recs[i + 12];
    assert(l12 == "TRANSP"@ + seq![':'] + e.transp.unwrap());
    lemma_split_kv("TRANSP"@, e.transp.unwrap());
    lemma_no_semi("TRANSP"@);
    assert(l12[0] == 'T');
    assert(l12 != "END:VEVENT"@);
    let ev12 = EventView { transp: e.transp, ..ev11 };
    assert(run_event(recs, i + 12, ev11, b, diags) == run_event(recs, i + 13, ev12, b, diags));
    assert(recs[i + 13] == "END:VEVENT"@);
    assert(run_event(recs, i + 13, ev12, b, diags) == run_cal(recs, i + 14, (CalBuilderView { events: b.events.push(ev12), ..b }), diags));
    assert(ev12 == reparsed_event(e));
}

/// Running the machine over serialized event blocks followed by the closing
/// record yields the calendar with exactly the reparsed events appended.
proof fn lemma_parse_events(
    recs: Seq<Seq<char>>,
    i: int,
    evs: Seq<EventView>,
    b: CalBuilderView,
    diags: Seq<Diagnostic>,
)
    requires
        0 <= i <= recs.len(),
        recs.skip(i) == events_lines(evs) + seq!["END:VCALENDAR"@],
        forall|k: int| 0 <= k < evs.len() ==> event_round_trip_ready(#[trigger] evs[k]),
        b.prodid is Some,
        b.version is Some,
    ensures
        run_cal(recs, i, b, diags) == (ParseOutcomeView {
            result: Ok(CalendarView {
                name: b.name,
                prodid: b.prodid.unwrap(),
                version: b.version.unwrap(),
                calscale: b.calscale,
                method: b.method,
                x_wr_calname: b.x_wr_calname,
                x_wr_timezone: b.x_wr_timezone,
                events: b.events + reparsed_events(evs),
            }),
            diags,
        }),
    decreases evs.len(),
{
    let tail = events_lines(evs) + seq!["END:VCALENDAR"@];
    assert(recs.skip(i).len() == recs.len() - i);
    if evs.len() == 0 {
        assert(events_lines(evs) == Seq::<Seq<char>>::empty());
        assert(tail =~= seq!["END:VCALENDAR"@]);
        assert(recs.len() - i == 1);
        assert(recs[i] == recs.skip(i)[0]);
        assert(recs[i] == "END:VCALENDAR"@);
        assert(reparsed_events(evs) == Seq::<EventView>::empty());
        lemma_add_empty(b.events);
        assert(run_cal(recs, i, b, diags) == (ParseOutcomeView {
            result: finish_cal(b),
            diags,
        }));
        assert(finish_cal(b) == Ok::<CalendarView, crate::model::IcsError>(CalendarView {
            name: b.name,
            prodid: b.prodid.unwrap(),
            version: b.version.unwrap(),
            calscale: b.calscale,
            method: b.method,
            x_wr_calname: b.x_wr_calname,
            x_wr_timezone: b.x_wr_timezone,
            events: b.events,
        }));
    } else {
        let el = event_lines(evs[0]);
        assert(el.len() == 14);
        assert(events_lines(evs) == el + events_lines(evs.drop_first()));
        assert(evs[0] == evs[0]);
        assert(event_round_trip_ready(evs[0]));
        assert forall|m: int| 0 <= m < 14 implies recs[i + m] == el[m] by {
            assert(recs.skip(i)[m] == recs[i + m]);
            assert(tail[m] == events_lines(evs)[m]);
            assert(events_lines(evs)[m] == el[m]);
        }
        assert(i + 14 <= recs.len()) by {
            assert(tail.len() >= 15);
        }
        lemma_parse_one_event(recs, i, evs[0], b, diags);
        let b2 = CalBuilderView { events: b.events.push(reparsed_event(evs[0])), ..b };
        assert(recs.skip(i + 14) =~= events_lines(evs.drop_first()) + seq!["END:VCALENDAR"@]) by {
            assert forall|m: int| 0 <= m < recs.len() - i - 14 implies recs.skip(i + 14)[m]
                == (events_lines(evs.drop_first()) + seq!["END:VCALENDAR"@])[m] by {
                assert(recs.skip(i + 14)[m] == recs.skip(i)[m + 14]);
                assert(tail[m + 14] == (events_lines(evs.drop_first())
                    + seq!["END:VCALENDAR"@])[m]);
            }
        }
        assert forall|k: int| 0 <= k < evs.drop_first().len() implies event_round_trip_ready(
            #[trigger] evs.drop_first()[k],
        ) by {
            assert(evs.drop_first()[k] == evs[k + 1]);
        }
        lemma_parse_events(recs, i + 14, evs.drop_first(), b2, diags);
        assert(b2.events + reparsed_events(evs.drop_first()) =~= b.events + reparsed_events(evs));
    }
}

/// The round trip: serializing a calendar whose events carry every
/// emitted field, then parsing the text back, reproduces the header fields
/// and, for every event in order, every field of the fixed emission list —
/// with no diagnostics.  Fields outside the emission list are not written
/// and therefore come back absent (see `reparsed_event`); string values
/// must not carry line terminators, since the dialect has no escaping.
pub proof fn lemma_serialize_parse_round_trip(c: CalendarView)
    requires
        calendar_round_trip_ready(c),
    ensures
        ({
            let out = spec_parse(render_calendar(c));
            &&& out.result == Ok::<CalendarView, crate::model::IcsError>(CalendarView {
                name: None,
                prodid: c.prodid,
                version: c.version,
                calscale: c.calscale,
                method: c.method,
                x_wr_calname: c.x_wr_calname,
                x_wr_timezone: c.x_wr_timezone,
                events: reparsed_events(c.events),
            })
            &&& out.diags == Seq::<Diagnostic>::empty()
        }),
{
    lemma_records_of_render(c);
    lemma_key_facts();
    lemma_colon_forms();
    let recs = all_lines(c);
    let h = header_lines(c);
    let ev = events_lines(c.events);
    let s1 = seq!["BEGIN:VCALENDAR"@];
    let s2 = seq!["PRODID:"@ + c.prodid];
    let s3 = (match c.calscale {
        Some(v) => seq!["CALSCALE:"@ + v],
        None => Seq::<Seq<char>>::empty(),
    });
    let s4 = seq!["VERSION:"@ + c.version];
    let s5 = (match c.method {
        Some(v) => seq!["METHOD:"@ + v],
        None => Seq::<Seq<char>>::empty(),
    });
    let s6 = (match c.x_wr_calname {
        Some(v) => seq!["X-WR-CALNAME:"@ + v],
        None => Seq::<Seq<char>>::empty(),
    });
    let s7 = (match c.x_wr_timezone {
        Some(v) => seq!["X-WR-TIMEZONE:"@ + v],
        None => Seq::<Seq<char>>::empty(),
    });
    assert(h == s1 + s2 + s3 + s4 + s5 + s6 + s7);
    assert(forall|j: int| 0 <= j < h.len() ==> recs[j] == h[j]);
    assert(recs[0] == "BEGIN:VCALENDAR"@);
    assert(recs.len() == h.len() + ev.len() + 1);
    assert(spec_parse(render_calendar(c)) == spec_parse_records(recs));
    assert(spec_parse_records(recs) == run_cal(recs, 1, empty_builder(), Seq::empty()));
    let d0 = Seq::<Diagnostic>::empty();
    let b0 = empty_builder();
    // PRODID at index 1
    assert(recs[1] == "PRODID:"@ + c.prodid);
    assert(recs[1] == "PRODID"@ + seq![':'] + c.prodid);
    lemma_split_kv("PRODID"@, c.prodid);
    assert(recs[1][0] == 'P');
    assert(recs[1] != "END:VCALENDAR"@);
    let b1 = CalBuilderView { prodid: Some(c.prodid), ..b0 };
    assert(run_cal(recs, 1, b0, d0) == run_cal(recs, 2, b1, d0));
    // CALSCALE, if present
    let i2: int = 2 + s3.len() as int;
    let b2 = (match c.calscale {
        Some(v) => CalBuilderView { calscale: Some(v), ..b1 },
        None => b1,
    });
    match c.calscale {
        Some(v) => {
            assert(recs[2] == "CALSCALE:"@ + v);
            assert(recs[2] == "CALSCALE"@ + seq![':'] + v);
            lemma_split_kv("CALSCALE"@, v);
            assert(recs[2][0] == 'C');
            assert(recs[2] != "END:VCALENDAR"@);
            assert(run_cal(recs, 2, b1, d0) == run_cal(recs, 3, b2, d0));
        },
        None => {},
    }
    // VERSION
    assert(recs[i2] == "VERSION:"@ + c.version);
    assert(recs[i2] == "VERSION"@ + seq![':'] + c.version);
    lemma_split_kv("VERSION"@, c.version);
    assert(recs[i2][0] == 'V');
    assert(recs[i2] != "END:VCALENDAR"@);
    let b3 = CalBuilderView { version: Some(c.version), ..b2 };
    let i3: int = i2 + 1;
    assert(run_cal(recs, i2, b2, d0) == run_cal(recs, i3, b3, d0));
    // METHOD, if present
    let i4: int = i3 + s5.len() as int;
    let b4 = (match c.method {
        Some(v) => CalBuilderView { method: Some(v), ..b3 },
        None => b3,
    });
    match c.method {
        Some(v) => {
            assert(recs[i3] == "METHOD:"@ + v);
            assert(recs[i3] == "METHOD"@ + seq![':'] + v);
            lemma_split_kv("METHOD"@, v);
            assert(recs[i3][0] == 'M');
            assert(recs[i3] != "END:VCALENDAR"@);
            assert(run_cal(recs, i3, b3, d0) == run_cal(recs, i4, b4, d0));
        },
        None => {},
    }
    // X-WR-CALNAME, if present
    let i5: int = i4 + s6.len() as int;
    let b5 = (match c.x_wr_calname {
        Some(v) => CalBuilderView { x_wr_calname: Some(v), ..b4 },
        None => b4,
    });
    match c.x_wr_calname {
        Some(v) => {
            assert(recs[i4] == "X-WR-CALNAME:"@ + v);
            assert(recs[i4] == "X-WR-CALNAME"@ + seq![':'] + v);
            lemma_split_kv("X-WR-CALNAME"@, v);
            assert(recs[i4][0] == 'X');
            assert(recs[i4] != "END:VCALENDAR"@);
            assert(run_cal(recs, i4, b4, d0) == run_cal(recs, i5, b5, d0));
        },
        None => {},
    }
    // X-WR-TIMEZONE, if present
    let i6: int = i5 + s7.len() as int;
    let b6 = (match c.x_wr_timezone {
        Some(v) => CalBuilderView { x_wr_timezone: Some(v), ..b5 },
        None => b5,
    });
    match c.x_wr_timezone {
        Some(v) => {
            assert(recs[i5] == "X-WR-TIMEZONE:"@ + v);
            assert(recs[i5] == "X-WR-TIMEZONE"@ + seq![':'] + v);
            lemma_split_kv("X-WR-TIMEZONE"@, v);
            assert(recs[i5][0] == 'X');
            assert(recs[i5] != "END:VCALENDAR"@);
            assert(run_cal(recs, i5, b5, d0) == run_cal(recs, i6, b6, d0));
        },
        None => {},
    }
    assert(i6 == h.len());
    assert(b6 == CalBuilderView {
        name: None,
        prodid: Some(c.prodid),
        version: Some(c.version),
        calscale: c.calscale,
        method: c.method,
        x_wr_calname: c.x_wr_calname,
        x_wr_timezone: c.x_wr_timezone,
        events: Seq::empty(),
    });
    assert(recs.skip(h.len() as int) =~= ev + seq!["END:VCALENDAR"@]) by {
        assert(forall|m: int| 0 <= m < recs.len() - h.len() ==> recs.skip(h.len() as int)[m]
            == recs[h.len() + m]);
    }
    lemma_parse_events(recs, h.len() as int, c.events, b6, d0);
    lemma_add_empty(reparsed_events(c.events));
    assert(b6.events + reparsed_events(c.events) =~= reparsed_events(c.events));
}

} // verus!
