//! The property dispatcher: the parsing state machine.
//!
//! Records run through the states `Start` (the first record must be exactly
//! `BEGIN:VCALENDAR`), `InCalendar`, `InEvent` (between `BEGIN:VEVENT` and
//! `END:VEVENT`) and `Done` (after `END:VCALENDAR`; trailing records are
//! ignored).  Records with no `:`, unknown keys, discarded recurrence rules
//! and optional date fields that fail to parse become diagnostics and never
//! abort the parse; a bad `SEQUENCE` numeral, a missing `BEGIN:VCALENDAR`,
//! running out of input, a twice-assigned header field and a calendar
//! without `PRODID` or `VERSION` surface as errors.
//!
//! `run_cal` and `run_event` below are the machine itself, written as spec
//! functions over the record sequence; the executable parser is proved to
//! return exactly what they say.

use vstd::prelude::*;
use crate::datetime::{spec_parse_date, spec_parse_datetime, parse_date, parse_datetime,
    UtcInstant};
use crate::decimal::{spec_parse_u32, parse_u32};
use crate::model::{Calendar, CalendarView, Diagnostic, DiagnosticKind, Event, EventView,
    FieldName, IcsError, Repeat, RepeatView, spec_empty_event};
use crate::tokenize::{find_char, first_ix, spec_records, str_eq, str_starts_with, tokenize};

verus! {

/// The header fields gathered so far, and the events already closed.
pub struct CalBuilderView {
    pub name: Option<Seq<char>>,
    pub prodid: Option<Seq<char>>,
    pub version: Option<Seq<char>>,
    pub calscale: Option<Seq<char>>,
    pub method: Option<Seq<char>>,
    pub x_wr_calname: Option<Seq<char>>,
    pub x_wr_timezone: Option<Seq<char>>,
    pub events: Seq<EventView>,
}

pub open spec fn empty_builder() -> CalBuilderView {
    CalBuilderView {
        name: None,
        prodid: None,
        version: None,
        calscale: None,
        method: None,
        x_wr_calname: None,
        x_wr_timezone: None,
        events: Seq::empty(),
    }
}

/// What a whole parse yields: the calendar or the error, and the recovered
/// troubles along the way.
pub struct ParseOutcomeView {
    pub result: Result<CalendarView, IcsError>,
    pub diags: Seq<Diagnostic>,
}

pub open spec fn has_colon(l: Seq<char>) -> bool {
    first_ix(l, ':') < l.len()
}

/// The key of a record: everything before the first `:`.
pub open spec fn key_of(l: Seq<char>) -> Seq<char> {
    l.take(first_ix(l, ':'))
}

/// The value of a record: everything after the first `:`.
pub open spec fn value_of(l: Seq<char>) -> Seq<char> {
    l.skip(first_ix(l, ':') + 1)
}

/// The key with its parameters removed: everything before the first `;`.
pub open spec fn bare_key(k: Seq<char>) -> Seq<char> {
    k.take(first_ix(k, ';'))
}

/// The parameter suffix of a key: everything after the first `;`, empty when
/// there is none.
pub open spec fn key_param(k: Seq<char>) -> Seq<char> {
    if first_ix(k, ';') < k.len() {
        k.skip(first_ix(k, ';') + 1)
    } else {
        Seq::empty()
    }
}

/// The first `;`-delimited component of a recurrence-rule value.
pub open spec fn rrule_first(v: Seq<char>) -> Seq<char> {
    v.take(first_ix(v, ';'))
}

/// The second `;`-delimited component, when the value has one.
pub open spec fn rrule_second(v: Seq<char>) -> Option<Seq<char>> {
    if first_ix(v, ';') < v.len() {
        let r = v.skip(first_ix(v, ';') + 1);
        Some(r.take(first_ix(r, ';')))
    } else {
        None
    }
}

pub open spec fn diag(kind: DiagnosticKind, i: int) -> Diagnostic {
    Diagnostic { kind, record: i as usize }
}

/// Closing the calendar: `PRODID` and `VERSION` are owed; everything else is
/// taken as gathered.
pub open spec fn finish_cal(b: CalBuilderView) -> Result<CalendarView, IcsError> {
    if b.prodid is None {
        Err(IcsError::MissingProdid)
    } else if b.version is None {
        Err(IcsError::MissingVersion)
    } else {
        Ok(
            CalendarView {
                name: b.name,
                prodid: b.prodid.unwrap(),
                version: b.version.unwrap(),
                calscale: b.calscale,
                method: b.method,
                x_wr_calname: b.x_wr_calname,
                x_wr_timezone: b.x_wr_timezone,
                events: b.events,
            },
        )
    }
}

/// The machine in state `InCalendar`, about to read record `i`.
pub open spec fn run_cal(
    recs: Seq<Seq<char>>,
    i: int,
    b: CalBuilderView,
    diags: Seq<Diagnostic>,
) -> ParseOutcomeView
    decreases recs.len() - i, 1int,
{
    if i < 0 || i >= recs.len() {
        ParseOutcomeView { result: Err(IcsError::UnexpectedEndOfInput), diags }
    } else {
        let l = recs[i];
        if l == "END:VCALENDAR"@ {
            ParseOutcomeView { result: finish_cal(b), diags }
        } else if !has_colon(l) {
            run_cal(recs, i + 1, b, diags.push(diag(DiagnosticKind::MalformedLine, i)))
        } else {
            let k = key_of(l);
            let v = value_of(l);
            if k == "NAME"@ {
                run_cal(recs, i + 1, CalBuilderView { name: Some(v), ..b }, diags)
            } else if k == "PRODID"@ {
                if b.prodid is Some {
                    ParseOutcomeView {
                        result: Err(IcsError::DuplicateField(FieldName::Prodid)),
                        diags,
                    }
                } else {
                    run_cal(recs, i + 1, CalBuilderView { prodid: Some(v), ..b }, diags)
                }
            } else if k == "VERSION"@ {
                if b.version is Some {
                    ParseOutcomeView {
                        result: Err(IcsError::DuplicateField(FieldName::Version)),
                        diags,
                    }
                } else {
                    run_cal(recs, i + 1, CalBuilderView { version: Some(v), ..b }, diags)
                }
            } else if k == "CALSCALE"@ {
                run_cal(recs, i + 1, CalBuilderView { calscale: Some(v), ..b }, diags)
            } else if k == "METHOD"@ {
                run_cal(recs, i + 1, CalBuilderView { method: Some(v), ..b }, diags)
            } else if k == "X-WR-CALNAME"@ {
                run_cal(recs, i + 1, CalBuilderView { x_wr_calname: Some(v), ..b }, diags)
            } else if k == "X-WR-TIMEZONE"@ {
                run_cal(recs, i + 1, CalBuilderView { x_wr_timezone: Some(v), ..b }, diags)
            } else if k == "BEGIN"@ {
                if v == "VEVENT"@ {
                    run_event(recs, i + 1, spec_empty_event(), b, diags)
                } else {
                    run_cal(recs, i + 1, b, diags)
                }
            } else {
                run_cal(recs, i + 1, b, diags.push(diag(DiagnosticKind::UnknownProperty, i)))
            }
        }
    }
}

/// The machine in state `InEvent`, about to read record `i`, with the event
/// accumulated so far.
pub open spec fn run_event(
    recs: Seq<Seq<char>>,
    i: int,
    ev: EventView,
    b: CalBuilderView,
    diags: Seq<Diagnostic>,
) -> ParseOutcomeView
    decreases recs.len() - i, 0int,
{
    if i < 0 || i >= recs.len() {
        ParseOutcomeView { result: Err(IcsError::UnexpectedEndOfInput), diags }
    } else {
        let l = recs[i];
        if l == "END:VEVENT"@ {
            run_cal(recs, i + 1, CalBuilderView { events: b.events.push(ev), ..b }, diags)
        } else if !has_colon(l) {
            run_event(recs, i + 1, ev, b, diags.push(diag(DiagnosticKind::MalformedLine, i)))
        } else {
            let kf = key_of(l);
            let v = value_of(l);
            let k = bare_key(kf);
            if k == "CLASS"@ {
                run_event(recs, i + 1, EventView { class: Some(v), ..ev }, b, diags)
            } else if k == "GEO"@ {
                run_event(recs, i + 1, EventView { geo: Some(v), ..ev }, b, diags)
            } else if k == "PRIORITY"@ {
                run_event(recs, i + 1, EventView { priority: Some(v), ..ev }, b, diags)
            } else if k == "RECUR-ID"@ {
                run_event(recs, i + 1, EventView { recur_id: Some(v), ..ev }, b, diags)
            } else if k == "URL"@ {
                run_event(recs, i + 1, EventView { url: Some(v), ..ev }, b, diags)
            } else if k == "UID"@ {
                run_event(recs, i + 1, EventView { uid: Some(v), ..ev }, b, diags)
            } else if k == "DESCRIPTION"@ {
                run_event(recs, i + 1, EventView { description: Some(v), ..ev }, b, diags)
            } else if k == "LOCATION"@ {
                run_event(recs, i + 1, EventView { location: Some(v), ..ev }, b, diags)
            } else if k == "SEQUENCE"@ {
                match spec_parse_u32(v) {
                    Some(n) => run_event(recs, i + 1, EventView { sequence: Some(n), ..ev }, b, diags),
                    None => ParseOutcomeView { result: Err(IcsError::NumericParseFailure), diags },
                }
            } else if k == "STATUS"@ {
                run_event(recs, i + 1, EventView { status: Some(v), ..ev }, b, diags)
            } else if k == "SUMMARY"@ {
                run_event(recs, i + 1, EventView { summary: Some(v), ..ev }, b, diags)
            } else if k == "TRANSP"@ {
                run_event(recs, i + 1, EventView { transp: Some(v), ..ev }, b, diags)
            } else if k == "ORGANIZER"@ {
                run_event(recs, i + 1, EventView { organizer: Some(v), ..ev }, b, diags)
            } else if k == "RRULE"@ {
                let c1 = rrule_first(v);
                if c1.len() >= 5 && c1.take(5) == "FREQ="@ {
                    let freq = c1.skip(5);
                    match rrule_second(v) {
                        None => run_event(
                            recs,
                            i + 1,
                            EventView { repeat: Some(RepeatView { freq, until: None }), ..ev },
                            b,
                            diags,
                        ),
                        Some(c2) => {
                            if c2.len() >= 6 && c2.take(6) == "UNTIL="@ {
                                match spec_parse_datetime(c2.skip(6)) {
                                    Some(u) => run_event(
                                        recs,
                                        i + 1,
                                        EventView {
                                            repeat: Some(RepeatView { freq, until: Some(u) }),
                                            ..ev
                                        },
                                        b,
                                        diags,
                                    ),
                                    None => run_event(
                                        recs,
                                        i + 1,
                                        EventView {
                                            repeat: Some(RepeatView { freq, until: None }),
                                            ..ev
                                        },
                                        b,
                                        diags.push(diag(DiagnosticKind::DateTimeParseFailure, i)),
                                    ),
                                }
                            } else {
                                run_event(
                                    recs,
                                    i + 1,
                                    EventView {
                                        repeat: Some(RepeatView { freq, until: None }),
                                        ..ev
                                    },
                                    b,
                                    diags.push(diag(DiagnosticKind::BadRecurrenceRule, i)),
                                )
                            }
                        },
                    }
                } else {
                    run_event(
                        recs,
                        i + 1,
                        ev,
                        b,
                        diags.push(diag(DiagnosticKind::BadRecurrenceRule, i)),
                    )
                }
            } else if k == "DTSTART"@ {
                let parsed = if key_param(kf) == "VALUE=DATE"@ {
                    spec_parse_date(v)
                } else {
                    spec_parse_datetime(v)
                };
                match parsed {
                    Some(t) => run_event(recs, i + 1, EventView { dtstart: Some(t), ..ev }, b, diags),
                    None => run_event(
                        recs,
                        i + 1,
                        ev,
                        b,
                        diags.push(diag(DiagnosticKind::DateTimeParseFailure, i)),
                    ),
                }
            } else if k == "DTEND"@ {
                match spec_parse_datetime(v) {
                    Some(t) => run_event(recs, i + 1, EventView { dtend: Some(t), ..ev }, b, diags),
                    None => run_event(
                        recs,
                        i + 1,
                        ev,
                        b,
                        diags.push(diag(DiagnosticKind::DateTimeParseFailure, i)),
                    ),
                }
            } else if k == "DTSTAMP"@ {
                match spec_parse_datetime(v) {
                    Some(t) => run_event(recs, i + 1, EventView { dtstamp: Some(t), ..ev }, b, diags),
                    None => run_event(
                        recs,
                        i + 1,
                        ev,
                        b,
                        diags.push(diag(DiagnosticKind::DateTimeParseFailure, i)),
                    ),
                }
            } else if k == "CREATED"@ {
                match spec_parse_datetime(v) {
                    Some(t) => run_event(recs, i + 1, EventView { created: Some(t), ..ev }, b, diags),
                    None => run_event(
                        recs,
                        i + 1,
                        ev,
                        b,
                        diags.push(diag(DiagnosticKind::DateTimeParseFailure, i)),
                    ),
                }
            } else if k == "LAST-MODIFIED"@ {
                match spec_parse_datetime(v) {
                    Some(t) => run_event(
                        recs,
                        i + 1,
                        EventView { last_modified: Some(t), ..ev },
                        b,
                        diags,
                    ),
                    None => run_event(
                        recs,
                        i + 1,
                        ev,
                        b,
                        diags.push(diag(DiagnosticKind::DateTimeParseFailure, i)),
                    ),
                }
            } else {
                run_event(recs, i + 1, ev, b, diags.push(diag(DiagnosticKind::UnknownProperty, i)))
            }
        }
    }
}

/// The whole parse over a record sequence: the first record must be exactly
/// `BEGIN:VCALENDAR`.
pub open spec fn spec_parse_records(recs: Seq<Seq<char>>) -> ParseOutcomeView {
    if recs.len() == 0 || recs[0] != "BEGIN:VCALENDAR"@ {
        ParseOutcomeView { result: Err(IcsError::MissingCalendarBegin), diags: Seq::empty() }
    } else {
        run_cal(recs, 1, empty_builder(), Seq::empty())
    }
}

/// The whole parse over raw text.
pub open spec fn spec_parse(text: Seq<char>) -> ParseOutcomeView {
    spec_parse_records(spec_records(text))
}

/// The executable counterpart of [`CalBuilderView`].
struct CalBuilder {
    name: Option<String>,
    prodid: Option<String>,
    version: Option<String>,
    calscale: Option<String>,
    method: Option<String>,
    x_wr_calname: Option<String>,
    x_wr_timezone: Option<String>,
    events: Vec<Event>,
}

spec fn bview(b: &CalBuilder) -> CalBuilderView {
    CalBuilderView {
        name: b.name.deep_view(),
        prodid: b.prodid.deep_view(),
        version: b.version.deep_view(),
        calscale: b.calscale.deep_view(),
        method: b.method.deep_view(),
        x_wr_calname: b.x_wr_calname.deep_view(),
        x_wr_timezone: b.x_wr_timezone.deep_view(),
        events: b.events.deep_view(),
    }
}

impl CalBuilder {
    fn new_empty() -> (b: CalBuilder)
        ensures
            bview(&b) == empty_builder(),
    {
        let b = CalBuilder {
            name: None,
            prodid: None,
            version: None,
            calscale: None,
            method: None,
            x_wr_calname: None,
            x_wr_timezone: None,
            events: Vec::new(),
        };
        proof {
            assert(bview(&b).events =~= Seq::<EventView>::empty());
        }
        b
    }
}

/// Where a calendar-level record sends the machine next.
enum CalStep {
    Next,
    Enter,
}

/// Applies one calendar-level record that is not `END:VCALENDAR`.
fn step_cal(
    line: &String,
    i: usize,
    Ghost(recs): Ghost<Seq<Seq<char>>>,
    bld: &mut CalBuilder,
    diags: &mut Vec<Diagnostic>,
) -> (r: Result<CalStep, IcsError>)
    requires
        i < recs.len(),
        line@ == recs[i as int],
        line@ != "END:VCALENDAR"@,
    ensures
        match r {
            Ok(CalStep::Next) => run_cal(recs, i as int, bview(old(bld)), old(diags)@) == run_cal(
                recs,
                i + 1,
                bview(final(bld)),
                final(diags)@,
            ),
            Ok(CalStep::Enter) => run_cal(recs, i as int, bview(old(bld)), old(diags)@) == run_event(
                recs,
                i + 1,
                spec_empty_event(),
                bview(final(bld)),
                final(diags)@,
            ),
            Err(e) => run_cal(recs, i as int, bview(old(bld)), old(diags)@) == (ParseOutcomeView {
                result: Err(e),
                diags: old(diags)@,
            }),
        },
        bview(final(bld)).events == bview(old(bld)).events,
{
    let ghost l = recs[i as int];
    let lstr = line.as_str();
    let llen = lstr.unicode_len();
    let jc = find_char(lstr, ':');
    if jc >= llen {
        diags.push(Diagnostic { kind: DiagnosticKind::MalformedLine, record: i });
        proof {
            assert(diags@ =~= old(diags)@.push(diag(DiagnosticKind::MalformedLine, i as int)));
        }
        return Ok(CalStep::Next);
    }
    let key = lstr.substring_char(0, jc);
    let value = lstr.substring_char(jc + 1, llen);
    proof {
        assert(key@ == key_of(l));
        assert(value@ == value_of(l));
    }
    if str_eq(key, "NAME") {
        bld.name = Some(value.to_owned());
        Ok(CalStep::Next)
    } else if str_eq(key, "PRODID") {
        if bld.prodid.is_some() {
            return Err(IcsError::DuplicateField(FieldName::Prodid));
        }
        bld.prodid = Some(value.to_owned());
        Ok(CalStep::Next)
    } else if str_eq(key, "VERSION") {
        if bld.version.is_some() {
            return Err(IcsError::DuplicateField(FieldName::Version));
        }
        bld.version = Some(value.to_owned());
        Ok(CalStep::Next)
    } else if str_eq(key, "CALSCALE") {
        bld.calscale = Some(value.to_owned());
        Ok(CalStep::Next)
    } else if str_eq(key, "METHOD") {
        bld.method = Some(value.to_owned());
        Ok(CalStep::Next)
    } else if str_eq(key, "X-WR-CALNAME") {
        bld.x_wr_calname = Some(value.to_owned());
        Ok(CalStep::Next)
    } else if str_eq(key, "X-WR-TIMEZONE") {
        bld.x_wr_timezone = Some(value.to_owned());
        Ok(CalStep::Next)
    } else if str_eq(key, "BEGIN") {
        if str_eq(value, "VEVENT") {
            Ok(CalStep::Enter)
        } else {
            Ok(CalStep::Next)
        }
    } else {
        diags.push(Diagnostic { kind: DiagnosticKind::UnknownProperty, record: i });
        proof {
            assert(diags@ =~= old(diags)@.push(diag(DiagnosticKind::UnknownProperty, i as int)));
        }
        Ok(CalStep::Next)
    }
}

/// Applies one event-level record that is not `END:VEVENT`.
fn step_event(
    line: &String,
    i: usize,
    Ghost(recs): Ghost<Seq<Seq<char>>>,
    Ghost(b): Ghost<CalBuilderView>,
    ev: &mut Event,
    diags: &mut Vec<Diagnostic>,
) -> (r: Result<(), IcsError>)
    requires
        i < recs.len(),
        line@ == recs[i as int],
        line@ != "END:VEVENT"@,
        old(ev)@.wf(),
    ensures
        match r {
            Ok(()) => run_event(recs, i as int, old(ev)@, b, old(diags)@) == run_event(
                recs,
                i + 1,
                final(ev)@,
                b,
                final(diags)@,
            ) && final(ev)@.wf(),
            Err(e) => run_event(recs, i as int, old(ev)@, b, old(diags)@) == (ParseOutcomeView {
                result: Err(e),
                diags: old(diags)@,
            }),
        },
{
    let ghost l = recs[i as int];
    let lstr = line.as_str();
    let llen = lstr.unicode_len();
    let jc = find_char(lstr, ':');
    if jc >= llen {
        diags.push(Diagnostic { kind: DiagnosticKind::MalformedLine, record: i });
        proof {
            assert(diags@ =~= old(diags)@.push(diag(DiagnosticKind::MalformedLine, i as int)));
        }
        return Ok(());
    }
    let key_full = lstr.substring_char(0, jc);
    let value = lstr.substring_char(jc + 1, llen);
    let kflen = key_full.unicode_len();
    let js = find_char(key_full, ';');
    let key = if js < kflen {
        key_full.substring_char(0, js)
    } else {
        key_full
    };
    proof {
        assert(key_full@ == key_of(l));
        assert(value@ == value_of(l));
        assert(key@ =~= bare_key(key_of(l)));
    }
    if str_eq(key, "CLASS") {
        ev.class = Some(value.to_owned());
        Ok(())
    } else if str_eq(key, "GEO") {
        ev.geo = Some(value.to_owned());
        Ok(())
    } else if str_eq(key, "PRIORITY") {
        ev.priority = Some(value.to_owned());
        Ok(())
    } else if str_eq(key, "RECUR-ID") {
        ev.recur_id = Some(value.to_owned());
        Ok(())
    } else if str_eq(key, "URL") {
        ev.url = Some(value.to_owned());
        Ok(())
    } else if str_eq(key, "UID") {
        ev.uid = Some(value.to_owned());
        Ok(())
    } else if str_eq(key, "DESCRIPTION") {
        ev.description = Some(value.to_owned());
        Ok(())
    } else if str_eq(key, "LOCATION") {
        ev.location = Some(value.to_owned());
        Ok(())
    } else if str_eq(key, "SEQUENCE") {
        match parse_u32(value) {
            Some(n) => {
                ev.sequence = Some(n);
                Ok(())
            },
            None => Err(IcsError::NumericParseFailure),
        }
    } else if str_eq(key, "STATUS") {
        ev.status = Some(value.to_owned());
        Ok(())
    } else if str_eq(key, "SUMMARY") {
        ev.summary = Some(value.to_owned());
        Ok(())
    } else if str_eq(key, "TRANSP") {
        ev.transp = Some(value.to_owned());
        Ok(())
    } else if str_eq(key, "ORGANIZER") {
        ev.organizer = Some(value.to_owned());
        Ok(())
    } else if str_eq(key, "RRULE") {
        let vlen = value.unicode_len();
        let j1 = find_char(value, ';');
        let c1 = if j1 < vlen {
            value.substring_char(0, j1)
        } else {
            value
        };
        proof {
            assert(c1@ =~= rrule_first(value_of(l)));
        }
        if str_starts_with(c1, "FREQ=") {
            proof {
                reveal_strlit("FREQ=");
            }
            let freq = c1.substring_char(5, c1.unicode_len()).to_owned();
            let mut until: Option<UtcInstant> = None;
            if j1 < vlen {
                let rest = value.substring_char(j1 + 1, vlen);
                let rlen = rest.unicode_len();
                let j2 = find_char(rest, ';');
                let c2 = if j2 < rlen {
                    rest.substring_char(0, j2)
                } else {
                    rest
                };
                proof {
                    assert(rest@ == value_of(l).skip(first_ix(value_of(l), ';') + 1));
                    assert(c2@ =~= rrule_second(value_of(l)).unwrap());
                }
                if str_starts_with(c2, "UNTIL=") {
                    proof {
                        reveal_strlit("UNTIL=");
                    }
                    match parse_datetime(c2.substring_char(6, rlen.min(c2.unicode_len()))) {
                        Some(u) => {
                            until = Some(u);
                        },
                        None => {
                            diags.push(
                                Diagnostic {
                                    kind: DiagnosticKind::DateTimeParseFailure,
                                    record: i,
                                },
                            );
                        },
                    }
                } else {
                    diags.push(Diagnostic { kind: DiagnosticKind::BadRecurrenceRule, record: i });
                }
            }
            ev.repeat = Some(Repeat { freq, until });
            Ok(())
        } else {
            diags.push(Diagnostic { kind: DiagnosticKind::BadRecurrenceRule, record: i });
            proof {
                assert(diags@ =~= old(diags)@.push(diag(DiagnosticKind::BadRecurrenceRule,
                    i as int)));
            }
            Ok(())
        }
    } else if str_eq(key, "DTSTART") {
        let is_date = js < kflen && str_eq(key_full.substring_char(js + 1, kflen), "VALUE=DATE");
        proof {
            if js < kflen {
                assert(key_full@.subrange(js + 1, kflen as int) == key_param(key_of(l)));
            } else {
                assert(key_param(key_of(l)) == Seq::<char>::empty());
                reveal_strlit("VALUE=DATE");
            }
        }
        let parsed = if is_date {
            parse_date(value)
        } else {
            parse_datetime(value)
        };
        match parsed {
            Some(t) => {
                ev.dtstart = Some(t);
            },
            None => {
                diags.push(Diagnostic { kind: DiagnosticKind::DateTimeParseFailure, record: i });
            },
        }
        Ok(())
    } else if str_eq(key, "DTEND") {
        match parse_datetime(value) {
            Some(t) => {
                ev.dtend = Some(t);
            },
            None => {
                diags.push(Diagnostic { kind: DiagnosticKind::DateTimeParseFailure, record: i });
            },
        }
        Ok(())
    } else if str_eq(key, "DTSTAMP") {
        match parse_datetime(value) {
            Some(t) => {
                ev.dtstamp = Some(t);
            },
            None => {
                diags.push(Diagnostic { kind: DiagnosticKind::DateTimeParseFailure, record: i });
            },
        }
        Ok(())
    } else if str_eq(key, "CREATED") {
        match parse_datetime(value) {
            Some(t) => {
                ev.created = Some(t);
            },
            None => {
                diags.push(Diagnostic { kind: DiagnosticKind::DateTimeParseFailure, record: i });
            },
        }
        Ok(())
    } else if str_eq(key, "LAST-MODIFIED") {
        match parse_datetime(value) {
            Some(t) => {
                ev.last_modified = Some(t);
            },
            None => {
                diags.push(Diagnostic { kind: DiagnosticKind::DateTimeParseFailure, record: i });
            },
        }
        Ok(())
    } else {
        diags.push(Diagnostic { kind: DiagnosticKind::UnknownProperty, record: i });
        proof {
            assert(diags@ =~= old(diags)@.push(diag(DiagnosticKind::UnknownProperty, i as int)));
        }
        Ok(())
    }
}

/// A parsed calendar together with the troubles recovered along the way.
pub struct ParseOutcome {
    pub calendar: Calendar,
    pub diagnostics: Vec<Diagnostic>,
}

/// Parses calendar text: tokenize, then drive the dispatcher over the
/// records.  Returns the calendar and the recovered diagnostics, or the
/// first fatal error, exactly as [`spec_parse`] says.
pub fn parse_ics(data: &str) -> (r: Result<ParseOutcome, IcsError>)
    ensures
        match r {
            Ok(o) => spec_parse(data@).result == Ok::<CalendarView, IcsError>(o.calendar@) && o.diagnostics@ == spec_parse(
                data@,
            ).diags && o.calendar@.wf(),
            Err(e) => spec_parse(data@).result == Err::<CalendarView, IcsError>(e),
        },
{
    let recs = tokenize(data);
    let ghost grecs = recs.deep_view();
    proof {
        assert(grecs.len() == recs@.len());
    }
    if recs.len() == 0 {
        return Err(IcsError::MissingCalendarBegin);
    }
    if !str_eq(recs[0].as_str(), "BEGIN:VCALENDAR") {
        proof {
            assert(grecs[0] == recs@[0]@);
        }
        return Err(IcsError::MissingCalendarBegin);
    }
    let ghost goal = spec_parse_records(grecs);
    let mut bld = CalBuilder::new_empty();
    let mut diags: Vec<Diagnostic> = Vec::new();
    let mut ev = Event::empty();
    let mut in_event = false;
    let mut i: usize = 1;
    proof {
        assert(grecs[0] == recs@[0]@);
        assert(diags@ =~= Seq::<Diagnostic>::empty());
        assert(goal == run_cal(grecs, 1, empty_builder(), Seq::empty()));
    }
    while i < recs.len()
        invariant
            1 <= i <= recs.len(),
            grecs == recs.deep_view(),
            grecs.len() == recs@.len(),
            grecs == spec_records(data@),
            goal == spec_parse(data@),
            in_event ==> goal == run_event(grecs, i as int, ev@, bview(&bld), diags@),
            !in_event ==> goal == run_cal(grecs, i as int, bview(&bld), diags@),
            !in_event ==> ev@ == spec_empty_event(),
            forall|k: int| 0 <= k < bview(&bld).events.len() ==> (#[trigger] bview(&bld).events[k]).wf(),
            ev@.wf(),
        decreases recs.len() - i,
    {
        proof {
            assert(grecs[i as int] == recs@[i as int]@);
        }
        if in_event {
            if str_eq(recs[i].as_str(), "END:VEVENT") {
                let ghost ev0 = ev@;
                let ghost bld0 = bview(&bld);
                let done = ev;
                ev = Event::empty();
                bld.events.push(done);
                in_event = false;
                proof {
                    assert(bview(&bld).events =~= bld0.events.push(ev0));
                    assert(bview(&bld) == (CalBuilderView { events: bld0.events.push(ev0), ..bld0 }));
                    assert(goal == run_cal(grecs, i as int + 1, bview(&bld), diags@));
                }
            } else {
                match step_event(&recs[i], i, Ghost(grecs), Ghost(bview(&bld)), &mut ev, &mut diags) {
                    Ok(()) => {},
                    Err(e) => {
                        return Err(e);
                    },
                }
            }
        } else {
            if str_eq(recs[i].as_str(), "END:VCALENDAR") {
                proof {
                    assert(goal == (ParseOutcomeView { result: finish_cal(bview(&bld)), diags: diags@ }));
                }
                if bld.prodid.is_none() {
                    return Err(IcsError::MissingProdid);
                }
                if bld.version.is_none() {
                    return Err(IcsError::MissingVersion);
                }
                let ghost bld0 = bview(&bld);
                let cal = Calendar {
                    name: bld.name,
                    prodid: bld.prodid.unwrap(),
                    version: bld.version.unwrap(),
                    calscale: bld.calscale,
                    method: bld.method,
                    x_wr_calname: bld.x_wr_calname,
                    x_wr_timezone: bld.x_wr_timezone,
                    events: bld.events,
                };
                proof {
                    assert(finish_cal(bld0) == Ok::<CalendarView, IcsError>(cal@));
                    assert(cal@.wf());
                }
                return Ok(ParseOutcome { calendar: cal, diagnostics: diags });
            } else {
                match step_cal(&recs[i], i, Ghost(grecs), &mut bld, &mut diags) {
                    Ok(CalStep::Next) => {},
                    Ok(CalStep::Enter) => {
                        in_event = true;
                    },
                    Err(e) => {
                        return Err(e);
                    },
                }
            }
        }
        i += 1;
    }
    proof {
        assert(goal.result == Err::<CalendarView, IcsError>(IcsError::UnexpectedEndOfInput));
    }
    Err(IcsError::UnexpectedEndOfInput)
}

impl Calendar {
    /// Creates a `Calendar` from calendar text held in memory, dropping the
    /// diagnostics; [`parse_ics`] keeps them.
    pub fn new_from_data(data: &str) -> (r: Result<Calendar, IcsError>)
        ensures
            match r {
                Ok(c) => spec_parse(data@).result == Ok::<CalendarView, IcsError>(c@) && c@.wf(),
                Err(e) => spec_parse(data@).result == Err::<CalendarView, IcsError>(e),
            },
    {
        match parse_ics(data) {
            Ok(o) => Ok(o.calendar),
            Err(e) => Err(e),
        }
    }
}

} // verus!
