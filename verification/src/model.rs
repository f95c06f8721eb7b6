//! The calendar and event model: the containers the parser fills and the
//! serializer reads, their views, and the error and diagnostic records that
//! parsing and serializing report.
//!
//! The library fixes one canonical schema: mandatory `prodid`/`version`
//! strings on the calendar, every other header field present-or-absent, and
//! the full event field set including `class`, `geo`, `priority`,
//! `recur_id` and `url`.

use vstd::prelude::*;
use crate::datetime::UtcInstant;

verus! {

/// Names the calendar and event fields that errors speak of.
#[derive(Clone, Copy, PartialEq, Eq, Structural, Debug)]
pub enum FieldName {
    Prodid,
    Version,
    Dtstart,
    Dtend,
    Dtstamp,
    Uid,
    Created,
    Description,
    LastModified,
    Location,
    Sequence,
    Status,
    Summary,
    Transp,
}

/// The errors a caller can see.  Line-level troubles (a record with no `:`,
/// an unknown key, a date that does not parse in an optional field) never
/// surface here: they become [`Diagnostic`]s and parsing goes on.
#[derive(Clone, Copy, PartialEq, Eq, Structural, Debug)]
pub enum IcsError {
    /// The first record of the input is not exactly `BEGIN:VCALENDAR`.
    MissingCalendarBegin,
    /// The input ran out before the matching `END:VCALENDAR` or `END:VEVENT`.
    UnexpectedEndOfInput,
    /// The calendar ended without a `PRODID` record.
    MissingProdid,
    /// The calendar ended without a `VERSION` record.
    MissingVersion,
    /// A `SEQUENCE` value that is not an unsigned 32-bit decimal numeral.
    NumericParseFailure,
    /// A field that may be assigned only once was assigned twice.
    DuplicateField(FieldName),
    /// A date-time value that had to parse did not.
    DateTimeParseFailure,
    /// At serialization, the named event lacks a field of the fixed emission
    /// list.
    MissingEventField { event: usize, field: FieldName },
}

/// What a recovered line-level trouble was.
#[derive(Clone, Copy, PartialEq, Eq, Structural, Debug)]
pub enum DiagnosticKind {
    /// A record with no `:` separator; skipped.
    MalformedLine,
    /// A record whose key neither the calendar nor the event dispatch knows;
    /// ignored.
    UnknownProperty,
    /// An `RRULE` whose first component is not `FREQ=...`; the whole rule is
    /// discarded.
    BadRecurrenceRule,
    /// A date-time value of an optional field that did not parse; the field
    /// stays unset.
    DateTimeParseFailure,
}

/// One recovered trouble, pointing at the record (by index in the tokenized
/// record sequence) that caused it.
#[derive(Clone, Copy, PartialEq, Eq, Structural, Debug)]
pub struct Diagnostic {
    pub kind: DiagnosticKind,
    pub record: usize,
}

/// A recurrence rule: the raw frequency token and an optional UTC bound.
/// Occurrences are never expanded.
#[derive(Clone, Debug)]
pub struct Repeat {
    pub freq: String,
    pub until: Option<UtcInstant>,
}

/// The mathematical value of a [`Repeat`].
pub struct RepeatView {
    pub freq: Seq<char>,
    pub until: Option<UtcInstant>,
}

impl View for Repeat {
    type V = RepeatView;

    open spec fn view(&self) -> RepeatView {
        RepeatView { freq: self.freq@, until: self.until }
    }
}

impl DeepView for Repeat {
    type V = RepeatView;

    open spec fn deep_view(&self) -> RepeatView {
        self.view()
    }
}

impl RepeatView {
    pub open spec fn wf(self) -> bool {
        match self.until {
            Some(u) => u.valid(),
            None => true,
        }
    }
}

/// One calendar event; every field independently present-or-absent.
#[derive(Clone, Debug)]
pub struct Event {
    pub dtstamp: Option<UtcInstant>,
    pub uid: Option<String>,
    pub dtstart: Option<UtcInstant>,
    pub dtend: Option<UtcInstant>,
    pub created: Option<UtcInstant>,
    pub description: Option<String>,
    pub last_modified: Option<UtcInstant>,
    pub location: Option<String>,
    pub organizer: Option<String>,
    pub sequence: Option<u32>,
    pub status: Option<String>,
    pub summary: Option<String>,
    pub transp: Option<String>,
    pub repeat: Option<Repeat>,
    pub class: Option<String>,
    pub geo: Option<String>,
    pub priority: Option<String>,
    pub recur_id: Option<String>,
    pub url: Option<String>,
}

/// The mathematical value of an [`Event`].
pub struct EventView {
    pub dtstamp: Option<UtcInstant>,
    pub uid: Option<Seq<char>>,
    pub dtstart: Option<UtcInstant>,
    pub dtend: Option<UtcInstant>,
    pub created: Option<UtcInstant>,
    pub description: Option<Seq<char>>,
    pub last_modified: Option<UtcInstant>,
    pub location: Option<Seq<char>>,
    pub organizer: Option<Seq<char>>,
    pub sequence: Option<u32>,
    pub status: Option<Seq<char>>,
    pub summary: Option<Seq<char>>,
    pub transp: Option<Seq<char>>,
    pub repeat: Option<RepeatView>,
    pub class: Option<Seq<char>>,
    pub geo: Option<Seq<char>>,
    pub priority: Option<Seq<char>>,
    pub recur_id: Option<Seq<char>>,
    pub url: Option<Seq<char>>,
}

impl View for Event {
    type V = EventView;

    open spec fn view(&self) -> EventView {
        EventView {
            dtstamp: self.dtstamp,
            uid: self.uid.deep_view(),
            dtstart: self.dtstart,
            dtend: self.dtend,
            created: self.created,
            description: self.description.deep_view(),
            last_modified: self.last_modified,
            location: self.location.deep_view(),
            organizer: self.organizer.deep_view(),
            sequence: self.sequence,
            status: self.status.deep_view(),
            summary: self.summary.deep_view(),
            transp: self.transp.deep_view(),
            repeat: self.repeat.deep_view(),
            class: self.class.deep_view(),
            geo: self.geo.deep_view(),
            priority: self.priority.deep_view(),
            recur_id: self.recur_id.deep_view(),
            url: self.url.deep_view(),
        }
    }
}

impl DeepView for Event {
    type V = EventView;

    open spec fn deep_view(&self) -> EventView {
        self.view()
    }
}

/// The event with every field absent; what `BEGIN:VEVENT` pushes before the
/// following records fill it.
pub open spec fn spec_empty_event() -> EventView {
    EventView {
        dtstamp: None,
        uid: None,
        dtstart: None,
        dtend: None,
        created: None,
        description: None,
        last_modified: None,
        location: None,
        organizer: None,
        sequence: None,
        status: None,
        summary: None,
        transp: None,
        repeat: None,
        class: None,
        geo: None,
        priority: None,
        recur_id: None,
        url: None,
    }
}

impl EventView {
    /// Every instant the event carries lies in the dialect's ranges.
    pub open spec fn wf(self) -> bool {
        &&& match self.dtstamp {
            Some(i) => i.valid(),
            None => true,
        }
        &&& match self.dtstart {
            Some(i) => i.valid(),
            None => true,
        }
        &&& match self.dtend {
            Some(i) => i.valid(),
            None => true,
        }
        &&& match self.created {
            Some(i) => i.valid(),
            None => true,
        }
        &&& match self.last_modified {
            Some(i) => i.valid(),
            None => true,
        }
        &&& match self.repeat {
            Some(r) => r.wf(),
            None => true,
        }
    }
}

/// What `is_all_day` decides: with both bounds present, whether the event
/// spans at least a full day; otherwise nothing.
pub open spec fn spec_is_all_day(e: EventView) -> Option<bool> {
    match (e.dtstart, e.dtend) {
        (Some(s), Some(en)) => Some(en.epoch_seconds() - s.epoch_seconds() >= 86400),
        _ => None,
    }
}

impl Event {
    pub open spec fn wf(self) -> bool {
        self@.wf()
    }

    /// Decides `wf`: every instant the event carries is in range.
    pub fn is_well_formed(&self) -> (r: bool)
        ensures
            r == self.wf(),
    {
        (match &self.dtstamp {
            Some(i) => i.is_valid(),
            None => true,
        }) && (match &self.dtstart {
            Some(i) => i.is_valid(),
            None => true,
        }) && (match &self.dtend {
            Some(i) => i.is_valid(),
            None => true,
        }) && (match &self.created {
            Some(i) => i.is_valid(),
            None => true,
        }) && (match &self.last_modified {
            Some(i) => i.is_valid(),
            None => true,
        }) && (match &self.repeat {
            Some(r) => match &r.until {
                Some(u) => u.is_valid(),
                None => true,
            },
            None => true,
        })
    }

    /// The event with every field absent.
    pub fn empty() -> (e: Event)
        ensures
            e@ == spec_empty_event(),
    {
        Event {
            dtstart: None,
            dtend: None,
            dtstamp: None,
            uid: None,
            created: None,
            description: None,
            last_modified: None,
            location: None,
            organizer: None,
            sequence: None,
            status: None,
            summary: None,
            transp: None,
            repeat: None,
            class: None,
            geo: None,
            priority: None,
            recur_id: None,
            url: None,
        }
    }

    /// An event is consistent when it carries `uid` and `dtstamp`, and
    /// `dtstart` too unless the enclosing calendar declares a method.
    pub fn check_consistency(&self, cal_has_method: bool) -> (r: bool)
        ensures
            r == (self@.dtstamp is Some && self@.uid is Some && (cal_has_method
                || self@.dtstart is Some)),
    {
        self.dtstamp.is_some() && self.uid.is_some() && (cal_has_method
            || self.dtstart.is_some())
    }

    /// Whether the event spans at least a full day, when both bounds are
    /// present.
    pub fn is_all_day(&self) -> (r: Option<bool>)
        requires
            self.wf(),
        ensures
            r == spec_is_all_day(self@),
    {
        match (&self.dtstart, &self.dtend) {
            (Some(s), Some(en)) => {
                proof {
                    crate::datetime::lemma_epoch_seconds_range(*s);
                    crate::datetime::lemma_epoch_seconds_range(*en);
                }
                let a = s.timeline_seconds();
                let b = en.timeline_seconds();
                Some(b >= a + 86400)
            },
            _ => None,
        }
    }

    /// Sets the start bound from a date-only value, refusing to set it twice.
    pub fn set_dt_start(&mut self, val: &str) -> (r: Result<(), IcsError>)
        ensures
            match r {
                Ok(()) => {
                    &&& old(self)@.dtstart is None
                    &&& crate::datetime::spec_parse_date(val@) matches Some(i) && final(self)@
                        == EventView { dtstart: Some(i), ..old(self)@ }
                },
                Err(e) => {
                    &&& *final(self) == *old(self)
                    &&& if old(self)@.dtstart is Some {
                        e == IcsError::DuplicateField(FieldName::Dtstart)
                    } else {
                        e == IcsError::DateTimeParseFailure && crate::datetime::spec_parse_date(
                            val@,
                        ) is None
                    }
                },
            },
    {
        if self.dtstart.is_some() {
            return Err(IcsError::DuplicateField(FieldName::Dtstart));
        }
        match crate::datetime::parse_date(val) {
            Some(i) => {
                self.dtstart = Some(i);
                Ok(())
            },
            None => Err(IcsError::DateTimeParseFailure),
        }
    }
}

/// The calendar: header metadata and the owned, ordered event sequence.
#[derive(Clone, Debug)]
pub struct Calendar {
    pub name: Option<String>,
    pub prodid: String,
    pub version: String,
    pub calscale: Option<String>,
    pub method: Option<String>,
    pub x_wr_calname: Option<String>,
    pub x_wr_timezone: Option<String>,
    pub events: Vec<Event>,
}

/// The mathematical value of a [`Calendar`].
pub struct CalendarView {
    pub name: Option<Seq<char>>,
    pub prodid: Seq<char>,
    pub version: Seq<char>,
    pub calscale: Option<Seq<char>>,
    pub method: Option<Seq<char>>,
    pub x_wr_calname: Option<Seq<char>>,
    pub x_wr_timezone: Option<Seq<char>>,
    pub events: Seq<EventView>,
}

impl View for Calendar {
    type V = CalendarView;

    open spec fn view(&self) -> CalendarView {
        CalendarView {
            name: self.name.deep_view(),
            prodid: self.prodid@,
            version: self.version@,
            calscale: self.calscale.deep_view(),
            method: self.method.deep_view(),
            x_wr_calname: self.x_wr_calname.deep_view(),
            x_wr_timezone: self.x_wr_timezone.deep_view(),
            events: self.events.deep_view(),
        }
    }
}

impl CalendarView {
    pub open spec fn wf(self) -> bool {
        forall|i: int| 0 <= i < self.events.len() ==> (#[trigger] self.events[i]).wf()
    }
}

impl Calendar {
    pub open spec fn wf(self) -> bool {
        self@.wf()
    }

    /// Decides `wf`: every event is well-formed.
    pub fn is_well_formed(&self) -> (r: bool)
        ensures
            r == self.wf(),
    {
        let n = self.events.len();
        let mut k: usize = 0;
        while k < n
            invariant
                k <= n,
                n == self.events.len(),
                forall|j: int| 0 <= j < k ==> (#[trigger] self@.events[j]).wf(),
            decreases n - k,
        {
            proof {
                assert(self@.events[k as int] == self.events[k as int]@);
            }
            if !self.events[k].is_well_formed() {
                return false;
            }
            k += 1;
        }
        true
    }

    /// Builds an empty calendar carrying the given header metadata.
    pub fn create(
        prodid: &str,
        version: &str,
        calscale: &str,
        method: &str,
        calname: &str,
        timezone: &str,
    ) -> (c: Calendar)
        ensures
            c@.prodid == prodid@,
            c@.version == version@,
            c@.calscale == Some(calscale@),
            c@.method == Some(method@),
            c@.x_wr_calname == Some(calname@),
            c@.x_wr_timezone == Some(timezone@),
            c@.name is None,
            c@.events == Seq::<EventView>::empty(),
    {
        let c = Calendar {
            name: None,
            prodid: prodid.to_owned(),
            version: version.to_owned(),
            calscale: Some(calscale.to_owned()),
            method: Some(method.to_owned()),
            x_wr_calname: Some(calname.to_owned()),
            x_wr_timezone: Some(timezone.to_owned()),
            events: Vec::new(),
        };
        proof {
            assert(c@.events =~= Seq::<EventView>::empty());
        }
        c
    }

    /// Appends an event at the end of the sequence; nothing else moves.
    pub fn add_event(&mut self, event: Event)
        ensures
            final(self)@ == (CalendarView { events: old(self)@.events.push(event@), ..old(self)@ }),
    {
        self.events.push(event);
        proof {
            assert(self@.events =~= old(self)@.events.push(event@));
            assert(self@ == CalendarView { events: old(self)@.events.push(event@), ..old(self)@ });
        }
    }
}

} // verus!
