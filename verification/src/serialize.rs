//! The serializer: deterministic re-emission of a calendar as text.
//!
//! Emission order is fixed: `BEGIN:VCALENDAR`, `PRODID`, optional `CALSCALE`,
//! `VERSION`, optional `METHOD`, `X-WR-CALNAME` and `X-WR-TIMEZONE`, then per
//! event a `BEGIN:VEVENT` block with `DTSTART`, `DTEND`, `DTSTAMP`, `UID`,
//! `CREATED`, `DESCRIPTION`, `LAST-MODIFIED`, `LOCATION`, `SEQUENCE`,
//! `STATUS`, `SUMMARY`, `TRANSP`, and finally `END:VCALENDAR`.  Every line
//! but the last is CRLF-terminated.  Before anything is emitted, every event
//! must carry every field of that list; the first gap is reported as a
//! structured error naming the event and the field, and nothing panics.

use vstd::prelude::*;
use crate::datetime::{format_datetime, spec_format_datetime};
use crate::decimal::{dec_digits, format_u32};
use crate::model::{Calendar, CalendarView, Event, EventView, FieldName, IcsError};

verus! {

/// The first field of the fixed emission list that `e` lacks.
pub open spec fn event_missing_field(e: EventView) -> Option<FieldName> {
    if e.dtstart is None {
        Some(FieldName::Dtstart)
    } else if e.dtend is None {
        Some(FieldName::Dtend)
    } else if e.dtstamp is None {
        Some(FieldName::Dtstamp)
    } else if e.uid is None {
        Some(FieldName::Uid)
    } else if e.created is None {
        Some(FieldName::Created)
    } else if e.description is None {
        Some(FieldName::Description)
    } else if e.last_modified is None {
        Some(FieldName::LastModified)
    } else if e.location is None {
        Some(FieldName::Location)
    } else if e.sequence is None {
        Some(FieldName::Sequence)
    } else if e.status is None {
        Some(FieldName::Status)
    } else if e.summary is None {
        Some(FieldName::Summary)
    } else if e.transp is None {
        Some(FieldName::Transp)
    } else {
        None
    }
}

/// Every field of the fixed emission list is present.
pub open spec fn event_complete(e: EventView) -> bool {
    event_missing_field(e) is None
}

/// The first event, scanning from `i`, that lacks an emitted field, with the
/// field; the serializer's precondition is that there is none.
pub open spec fn first_missing(evs: Seq<EventView>, i: int) -> Option<(int, FieldName)>
    decreases evs.len() - i,
{
    if i < 0 || i >= evs.len() {
        None
    } else {
        match event_missing_field(evs[i]) {
            Some(f) => Some((i, f)),
            None => first_missing(evs, i + 1),
        }
    }
}

pub open spec fn crlf() -> Seq<char> {
    seq!['\r', '\n']
}

/// The header the serializer emits, as flat text.
#[verifier::opaque]
pub open spec fn header_text(c: CalendarView) -> Seq<char> {
    "BEGIN:VCALENDAR\r\n"@ + "PRODID:"@ + c.prodid + crlf() + (match c.calscale {
        Some(v) => "CALSCALE:"@ + v + crlf(),
        None => Seq::<char>::empty(),
    }) + "VERSION:"@ + c.version + crlf() + (match c.method {
        Some(v) => "METHOD:"@ + v + crlf(),
        None => Seq::<char>::empty(),
    }) + (match c.x_wr_calname {
        Some(v) => "X-WR-CALNAME:"@ + v + crlf(),
        None => Seq::<char>::empty(),
    }) + (match c.x_wr_timezone {
        Some(v) => "X-WR-TIMEZONE:"@ + v + crlf(),
        None => Seq::<char>::empty(),
    })
}

/// One emitted event block, as flat text; meaningful for complete events.
#[verifier::opaque]
pub open spec fn render_event(e: EventView) -> Seq<char> {
    "BEGIN:VEVENT\r\n"@ + "DTSTART:"@ + spec_format_datetime(e.dtstart.unwrap()) + crlf()
        + "DTEND:"@ + spec_format_datetime(e.dtend.unwrap()) + crlf() + "DTSTAMP:"@
        + spec_format_datetime(e.dtstamp.unwrap()) + crlf() + "UID:"@ + e.uid.unwrap() + crlf()
        + "CREATED:"@ + spec_format_datetime(e.created.unwrap()) + crlf() + "DESCRIPTION:"@
        + e.description.unwrap() + crlf() + "LAST-MODIFIED:"@ + spec_format_datetime(
        e.last_modified.unwrap(),
    ) + crlf() + "LOCATION:"@ + e.location.unwrap() + crlf() + "SEQUENCE:"@ + dec_digits(
        e.sequence.unwrap() as nat,
    ) + crlf() + "STATUS:"@ + e.status.unwrap() + crlf() + "SUMMARY:"@ + e.summary.unwrap()
        + crlf() + "TRANSP:"@ + e.transp.unwrap() + crlf() + "END:VEVENT\r\n"@
}

/// The emitted event blocks, in sequence order.
pub open spec fn render_events(evs: Seq<EventView>) -> Seq<char>
    decreases evs.len(),
{
    if evs.len() == 0 {
        Seq::empty()
    } else {
        render_event(evs[0]) + render_events(evs.drop_first())
    }
}

/// The whole emitted text.
pub open spec fn render_calendar(c: CalendarView) -> Seq<char> {
    header_text(c) + render_events(c.events) + "END:VCALENDAR\r\n"@
}

pub(crate) proof fn lemma_add_assoc<A>(a: Seq<A>, b: Seq<A>, c: Seq<A>)
    ensures
        (a + b) + c == a + (b + c),
{
    assert((a + b) + c =~= a + (b + c));
}

pub(crate) proof fn lemma_add_empty<A>(a: Seq<A>)
    ensures
        a + Seq::<A>::empty() == a,
        Seq::<A>::empty() + a == a,
{
    assert(a + Seq::<A>::empty() =~= a);
    assert(Seq::<A>::empty() + a =~= a);
}

/// One more event block extends the emitted prefix at its end.
pub proof fn lemma_render_events_snoc(evs: Seq<EventView>, j: int)
    requires
        0 <= j < evs.len(),
    ensures
        render_events(evs.take(j + 1)) == render_events(evs.take(j)) + render_event(evs[j]),
    decreases j,
{
    if j == 0 {
        assert(evs.take(1)[0] == evs[0]);
        assert(evs.take(1).drop_first() =~= Seq::<EventView>::empty());
        assert(evs.take(0) =~= Seq::<EventView>::empty());
        assert(render_events(Seq::<EventView>::empty()) == Seq::<char>::empty());
        assert(render_events(evs.take(1)) == render_event(evs[0]) + Seq::<char>::empty());
        lemma_add_empty(render_event(evs[0]));
    } else {
        let d = evs.drop_first();
        lemma_render_events_snoc(d, j - 1);
        assert(evs.take(j + 1).drop_first() =~= d.take(j));
        assert(evs.take(j).drop_first() =~= d.take(j - 1));
        assert(evs.take(j + 1)[0] == evs[0]);
        assert(evs.take(j)[0] == evs[0]);
        assert(d[j - 1] == evs[j]);
        assert(render_events(evs.take(j + 1)) == render_event(evs[0]) + render_events(d.take(j)));
        assert(render_events(evs.take(j)) == render_event(evs[0]) + render_events(d.take(j - 1)));
        lemma_add_assoc(render_event(evs[0]), render_events(d.take(j - 1)), render_event(evs[j]));
    }
}

/// The first field of the fixed emission list that `e` lacks.
fn event_missing_exec(e: &Event) -> (r: Option<FieldName>)
    ensures
        r == event_missing_field(e@),
{
    if e.dtstart.is_none() {
        Some(FieldName::Dtstart)
    } else if e.dtend.is_none() {
        Some(FieldName::Dtend)
    } else if e.dtstamp.is_none() {
        Some(FieldName::Dtstamp)
    } else if e.uid.is_none() {
        Some(FieldName::Uid)
    } else if e.created.is_none() {
        Some(FieldName::Created)
    } else if e.description.is_none() {
        Some(FieldName::Description)
    } else if e.last_modified.is_none() {
        Some(FieldName::LastModified)
    } else if e.location.is_none() {
        Some(FieldName::Location)
    } else if e.sequence.is_none() {
        Some(FieldName::Sequence)
    } else if e.status.is_none() {
        Some(FieldName::Status)
    } else if e.summary.is_none() {
        Some(FieldName::Summary)
    } else if e.transp.is_none() {
        Some(FieldName::Transp)
    } else {
        None
    }
}

/// Renders one event block; the event must be complete and well-formed.
#[verifier::rlimit(60)]
fn render_event_exec(e: &Event) -> (s: String)
    requires
        event_complete(e@),
        e@.wf(),
    ensures
        s@ == render_event(e@),
{
    proof {
        reveal_strlit("\r\n");
    }
    let mut out = String::new();
    out.append("BEGIN:VEVENT\r\n");
    out.append("DTSTART:");
    let t = format_datetime(&e.dtstart.unwrap());
    out.append(t.as_str());
    out.append("\r\n");
    out.append("DTEND:");
    let t = format_datetime(&e.dtend.unwrap());
    out.append(t.as_str());
    out.append("\r\n");
    out.append("DTSTAMP:");
    let t = format_datetime(&e.dtstamp.unwrap());
    out.append(t.as_str());
    out.append("\r\n");
    out.append("UID:");
    out.append(e.uid.as_ref().unwrap().as_str());
    out.append("\r\n");
    out.append("CREATED:");
    let t = format_datetime(&e.created.unwrap());
    out.append(t.as_str());
    out.append("\r\n");
    out.append("DESCRIPTION:");
    out.append(e.description.as_ref().unwrap().as_str());
    out.append("\r\n");
    out.append("LAST-MODIFIED:");
    let t = format_datetime(&e.last_modified.unwrap());
    out.append(t.as_str());
    out.append("\r\n");
    out.append("LOCATION:");
    out.append(e.location.as_ref().unwrap().as_str());
    out.append("\r\n");
    out.append("SEQUENCE:");
    let t = format_u32(e.sequence.unwrap());
    out.append(t.as_str());
    out.append("\r\n");
    out.append("STATUS:");
    out.append(e.status.as_ref().unwrap().as_str());
    out.append("\r\n");
    out.append("SUMMARY:");
    out.append(e.summary.as_ref().unwrap().as_str());
    out.append("\r\n");
    out.append("TRANSP:");
    out.append(e.transp.as_ref().unwrap().as_str());
    out.append("\r\n");
    out.append("END:VEVENT\r\n");
    proof {
        reveal(render_event);
        assert(out@ =~= render_event(e@));
    }
    out
}

impl Calendar {
    /// Renders the calendar in the fixed emission order, CRLF line ends, or
    /// reports the first event missing a field of the emission list.  The
    /// caller takes the text to whatever sink it likes.
    #[verifier::rlimit(60)]
    pub fn export_to(&self) -> (r: Result<String, IcsError>)
        requires
            self.wf(),
        ensures
            match r {
                Ok(s) => first_missing(self@.events, 0) is None && s@ == render_calendar(self@),
                Err(e) => first_missing(self@.events, 0) matches Some(p) && e == (
                IcsError::MissingEventField { event: p.0 as usize, field: p.1 }),
            },
    {
        proof {
            reveal_strlit("\r\n");
        }
        let ghost evs = self@.events;
        let n = self.events.len();
        proof {
            assert(evs.len() == n);
        }
        let mut j: usize = 0;
        while j < n
            invariant
                j <= n,
                n == self.events.len(),
                evs == self@.events,
                evs.len() == n,
                first_missing(evs, 0) == first_missing(evs, j as int),
                forall|k: int| 0 <= k < j ==> event_complete(#[trigger] evs[k]),
            decreases n - j,
        {
            proof {
                assert(evs[j as int] == self.events[j as int]@);
            }
            match event_missing_exec(&self.events[j]) {
                Some(f) => {
                    proof {
                        assert(first_missing(evs, j as int) == Some((j as int, f)));
                    }
                    return Err(IcsError::MissingEventField { event: j, field: f });
                },
                None => {},
            }
            j += 1;
        }
        proof {
            assert(first_missing(evs, n as int) is None);
        }
        let mut out = String::new();
        out.append("BEGIN:VCALENDAR\r\n");
        out.append("PRODID:");
        out.append(self.prodid.as_str());
        out.append("\r\n");
        match &self.calscale {
            Some(v) => {
                out.append("CALSCALE:");
                out.append(v.as_str());
                out.append("\r\n");
            },
            None => {},
        }
        out.append("VERSION:");
        out.append(self.version.as_str());
        out.append("\r\n");
        match &self.method {
            Some(v) => {
                out.append("METHOD:");
                out.append(v.as_str());
                out.append("\r\n");
            },
            None => {},
        }
        match &self.x_wr_calname {
            Some(v) => {
                out.append("X-WR-CALNAME:");
                out.append(v.as_str());
                out.append("\r\n");
            },
            None => {},
        }
        match &self.x_wr_timezone {
            Some(v) => {
                out.append("X-WR-TIMEZONE:");
                out.append(v.as_str());
                out.append("\r\n");
            },
            None => {},
        }
        proof {
            reveal(header_text);
            assert(out@ =~= header_text(self@));
            assert(render_events(evs.take(0)) =~= Seq::<char>::empty());
            assert(out@ + render_events(evs.take(0)) =~= out@);
        }
        let mut j: usize = 0;
        while j < n
            invariant
                j <= n,
                n == self.events.len(),
                evs == self@.events,
                evs.len() == n,
                self.wf(),
                forall|k: int| 0 <= k < evs.len() ==> event_complete(#[trigger] evs[k]),
                out@ == header_text(self@) + render_events(evs.take(j as int)),
            decreases n - j,
        {
            let ghost before = out@;
            let e = &self.events[j];
            proof {
                assert(evs[j as int] == self.events[j as int]@);
                assert(event_complete(e@));
                assert(self@.events[j as int].wf());
            }
            let block = render_event_exec(e);
            out.append(block.as_str());
            proof {
                lemma_render_events_snoc(evs, j as int);
                lemma_add_assoc(header_text(self@), render_events(evs.take(j as int)),
                    render_event(e@));
                assert(out@ == header_text(self@) + render_events(evs.take(j as int + 1)));
            }
            j += 1;
        }
        out.append("END:VCALENDAR\r\n");
        proof {
            assert(evs.take(n as int) =~= evs);
            assert(out@ =~= render_calendar(self@));
        }
        Ok(out)
    }
}

} // verus!
