//! The fixed-format date-time converter.
//!
//! Calendar text carries timestamps in the literal pattern `YYYYMMDDTHHMMSS`,
//! optionally followed by `Z`; a date-only variant `YYYYMMDD` stands for
//! midnight UTC of that day.  Every value is interpreted as UTC.  An instant
//! is held as its Gregorian date and time-of-day components, each a plain
//! integer; `epoch_seconds` places it on a common timeline so that instants
//! can be compared.

use vstd::prelude::*;
use vstd::arithmetic::div_mod::{lemma_div_is_ordered, lemma_div_multiples_vanish};

verus! {

/// One UTC instant of the dialect: a Gregorian calendar date with a
/// time of day.  The dialect covers years 0000 through 9999 and does not
/// carry leap seconds, so `second` stays below 60.
#[derive(Clone, Copy, PartialEq, Eq, Structural, Debug)]
pub struct UtcInstant {
    pub year: u16,
    pub month: u8,
    pub day: u8,
    pub hour: u8,
    pub minute: u8,
    pub second: u8,
}

pub open spec fn is_leap_year(y: int) -> bool {
    y % 4 == 0 && (y % 100 != 0 || y % 400 == 0)
}

pub open spec fn days_in_month(y: int, m: int) -> int {
    if m == 2 {
        if is_leap_year(y) {
            29
        } else {
            28
        }
    } else if m == 4 || m == 6 || m == 9 || m == 11 {
        30
    } else {
        31
    }
}

/// Days from 0000-01-01 to the first day of year `y` (proleptic Gregorian):
/// 365 per year plus one for every leap year before `y`.
pub open spec fn days_before_year(y: int) -> int {
    365 * y + (y + 3) / 4 - (y + 99) / 100 + (y + 399) / 400
}

/// Days from the first of January to the first of month `m` in year `y`.
pub open spec fn days_before_month(y: int, m: int) -> int {
    let base: int = if m == 1 {
        0
    } else if m == 2 {
        31
    } else if m == 3 {
        59
    } else if m == 4 {
        90
    } else if m == 5 {
        120
    } else if m == 6 {
        151
    } else if m == 7 {
        181
    } else if m == 8 {
        212
    } else if m == 9 {
        243
    } else if m == 10 {
        273
    } else if m == 11 {
        304
    } else {
        334
    };
    if m > 2 && is_leap_year(y) {
        base + 1
    } else {
        base
    }
}

impl UtcInstant {
    /// The component ranges the dialect admits; every instant the parser
    /// produces satisfies this.
    pub open spec fn valid(self) -> bool {
        &&& self.year <= 9999
        &&& 1 <= self.month <= 12
        &&& 1 <= self.day <= days_in_month(self.year as int, self.month as int)
        &&& self.hour <= 23
        &&& self.minute <= 59
        &&& self.second <= 59
    }

    /// Seconds since 0000-01-01T00:00:00Z; the common timeline on which
    /// instants compare.
    pub open spec fn epoch_seconds(self) -> int {
        (days_before_year(self.year as int) + days_before_month(
            self.year as int,
            self.month as int,
        ) + (self.day as int - 1)) * 86400 + self.hour as int * 3600 + self.minute as int * 60
            + self.second as int
    }

    /// Decides `valid`.
    pub fn is_valid(&self) -> (r: bool)
        ensures
            r == self.valid(),
    {
        self.year <= 9999 && 1 <= self.month && self.month <= 12 && 1 <= self.day && self.day
            <= days_in_month_exec(self.year, self.month) && self.hour <= 23 && self.minute <= 59
            && self.second <= 59
    }

    /// Computes `epoch_seconds`.
    pub fn timeline_seconds(&self) -> (r: u64)
        requires
            self.valid(),
        ensures
            r as int == self.epoch_seconds(),
    {
        let y = self.year as u64;
        proof {
            if y >= 1 {
                lemma_div_is_ordered(y as int + 99, 100 * (y as int), 100);
                lemma_div_multiples_vanish(y as int, 100);
            }
            assert((y as int + 99) / 100 <= 365 * (y as int) + (y as int + 3) / 4 + (y as int
                + 399) / 400);
        }
        let days_by: u64 = 365 * y + (y + 3) / 4 + (y + 399) / 400 - (y + 99) / 100;
        let days_bm: u64 = self.days_before_month_of();
        let days: u64 = days_by + days_bm + (self.day as u64 - 1);
        days * 86400 + (self.hour as u64) * 3600 + (self.minute as u64) * 60 + (
        self.second as u64)
    }

    /// Computes `days_before_month` for this instant's year and month.
    fn days_before_month_of(&self) -> (r: u64)
        requires
            1 <= self.month <= 12,
        ensures
            r as int == days_before_month(self.year as int, self.month as int),
    {
        let base: u64 = match self.month {
            1 => 0,
            2 => 31,
            3 => 59,
            4 => 90,
            5 => 120,
            6 => 151,
            7 => 181,
            8 => 212,
            9 => 243,
            10 => 273,
            11 => 304,
            _ => 334,
        };
        if self.month > 2 && is_leap_year_exec(self.year) {
            base + 1
        } else {
            base
        }
    }
}

fn is_leap_year_exec(y: u16) -> (r: bool)
    ensures
        r == is_leap_year(y as int),
{
    y % 4 == 0 && (y % 100 != 0 || y % 400 == 0)
}

fn days_in_month_exec(y: u16, m: u8) -> (r: u8)
    ensures
        r as int == days_in_month(y as int, m as int),
{
    if m == 2 {
        if is_leap_year_exec(y) {
            29
        } else {
            28
        }
    } else if m == 4 || m == 6 || m == 9 || m == 11 {
        30
    } else {
        31
    }
}

pub open spec fn is_digit_char(c: char) -> bool {
    '0' as int <= c as int && c as int <= '9' as int
}

pub open spec fn digit_val(c: char) -> int {
    c as int - '0' as int
}

pub open spec fn digit_char(d: int) -> char {
    if d == 0 {
        '0'
    } else if d == 1 {
        '1'
    } else if d == 2 {
        '2'
    } else if d == 3 {
        '3'
    } else if d == 4 {
        '4'
    } else if d == 5 {
        '5'
    } else if d == 6 {
        '6'
    } else if d == 7 {
        '7'
    } else if d == 8 {
        '8'
    } else {
        '9'
    }
}

pub proof fn lemma_digit_char_val(d: int)
    requires
        0 <= d <= 9,
    ensures
        is_digit_char(digit_char(d)),
        digit_val(digit_char(d)) == d,
{
}

pub(crate) fn is_digit(c: char) -> (r: bool)
    ensures
        r == is_digit_char(c),
{
    let v = c as u32;
    48 <= v && v <= 57
}

pub(crate) fn digit_of(c: char) -> (d: u8)
    requires
        is_digit_char(c),
    ensures
        d as int == digit_val(c),
{
    ((c as u32) - 48) as u8
}

/// The value of the two decimal digits of `s` at positions `i` and `i + 1`.
pub open spec fn two_digit_val(s: Seq<char>, i: int) -> int {
    10 * digit_val(s[i]) + digit_val(s[i + 1])
}

/// Reads the two-digit group at `i`.
fn read_two_digits(s: &str, i: usize) -> (v: u8)
    requires
        i <= 14,
        i + 1 < s@.len(),
        is_digit_char(s@[i as int]),
        is_digit_char(s@[i + 1]),
    ensures
        v as int == two_digit_val(s@, i as int),
        v <= 99,
{
    10 * digit_of(s.get_char(i)) + digit_of(s.get_char(i + 1))
}

/// Whether `s` has the shape `YYYYMMDDTHHMMSS` with an optional trailing `Z`:
/// digits in the date and time groups, `T` between them.
pub open spec fn dt_shape_ok(s: Seq<char>) -> bool {
    &&& (s.len() == 15 || s.len() == 16)
    &&& (forall|i: int| 0 <= i < 8 ==> is_digit_char(#[trigger] s[i]))
    &&& s[8] == 'T'
    &&& (forall|i: int| 9 <= i < 15 ==> is_digit_char(#[trigger] s[i]))
    &&& (s.len() == 16 ==> s[15] == 'Z')
}

/// The instant spelled by a string of shape `dt_shape_ok`.
pub open spec fn dt_fields(s: Seq<char>) -> UtcInstant {
    UtcInstant {
        year: (100 * two_digit_val(s, 0) + two_digit_val(s, 2)) as u16,
        month: two_digit_val(s, 4) as u8,
        day: two_digit_val(s, 6) as u8,
        hour: two_digit_val(s, 9) as u8,
        minute: two_digit_val(s, 11) as u8,
        second: two_digit_val(s, 13) as u8,
    }
}

/// What parsing a date-time value yields: the spelled instant where the text
/// has the right shape and the components are in range, nothing otherwise.
pub open spec fn spec_parse_datetime(s: Seq<char>) -> Option<UtcInstant> {
    if dt_shape_ok(s) && dt_fields(s).valid() {
        Some(dt_fields(s))
    } else {
        None
    }
}

/// Whether `s` has the date-only shape `YYYYMMDD`.
pub open spec fn date_shape_ok(s: Seq<char>) -> bool {
    s.len() == 8 && (forall|i: int| 0 <= i < 8 ==> is_digit_char(#[trigger] s[i]))
}

/// The midnight-UTC instant spelled by a date-only string.
pub open spec fn date_fields(s: Seq<char>) -> UtcInstant {
    UtcInstant {
        year: (100 * two_digit_val(s, 0) + two_digit_val(s, 2)) as u16,
        month: two_digit_val(s, 4) as u8,
        day: two_digit_val(s, 6) as u8,
        hour: 0,
        minute: 0,
        second: 0,
    }
}

/// What parsing a date-only value yields.
pub open spec fn spec_parse_date(s: Seq<char>) -> Option<UtcInstant> {
    if date_shape_ok(s) && date_fields(s).valid() {
        Some(date_fields(s))
    } else {
        None
    }
}

/// Parses `YYYYMMDDTHHMMSS`, optionally followed by `Z`, as a UTC instant.
/// Returns nothing when the text has another shape or a component is out of
/// range; the caller decides whether that failure is recoverable.
pub fn parse_datetime(s: &str) -> (r: Option<UtcInstant>)
    ensures
        r == spec_parse_datetime(s@),
{
    let n = s.unicode_len();
    if n != 15 && n != 16 {
        return None;
    }
    let mut i: usize = 0;
    while i < 8
        invariant
            15 <= s@.len(),
            i <= 8,
            forall|j: int| 0 <= j < i ==> is_digit_char(#[trigger] s@[j]),
        decreases 8 - i,
    {
        if !is_digit(s.get_char(i)) {
            return None;
        }
        i += 1;
    }
    if s.get_char(8) != 'T' {
        return None;
    }
    let mut i: usize = 9;
    while i < 15
        invariant
            15 <= s@.len(),
            9 <= i <= 15,
            forall|j: int| 9 <= j < i ==> is_digit_char(#[trigger] s@[j]),
        decreases 15 - i,
    {
        if !is_digit(s.get_char(i)) {
            return None;
        }
        i += 1;
    }
    if n == 16 && s.get_char(15) != 'Z' {
        return None;
    }
    let year: u16 = 100 * (read_two_digits(s, 0) as u16) + (read_two_digits(s, 2) as u16);
    let inst = UtcInstant {
        year,
        month: read_two_digits(s, 4),
        day: read_two_digits(s, 6),
        hour: read_two_digits(s, 9),
        minute: read_two_digits(s, 11),
        second: read_two_digits(s, 13),
    };
    if 1 <= inst.month && inst.month <= 12 && 1 <= inst.day && inst.day <= days_in_month_exec(
        inst.year,
        inst.month,
    ) && inst.hour <= 23 && inst.minute <= 59 && inst.second <= 59 {
        Some(inst)
    } else {
        None
    }
}

/// Parses a date-only value `YYYYMMDD` as the midnight-UTC instant of that
/// day; the all-day-event form of a start or end marker.
pub fn parse_date(s: &str) -> (r: Option<UtcInstant>)
    ensures
        r == spec_parse_date(s@),
{
    let n = s.unicode_len();
    if n != 8 {
        return None;
    }
    let mut i: usize = 0;
    while i < 8
        invariant
            8 <= s@.len(),
            i <= 8,
            forall|j: int| 0 <= j < i ==> is_digit_char(#[trigger] s@[j]),
        decreases 8 - i,
    {
        if !is_digit(s.get_char(i)) {
            return None;
        }
        i += 1;
    }
    let year: u16 = 100 * (read_two_digits(s, 0) as u16) + (read_two_digits(s, 2) as u16);
    let inst = UtcInstant {
        year,
        month: read_two_digits(s, 4),
        day: read_two_digits(s, 6),
        hour: 0,
        minute: 0,
        second: 0,
    };
    if 1 <= inst.month && inst.month <= 12 && 1 <= inst.day && inst.day <= days_in_month_exec(
        inst.year,
        inst.month,
    ) {
        Some(inst)
    } else {
        None
    }
}

/// The two decimal digits of `v`, high digit first.
pub open spec fn two_digit_chars(v: int) -> Seq<char> {
    seq![digit_char(v / 10), digit_char(v % 10)]
}

/// How an instant is spelled on output: `YYYYMMDDTHHMMSSZ`, sixteen
/// characters, the `Z` always present.
#[verifier::opaque]
pub open spec fn spec_format_datetime(i: UtcInstant) -> Seq<char> {
    two_digit_chars(i.year as int / 100) + two_digit_chars(i.year as int % 100) + two_digit_chars(
        i.month as int,
    ) + two_digit_chars(i.day as int) + seq!['T'] + two_digit_chars(i.hour as int)
        + two_digit_chars(i.minute as int) + two_digit_chars(i.second as int) + seq!['Z']
}

pub(crate) fn digit_str(d: u8) -> (r: &'static str)
    requires
        d <= 9,
    ensures
        r@ =~= seq![digit_char(d as int)],
{
    proof {
        reveal_strlit("0");
        reveal_strlit("1");
        reveal_strlit("2");
        reveal_strlit("3");
        reveal_strlit("4");
        reveal_strlit("5");
        reveal_strlit("6");
        reveal_strlit("7");
        reveal_strlit("8");
        reveal_strlit("9");
    }
    match d {
        0 => "0",
        1 => "1",
        2 => "2",
        3 => "3",
        4 => "4",
        5 => "5",
        6 => "6",
        7 => "7",
        8 => "8",
        _ => "9",
    }
}

fn push_two_digits(out: &mut String, v: u8)
    requires
        v <= 99,
    ensures
        final(out)@ == old(out)@ + two_digit_chars(v as int),
{
    out.append(digit_str(v / 10));
    out.append(digit_str(v % 10));
    assert(out@ =~= old(out)@ + two_digit_chars(v as int));
}

/// Renders an instant in the output spelling `YYYYMMDDTHHMMSSZ`.
pub fn format_datetime(i: &UtcInstant) -> (r: String)
    requires
        i.valid(),
    ensures
        r@ == spec_format_datetime(*i),
{
    proof {
        reveal(spec_format_datetime);
        reveal_strlit("T");
        reveal_strlit("Z");
    }
    let mut out = String::new();
    push_two_digits(&mut out, (i.year / 100) as u8);
    push_two_digits(&mut out, (i.year % 100) as u8);
    push_two_digits(&mut out, i.month);
    push_two_digits(&mut out, i.day);
    out.append("T");
    push_two_digits(&mut out, i.hour);
    push_two_digits(&mut out, i.minute);
    push_two_digits(&mut out, i.second);
    out.append("Z");
    assert(out@ =~= spec_format_datetime(*i));
    out
}

/// Where a valid instant lies on the timeline: nonnegative, and small enough
/// that sums of a few timeline values stay well inside 64 bits.
pub proof fn lemma_epoch_seconds_range(i: UtcInstant)
    requires
        i.valid(),
    ensures
        0 <= i.epoch_seconds() < 0x5000000000,
{
    let y = i.year as int;
    if y >= 1 {
        lemma_div_is_ordered(y + 99, 100 * y, 100);
        lemma_div_multiples_vanish(y, 100);
    }
    lemma_div_is_ordered(y + 3, 10002, 4);
    lemma_div_is_ordered(y + 399, 10398, 400);
    assert(days_before_year(y) <= 365 * 9999 + 2500 + 25);
    assert(days_before_year(y) >= 0);
    assert(0 <= days_before_month(y, i.month as int) <= 335);
}

/// Every character of a rendered instant is a digit, `T` or `Z`.
pub proof fn lemma_format_datetime_chars(i: UtcInstant)
    requires
        i.valid(),
    ensures
        spec_format_datetime(i).len() == 16,
        forall|j: int|
            0 <= j < 16 ==> (is_digit_char(#[trigger] spec_format_datetime(i)[j])
                || spec_format_datetime(i)[j] == 'T' || spec_format_datetime(i)[j] == 'Z'),
{
    reveal(spec_format_datetime);
    let s = spec_format_datetime(i);
    let y = i.year as int;
    assert forall|d: int| 0 <= d <= 9 implies is_digit_char(#[trigger] digit_char(d))
        && digit_val(digit_char(d)) == d by {
        lemma_digit_char_val(d);
    }
    assert(s =~= seq![
        digit_char(y / 100 / 10),
        digit_char(y / 100 % 10),
        digit_char(y % 100 / 10),
        digit_char(y % 100 % 10),
        digit_char(i.month as int / 10),
        digit_char(i.month as int % 10),
        digit_char(i.day as int / 10),
        digit_char(i.day as int % 10),
        'T',
        digit_char(i.hour as int / 10),
        digit_char(i.hour as int % 10),
        digit_char(i.minute as int / 10),
        digit_char(i.minute as int % 10),
        digit_char(i.second as int / 10),
        digit_char(i.second as int % 10),
        'Z',
    ]);
}

/// A valid instant, rendered and parsed back, is itself: the date-time
/// converter inverts its own spelling.
pub proof fn lemma_format_parse_datetime(i: UtcInstant)
    requires
        i.valid(),
    ensures
        spec_parse_datetime(spec_format_datetime(i)) == Some(i),
{
    reveal(spec_format_datetime);
    let s = spec_format_datetime(i);
    let y = i.year as int;
    assert forall|d: int| 0 <= d <= 9 implies is_digit_char(#[trigger] digit_char(d))
        && digit_val(digit_char(d)) == d by {
        lemma_digit_char_val(d);
    }
    assert(s =~= seq![
        digit_char(y / 100 / 10),
        digit_char(y / 100 % 10),
        digit_char(y % 100 / 10),
        digit_char(y % 100 % 10),
        digit_char(i.month as int / 10),
        digit_char(i.month as int % 10),
        digit_char(i.day as int / 10),
        digit_char(i.day as int % 10),
        'T',
        digit_char(i.hour as int / 10),
        digit_char(i.hour as int % 10),
        digit_char(i.minute as int / 10),
        digit_char(i.minute as int % 10),
        digit_char(i.second as int / 10),
        digit_char(i.second as int % 10),
        'Z',
    ]);
    assert(dt_shape_ok(s));
    assert(two_digit_val(s, 0) == y / 100);
    assert(two_digit_val(s, 2) == y % 100);
    assert(dt_fields(s).year == i.year);
    assert(dt_fields(s) == i);
}

} // verus!
