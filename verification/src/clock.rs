//! Points in time, as jobs record them.
use vstd::prelude::*;

verus! {

/// A point in time: whole seconds since the Unix epoch, in UTC, and the
/// nanoseconds after them.
#[derive(Clone, Copy, Debug, PartialEq, Eq, Structural)]
pub struct Timestamp {
    pub secs: i64,
    pub nanos: u32,
}

/// Calls `chrono::Utc::now` and takes its seconds and nanoseconds. The reading
/// depends on the machine's clock; of every reading only this is said: `chrono`
/// can hold it, and its nanoseconds stay below one second. `chrono` gives up on a
/// clock that is set before 1970, or beyond the times that it can hold.
#[verifier::external_body]
pub(crate) fn utc_now() -> (t: Timestamp)
    ensures
        t.is_reading(),
{
    let now = chrono::Utc::now();
    Timestamp { secs: now.timestamp(), nanos: now.timestamp_subsec_nanos() }
}

/// How points in time are shown: date and time of day, to the second.
pub open spec fn clock_format() -> Seq<char> {
    "%Y-%m-%d %H:%M:%S"@
}

/// Whether a text is a date and a time of day of nineteen characters.
pub open spec fn is_clock_text(s: Seq<char>) -> bool {
    &&& s.len() == 19
    &&& s[4] == '-'
    &&& s[7] == '-'
    &&& s[10] == ' '
    &&& s[13] == ':'
    &&& s[16] == ':'
}

impl Timestamp {
    /// Whether `chrono` can hold the point in time: it lies in the years -262143
    /// to 262142, and its nanoseconds stay below one second, but in the last
    /// second of a minute, where more of them stand for a leap second.
    pub open spec fn displayable(self) -> bool {
        &&& -8_334_601_228_800 <= self.secs <= 8_210_266_876_799
        &&& self.nanos < 1_000_000_000 || (self.nanos < 2_000_000_000 && self.secs % 60 == 59)
    }

    /// Whether the point in time can be read off a clock: `chrono` can hold it, and
    /// it is no leap second.
    pub open spec fn is_reading(self) -> bool {
        self.displayable() && self.nanos < 1_000_000_000
    }

    /// Whether the point in time lies in years, about 1621 to 9987, that have
    /// four digits in every time zone.
    pub open spec fn has_four_digit_year(self) -> bool {
        -11_000_000_000 <= self.secs <= 253_000_000_000
    }

    /// Whether `chrono` can hold the point in time.
    pub fn is_displayable(&self) -> (r: bool)
        ensures
            r == self.displayable(),
    {
        if self.secs < -8_334_601_228_800 || self.secs > 8_210_266_876_799 {
            return false;
        }
        let second: i64 = (self.secs + 9_000_000_000_000) % 60;
        self.nanos < 1_000_000_000 || (self.nanos < 2_000_000_000 && second == 59)
    }
}

/// How far a time zone can be away from UTC, in seconds: less than a day.
pub open spec fn is_offset(offset: i32) -> bool {
    -86_400 < offset && offset < 86_400
}

/// Calls `chrono::DateTime::from_timestamp`, `with_timezone` for
/// `chrono::Local`, and `local_minus_utc` of the outcome's offset. The offset
/// depends on the time zone that the machine is set to; of every outcome this is
/// said: it is less than a day. `chrono` gives up on a zone that is a day or more
/// away from UTC, and on zone data without a rule for the time.
#[verifier::external_body]
fn local_offset(t: Timestamp) -> (r: i32)
    requires
        t.displayable(),
    ensures
        is_offset(r),
{
    let utc = chrono::DateTime::from_timestamp(t.secs, t.nanos).expect("a displayable time");
    utc.with_timezone(&chrono::Local).offset().local_minus_utc()
}

/// What `chrono` writes of a point in time at an offset from UTC.
pub uninterp spec fn zoned_text(
    secs: i64,
    nanos: u32,
    offset: i32,
    format: Seq<char>,
) -> Seq<char>;

/// Calls `chrono::DateTime::from_timestamp`, `with_timezone` for a
/// `chrono::FixedOffset`, and `format`, and prints the outcome, which is
/// `zoned_text` of the arguments. Where the year has four digits, date and time
/// of day stand in their places.
#[verifier::external_body]
fn text_at(t: Timestamp, offset: i32, format: &str) -> (r: String)
    requires
        t.displayable(),
        is_offset(offset),
        format@ == clock_format(),
    ensures
        r@ == zoned_text(t.secs, t.nanos, offset, format@),
        t.has_four_digit_year() ==> is_clock_text(r@),
{
    let utc = chrono::DateTime::from_timestamp(t.secs, t.nanos).expect("a displayable time");
    let zone = chrono::FixedOffset::east_opt(offset).expect("less than a day");
    utc.with_timezone(&zone).format(format).to_string()
}

/// Whether a text shows a point in time as a clock somewhere does.
pub open spec fn shows(t: Timestamp, s: Seq<char>) -> bool {
    &&& exists|offset: i32|
        is_offset(offset) && s == #[trigger] zoned_text(t.secs, t.nanos, offset, clock_format())
    &&& t.has_four_digit_year() ==> is_clock_text(s)
}

/// A point in time at an offset from UTC in seconds, as date and time of day.
pub fn fmt_at(t: Timestamp, offset: i32) -> (r: String)
    requires
        t.displayable(),
        is_offset(offset),
    ensures
        r@ == zoned_text(t.secs, t.nanos, offset, clock_format()),
        shows(t, r@),
{
    text_at(t, offset, "%Y-%m-%d %H:%M:%S")
}

/// A point in time in the machine's time zone, as date and time of day.
pub fn fmt_local(t: Timestamp) -> (r: String)
    requires
        t.displayable(),
    ensures
        shows(t, r@),
{
    fmt_at(t, local_offset(t))
}

/// The times that can be shown have no gap: whatever lies between two of them can be
/// shown too. A second has nanoseconds up to one second, and the last second of a
/// minute up to two, for a leap second.
pub proof fn law_times_that_can_be_shown_have_no_gap(a: Timestamp, b: Timestamp, c: Timestamp)
    requires
        a.displayable(),
        c.displayable(),
        a.secs <= b.secs <= c.secs,
    ensures
        b.nanos < 1_000_000_000 ==> b.displayable(),
        b.nanos >= 2_000_000_000 ==> !b.displayable(),
        1_000_000_000 <= b.nanos < 2_000_000_000 ==> (b.displayable() <==> b.secs % 60 == 59),
{
}

/// The first and the last second that can be shown.
pub proof fn law_the_first_and_the_last_second(t: Timestamp)
    ensures
        t.nanos < 1_000_000_000 ==> (t.displayable() <==> -8_334_601_228_800 <= t.secs
            <= 8_210_266_876_799),
        t.is_reading() <==> t.displayable() && t.nanos < 1_000_000_000,
{
}

/// What is shown of a time is that time, at an offset of less than a day, as a date and
/// a time of day.
pub proof fn law_shown_times_are_those_times(t: Timestamp, s: Seq<char>)
    requires
        shows(t, s),
    ensures
        exists|offset: i32|
            -86_400 < offset < 86_400 && s == #[trigger] zoned_text(
                t.secs,
                t.nanos,
                offset,
                "%Y-%m-%d %H:%M:%S"@,
            ),
{
    let offset = choose|offset: i32|
        is_offset(offset) && s == #[trigger] zoned_text(
            t.secs,
            t.nanos,
            offset,
            clock_format(),
        );
    assert(-86_400 < offset < 86_400 && s == zoned_text(
        t.secs,
        t.nanos,
        offset,
        "%Y-%m-%d %H:%M:%S"@,
    ));
}

} // verus!
