//! The clock value that the cover surfaces display, and the text it is shown
//! as. The library never reads a clock: every reading is handed to it.

use vstd::prelude::*;

verus! {

/// A reading of the wall clock: a point in time, and the local time zone's
/// distance from UTC at that point.
#[derive(Clone, Copy, Debug, PartialEq, Eq, Structural)]
pub struct ClockValue {
    /// Whole seconds since 1970-01-01 00:00:00 UTC.
    pub secs: i64,
    /// Nanoseconds past that second. Within a leap second the count goes
    /// on past 999,999,999.
    pub nanos: u32,
    /// Seconds by which local time is ahead of UTC.
    pub offset: i32,
}

/// The text that chrono writes for a point in time, a distance from UTC and
/// a `strftime` pattern; `None` where chrono has no date for the three
/// numbers or cannot read the pattern.
pub uninterp spec fn formatted_clock(
    secs: i64,
    nanos: u32,
    offset: i32,
    pattern: Seq<char>,
) -> Option<Seq<char>>;

/// The pattern of the displayed clock: month, day, and the time of day by the
/// twelve-hour clock.
pub open spec fn clock_pattern() -> Seq<char> {
    "%b %e %-I:%M %p"@
}

/// The text to show for what chrono wrote: blank where it wrote nothing.
pub open spec fn text_or_blank(formatted: Option<Seq<char>>) -> Seq<char> {
    match formatted {
        Some(text) => text,
        None => Seq::empty(),
    }
}

/// Formats a clock value with chrono: `FixedOffset::east_opt` makes the time
/// zone, `TimeZone::timestamp_opt` the date, `DateTime::format` reads the
/// pattern and `DelayedFormat::write_to` writes the text. Each of them
/// returns its failure, and any failure gives `None`. What the text is, is
/// not proved: it is named [`formatted_clock`], which rests on chrono giving
/// the same text for the same four values wherever it runs. It is trusted
/// for the pattern of the displayed clock and for no other.
#[verifier::external_body]
fn format_clock(now: ClockValue, pattern: &str) -> (text: Option<String>)
    requires
        pattern@ == clock_pattern(),
    ensures
        text is Some <==> formatted_clock(now.secs, now.nanos, now.offset, pattern@) is Some,
        text matches Some(written) ==> formatted_clock(now.secs, now.nanos, now.offset, pattern@)
            == Some(written@),
{
    let zone = chrono::FixedOffset::east_opt(now.offset)?;
    let date = chrono::TimeZone::timestamp_opt(&zone, now.secs, now.nanos).single()?;
    let mut text = String::new();
    date.format(pattern).write_to(&mut text).ok()?;
    Some(text)
}

/// The text to show, given what the formatting came to: the text itself, or
/// a blank where there is none.
pub fn shown_text(formatted: Option<String>) -> (text: String)
    ensures
        text@ == match formatted {
            Some(written) => written@,
            None => Seq::<char>::empty(),
        },
{
    match formatted {
        Some(written) => written,
        None => String::new(),
    }
}

/// The clock value as the cover surfaces show it: a blank where the value
/// names no point in time that chrono knows.
pub fn clock_text(now: ClockValue) -> (text: String)
    ensures
        text@ == text_or_blank(
            formatted_clock(now.secs, now.nanos, now.offset, clock_pattern()),
        ),
{
    shown_text(format_clock(now, "%b %e %-I:%M %p"))
}

} // verus!
