//! How the time of a message is written, depending on how long ago it was
//! sent.

use vstd::prelude::*;

verus! {

/// A moment, with the day and the year that the local calendar gives it.
#[derive(Debug, Clone, Copy, PartialEq, Eq, Structural)]
pub struct LocalStamp {
    /// Seconds since the epoch.
    pub seconds: i64,
    /// The day of the local calendar, days being numbered in order.
    pub day: i32,
    /// The year of the local calendar.
    pub year: i32,
}

/// How much of a message's date is written out.
#[derive(Debug, Clone, Copy, PartialEq, Eq, Structural)]
pub enum TimestampStyle {
    /// Hours and minutes.
    Time,
    /// The word for the day before, hours and minutes.
    Yesterday,
    /// The day of the week, hours and minutes.
    Weekday,
    /// Day and month, hours and minutes.
    DayMonth,
    /// Year, day and month, hours and minutes.
    Full,
}

/// Seconds in a week.
pub const WEEK_SECONDS: i64 = 604800;

/// How the time of a message sent at `sent` is written at `now`: the more
/// of the date, the longer ago it was. `yesterday` is the local day of the
/// moment a day before `now`.
pub open spec fn style_of(sent: LocalStamp, now: LocalStamp, yesterday: i32) -> TimestampStyle {
    if sent.day == now.day {
        TimestampStyle::Time
    } else if sent.day == yesterday {
        TimestampStyle::Yesterday
    } else if sent.seconds > now.seconds - WEEK_SECONDS {
        TimestampStyle::Weekday
    } else if sent.year == now.year {
        TimestampStyle::DayMonth
    } else {
        TimestampStyle::Full
    }
}

/// How the time of a message sent at `sent` is written at `now`.
pub fn timestamp_style(sent: LocalStamp, now: LocalStamp, yesterday: i32) -> (style: TimestampStyle)
    ensures
        style == style_of(sent, now, yesterday),
{
    if sent.day == now.day {
        TimestampStyle::Time
    } else if sent.day == yesterday {
        TimestampStyle::Yesterday
    } else if sent.seconds as i128 > now.seconds as i128 - WEEK_SECONDS as i128 {
        TimestampStyle::Weekday
    } else if sent.year == now.year {
        TimestampStyle::DayMonth
    } else {
        TimestampStyle::Full
    }
}

impl TimestampStyle {
    /// The pattern that writes a time in this style.
    pub open spec fn pattern_of(self) -> Seq<char> {
        match self {
            TimestampStyle::Time => "%H:%M"@,
            TimestampStyle::Yesterday => "Yesterday %H:%M"@,
            TimestampStyle::Weekday => "%a %H:%M"@,
            TimestampStyle::DayMonth => "%d %b %H:%M"@,
            TimestampStyle::Full => "%Y %d %b %H:%M"@,
        }
    }

    /// The pattern that writes a time in this style.
    pub fn pattern(&self) -> (res: &'static str)
        ensures
            res@ == self.pattern_of(),
    {
        match self {
            TimestampStyle::Time => "%H:%M",
            TimestampStyle::Yesterday => "Yesterday %H:%M",
            TimestampStyle::Weekday => "%a %H:%M",
            TimestampStyle::DayMonth => "%d %b %H:%M",
            TimestampStyle::Full => "%Y %d %b %H:%M",
        }
    }
}

} // verus!
