//! Time zones, local times and content lines: what only the calendar
//! library can compute.

use crate::calendar::ical::PartialDate;
use calcard::common::timezone::Tz;
use calcard::common::PartialDateTime;
use calcard::icalendar::{ICalendarEntry, ICalendarProperty, ICalendarValue};
use std::str::FromStr;
use vstd::prelude::*;

verus! {

/// The largest number that stands for a time zone.
pub const MAX_ZONE_ID: u16 = 35648;

/// The number of the floating zone: local time without a place.
pub const FLOATING_ZONE_ID: u16 = 32768;

/// The number of the time zone that `calcard` finds for a name, if it
/// finds one.
pub uninterp spec fn zone_id_of(name: Seq<char>) -> Option<u16>;

/// The moment, in seconds since the epoch, at which the zone with the
/// number `zone` has the local date and time `date`; `None` where the
/// number stands for no zone, where `date` is no date, or where it is a
/// local time that the zone skips or has twice.
pub uninterp spec fn timestamp_in_zone(date: PartialDate, zone: u16) -> Option<i64>;

/// The content line that `calcard` writes for a date-time property whose
/// value is the moment `timestamp` in UTC.
pub uninterp spec fn instant_line(kind: InstantKind, timestamp: i64) -> Seq<char>;

/// The content line that `calcard` writes for the property that it reads
/// from the content line `line`; nothing where it reads none.
pub uninterp spec fn rewritten_line(line: Seq<char>) -> Seq<char>;

/// The date-time properties that are written for an expanded instance.
#[derive(Debug, Clone, Copy, PartialEq, Eq, Structural)]
pub enum InstantKind {
    Start,
    End,
    RecurrenceId,
}

/// A time zone.
#[derive(Debug, Clone, Copy)]
pub struct Zone {
    id: u16,
}

impl View for Zone {
    type V = u16;

    closed spec fn view(&self) -> u16 {
        self.id
    }
}

impl Zone {
    #[verifier::type_invariant]
    closed spec fn valid(self) -> bool {
        self.id <= MAX_ZONE_ID
    }

    /// The zone with the number `id`, where that is the number of a zone.
    pub fn from_id(id: u16) -> (r: Option<Zone>)
        ensures
            r.is_some() == (id <= MAX_ZONE_ID),
            r.is_some() ==> r.unwrap()@ == id,
    {
        if id <= MAX_ZONE_ID {
            Some(Zone { id })
        } else {
            None
        }
    }

    /// Local time without a place.
    pub fn floating() -> (r: Zone)
        ensures
            r@ == FLOATING_ZONE_ID,
    {
        Zone { id: FLOATING_ZONE_ID }
    }

    /// The zone that a name stands for.
    pub fn from_name(name: &str) -> (r: Option<Zone>)
        ensures
            r.is_some() == (zone_id_of(name@).is_some() && zone_id_of(name@).unwrap()
                <= MAX_ZONE_ID),
            r.is_some() ==> r.unwrap()@ == zone_id_of(name@).unwrap(),
    {
        match zone_id_by_name(name) {
            Some(id) => Zone::from_id(id),
            None => None,
        }
    }

    /// The number of the zone.
    pub fn id(&self) -> (r: u16)
        ensures
            r == self@,
            r <= MAX_ZONE_ID,
    {
        proof {
            use_type_invariant(self);
        }
        self.id
    }

    /// The moment at which this zone has the local date and time `date`.
    pub fn timestamp(&self, date: &PartialDate) -> (r: Option<i64>)
        ensures
            r == timestamp_in_zone(*date, self@),
    {
        proof {
            use_type_invariant(self);
        }
        local_timestamp(date, self.id)
    }
}

/// Finds the time zone that a name stands for.
///
/// Trusted: `Tz::from_str` of `calcard`, which knows the names of the IANA
/// database and a list of names that other products use, and `Tz::as_id`,
/// which gives the zone's number. The result depends on the name alone.
#[verifier::external_body]
fn zone_id_by_name(name: &str) -> (r: Option<u16>)
    ensures
        r == zone_id_of(name@),
{
    Tz::from_str(name).ok().map(|tz| tz.as_id())
}

/// Resolves a local date and time in a zone.
///
/// Trusted: `Tz::from_id`, `PartialDateTime::to_date_time_with_tz` and the
/// timestamp of the result, all of `calcard`. A date that carries its own
/// offset is resolved by that offset. The result depends on the date and
/// the zone alone. A number above `MAX_ZONE_ID` is left out.
#[verifier::external_body]
fn local_timestamp(date: &PartialDate, zone: u16) -> (r: Option<i64>)
    requires
        zone <= MAX_ZONE_ID,
    ensures
        r == timestamp_in_zone(*date, zone),
{
    let tz = Tz::from_id(zone)?;
    let date = PartialDateTime {
        year: date.year,
        month: date.month,
        day: date.day,
        hour: date.hour,
        minute: date.minute,
        second: date.second,
        tz_hour: date.tz_hour,
        tz_minute: date.tz_minute,
        tz_minus: date.tz_minus,
    };
    date.to_date_time_with_tz(tz).map(|dt| dt.timestamp())
}

/// Writes the content line of a date-time property for a moment in UTC.
///
/// Trusted: `PartialDateTime::from_utc_timestamp` and
/// `ICalendarEntry::write_to` of `calcard`, on an entry with the name that
/// `kind` stands for, no parameters and that one value.
#[verifier::external_body]
pub(crate) fn write_instant(kind: InstantKind, timestamp: i64) -> (r: String)
    ensures
        r@ == instant_line(kind, timestamp),
{
    let name = match kind {
        InstantKind::Start => ICalendarProperty::Dtstart,
        InstantKind::End => ICalendarProperty::Dtend,
        InstantKind::RecurrenceId => ICalendarProperty::RecurrenceId,
    };
    let value = ICalendarValue::PartialDateTime(Box::new(PartialDateTime::from_utc_timestamp(timestamp)));
    let entry = ICalendarEntry { name, params: vec![], values: vec![value] };
    let mut out = String::new();
    let _ = entry.write_to(&mut out);
    out
}

/// Has the calendar library read a property from its content line and
/// write it again, folded as the library folds lines.
///
/// Trusted: `ICalendar::parse` of `calcard`, on a calendar that holds the
/// line alone, and `ICalendarEntry::write_to` on what it read. The result
/// depends on the line alone.
#[verifier::external_body]
pub(crate) fn rewrite_line(line: &str) -> (r: String)
    ensures
        r@ == rewritten_line(line@),
{
    let mut out = String::new();
    let text = format!("BEGIN:VCALENDAR\r\n{line}END:VCALENDAR\r\n");
    if let Ok(ical) = calcard::icalendar::ICalendar::parse(text) {
        for entry in ical.components.iter().flat_map(|c| c.entries.iter()) {
            let _ = entry.write_to(&mut out);
        }
    }
    out
}

} // verus!
