//! Calendars and their events: the records of the calendar profile.

pub mod delete;
pub mod ical;
pub mod proppatch;
pub mod query;
pub mod zone;

use crate::calendar::ical::ICalendar;
use crate::schema::{CalendarObject, DeadEntry, DeadProperty};
use crate::token::AclGrant;
use vstd::prelude::*;

verus! {

/// The time zone of a calendar.
#[derive(Debug)]
pub enum Timezone {
    /// The zone of the server.
    Default,
    /// A zone of the IANA database, by its name.
    IANA(String),
    /// A zone that the client defined.
    Custom(CalendarObject),
}

/// How one account sees a calendar.
#[derive(Debug)]
pub struct CalendarPreferences {
    pub account_id: u32,
    pub name: String,
    pub description: Option<String>,
    pub sort_order: u32,
    pub color: Option<String>,
    pub time_zone: Timezone,
}

/// A calendar: a container of events.
#[derive(Debug)]
pub struct Calendar {
    pub name: String,
    pub preferences: Vec<CalendarPreferences>,
    pub acls: Vec<AclGrant>,
    pub dead_properties: DeadProperty,
    pub created: i64,
    pub modified: i64,
}

/// An event of a calendar.
#[derive(Debug)]
pub struct CalendarEvent {
    pub display_name: Option<String>,
    pub data: ICalendar,
    pub dead_properties: DeadProperty,
    pub created: i64,
    pub modified: i64,
    pub size: u32,
}


/// The position of the first of the preferences at or after `from` that
/// belongs to `account_id`.
pub open spec fn spec_preferences_index(
    preferences: Seq<CalendarPreferences>,
    account_id: u32,
    from: int,
) -> Option<int>
    decreases preferences.len() - from,
{
    if from < 0 || from >= preferences.len() {
        None
    } else if preferences[from].account_id == account_id {
        Some(from)
    } else {
        spec_preferences_index(preferences, account_id, from + 1)
    }
}

impl Calendar {
    /// The position of the preferences that `account_id` sees the calendar
    /// by: its own, else the first.
    pub open spec fn spec_preferences(&self, account_id: u32) -> Option<int> {
        match spec_preferences_index(self.preferences@, account_id, 0) {
            Some(i) => Some(i),
            None => if self.preferences@.len() > 0 {
                Some(0int)
            } else {
                None
            },
        }
    }

    /// The position of the preferences of `account_id`.
    pub fn preferences_index(&self, account_id: u32) -> (r: Option<usize>)
        ensures
            r.is_some() == spec_preferences_index(self.preferences@, account_id, 0).is_some(),
            r.is_some() ==> r.unwrap() as int == spec_preferences_index(
                self.preferences@,
                account_id,
                0,
            ).unwrap(),
            r.is_some() ==> r.unwrap() < self.preferences@.len(),
    {
        let mut i: usize = 0;
        while i < self.preferences.len()
            invariant
                i <= self.preferences.len(),
                spec_preferences_index(self.preferences@, account_id, 0)
                    == spec_preferences_index(self.preferences@, account_id, i as int),
            decreases self.preferences.len() - i,
        {
            if self.preferences[i].account_id == account_id {
                return Some(i);
            }
            i += 1;
        }
        None
    }

    /// The preferences that `account_id` sees the calendar by.
    pub fn preferences(&self, account_id: u32) -> (r: Option<&CalendarPreferences>)
        ensures
            r.is_some() == self.spec_preferences(account_id).is_some(),
            r.is_some() ==> *r.unwrap() == self.preferences@[self.spec_preferences(
                account_id,
            ).unwrap()],
    {
        match self.preferences_index(account_id) {
            Some(i) => Some(&self.preferences[i]),
            None => if self.preferences.len() > 0 {
                Some(&self.preferences[0])
            } else {
                None
            },
        }
    }
}


/// What a calendar holds, its lists as sequences.
pub struct CalendarView {
    pub name: String,
    pub preferences: Seq<CalendarPreferences>,
    pub acls: Seq<AclGrant>,
    pub dead_properties: Seq<DeadEntry>,
    pub created: i64,
    pub modified: i64,
}

impl View for Calendar {
    type V = CalendarView;

    open spec fn view(&self) -> CalendarView {
        CalendarView {
            name: self.name,
            preferences: self.preferences@,
            acls: self.acls@,
            dead_properties: self.dead_properties.entries@,
            created: self.created,
            modified: self.modified,
        }
    }
}

impl Calendar {
    /// A calendar is seen by at least one account, its owner.
    pub open spec fn wf(&self) -> bool {
        self.preferences@.len() > 0
    }
}

/// What an event holds, its dead properties as a sequence.
pub struct CalendarEventView {
    pub display_name: Option<String>,
    pub data: ICalendar,
    pub dead_properties: Seq<DeadEntry>,
    pub created: i64,
    pub modified: i64,
    pub size: u32,
}

impl View for CalendarEvent {
    type V = CalendarEventView;

    open spec fn view(&self) -> CalendarEventView {
        CalendarEventView {
            display_name: self.display_name,
            data: self.data,
            dead_properties: self.dead_properties.entries@,
            created: self.created,
            modified: self.modified,
            size: self.size,
        }
    }
}

} // verus!
