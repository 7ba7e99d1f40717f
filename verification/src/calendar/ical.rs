//! An iCalendar object as the engine reads it: components, their entries,
//! and of each entry what a query can ask for and what is written for it.

use crate::text::same_text;
use crate::vecs::Keyed;
use vstd::prelude::*;

verus! {

/// The type of a component.
#[derive(Debug)]
pub enum ComponentKind {
    VCalendar,
    VEvent,
    VTodo,
    VJournal,
    VFreebusy,
    VTimezone,
    VAlarm,
    Standard,
    Daylight,
    VAvailability,
    Available,
    Participant,
    VLocation,
    VResource,
    VStatus,
    /// A type that the standards do not name, as it was written.
    Other(String),
}

impl ComponentKind {
    /// A number for each standard type; 0 for any other.
    pub open spec fn spec_code(&self) -> u8 {
        match self {
            ComponentKind::Other(_) => 0,
            ComponentKind::VCalendar => 1,
            ComponentKind::VEvent => 2,
            ComponentKind::VTodo => 3,
            ComponentKind::VJournal => 4,
            ComponentKind::VFreebusy => 5,
            ComponentKind::VTimezone => 6,
            ComponentKind::VAlarm => 7,
            ComponentKind::Standard => 8,
            ComponentKind::Daylight => 9,
            ComponentKind::VAvailability => 10,
            ComponentKind::Available => 11,
            ComponentKind::Participant => 12,
            ComponentKind::VLocation => 13,
            ComponentKind::VResource => 14,
            ComponentKind::VStatus => 15,
        }
    }

    /// The same type: the same standard type, or the same name where
    /// neither is standard.
    pub open spec fn spec_same(&self, other: &ComponentKind) -> bool {
        match (self, other) {
            (ComponentKind::Other(a), ComponentKind::Other(b)) => a@ == b@,
            _ => self.spec_code() == other.spec_code(),
        }
    }

    /// The name that a component of this type begins and ends with.
    pub open spec fn spec_name(&self) -> Seq<char> {
        match self {
            ComponentKind::VCalendar => "VCALENDAR"@,
            ComponentKind::VEvent => "VEVENT"@,
            ComponentKind::VTodo => "VTODO"@,
            ComponentKind::VJournal => "VJOURNAL"@,
            ComponentKind::VFreebusy => "VFREEBUSY"@,
            ComponentKind::VTimezone => "VTIMEZONE"@,
            ComponentKind::VAlarm => "VALARM"@,
            ComponentKind::Standard => "STANDARD"@,
            ComponentKind::Daylight => "DAYLIGHT"@,
            ComponentKind::VAvailability => "VAVAILABILITY"@,
            ComponentKind::Available => "AVAILABLE"@,
            ComponentKind::Participant => "PARTICIPANT"@,
            ComponentKind::VLocation => "VLOCATION"@,
            ComponentKind::VResource => "VRESOURCE"@,
            ComponentKind::VStatus => "VSTATUS"@,
            ComponentKind::Other(name) => name@,
        }
    }

    /// Components of this type take place at some time.
    pub open spec fn spec_has_time_ranges(&self) -> bool {
        self is VEvent || self is VTodo || self is VJournal || self is VFreebusy
    }

    /// A number for each standard type; 0 for any other.
    pub fn code(&self) -> (r: u8)
        ensures
            r == self.spec_code(),
    {
        match self {
            ComponentKind::Other(_) => 0,
            ComponentKind::VCalendar => 1,
            ComponentKind::VEvent => 2,
            ComponentKind::VTodo => 3,
            ComponentKind::VJournal => 4,
            ComponentKind::VFreebusy => 5,
            ComponentKind::VTimezone => 6,
            ComponentKind::VAlarm => 7,
            ComponentKind::Standard => 8,
            ComponentKind::Daylight => 9,
            ComponentKind::VAvailability => 10,
            ComponentKind::Available => 11,
            ComponentKind::Participant => 12,
            ComponentKind::VLocation => 13,
            ComponentKind::VResource => 14,
            ComponentKind::VStatus => 15,
        }
    }

    /// Whether two types are the same.
    pub fn same(&self, other: &ComponentKind) -> (r: bool)
        ensures
            r == self.spec_same(other),
    {
        match (self, other) {
            (ComponentKind::Other(a), ComponentKind::Other(b)) => same_text(a.as_str(), b.as_str()),
            _ => self.code() == other.code(),
        }
    }

    /// The name that a component of this type begins and ends with.
    pub fn as_str(&self) -> (r: &str)
        ensures
            r@ == self.spec_name(),
    {
        match self {
            ComponentKind::VCalendar => "VCALENDAR",
            ComponentKind::VEvent => "VEVENT",
            ComponentKind::VTodo => "VTODO",
            ComponentKind::VJournal => "VJOURNAL",
            ComponentKind::VFreebusy => "VFREEBUSY",
            ComponentKind::VTimezone => "VTIMEZONE",
            ComponentKind::VAlarm => "VALARM",
            ComponentKind::Standard => "STANDARD",
            ComponentKind::Daylight => "DAYLIGHT",
            ComponentKind::VAvailability => "VAVAILABILITY",
            ComponentKind::Available => "AVAILABLE",
            ComponentKind::Participant => "PARTICIPANT",
            ComponentKind::VLocation => "VLOCATION",
            ComponentKind::VResource => "VRESOURCE",
            ComponentKind::VStatus => "VSTATUS",
            ComponentKind::Other(name) => name.as_str(),
        }
    }

    /// Whether components of this type take place at some time.
    pub fn has_time_ranges(&self) -> (r: bool)
        ensures
            r == self.spec_has_time_ranges(),
    {
        matches!(
            self,
            ComponentKind::VEvent | ComponentKind::VTodo | ComponentKind::VJournal
                | ComponentKind::VFreebusy
        )
    }
}

/// The name of a property: those that the engine treats apart, and any
/// other by its name as written.
#[derive(Debug)]
pub enum PropertyName {
    Dtstart,
    Dtend,
    Due,
    Completed,
    Created,
    Duration,
    Exdate,
    Exrule,
    Rdate,
    Rrule,
    RecurrenceId,
    Freebusy,
    Other(String),
}

impl PropertyName {
    /// A number for each property that the engine treats apart; 0 for any
    /// other.
    pub open spec fn spec_code(&self) -> u8 {
        match self {
            PropertyName::Other(_) => 0,
            PropertyName::Dtstart => 1,
            PropertyName::Dtend => 2,
            PropertyName::Due => 3,
            PropertyName::Completed => 4,
            PropertyName::Created => 5,
            PropertyName::Duration => 6,
            PropertyName::Exdate => 7,
            PropertyName::Exrule => 8,
            PropertyName::Rdate => 9,
            PropertyName::Rrule => 10,
            PropertyName::RecurrenceId => 11,
            PropertyName::Freebusy => 12,
        }
    }

    /// The same property.
    pub open spec fn spec_same(&self, other: &PropertyName) -> bool {
        match (self, other) {
            (PropertyName::Other(a), PropertyName::Other(b)) => a@ == b@,
            _ => self.spec_code() == other.spec_code(),
        }
    }

    /// A property that says when a component takes place or recurs: an
    /// expanded instance gets its own instead.
    pub open spec fn spec_is_recurrence_data(&self) -> bool {
        self is Dtstart || self is Dtend || self is Exdate || self is Exrule || self is Rdate
            || self is Rrule || self is RecurrenceId
    }

    /// A property that an expanded instance keeps only where its component
    /// recurs.
    pub open spec fn spec_is_master_only(&self) -> bool {
        self is Due || self is Completed || self is Created
    }

    /// A number for each property that the engine treats apart; 0 for any
    /// other.
    pub fn code(&self) -> (r: u8)
        ensures
            r == self.spec_code(),
    {
        match self {
            PropertyName::Other(_) => 0,
            PropertyName::Dtstart => 1,
            PropertyName::Dtend => 2,
            PropertyName::Due => 3,
            PropertyName::Completed => 4,
            PropertyName::Created => 5,
            PropertyName::Duration => 6,
            PropertyName::Exdate => 7,
            PropertyName::Exrule => 8,
            PropertyName::Rdate => 9,
            PropertyName::Rrule => 10,
            PropertyName::RecurrenceId => 11,
            PropertyName::Freebusy => 12,
        }
    }

    /// Whether two names are the same property.
    pub fn same(&self, other: &PropertyName) -> (r: bool)
        ensures
            r == self.spec_same(other),
    {
        match (self, other) {
            (PropertyName::Other(a), PropertyName::Other(b)) => same_text(a.as_str(), b.as_str()),
            _ => self.code() == other.code(),
        }
    }

    /// Whether the property says when a component takes place or recurs.
    pub fn is_recurrence_data(&self) -> (r: bool)
        ensures
            r == self.spec_is_recurrence_data(),
    {
        matches!(
            self,
            PropertyName::Dtstart | PropertyName::Dtend | PropertyName::Exdate
                | PropertyName::Exrule | PropertyName::Rdate | PropertyName::Rrule
                | PropertyName::RecurrenceId
        )
    }

    /// Whether an expanded instance keeps the property only where its
    /// component recurs.
    pub fn is_master_only(&self) -> (r: bool)
        ensures
            r == self.spec_is_master_only(),
    {
        matches!(self, PropertyName::Due | PropertyName::Completed | PropertyName::Created)
    }
}

/// The name of a parameter of a property.
#[derive(Debug)]
pub enum ParameterName {
    Tzid,
    Other(String),
}

impl ParameterName {
    /// The same parameter.
    pub open spec fn spec_same(&self, other: &ParameterName) -> bool {
        match (self, other) {
            (ParameterName::Other(a), ParameterName::Other(b)) => a@ == b@,
            (ParameterName::Tzid, ParameterName::Tzid) => true,
            _ => false,
        }
    }

    /// Whether two names are the same parameter.
    pub fn same(&self, other: &ParameterName) -> (r: bool)
        ensures
            r == self.spec_same(other),
    {
        match (self, other) {
            (ParameterName::Other(a), ParameterName::Other(b)) => same_text(a.as_str(), b.as_str()),
            (ParameterName::Tzid, ParameterName::Tzid) => true,
            _ => false,
        }
    }
}

/// A date and time of which any part may be missing, with the offset from
/// UTC where one was written.
#[derive(Debug, Clone, Copy, PartialEq, Eq, Structural)]
pub struct PartialDate {
    pub year: Option<u16>,
    pub month: Option<u8>,
    pub day: Option<u8>,
    pub hour: Option<u8>,
    pub minute: Option<u8>,
    pub second: Option<u8>,
    pub tz_hour: Option<u8>,
    pub tz_minute: Option<u8>,
    pub tz_minus: bool,
}

/// A period of time: from a start to an end, or from a start for a number
/// of seconds.
#[derive(Debug, Clone, Copy, PartialEq, Eq, Structural)]
pub enum Period {
    Range { start: PartialDate, end: PartialDate },
    Duration { start: PartialDate, seconds: i64 },
}

/// One value of an entry.
#[derive(Debug)]
pub struct EntryValue {
    /// The value as text, for the values that are text or a word of the
    /// standard.
    pub text: Option<String>,
    /// The value where it is a date and time.
    pub date_time: Option<PartialDate>,
    /// The value where it is a period.
    pub period: Option<Period>,
    /// The value as it is written in a content line.
    pub written: String,
}

/// One parameter of an entry.
#[derive(Debug)]
pub struct EntryParameter {
    pub name: ParameterName,
    /// The parameter's value as text, where it has one.
    pub text: Option<String>,
}

/// One property of a component.
#[derive(Debug)]
pub struct EventEntry {
    pub name: PropertyName,
    pub params: Vec<EntryParameter>,
    pub values: Vec<EntryValue>,
    /// The content line of the entry, with its line end.
    pub line: String,
    /// The content line of the entry without its values, with its line
    /// end.
    pub bare_line: String,
    /// The content line up to and with the `:` before the values.
    pub head: String,
}

/// One component.
#[derive(Debug)]
pub struct EventComponent {
    pub component_type: ComponentKind,
    pub entries: Vec<EventEntry>,
    /// The positions of the components that this one holds.
    pub component_ids: Vec<u32>,
}

/// An iCalendar object: its components, the outermost first.
#[derive(Debug)]
pub struct ICalendar {
    pub components: Vec<EventComponent>,
}

/// One occurrence of a component: when it starts and ends, in seconds since
/// the epoch.
#[derive(Debug, Clone, Copy, PartialEq, Eq, Structural)]
pub struct ExpandedInstance {
    pub comp_id: u32,
    pub start: i64,
    pub end: i64,
}

impl Keyed for ExpandedInstance {
    /// Instances are ordered by their starts.
    open spec fn key(&self) -> int {
        self.start as int
    }

    fn comes_after(&self, other: &Self) -> (r: bool) {
        self.start > other.start
    }
}

/// Whether one of the first `n` entries has a name that `wanted` accepts.
pub open spec fn any_entry(
    entries: Seq<EventEntry>,
    wanted: spec_fn(PropertyName) -> bool,
    n: int,
) -> bool
    decreases n,
{
    if n <= 0 {
        false
    } else {
        wanted(entries[n - 1].name) || any_entry(entries, wanted, n - 1)
    }
}

impl EventComponent {
    /// The component recurs: it has a recurrence rule or recurrence dates.
    pub open spec fn spec_is_recurrent(&self) -> bool {
        any_entry(
            self.entries@,
            |name: PropertyName| name is Rrule || name is Rdate,
            self.entries@.len() as int,
        )
    }

    /// The component replaces one occurrence of another: it has a
    /// recurrence id.
    pub open spec fn spec_is_recurrence_override(&self) -> bool {
        any_entry(
            self.entries@,
            |name: PropertyName| name is RecurrenceId,
            self.entries@.len() as int,
        )
    }

    /// Whether the component recurs.
    pub fn is_recurrent(&self) -> (r: bool)
        ensures
            r == self.spec_is_recurrent(),
    {
        let ghost wanted = |name: PropertyName| name is Rrule || name is Rdate;
        let mut found = false;
        let mut i: usize = 0;
        while i < self.entries.len()
            invariant
                i <= self.entries.len(),
                wanted == (|name: PropertyName| name is Rrule || name is Rdate),
                found == any_entry(self.entries@, wanted, i as int),
            decreases self.entries.len() - i,
        {
            if matches!(self.entries[i].name, PropertyName::Rrule | PropertyName::Rdate) {
                found = true;
            }
            i += 1;
        }
        found
    }

    /// Whether the component replaces one occurrence of another.
    pub fn is_recurrence_override(&self) -> (r: bool)
        ensures
            r == self.spec_is_recurrence_override(),
    {
        let ghost wanted = |name: PropertyName| name is RecurrenceId;
        let mut found = false;
        let mut i: usize = 0;
        while i < self.entries.len()
            invariant
                i <= self.entries.len(),
                wanted == (|name: PropertyName| name is RecurrenceId),
                found == any_entry(self.entries@, wanted, i as int),
            decreases self.entries.len() - i,
        {
            if matches!(self.entries[i].name, PropertyName::RecurrenceId) {
                found = true;
            }
            i += 1;
        }
        found
    }
}

/// How many of the first `n` components are time zone definitions.
pub open spec fn count_timezones(components: Seq<EventComponent>, n: int) -> nat
    decreases n,
{
    if n <= 0 {
        0
    } else {
        count_timezones(components, n - 1) + if components[n - 1].component_type is VTimezone {
            1nat
        } else {
            0nat
        }
    }
}

impl ICalendar {
    /// The object has a first component, and every component that one
    /// holds is a component of the object.
    pub open spec fn wf(&self) -> bool {
        &&& self.components@.len() > 0
        &&& forall|i: int, k: int|
            0 <= i < self.components@.len() && 0 <= k < self.components@[i].component_ids@.len()
                ==> (#[trigger] self.components@[i].component_ids@[k])
                < self.components@.len()
    }

    /// Whether the object has a first component and holds only components
    /// of its own.
    pub fn is_wf(&self) -> (r: bool)
        ensures
            r == self.wf(),
    {
        let n = self.components.len();
        if n == 0 {
            return false;
        }
        let mut i: usize = 0;
        while i < n
            invariant
                i <= n,
                n == self.components@.len(),
                forall|a: int, k: int|
                    0 <= a < i && 0 <= k < self.components@[a].component_ids@.len() ==> (
                    #[trigger] self.components@[a].component_ids@[k]) < n,
            decreases n - i,
        {
            let ids = &self.components[i].component_ids;
            let mut k: usize = 0;
            while k < ids.len()
                invariant
                    k <= ids.len(),
                    i < n,
                    n == self.components@.len(),
                    ids@ == self.components@[i as int].component_ids@,
                    forall|j: int| 0 <= j < k ==> (#[trigger] ids@[j]) < n,
                decreases ids.len() - k,
            {
                if ids[k] as usize >= n {
                    assert(!(self.components@[i as int].component_ids@[k as int] < n));
                    return false;
                }
                k += 1;
            }
            i += 1;
        }
        true
    }

    /// The object defines exactly one time zone.
    pub open spec fn spec_is_timezone(&self) -> bool {
        count_timezones(self.components@, self.components@.len() as int) == 1
    }

    /// Whether the object defines exactly one time zone.
    pub fn is_timezone(&self) -> (r: bool)
        ensures
            r == self.spec_is_timezone(),
    {
        let mut count: usize = 0;
        let mut i: usize = 0;
        while i < self.components.len()
            invariant
                i <= self.components.len(),
                count == count_timezones(self.components@, i as int),
                count <= i,
            decreases self.components.len() - i,
        {
            if matches!(self.components[i].component_type, ComponentKind::VTimezone) {
                count += 1;
            }
            i += 1;
        }
        count == 1
    }
}

} // verus!
