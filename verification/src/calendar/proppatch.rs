//! PROPPATCH on calendars and events: which properties can be set and
//! removed, and what is answered for each.

use crate::calendar::{Calendar, CalendarEvent, CalendarEventView, CalendarPreferences, CalendarView, Timezone};
use crate::schema::{
    entries_size, entries_without, lemma_size_prefix, lemma_without_size, propstat_views,
    spec_propstat, BaseCondition, CalCondition, CalDavProperty, Condition, DavProperty,
    DavPropertyValue, DavValue, DeadEntry, DeadProperty, PropStat, PropStatView, ResourceType,
    WebDavProperty,
};
use crate::common::uri::OwnedUri;
use crate::common::{etag_of, spec_etag, ArchivedResource};
use crate::hierarchy::{DavResource, DavResources};
use crate::schema::{Namespace, PropertyUpdate, Return};
use crate::status;
use crate::text::{byte_len, text_len};
use crate::token::{holds, spec_holds, AccessToken, Acl};
use crate::vecs::reversed;
use crate::DavError;
use vstd::prelude::*;

verus! {

/// The limits on what a client may store in properties.
#[derive(Debug, Clone, Copy)]
pub struct DavConfig {
    /// The most bytes that a display name or a description may take.
    pub live_property_size: usize,
    /// The most bytes that a calendar object may take.
    pub max_ical_size: usize,
    /// The bytes that the dead properties of a resource must stay under;
    /// `None` where dead properties are not kept.
    pub dead_property_size: Option<usize>,
}

/// What setting or removing one property does: the record afterwards, what
/// is answered for the property, and whether it was refused.
pub struct Applied<T> {
    pub record: T,
    pub item: Option<PropStatView>,
    pub failed: bool,
}

/// What setting or removing a list of properties does: the record
/// afterwards, what is answered, and whether a property was refused.
pub struct Patched<T> {
    pub record: T,
    pub items: Seq<PropStatView>,
    pub failed: bool,
}

/// The property was set or removed.
pub open spec fn spec_done<T>(record: T, prop: DavProperty) -> Applied<T> {
    Applied { record: record, item: Some(spec_propstat(prop, status::OK, None, None)), failed: false }
}

/// The property was refused.
pub open spec fn spec_refused<T>(
    record: T,
    prop: DavProperty,
    code: u16,
    error: Option<Condition>,
    description: Option<Seq<char>>,
) -> Applied<T> {
    Applied { record: record, item: Some(spec_propstat(prop, code, error, description)), failed: true }
}

/// Every resource type is one that a calendar has.
pub open spec fn spec_calendar_types(types: Seq<ResourceType>) -> bool {
    forall|i: int|
        0 <= i < types.len() ==> (#[trigger] types[i]) == ResourceType::Collection || types[i]
            == ResourceType::Calendar
}

/// The bytes of the dead properties `entries`.
pub open spec fn spec_bag_size(entries: Seq<DeadEntry>) -> nat {
    entries_size(entries, entries.len() as int)
}

/// What setting a dead property does to the dead properties `entries`: an
/// entry of that name is taken out first where `is_update` is set; then
/// the property is added, unless that brings the bytes of all to
/// `limit` or above.
pub open spec fn spec_set_dead(
    entries: Seq<DeadEntry>,
    is_update: bool,
    entry: DeadEntry,
    limit: usize,
) -> (Seq<DeadEntry>, bool) {
    let base = if is_update {
        entries_without(entries, entry.tag.name@, entries.len() as int)
    } else {
        entries
    };
    if spec_bag_size(base) + entry.spec_size() < limit {
        (base.push(entry), true)
    } else {
        (base, false)
    }
}

/// The position of the preferences that a write for `account_id` goes to:
/// its own, else the first.
pub open spec fn spec_own(calendar: CalendarView, account_id: u32) -> int {
    match crate::calendar::spec_preferences_index(calendar.preferences, account_id, 0) {
        Some(i) => i,
        None => 0,
    }
}

/// The calendar with the preferences of `account_id` replaced.
pub open spec fn spec_with_preferences(
    calendar: CalendarView,
    account_id: u32,
    preferences: CalendarPreferences,
) -> CalendarView {
    CalendarView {
        preferences: calendar.preferences.update(spec_own(calendar, account_id), preferences),
        ..calendar
    }
}

/// What setting one property of a calendar does.
pub open spec fn spec_set_calendar_property(
    config: &DavConfig,
    account_id: u32,
    calendar: CalendarView,
    is_update: bool,
    property: DavPropertyValue,
) -> Applied<CalendarView> {
    let own = calendar.preferences[spec_own(calendar, account_id)];
    match (property.property, property.value) {
        (DavProperty::WebDav(WebDavProperty::DisplayName), DavValue::String(name)) => if byte_len(
            name@,
        ) <= config.live_property_size {
            spec_done(
                spec_with_preferences(
                    calendar,
                    account_id,
                    CalendarPreferences { name: name, ..own },
                ),
                property.property,
            )
        } else {
            spec_refused(
                calendar,
                property.property,
                status::INSUFFICIENT_STORAGE,
                None,
                Some("Display name too long"@),
            )
        },
        (DavProperty::CalDav(CalDavProperty::CalendarDescription), DavValue::String(name)) => if byte_len(
            name@,
        ) <= config.live_property_size {
            spec_done(
                spec_with_preferences(
                    calendar,
                    account_id,
                    CalendarPreferences { description: Some(name), ..own },
                ),
                property.property,
            )
        } else {
            spec_refused(
                calendar,
                property.property,
                status::INSUFFICIENT_STORAGE,
                None,
                Some("Calendar description too long"@),
            )
        },
        (DavProperty::CalDav(CalDavProperty::CalendarTimezone), DavValue::ICalendar(ical)) => if ical.size
            > config.max_ical_size {
            spec_refused(
                calendar,
                property.property,
                status::INSUFFICIENT_STORAGE,
                None,
                Some("Calendar timezone too large"@),
            )
        } else if !ical.is_timezone {
            spec_refused(
                calendar,
                property.property,
                status::PRECONDITION_FAILED,
                Some(Condition::Cal(CalCondition::ValidCalendarData)),
                Some("Invalid calendar timezone"@),
            )
        } else {
            spec_done(
                spec_with_preferences(
                    calendar,
                    account_id,
                    CalendarPreferences { time_zone: Timezone::Custom(ical), ..own },
                ),
                property.property,
            )
        },
        (DavProperty::CalDav(CalDavProperty::TimezoneId), DavValue::String(tz_id)) => if tz_id@.len()
            > 0 {
            spec_done(
                spec_with_preferences(
                    calendar,
                    account_id,
                    CalendarPreferences { time_zone: Timezone::IANA(tz_id), ..own },
                ),
                property.property,
            )
        } else {
            spec_refused(
                calendar,
                property.property,
                status::PRECONDITION_FAILED,
                Some(Condition::Cal(CalCondition::ValidTimezone)),
                Some("Invalid timezone ID"@),
            )
        },
        (DavProperty::WebDav(WebDavProperty::CreationDate), DavValue::Timestamp(dt)) => Applied {
            record: CalendarView { created: dt, ..calendar },
            item: None,
            failed: false,
        },
        (DavProperty::WebDav(WebDavProperty::ResourceType), DavValue::ResourceTypes(types)) => if spec_calendar_types(
            types@,
        ) {
            spec_done(calendar, property.property)
        } else {
            spec_refused(
                calendar,
                property.property,
                status::FORBIDDEN,
                Some(Condition::Base(BaseCondition::ValidResourceType)),
                None,
            )
        },
        (DavProperty::DeadProperty(dead), DavValue::DeadProperty(content)) => if config.dead_property_size.is_some() {
            let entry = DeadEntry { tag: dead, content: content };
            let set = spec_set_dead(
                calendar.dead_properties,
                is_update,
                entry,
                config.dead_property_size.unwrap(),
            );
            let record = CalendarView { dead_properties: set.0, ..calendar };
            if set.1 {
                spec_done(record, property.property)
            } else {
                spec_refused(
                    record,
                    property.property,
                    status::INSUFFICIENT_STORAGE,
                    None,
                    Some("Dead property is too large."@),
                )
            }
        } else {
            spec_refused(
                calendar,
                property.property,
                status::CONFLICT,
                None,
                Some("Property cannot be modified"@),
            )
        },
        _ => spec_refused(
            calendar,
            property.property,
            status::CONFLICT,
            None,
            Some("Property cannot be modified"@),
        ),
    }
}

/// What setting one property of an event does.
pub open spec fn spec_set_event_property(
    config: &DavConfig,
    event: CalendarEventView,
    is_update: bool,
    property: DavPropertyValue,
) -> Applied<CalendarEventView> {
    match (property.property, property.value) {
        (DavProperty::WebDav(WebDavProperty::DisplayName), DavValue::String(name)) => if byte_len(
            name@,
        ) <= config.live_property_size {
            spec_done(CalendarEventView { display_name: Some(name), ..event }, property.property)
        } else {
            spec_refused(
                event,
                property.property,
                status::INSUFFICIENT_STORAGE,
                None,
                Some("Display name too long"@),
            )
        },
        (DavProperty::WebDav(WebDavProperty::CreationDate), DavValue::Timestamp(dt)) => Applied {
            record: CalendarEventView { created: dt, ..event },
            item: None,
            failed: false,
        },
        (DavProperty::DeadProperty(dead), DavValue::DeadProperty(content)) => if config.dead_property_size.is_some() {
            let entry = DeadEntry { tag: dead, content: content };
            let set = spec_set_dead(
                event.dead_properties,
                is_update,
                entry,
                config.dead_property_size.unwrap(),
            );
            let record = CalendarEventView { dead_properties: set.0, ..event };
            if set.1 {
                spec_done(record, property.property)
            } else {
                spec_refused(
                    record,
                    property.property,
                    status::INSUFFICIENT_STORAGE,
                    None,
                    Some("Dead property is too large."@),
                )
            }
        } else {
            spec_refused(
                event,
                property.property,
                status::CONFLICT,
                None,
                Some("Property cannot be modified"@),
            )
        },
        _ => spec_refused(
            event,
            property.property,
            status::CONFLICT,
            None,
            Some("Property cannot be modified"@),
        ),
    }
}

/// What removing one property of a calendar does. A property that cannot
/// be removed is refused with 409.
pub open spec fn spec_remove_calendar_property(
    account_id: u32,
    calendar: CalendarView,
    property: DavProperty,
) -> Applied<CalendarView> {
    let own = calendar.preferences[spec_own(calendar, account_id)];
    match property {
        DavProperty::CalDav(CalDavProperty::CalendarDescription) => spec_done(
            spec_with_preferences(
                calendar,
                account_id,
                CalendarPreferences { description: None, ..own },
            ),
            property,
        ),
        DavProperty::CalDav(CalDavProperty::CalendarTimezone) | DavProperty::CalDav(
            CalDavProperty::TimezoneId,
        ) => spec_done(
            spec_with_preferences(
                calendar,
                account_id,
                CalendarPreferences { time_zone: Timezone::Default, ..own },
            ),
            property,
        ),
        DavProperty::DeadProperty(dead) => spec_done(
            CalendarView {
                dead_properties: entries_without(
                    calendar.dead_properties,
                    dead.name@,
                    calendar.dead_properties.len() as int,
                ),
                ..calendar
            },
            property,
        ),
        _ => spec_refused(
            calendar,
            property,
            status::CONFLICT,
            None,
            Some("Property cannot be deleted"@),
        ),
    }
}

/// What removing one property of an event does.
pub open spec fn spec_remove_event_property(event: CalendarEventView, property: DavProperty) -> Applied<
    CalendarEventView,
> {
    match property {
        DavProperty::WebDav(WebDavProperty::DisplayName) => spec_done(
            CalendarEventView { display_name: None, ..event },
            property,
        ),
        DavProperty::DeadProperty(dead) => spec_done(
            CalendarEventView {
                dead_properties: entries_without(
                    event.dead_properties,
                    dead.name@,
                    event.dead_properties.len() as int,
                ),
                ..event
            },
            property,
        ),
        _ => spec_refused(
            event,
            property,
            status::CONFLICT,
            None,
            Some("Property cannot be deleted"@),
        ),
    }
}

/// The state after one more property.
pub open spec fn spec_then<T>(so_far: Patched<T>, applied: Applied<T>) -> Patched<T> {
    Patched {
        record: applied.record,
        items: match applied.item {
            Some(item) => so_far.items.push(item),
            None => so_far.items,
        },
        failed: so_far.failed || applied.failed,
    }
}

/// What setting the first `n` of `properties` on a calendar does, one
/// after the other.
pub open spec fn spec_apply_calendar(
    config: &DavConfig,
    account_id: u32,
    calendar: CalendarView,
    is_update: bool,
    properties: Seq<DavPropertyValue>,
    n: int,
) -> Patched<CalendarView>
    decreases n,
{
    if n <= 0 {
        Patched { record: calendar, items: Seq::empty(), failed: false }
    } else {
        let so_far = spec_apply_calendar(config, account_id, calendar, is_update, properties, n - 1);
        spec_then(
            so_far,
            spec_set_calendar_property(
                config,
                account_id,
                so_far.record,
                is_update,
                properties[n - 1],
            ),
        )
    }
}

/// What setting the first `n` of `properties` on an event does.
pub open spec fn spec_apply_event(
    config: &DavConfig,
    event: CalendarEventView,
    is_update: bool,
    properties: Seq<DavPropertyValue>,
    n: int,
) -> Patched<CalendarEventView>
    decreases n,
{
    if n <= 0 {
        Patched { record: event, items: Seq::empty(), failed: false }
    } else {
        let so_far = spec_apply_event(config, event, is_update, properties, n - 1);
        spec_then(
            so_far,
            spec_set_event_property(config, so_far.record, is_update, properties[n - 1]),
        )
    }
}

/// What removing the first `n` of `properties` from a calendar does.
pub open spec fn spec_remove_calendar(
    account_id: u32,
    calendar: CalendarView,
    properties: Seq<DavProperty>,
    n: int,
) -> Patched<CalendarView>
    decreases n,
{
    if n <= 0 {
        Patched { record: calendar, items: Seq::empty(), failed: false }
    } else {
        let so_far = spec_remove_calendar(account_id, calendar, properties, n - 1);
        spec_then(
            so_far,
            spec_remove_calendar_property(account_id, so_far.record, properties[n - 1]),
        )
    }
}

/// What removing the first `n` of `properties` from an event does.
pub open spec fn spec_remove_event(
    event: CalendarEventView,
    properties: Seq<DavProperty>,
    n: int,
) -> Patched<CalendarEventView>
    decreases n,
{
    if n <= 0 {
        Patched { record: event, items: Seq::empty(), failed: false }
    } else {
        let so_far = spec_remove_event(event, properties, n - 1);
        spec_then(so_far, spec_remove_event_property(so_far.record, properties[n - 1]))
    }
}

fn push_item(items: &mut Vec<PropStat>, item: PropStat)
    ensures
        propstat_views(final(items)@) == propstat_views(old(items)@).push(item@),
{
    items.push(item);
    assert(propstat_views(items@) =~= propstat_views(old(items)@).push(item@));
}

fn done(items: &mut Vec<PropStat>, prop: DavProperty)
    ensures
        propstat_views(final(items)@) == propstat_views(old(items)@).push(
            spec_propstat(prop, status::OK, None, None),
        ),
{
    push_item(items, PropStat::new(prop));
}

fn refused(
    items: &mut Vec<PropStat>,
    prop: DavProperty,
    code: u16,
    error: Option<Condition>,
    description: Option<&str>,
)
    ensures
        propstat_views(final(items)@) == propstat_views(old(items)@).push(
            spec_propstat(prop, code, error, match description {
                Some(d) => Some(d@),
                None => None,
            }),
        ),
{
    let mut item = PropStat::new(prop).with_status(code);
    if let Some(error) = error {
        item = item.with_error(error);
    }
    if let Some(description) = description {
        item = item.with_response_description(description);
    }
    push_item(items, item);
}

fn calendar_types(types: &Vec<ResourceType>) -> (r: bool)
    ensures
        r == spec_calendar_types(types@),
{
    let mut i: usize = 0;
    while i < types.len()
        invariant
            i <= types.len(),
            forall|j: int|
                0 <= j < i ==> (#[trigger] types@[j]) == ResourceType::Collection || types@[j]
                    == ResourceType::Calendar,
        decreases types.len() - i,
    {
        if !matches!(types[i], ResourceType::Collection | ResourceType::Calendar) {
            return false;
        }
        i += 1;
    }
    true
}

/// Sets a dead property in a bag of dead properties.
fn set_dead(
    bag: &mut DeadProperty,
    is_update: bool,
    dead: crate::schema::DeadElementTag,
    content: String,
    limit: usize,
) -> (r: bool)
    requires
        old(bag).spec_size() <= usize::MAX,
    ensures
        (final(bag).entries@, r) == spec_set_dead(
            old(bag).entries@,
            is_update,
            (DeadEntry { tag: dead, content: content }),
            limit,
        ),
        final(bag).spec_size() <= usize::MAX,
{
    if is_update {
        proof {
            lemma_without_size(bag.entries@, dead.name@, bag.entries@.len() as int);
        }
        bag.remove_element(&dead);
    }
    let have = bag.size();
    let name_len = text_len(dead.name.as_str());
    let attrs_len = match &dead.attrs {
        Some(a) => text_len(a.as_str()),
        None => 0,
    };
    let content_len = text_len(content.as_str());
    let fits = match have.checked_add(name_len) {
        Some(a) => match a.checked_add(attrs_len) {
            Some(b) => match b.checked_add(content_len) {
                Some(total) => total < limit,
                None => false,
            },
            None => false,
        },
        None => false,
    };
    if fits {
        let ghost before = bag.entries@;
        bag.add_element(dead, content);
        proof {
            lemma_size_prefix(bag.entries@, before, before.len() as int);
        }
        true
    } else {
        false
    }
}

/// Replaces the preferences that a write for `account_id` goes to.
fn take_own(calendar: &mut Calendar, account_id: u32) -> (r: (usize, CalendarPreferences))
    requires
        old(calendar).wf(),
    ensures
        r.0 as int == spec_own(old(calendar)@, account_id),
        r.1 == old(calendar).preferences@[r.0 as int],
        r.0 < old(calendar).preferences@.len(),
        final(calendar).preferences@ == old(calendar).preferences@.remove(r.0 as int),
        final(calendar)@ == (CalendarView {
            preferences: final(calendar).preferences@,
            ..old(calendar)@
        }),
{
    let index = match calendar.preferences_index(account_id) {
        Some(i) => i,
        None => 0,
    };
    let own = calendar.preferences.remove(index);
    (index, own)
}

fn put_own(calendar: &mut Calendar, index: usize, own: CalendarPreferences)
    requires
        index <= old(calendar).preferences@.len(),
    ensures
        final(calendar).preferences@ == old(calendar).preferences@.insert(index as int, own),
        final(calendar)@ == (CalendarView {
            preferences: final(calendar).preferences@,
            ..old(calendar)@
        }),
{
    calendar.preferences.insert(index, own);
}

/// Sets properties on a calendar, one after the other, and adds to `items`
/// what is answered for each. Returns whether none was refused.
pub fn apply_calendar_properties(
    config: &DavConfig,
    account_id: u32,
    calendar: &mut Calendar,
    is_update: bool,
    properties: Vec<DavPropertyValue>,
    items: &mut Vec<PropStat>,
) -> (r: bool)
    requires
        old(calendar).wf(),
        old(calendar).dead_properties.spec_size() <= usize::MAX,
    ensures
        final(calendar)@ == spec_apply_calendar(
            config,
            account_id,
            old(calendar)@,
            is_update,
            properties@,
            properties@.len() as int,
        ).record,
        propstat_views(final(items)@) == propstat_views(old(items)@) + spec_apply_calendar(
            config,
            account_id,
            old(calendar)@,
            is_update,
            properties@,
            properties@.len() as int,
        ).items,
        r == !spec_apply_calendar(
            config,
            account_id,
            old(calendar)@,
            is_update,
            properties@,
            properties@.len() as int,
        ).failed,
        final(calendar).wf(),
        final(calendar).dead_properties.spec_size() <= usize::MAX,
{
    let ghost all = properties@;
    let ghost first = calendar@;
    let ghost had = propstat_views(items@);
    let n = properties.len();
    let mut rest = reversed(properties);
    let mut has_errors = false;
    let mut i: usize = 0;
    assert(had + Seq::<PropStatView>::empty() =~= had);
    while i < n
        invariant
            i <= n,
            n == all.len(),
            rest@ == all.skip(i as int).reverse(),
            calendar.wf(),
            calendar.dead_properties.spec_size() <= usize::MAX,
            calendar@ == spec_apply_calendar(config, account_id, first, is_update, all, i as int).record,
            propstat_views(items@) == had + spec_apply_calendar(
                config,
                account_id,
                first,
                is_update,
                all,
                i as int,
            ).items,
            has_errors == spec_apply_calendar(
                config,
                account_id,
                first,
                is_update,
                all,
                i as int,
            ).failed,
        decreases n - i,
    {
        let property = rest.pop().unwrap();
        assert(property == all[i as int]);
        assert(rest@ =~= all.skip(i + 1).reverse());
        let ghost so_far = spec_apply_calendar(config, account_id, first, is_update, all, i as int);
        let ghost before = calendar@;
        let ghost applied = spec_set_calendar_property(
            config,
            account_id,
            before,
            is_update,
            property,
        );
        let ghost seen = propstat_views(items@);
        match (property.property, property.value) {
            (DavProperty::WebDav(WebDavProperty::DisplayName), DavValue::String(name)) => {
                if text_len(name.as_str()) <= config.live_property_size {
                    let (index, mut own) = take_own(calendar, account_id);
                    own.name = name;
                    put_own(calendar, index, own);
                    assert(calendar@.preferences =~= applied.record.preferences);
                    done(items, DavProperty::WebDav(WebDavProperty::DisplayName));
                } else {
                    refused(
                        items,
                        DavProperty::WebDav(WebDavProperty::DisplayName),
                        status::INSUFFICIENT_STORAGE,
                        None,
                        Some("Display name too long"),
                    );
                    has_errors = true;
                }
            },
            (DavProperty::CalDav(CalDavProperty::CalendarDescription), DavValue::String(name)) => {
                if text_len(name.as_str()) <= config.live_property_size {
                    let (index, mut own) = take_own(calendar, account_id);
                    own.description = Some(name);
                    put_own(calendar, index, own);
                    assert(calendar@.preferences =~= applied.record.preferences);
                    done(items, DavProperty::CalDav(CalDavProperty::CalendarDescription));
                } else {
                    refused(
                        items,
                        DavProperty::CalDav(CalDavProperty::CalendarDescription),
                        status::INSUFFICIENT_STORAGE,
                        None,
                        Some("Calendar description too long"),
                    );
                    has_errors = true;
                }
            },
            (DavProperty::CalDav(CalDavProperty::CalendarTimezone), DavValue::ICalendar(ical)) => {
                if ical.size > config.max_ical_size {
                    refused(
                        items,
                        DavProperty::CalDav(CalDavProperty::CalendarTimezone),
                        status::INSUFFICIENT_STORAGE,
                        None,
                        Some("Calendar timezone too large"),
                    );
                    has_errors = true;
                } else if !ical.is_timezone {
                    refused(
                        items,
                        DavProperty::CalDav(CalDavProperty::CalendarTimezone),
                        status::PRECONDITION_FAILED,
                        Some(Condition::Cal(CalCondition::ValidCalendarData)),
                        Some("Invalid calendar timezone"),
                    );
                    has_errors = true;
                } else {
                    let (index, mut own) = take_own(calendar, account_id);
                    own.time_zone = Timezone::Custom(ical);
                    put_own(calendar, index, own);
                    assert(calendar@.preferences =~= applied.record.preferences);
                    done(items, DavProperty::CalDav(CalDavProperty::CalendarTimezone));
                }
            },
            (DavProperty::CalDav(CalDavProperty::TimezoneId), DavValue::String(tz_id)) => {
                if !tz_id.as_str().is_empty() {
                    let (index, mut own) = take_own(calendar, account_id);
                    own.time_zone = Timezone::IANA(tz_id);
                    put_own(calendar, index, own);
                    assert(calendar@.preferences =~= applied.record.preferences);
                    done(items, DavProperty::CalDav(CalDavProperty::TimezoneId));
                } else {
                    refused(
                        items,
                        DavProperty::CalDav(CalDavProperty::TimezoneId),
                        status::PRECONDITION_FAILED,
                        Some(Condition::Cal(CalCondition::ValidTimezone)),
                        Some("Invalid timezone ID"),
                    );
                    has_errors = true;
                }
            },
            (DavProperty::WebDav(WebDavProperty::CreationDate), DavValue::Timestamp(dt)) => {
                calendar.created = dt;
            },
            (DavProperty::WebDav(WebDavProperty::ResourceType), DavValue::ResourceTypes(types)) => {
                if calendar_types(&types) {
                    done(items, DavProperty::WebDav(WebDavProperty::ResourceType));
                } else {
                    refused(
                        items,
                        DavProperty::WebDav(WebDavProperty::ResourceType),
                        status::FORBIDDEN,
                        Some(Condition::Base(BaseCondition::ValidResourceType)),
                        None,
                    );
                    has_errors = true;
                }
            },
            (DavProperty::DeadProperty(dead), DavValue::DeadProperty(content)) => {
                match config.dead_property_size {
                    Some(limit) => {
                        let tag = dead.duplicate();
                        if set_dead(&mut calendar.dead_properties, is_update, tag, content, limit) {
                            done(items, DavProperty::DeadProperty(dead));
                        } else {
                            refused(
                                items,
                                DavProperty::DeadProperty(dead),
                                status::INSUFFICIENT_STORAGE,
                                None,
                                Some("Dead property is too large."),
                            );
                            has_errors = true;
                        }
                    },
                    None => {
                        refused(
                            items,
                            DavProperty::DeadProperty(dead),
                            status::CONFLICT,
                            None,
                            Some("Property cannot be modified"),
                        );
                        has_errors = true;
                    },
                }
            },
            (property, _) => {
                refused(
                    items,
                    property,
                    status::CONFLICT,
                    None,
                    Some("Property cannot be modified"),
                );
                has_errors = true;
            },
        }
        i += 1;
        assert(calendar@ == applied.record);
        assert(propstat_views(items@) =~= had + spec_then(so_far, applied).items);
    }
    !has_errors
}


/// Sets properties on an event, one after the other, and adds to `items`
/// what is answered for each. Returns whether none was refused.
pub fn apply_event_properties(
    config: &DavConfig,
    event: &mut CalendarEvent,
    is_update: bool,
    properties: Vec<DavPropertyValue>,
    items: &mut Vec<PropStat>,
) -> (r: bool)
    requires
        old(event).dead_properties.spec_size() <= usize::MAX,
    ensures
        final(event)@ == spec_apply_event(
            config,
            old(event)@,
            is_update,
            properties@,
            properties@.len() as int,
        ).record,
        propstat_views(final(items)@) == propstat_views(old(items)@) + spec_apply_event(
            config,
            old(event)@,
            is_update,
            properties@,
            properties@.len() as int,
        ).items,
        r == !spec_apply_event(
            config,
            old(event)@,
            is_update,
            properties@,
            properties@.len() as int,
        ).failed,
        final(event).dead_properties.spec_size() <= usize::MAX,
{
    let ghost all = properties@;
    let ghost first = event@;
    let ghost had = propstat_views(items@);
    let n = properties.len();
    let mut rest = reversed(properties);
    let mut has_errors = false;
    let mut i: usize = 0;
    assert(had + Seq::<PropStatView>::empty() =~= had);
    while i < n
        invariant
            i <= n,
            n == all.len(),
            rest@ == all.skip(i as int).reverse(),
            event.dead_properties.spec_size() <= usize::MAX,
            event@ == spec_apply_event(config, first, is_update, all, i as int).record,
            propstat_views(items@) == had + spec_apply_event(
                config,
                first,
                is_update,
                all,
                i as int,
            ).items,
            has_errors == spec_apply_event(config, first, is_update, all, i as int).failed,
        decreases n - i,
    {
        let property = rest.pop().unwrap();
        assert(property == all[i as int]);
        assert(rest@ =~= all.skip(i + 1).reverse());
        let ghost so_far = spec_apply_event(config, first, is_update, all, i as int);
        let ghost applied = spec_set_event_property(config, event@, is_update, property);
        match (property.property, property.value) {
            (DavProperty::WebDav(WebDavProperty::DisplayName), DavValue::String(name)) => {
                if text_len(name.as_str()) <= config.live_property_size {
                    event.display_name = Some(name);
                    done(items, DavProperty::WebDav(WebDavProperty::DisplayName));
                } else {
                    refused(
                        items,
                        DavProperty::WebDav(WebDavProperty::DisplayName),
                        status::INSUFFICIENT_STORAGE,
                        None,
                        Some("Display name too long"),
                    );
                    has_errors = true;
                }
            },
            (DavProperty::WebDav(WebDavProperty::CreationDate), DavValue::Timestamp(dt)) => {
                event.created = dt;
            },
            (DavProperty::DeadProperty(dead), DavValue::DeadProperty(content)) => {
                match config.dead_property_size {
                    Some(limit) => {
                        let tag = dead.duplicate();
                        if set_dead(&mut event.dead_properties, is_update, tag, content, limit) {
                            done(items, DavProperty::DeadProperty(dead));
                        } else {
                            refused(
                                items,
                                DavProperty::DeadProperty(dead),
                                status::INSUFFICIENT_STORAGE,
                                None,
                                Some("Dead property is too large."),
                            );
                            has_errors = true;
                        }
                    },
                    None => {
                        refused(
                            items,
                            DavProperty::DeadProperty(dead),
                            status::CONFLICT,
                            None,
                            Some("Property cannot be modified"),
                        );
                        has_errors = true;
                    },
                }
            },
            (property, _) => {
                refused(
                    items,
                    property,
                    status::CONFLICT,
                    None,
                    Some("Property cannot be modified"),
                );
                has_errors = true;
            },
        }
        i += 1;
        assert(event@ == applied.record);
        assert(propstat_views(items@) =~= had + spec_then(so_far, applied).items);
    }
    !has_errors
}

/// Removes properties from an event and adds to `items` what is answered
/// for each. Returns whether none was refused.
pub fn remove_event_properties(
    event: &mut CalendarEvent,
    properties: Vec<DavProperty>,
    items: &mut Vec<PropStat>,
) -> (r: bool)
    requires
        old(event).dead_properties.spec_size() <= usize::MAX,
    ensures
        final(event)@ == spec_remove_event(old(event)@, properties@, properties@.len() as int).record,
        propstat_views(final(items)@) == propstat_views(old(items)@) + spec_remove_event(
            old(event)@,
            properties@,
            properties@.len() as int,
        ).items,
        r == !spec_remove_event(old(event)@, properties@, properties@.len() as int).failed,
        final(event).dead_properties.spec_size() <= usize::MAX,
{
    let ghost all = properties@;
    let ghost first = event@;
    let ghost had = propstat_views(items@);
    let n = properties.len();
    let mut rest = reversed(properties);
    let mut has_errors = false;
    let mut i: usize = 0;
    assert(had + Seq::<PropStatView>::empty() =~= had);
    while i < n
        invariant
            i <= n,
            n == all.len(),
            rest@ == all.skip(i as int).reverse(),
            event.dead_properties.spec_size() <= usize::MAX,
            event@ == spec_remove_event(first, all, i as int).record,
            propstat_views(items@) == had + spec_remove_event(first, all, i as int).items,
            has_errors == spec_remove_event(first, all, i as int).failed,
        decreases n - i,
    {
        let property = rest.pop().unwrap();
        assert(property == all[i as int]);
        assert(rest@ =~= all.skip(i + 1).reverse());
        let ghost so_far = spec_remove_event(first, all, i as int);
        let ghost applied = spec_remove_event_property(event@, property);
        match property {
            DavProperty::WebDav(WebDavProperty::DisplayName) => {
                event.display_name = None;
                done(items, DavProperty::WebDav(WebDavProperty::DisplayName));
            },
            DavProperty::DeadProperty(dead) => {
                proof {
                    lemma_without_size(
                        event.dead_properties.entries@,
                        dead.name@,
                        event.dead_properties.entries@.len() as int,
                    );
                }
                event.dead_properties.remove_element(&dead);
                done(items, DavProperty::DeadProperty(dead));
            },
            property => {
                refused(
                    items,
                    property,
                    status::CONFLICT,
                    None,
                    Some("Property cannot be deleted"),
                );
                has_errors = true;
            },
        }
        i += 1;
        assert(event@ == applied.record);
        assert(propstat_views(items@) =~= had + spec_then(so_far, applied).items);
    }
    !has_errors
}

/// Removes properties from a calendar and adds to `items` what is answered
/// for each. Returns whether none was refused.
pub fn remove_calendar_properties(
    account_id: u32,
    calendar: &mut Calendar,
    properties: Vec<DavProperty>,
    items: &mut Vec<PropStat>,
) -> (r: bool)
    requires
        old(calendar).wf(),
        old(calendar).dead_properties.spec_size() <= usize::MAX,
    ensures
        final(calendar)@ == spec_remove_calendar(
            account_id,
            old(calendar)@,
            properties@,
            properties@.len() as int,
        ).record,
        propstat_views(final(items)@) == propstat_views(old(items)@) + spec_remove_calendar(
            account_id,
            old(calendar)@,
            properties@,
            properties@.len() as int,
        ).items,
        r == !spec_remove_calendar(
            account_id,
            old(calendar)@,
            properties@,
            properties@.len() as int,
        ).failed,
        final(calendar).wf(),
        final(calendar).dead_properties.spec_size() <= usize::MAX,
{
    let ghost all = properties@;
    let ghost first = calendar@;
    let ghost had = propstat_views(items@);
    let n = properties.len();
    let mut rest = reversed(properties);
    let mut has_errors = false;
    let mut i: usize = 0;
    assert(had + Seq::<PropStatView>::empty() =~= had);
    while i < n
        invariant
            i <= n,
            n == all.len(),
            rest@ == all.skip(i as int).reverse(),
            calendar.wf(),
            calendar.dead_properties.spec_size() <= usize::MAX,
            calendar@ == spec_remove_calendar(account_id, first, all, i as int).record,
            propstat_views(items@) == had + spec_remove_calendar(
                account_id,
                first,
                all,
                i as int,
            ).items,
            has_errors == spec_remove_calendar(account_id, first, all, i as int).failed,
        decreases n - i,
    {
        let property = rest.pop().unwrap();
        assert(property == all[i as int]);
        assert(rest@ =~= all.skip(i + 1).reverse());
        let ghost so_far = spec_remove_calendar(account_id, first, all, i as int);
        let ghost applied = spec_remove_calendar_property(account_id, calendar@, property);
        match property {
            DavProperty::CalDav(CalDavProperty::CalendarDescription) => {
                let (index, mut own) = take_own(calendar, account_id);
                own.description = None;
                put_own(calendar, index, own);
                assert(calendar@.preferences =~= applied.record.preferences);
                done(items, DavProperty::CalDav(CalDavProperty::CalendarDescription));
            },
            DavProperty::CalDav(CalDavProperty::CalendarTimezone) => {
                let (index, mut own) = take_own(calendar, account_id);
                own.time_zone = Timezone::Default;
                put_own(calendar, index, own);
                assert(calendar@.preferences =~= applied.record.preferences);
                done(items, DavProperty::CalDav(CalDavProperty::CalendarTimezone));
            },
            DavProperty::CalDav(CalDavProperty::TimezoneId) => {
                let (index, mut own) = take_own(calendar, account_id);
                own.time_zone = Timezone::Default;
                put_own(calendar, index, own);
                assert(calendar@.preferences =~= applied.record.preferences);
                done(items, DavProperty::CalDav(CalDavProperty::TimezoneId));
            },
            DavProperty::DeadProperty(dead) => {
                proof {
                    lemma_without_size(
                        calendar.dead_properties.entries@,
                        dead.name@,
                        calendar.dead_properties.entries@.len() as int,
                    );
                }
                calendar.dead_properties.remove_element(&dead);
                done(items, DavProperty::DeadProperty(dead));
            },
            property => {
                refused(
                    items,
                    property,
                    status::CONFLICT,
                    None,
                    Some("Property cannot be deleted"),
                );
                has_errors = true;
            },
        }
        i += 1;
        assert(calendar@ == applied.record);
        assert(propstat_views(items@) =~= had + spec_then(so_far, applied).items);
    }
    !has_errors
}

/// What a PROPPATCH does to a calendar. Where the request sets first, the
/// properties are set and then, if none was refused, the others removed;
/// else they are removed first and then the properties are set. The patch
/// fails where a property was refused, be it one to set or one to remove.
pub open spec fn spec_patch_calendar(
    config: &DavConfig,
    account_id: u32,
    calendar: CalendarView,
    request: &PropertyUpdate,
) -> Patched<CalendarView> {
    let removes = request.remove@;
    let sets = request.set@;
    if request.set_first {
        let set = spec_apply_calendar(config, account_id, calendar, true, sets, sets.len() as int);
        if set.failed {
            set
        } else {
            let removed = spec_remove_calendar(account_id, set.record, removes, removes.len() as int);
            Patched {
                record: removed.record,
                items: set.items + removed.items,
                failed: removed.failed,
            }
        }
    } else {
        let removed = spec_remove_calendar(account_id, calendar, removes, removes.len() as int);
        let set = spec_apply_calendar(
            config,
            account_id,
            removed.record,
            true,
            sets,
            sets.len() as int,
        );
        Patched {
            record: set.record,
            items: removed.items + set.items,
            failed: removed.failed || set.failed,
        }
    }
}

/// What a PROPPATCH does to an event.
pub open spec fn spec_patch_event(
    config: &DavConfig,
    event: CalendarEventView,
    request: &PropertyUpdate,
) -> Patched<CalendarEventView> {
    let removes = request.remove@;
    let sets = request.set@;
    if request.set_first {
        let set = spec_apply_event(config, event, true, sets, sets.len() as int);
        if set.failed {
            set
        } else {
            let removed = spec_remove_event(set.record, removes, removes.len() as int);
            Patched {
                record: removed.record,
                items: set.items + removed.items,
                failed: removed.failed,
            }
        }
    } else {
        let removed = spec_remove_event(event, removes, removes.len() as int);
        let set = spec_apply_event(config, removed.record, true, sets, sets.len() as int);
        Patched {
            record: set.record,
            items: removed.items + set.items,
            failed: removed.failed || set.failed,
        }
    }
}

/// What was read for a PROPPATCH.
#[derive(Debug)]
pub struct PropPatchFacts {
    /// The rights of the token on the calendar that the request is about,
    /// or that holds the event that it is about.
    pub rights: u32,
    /// The record of the resource.
    pub record: Option<ArchivedResource>,
    /// Why the conditional headers and lock tokens refuse the request, if
    /// they do.
    pub precondition: Option<DavError>,
}

/// The record that a PROPPATCH writes.
#[derive(Debug)]
pub enum PatchedRecord {
    Calendar(Calendar),
    CalendarEvent(CalendarEvent),
}

/// The answer to a PROPPATCH.
#[derive(Debug)]
pub struct PropPatchResult {
    /// 207 with the items as the body, or 204 without a body.
    pub status: u16,
    pub items: Vec<PropStat>,
    pub namespace: Namespace,
    /// The entity tag of the record where it stays as it is; `None` where
    /// it is written, and the tag is that of the commit.
    pub etag: Option<String>,
    /// The record to write, where every property was accepted.
    pub commit: Option<PatchedRecord>,
}

/// What a written record holds.
pub enum PatchedView {
    Calendar(CalendarView),
    CalendarEvent(CalendarEventView),
}

/// What an answer to a PROPPATCH says.
pub struct PropPatchView {
    pub status: u16,
    pub items: Seq<PropStatView>,
    pub namespace: Namespace,
    pub etag: Option<Seq<char>>,
    pub commit: Option<PatchedView>,
}

impl View for PropPatchResult {
    type V = PropPatchView;

    open spec fn view(&self) -> PropPatchView {
        PropPatchView {
            status: self.status,
            items: propstat_views(self.items@),
            namespace: self.namespace,
            etag: match self.etag {
                Some(etag) => Some(etag@),
                None => None,
            },
            commit: match self.commit {
                Some(PatchedRecord::Calendar(calendar)) => Some(PatchedView::Calendar(calendar@)),
                Some(PatchedRecord::CalendarEvent(event)) => Some(
                    PatchedView::CalendarEvent(event@),
                ),
                None => None,
            },
        }
    }
}

/// The answer for a patch, in the namespace of the calendar profile: 204
/// where the client asked for a minimal answer and all was accepted, else
/// 207. Where a property was refused nothing is
/// written, and the entity tag is the one that the record had.
pub open spec fn spec_patch_answer<T>(
    ret: Return,
    patched: Patched<T>,
    hash: u32,
    commit: PatchedView,
) -> PropPatchView {
    PropPatchView {
        status: if ret != Return::Minimal || patched.failed {
            status::MULTI_STATUS
        } else {
            status::NO_CONTENT
        },
        items: patched.items,
        namespace: Namespace::CalDav,
        etag: if patched.failed {
            Some(spec_etag(hash))
        } else {
            None
        },
        commit: if patched.failed {
            None
        } else {
            Some(commit)
        },
    }
}

/// The resource that the request is about.
pub open spec fn spec_patch_target(resources: &DavResources, uri: &OwnedUri) -> Option<DavResource> {
    match uri.resource {
        Some(path) => resources.spec_by_name(path@),
        None => None,
    }
}

/// The record is one that a PROPPATCH can work on: a calendar that an
/// account sees, and dead properties whose bytes can be counted.
pub open spec fn spec_patchable(record: Option<ArchivedResource>) -> bool {
    match record {
        Some(ArchivedResource::Calendar(archive)) => archive.inner.wf()
            && archive.inner.dead_properties.spec_size() <= usize::MAX,
        Some(ArchivedResource::CalendarEvent(archive)) => archive.inner.dead_properties.spec_size()
            <= usize::MAX,
        _ => true,
    }
}

/// Whether the record is one that a PROPPATCH can work on.
pub fn patchable(record: &Option<ArchivedResource>) -> (r: bool)
    ensures
        r == spec_patchable(*record),
{
    match record {
        Some(ArchivedResource::Calendar(archive)) => archive.inner.preferences.len() > 0
            && archive.inner.dead_properties.fits(),
        Some(ArchivedResource::CalendarEvent(archive)) => archive.inner.dead_properties.fits(),
        _ => true,
    }
}

/// The answer to a PROPPATCH on a calendar or an event: 404 for a resource
/// that does not exist, 204 for a request that changes nothing, 403 where
/// the token may not read the calendar, the error of the conditional
/// headers where they refuse, and else the answer for the patch.
pub open spec fn spec_proppatch(
    access_token: &AccessToken,
    resources: &DavResources,
    uri: &OwnedUri,
    ret: Return,
    request: &PropertyUpdate,
    facts: &PropPatchFacts,
    config: &DavConfig,
) -> Result<PropPatchView, DavError> {
    let target = spec_patch_target(resources, uri);
    if target.is_none() {
        Err(DavError::Code(status::NOT_FOUND))
    } else if request.set@.len() == 0 && request.remove@.len() == 0 {
        Ok(
            PropPatchView {
                status: status::NO_CONTENT,
                items: Seq::empty(),
                namespace: Namespace::CalDav,
                etag: None,
                commit: None,
            },
        )
    } else if !access_token.spec_is_member(uri.account_id) && !spec_holds(
        facts.rights,
        if target.unwrap().is_container {
            Acl::Read
        } else {
            Acl::ReadItems
        },
    ) {
        Err(DavError::Code(status::FORBIDDEN))
    } else if facts.record.is_none() {
        Err(DavError::Code(status::NOT_FOUND))
    } else if facts.precondition.is_some() {
        Err(facts.precondition.unwrap())
    } else {
        match facts.record.unwrap() {
            ArchivedResource::Calendar(archive) => if target.unwrap().is_container {
                let patched = spec_patch_calendar(config, uri.account_id, archive.inner@, request);
                Ok(
                    spec_patch_answer(
                        ret,
                        patched,
                        archive.hash,
                        PatchedView::Calendar(patched.record),
                    ),
                )
            } else {
                Err(DavError::Internal)
            },
            ArchivedResource::CalendarEvent(archive) => if !target.unwrap().is_container {
                let patched = spec_patch_event(config, archive.inner@, request);
                Ok(
                    spec_patch_answer(
                        ret,
                        patched,
                        archive.hash,
                        PatchedView::CalendarEvent(patched.record),
                    ),
                )
            } else {
                Err(DavError::Internal)
            },
            _ => Err(DavError::Internal),
        }
    }
}

/// What a result of a PROPPATCH says.
pub open spec fn proppatch_result(r: Result<PropPatchResult, DavError>) -> Result<
    PropPatchView,
    DavError,
> {
    match r {
        Ok(result) => Ok(result@),
        Err(e) => Err(e),
    }
}

fn patch_answer(
    ret: Return,
    failed: bool,
    items: Vec<PropStat>,
    hash: u32,
    commit: PatchedRecord,
) -> (r: PropPatchResult)
    ensures
        r.status == (if ret != Return::Minimal || failed {
            status::MULTI_STATUS
        } else {
            status::NO_CONTENT
        }),
        r.items == items,
        r.namespace == Namespace::CalDav,
        r.etag.is_some() == failed,
        failed ==> r.etag.unwrap()@ == spec_etag(hash) && r.commit.is_none(),
        !failed ==> r.commit == Some(commit),
{
    let minimal = matches!(ret, Return::Minimal);
    PropPatchResult {
        status: if !minimal || failed {
            status::MULTI_STATUS
        } else {
            status::NO_CONTENT
        },
        items,
        namespace: Namespace::CalDav,
        etag: if failed {
            Some(etag_of(hash))
        } else {
            None
        },
        commit: if failed {
            None
        } else {
            Some(commit)
        },
    }
}

/// Answers a PROPPATCH on a calendar or an event. The record is written
/// only where every property that the request sets was accepted.
pub fn handle_calendar_proppatch_request(
    access_token: &AccessToken,
    resources: &DavResources,
    uri: &OwnedUri,
    ret: Return,
    request: PropertyUpdate,
    facts: PropPatchFacts,
    config: &DavConfig,
) -> (r: Result<PropPatchResult, DavError>)
    requires
        spec_patchable(facts.record),
    ensures
        proppatch_result(r) == spec_proppatch(
            access_token,
            resources,
            uri,
            ret,
            &request,
            &facts,
            config,
        ),
{
    let target = match &uri.resource {
        Some(path) => resources.by_name(path.as_str()),
        None => None,
    };
    let target = match target {
        Some(target) => target,
        None => {
            return Err(DavError::Code(status::NOT_FOUND));
        },
    };
    if !request.has_changes() {
        let items: Vec<PropStat> = Vec::new();
        assert(propstat_views(items@) =~= Seq::<PropStatView>::empty());
        return Ok(
            PropPatchResult {
                status: status::NO_CONTENT,
                items,
                namespace: Namespace::CalDav,
                etag: None,
                commit: None,
            },
        );
    }
    if !access_token.is_member(uri.account_id) {
        let acl = if target.is_container {
            Acl::Read
        } else {
            Acl::ReadItems
        };
        if !holds(facts.rights, acl) {
            return Err(DavError::Code(status::FORBIDDEN));
        }
    }
    let record = match facts.record {
        Some(record) => record,
        None => {
            return Err(DavError::Code(status::NOT_FOUND));
        },
    };
    if let Some(e) = facts.precondition {
        return Err(e);
    }
    let account_id = uri.account_id;
    let mut items: Vec<PropStat> = Vec::new();
    assert(propstat_views(items@) =~= Seq::<PropStatView>::empty());
    let set_first = request.set_first;
    match record {
        ArchivedResource::Calendar(archive) => {
            if !target.is_container {
                return Err(DavError::Internal);
            }
            let hash = archive.hash;
            let mut calendar = archive.inner;
            let ghost first = calendar@;
            let ghost patched = spec_patch_calendar(config, account_id, first, &request);
            let is_success;
            if set_first {
                let set = apply_calendar_properties(
                    config,
                    account_id,
                    &mut calendar,
                    true,
                    request.set,
                    &mut items,
                );
                if set {
                    is_success = remove_calendar_properties(
                        account_id,
                        &mut calendar,
                        request.remove,
                        &mut items,
                    );
                } else {
                    is_success = false;
                }
            } else {
                let removed = remove_calendar_properties(
                    account_id,
                    &mut calendar,
                    request.remove,
                    &mut items,
                );
                let set = apply_calendar_properties(
                    config,
                    account_id,
                    &mut calendar,
                    true,
                    request.set,
                    &mut items,
                );
                is_success = removed && set;
            }
            assert(propstat_views(items@) =~= patched.items);
            assert(calendar@ == patched.record);
            Ok(patch_answer(ret, !is_success, items, hash, PatchedRecord::Calendar(calendar)))
        },
        ArchivedResource::CalendarEvent(archive) => {
            if target.is_container {
                return Err(DavError::Internal);
            }
            let hash = archive.hash;
            let mut event = archive.inner;
            let ghost first = event@;
            let ghost patched = spec_patch_event(config, first, &request);
            let is_success;
            if set_first {
                let set = apply_event_properties(
                    config,
                    &mut event,
                    true,
                    request.set,
                    &mut items,
                );
                if set {
                    is_success = remove_event_properties(&mut event, request.remove, &mut items);
                } else {
                    is_success = false;
                }
            } else {
                let removed = remove_event_properties(&mut event, request.remove, &mut items);
                let set = apply_event_properties(
                    config,
                    &mut event,
                    true,
                    request.set,
                    &mut items,
                );
                is_success = removed && set;
            }
            assert(propstat_views(items@) =~= patched.items);
            assert(event@ == patched.record);
            Ok(patch_answer(ret, !is_success, items, hash, PatchedRecord::CalendarEvent(event)))
        },
        _ => Err(DavError::Internal),
    }
}

/// A PROPPATCH of which a property was refused writes nothing, and the
/// entity tag that it returns is the one that the record had.
pub proof fn lemma_proppatch_atomic<T>(ret: Return, patched: Patched<T>, hash: u32, commit: PatchedView)
    requires
        patched.failed,
    ensures
        spec_patch_answer(ret, patched, hash, commit).commit.is_none(),
        spec_patch_answer(ret, patched, hash, commit).etag == Some(spec_etag(hash)),
        spec_patch_answer(ret, patched, hash, commit).status == status::MULTI_STATUS,
{
}

/// The order of a PROPPATCH on an event: where the display name is both
/// removed and set to a name that is not too long, the event has that name
/// if the request removes first, and none if it sets first.
pub proof fn lemma_patch_order_event(
    config: &DavConfig,
    event: CalendarEventView,
    request: &PropertyUpdate,
    name: String,
)
    requires
        request.set@.len() == 1,
        request.set@[0].property == DavProperty::WebDav(WebDavProperty::DisplayName),
        request.set@[0].value == DavValue::String(name),
        request.remove@.len() == 1,
        request.remove@[0] == DavProperty::WebDav(WebDavProperty::DisplayName),
        byte_len(name@) <= config.live_property_size,
    ensures
        !spec_patch_event(config, event, request).failed,
        !request.set_first ==> spec_patch_event(config, event, request).record.display_name
            == Some(name),
        request.set_first ==> spec_patch_event(config, event, request).record.display_name.is_none(),
{
    reveal_with_fuel(spec_apply_event, 2);
    reveal_with_fuel(spec_remove_event, 2);
}

/// The order of a PROPPATCH on a calendar: where the description is both
/// removed and set to a text that is not too long, the calendar has that
/// description if the request removes first, and none if it sets first.
pub proof fn lemma_patch_order_calendar(
    config: &DavConfig,
    account_id: u32,
    calendar: CalendarView,
    request: &PropertyUpdate,
    text: String,
)
    requires
        calendar.preferences.len() > 0,
        request.set@.len() == 1,
        request.set@[0].property == DavProperty::CalDav(CalDavProperty::CalendarDescription),
        request.set@[0].value == DavValue::String(text),
        request.remove@.len() == 1,
        request.remove@[0] == DavProperty::CalDav(CalDavProperty::CalendarDescription),
        byte_len(text@) <= config.live_property_size,
    ensures
        !spec_patch_calendar(config, account_id, calendar, request).failed,
        !request.set_first ==> spec_patch_calendar(
            config,
            account_id,
            calendar,
            request,
        ).record.preferences[spec_own(calendar, account_id)].description == Some(text),
        request.set_first ==> spec_patch_calendar(
            config,
            account_id,
            calendar,
            request,
        ).record.preferences[spec_own(calendar, account_id)].description.is_none(),
{
    reveal_with_fuel(spec_apply_calendar, 2);
    reveal_with_fuel(spec_remove_calendar, 2);
    lemma_own_in_range(calendar, account_id);
    let own = spec_own(calendar, account_id);
    let removed = spec_remove_calendar_property(account_id, calendar, request.remove@[0]).record;
    let set = spec_set_calendar_property(config, account_id, calendar, true, request.set@[0]).record;
    lemma_index_stable(calendar.preferences, account_id, own, removed.preferences[own], 0);
    lemma_index_stable(calendar.preferences, account_id, own, set.preferences[own], 0);
    assert(removed.preferences =~= calendar.preferences.update(own, removed.preferences[own]));
    assert(set.preferences =~= calendar.preferences.update(own, set.preferences[own]));
    assert(spec_own(removed, account_id) == own);
    assert(spec_own(set, account_id) == own);
}

proof fn lemma_index_stable(
    preferences: Seq<CalendarPreferences>,
    account_id: u32,
    i: int,
    changed: CalendarPreferences,
    from: int,
)
    requires
        0 <= i < preferences.len(),
        0 <= from,
        changed.account_id == preferences[i].account_id,
    ensures
        crate::calendar::spec_preferences_index(preferences.update(i, changed), account_id, from)
            == crate::calendar::spec_preferences_index(preferences, account_id, from),
    decreases preferences.len() - from,
{
    if from < preferences.len() {
        lemma_index_stable(preferences, account_id, i, changed, from + 1);
    }
}

proof fn lemma_own_in_range(calendar: CalendarView, account_id: u32)
    requires
        calendar.preferences.len() > 0,
    ensures
        0 <= spec_own(calendar, account_id) < calendar.preferences.len(),
{
    lemma_preferences_index(calendar.preferences, account_id, 0);
}

proof fn lemma_preferences_index(preferences: Seq<CalendarPreferences>, account_id: u32, from: int)
    requires
        0 <= from,
    ensures
        crate::calendar::spec_preferences_index(preferences, account_id, from).is_some() ==> from
            <= crate::calendar::spec_preferences_index(preferences, account_id, from).unwrap()
            < preferences.len(),
    decreases preferences.len() - from,
{
    if from < preferences.len() && preferences[from].account_id != account_id {
        lemma_preferences_index(preferences, account_id, from + 1);
    }
}


/// One of the items was answered with a status that is no success.
pub open spec fn spec_any_refused(items: Seq<PropStatView>) -> bool {
    exists|k: int| 0 <= k < items.len() && !status::spec_is_success((#[trigger] items[k]).status)
}

/// What one property did is told by its item: it failed exactly where the
/// item has a status that is no success.
pub open spec fn spec_told<T>(applied: Applied<T>) -> bool {
    applied.failed == (applied.item.is_some() && !status::spec_is_success(
        applied.item.unwrap().status,
    ))
}

proof fn lemma_then_told<T>(so_far: Patched<T>, applied: Applied<T>)
    requires
        so_far.failed == spec_any_refused(so_far.items),
        spec_told(applied),
    ensures
        spec_then(so_far, applied).failed == spec_any_refused(spec_then(so_far, applied).items),
{
    let after = spec_then(so_far, applied);
    if spec_any_refused(so_far.items) {
        let k = choose|k: int|
            0 <= k < so_far.items.len() && !status::spec_is_success(
                (#[trigger] so_far.items[k]).status,
            );
        assert(!status::spec_is_success(after.items[k].status));
    }
    if applied.failed {
        assert(!status::spec_is_success(after.items[after.items.len() - 1].status));
    }
    if spec_any_refused(after.items) {
        let k = choose|k: int|
            0 <= k < after.items.len() && !status::spec_is_success(
                (#[trigger] after.items[k]).status,
            );
        if k < so_far.items.len() {
            assert(!status::spec_is_success(so_far.items[k].status));
        }
    }
}

proof fn lemma_joined_told(a: Seq<PropStatView>, b: Seq<PropStatView>)
    ensures
        spec_any_refused(a + b) == (spec_any_refused(a) || spec_any_refused(b)),
{
    let both = a + b;
    if spec_any_refused(a) {
        let k = choose|k: int|
            0 <= k < a.len() && !status::spec_is_success((#[trigger] a[k]).status);
        assert(!status::spec_is_success(both[k].status));
    }
    if spec_any_refused(b) {
        let k = choose|k: int|
            0 <= k < b.len() && !status::spec_is_success((#[trigger] b[k]).status);
        assert(!status::spec_is_success(both[a.len() + k].status));
    }
    if spec_any_refused(both) {
        let k = choose|k: int|
            0 <= k < both.len() && !status::spec_is_success((#[trigger] both[k]).status);
        if k < a.len() {
            assert(!status::spec_is_success(a[k].status));
        } else {
            assert(!status::spec_is_success(b[k - a.len()].status));
        }
    }
}

proof fn lemma_apply_calendar_told(
    config: &DavConfig,
    account_id: u32,
    calendar: CalendarView,
    is_update: bool,
    properties: Seq<DavPropertyValue>,
    n: int,
)
    requires
        0 <= n <= properties.len(),
    ensures
        spec_apply_calendar(config, account_id, calendar, is_update, properties, n).failed
            == spec_any_refused(
            spec_apply_calendar(config, account_id, calendar, is_update, properties, n).items,
        ),
    decreases n,
{
    if n > 0 {
        lemma_apply_calendar_told(config, account_id, calendar, is_update, properties, n - 1);
        let so_far = spec_apply_calendar(config, account_id, calendar, is_update, properties, n - 1);
        lemma_then_told(
            so_far,
            spec_set_calendar_property(
                config,
                account_id,
                so_far.record,
                is_update,
                properties[n - 1],
            ),
        );
    }
}

proof fn lemma_apply_event_told(
    config: &DavConfig,
    event: CalendarEventView,
    is_update: bool,
    properties: Seq<DavPropertyValue>,
    n: int,
)
    requires
        0 <= n <= properties.len(),
    ensures
        spec_apply_event(config, event, is_update, properties, n).failed == spec_any_refused(
            spec_apply_event(config, event, is_update, properties, n).items,
        ),
    decreases n,
{
    if n > 0 {
        lemma_apply_event_told(config, event, is_update, properties, n - 1);
        let so_far = spec_apply_event(config, event, is_update, properties, n - 1);
        lemma_then_told(
            so_far,
            spec_set_event_property(config, so_far.record, is_update, properties[n - 1]),
        );
    }
}

proof fn lemma_remove_calendar_told(
    account_id: u32,
    calendar: CalendarView,
    properties: Seq<DavProperty>,
    n: int,
)
    requires
        0 <= n <= properties.len(),
    ensures
        spec_remove_calendar(account_id, calendar, properties, n).failed == spec_any_refused(
            spec_remove_calendar(account_id, calendar, properties, n).items,
        ),
    decreases n,
{
    if n > 0 {
        lemma_remove_calendar_told(account_id, calendar, properties, n - 1);
        let so_far = spec_remove_calendar(account_id, calendar, properties, n - 1);
        lemma_then_told(
            so_far,
            spec_remove_calendar_property(account_id, so_far.record, properties[n - 1]),
        );
    }
}

proof fn lemma_remove_event_told(event: CalendarEventView, properties: Seq<DavProperty>, n: int)
    requires
        0 <= n <= properties.len(),
    ensures
        spec_remove_event(event, properties, n).failed == spec_any_refused(
            spec_remove_event(event, properties, n).items,
        ),
    decreases n,
{
    if n > 0 {
        lemma_remove_event_told(event, properties, n - 1);
        let so_far = spec_remove_event(event, properties, n - 1);
        lemma_then_told(so_far, spec_remove_event_property(so_far.record, properties[n - 1]));
    }
}

/// A PROPPATCH writes the record exactly where every item of its answer,
/// for what it sets and for what it removes alike, has a status of
/// success.
pub proof fn lemma_patch_commits_iff_accepted(
    config: &DavConfig,
    account_id: u32,
    calendar: CalendarView,
    event: CalendarEventView,
    request: &PropertyUpdate,
)
    ensures
        spec_patch_calendar(config, account_id, calendar, request).failed == spec_any_refused(
            spec_patch_calendar(config, account_id, calendar, request).items,
        ),
        spec_patch_event(config, event, request).failed == spec_any_refused(
            spec_patch_event(config, event, request).items,
        ),
{
    let sets = request.set@;
    let removes = request.remove@;
    let n = sets.len() as int;
    let m = removes.len() as int;
    if request.set_first {
        lemma_apply_calendar_told(config, account_id, calendar, true, sets, n);
        let set = spec_apply_calendar(config, account_id, calendar, true, sets, n);
        lemma_remove_calendar_told(account_id, set.record, removes, m);
        lemma_joined_told(set.items, spec_remove_calendar(account_id, set.record, removes, m).items);
        lemma_apply_event_told(config, event, true, sets, n);
        let set_event = spec_apply_event(config, event, true, sets, n);
        lemma_remove_event_told(set_event.record, removes, m);
        lemma_joined_told(set_event.items, spec_remove_event(set_event.record, removes, m).items);
    } else {
        lemma_remove_calendar_told(account_id, calendar, removes, m);
        let removed = spec_remove_calendar(account_id, calendar, removes, m);
        lemma_apply_calendar_told(config, account_id, removed.record, true, sets, n);
        lemma_joined_told(
            removed.items,
            spec_apply_calendar(config, account_id, removed.record, true, sets, n).items,
        );
        lemma_remove_event_told(event, removes, m);
        let removed_event = spec_remove_event(event, removes, m);
        lemma_apply_event_told(config, removed_event.record, true, sets, n);
        lemma_joined_told(
            removed_event.items,
            spec_apply_event(config, removed_event.record, true, sets, n).items,
        );
    }
}

} // verus!
