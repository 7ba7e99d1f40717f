use dav::calendar::ical::ICalendar;
use dav::calendar::proppatch::{
    apply_calendar_properties, apply_event_properties, handle_calendar_proppatch_request,
    remove_calendar_properties, remove_event_properties, DavConfig, PatchedRecord, PropPatchFacts,
};
use dav::calendar::{Calendar, CalendarEvent, CalendarPreferences, Timezone};
use dav::common::uri::OwnedUri;
use dav::common::{Archive, ArchivedResource};
use dav::hierarchy::{DavResource, DavResources};
use dav::schema::{
    BaseCondition, CalCondition, CalDavProperty, CalendarObject, Condition, DavProperty,
    DavPropertyValue, DavValue, DeadElementTag, DeadEntry, DeadProperty, Namespace, PropStat,
    PropertyUpdate, ResourceType, Return, WebDavProperty,
};
use dav::token::{AccessToken, Collection};
use dav::DavError;

const ALICE: u32 = 7;

fn config() -> DavConfig {
    DavConfig { live_property_size: 64, max_ical_size: 1000, dead_property_size: Some(40) }
}

fn prefs(account_id: u32, name: &str) -> CalendarPreferences {
    CalendarPreferences {
        account_id,
        name: name.to_string(),
        description: Some("before".to_string()),
        sort_order: 0,
        color: None,
        time_zone: Timezone::IANA("Europe/Berlin".to_string()),
    }
}

fn calendar() -> Calendar {
    Calendar {
        name: "work".to_string(),
        preferences: vec![prefs(1, "Owner's"), prefs(ALICE, "Alice's")],
        acls: vec![],
        dead_properties: DeadProperty { entries: vec![] },
        created: 10,
        modified: 20,
    }
}

fn event() -> CalendarEvent {
    CalendarEvent {
        display_name: Some("before".to_string()),
        data: ICalendar { components: vec![] },
        dead_properties: DeadProperty { entries: vec![] },
        created: 10,
        modified: 20,
        size: 5,
    }
}

fn set(property: DavProperty, value: DavValue) -> DavPropertyValue {
    DavPropertyValue { property, value }
}

fn text(s: &str) -> DavValue {
    DavValue::String(s.to_string())
}

fn display_name() -> DavProperty {
    DavProperty::WebDav(WebDavProperty::DisplayName)
}

fn description() -> DavProperty {
    DavProperty::CalDav(CalDavProperty::CalendarDescription)
}

fn tag(name: &str) -> DeadElementTag {
    DeadElementTag { name: name.to_string(), attrs: None }
}

fn dead(name: &str, content: &str) -> DavPropertyValue {
    set(DavProperty::DeadProperty(tag(name)), DavValue::DeadProperty(content.to_string()))
}

fn timezone(size: usize, is_timezone: bool) -> DavValue {
    DavValue::ICalendar(CalendarObject { size, is_timezone, text: "BEGIN:VCALENDAR".to_string() })
}

fn said(item: &PropStat) -> (u16, Option<Condition>, Option<&str>) {
    (item.status, item.error, item.response_description.as_deref())
}

fn apply(properties: Vec<DavPropertyValue>) -> (Calendar, Vec<PropStat>, bool) {
    let mut calendar = calendar();
    let mut items = vec![];
    let ok = apply_calendar_properties(&config(), ALICE, &mut calendar, true, properties, &mut items);
    (calendar, items, ok)
}

#[test]
fn calendar_display_name() {
    let (calendar, items, ok) = apply(vec![set(display_name(), text("Work"))]);
    assert!(ok);
    assert_eq!(calendar.preferences[1].name, "Work");
    assert_eq!(calendar.preferences[0].name, "Owner's");
    assert_eq!(items.len(), 1);
    assert_eq!(said(&items[0]), (200, None, None));
    assert!(matches!(items[0].props[0].property, DavProperty::WebDav(WebDavProperty::DisplayName)));
    assert!(matches!(items[0].props[0].value, DavValue::Null));
    assert_eq!(ArchivedResource::Calendar(Archive { inner: calendar, hash: 1 }).display_name(ALICE), Some("Work"));
}

#[test]
fn calendar_display_name_at_and_over_the_limit() {
    let (calendar, items, ok) = apply(vec![set(display_name(), text(&"x".repeat(64)))]);
    assert!(ok);
    assert_eq!(calendar.preferences[1].name.len(), 64);
    assert_eq!(said(&items[0]).0, 200);
    let (calendar, items, ok) = apply(vec![set(display_name(), text(&"x".repeat(65)))]);
    assert!(!ok);
    assert_eq!(calendar.preferences[1].name, "Alice's");
    assert_eq!(said(&items[0]), (507, None, Some("Display name too long")));
    // The limit counts bytes.
    let (_, items, ok) = apply(vec![set(display_name(), text(&"é".repeat(33)))]);
    assert!(!ok);
    assert_eq!(said(&items[0]).0, 507);
}

#[test]
fn calendar_description() {
    let (calendar, items, ok) = apply(vec![set(description(), text("All of it"))]);
    assert!(ok);
    assert_eq!(calendar.preferences[1].description.as_deref(), Some("All of it"));
    assert_eq!(said(&items[0]).0, 200);
    let (_, items, ok) = apply(vec![set(description(), text(&"d".repeat(65)))]);
    assert!(!ok);
    assert_eq!(said(&items[0]), (507, None, Some("Calendar description too long")));
}

#[test]
fn calendar_timezone() {
    let tz = || DavProperty::CalDav(CalDavProperty::CalendarTimezone);
    let (calendar, items, ok) = apply(vec![set(tz(), timezone(1000, true))]);
    assert!(ok);
    assert!(matches!(calendar.preferences[1].time_zone, Timezone::Custom(_)));
    assert_eq!(said(&items[0]).0, 200);
    let (calendar, items, ok) = apply(vec![set(tz(), timezone(1001, true))]);
    assert!(!ok);
    assert!(matches!(calendar.preferences[1].time_zone, Timezone::IANA(_)));
    assert_eq!(said(&items[0]), (507, None, Some("Calendar timezone too large")));
    let (_, items, ok) = apply(vec![set(tz(), timezone(10, false))]);
    assert!(!ok);
    assert_eq!(
        said(&items[0]),
        (412, Some(Condition::Cal(CalCondition::ValidCalendarData)), Some("Invalid calendar timezone"))
    );
}

#[test]
fn calendar_timezone_id() {
    let id = || DavProperty::CalDav(CalDavProperty::TimezoneId);
    let (calendar, items, ok) = apply(vec![set(id(), text("Asia/Tokyo"))]);
    assert!(ok);
    assert!(matches!(&calendar.preferences[1].time_zone, Timezone::IANA(name) if name == "Asia/Tokyo"));
    assert_eq!(said(&items[0]).0, 200);
    let (calendar, items, ok) = apply(vec![set(id(), text(""))]);
    assert!(!ok);
    assert!(matches!(&calendar.preferences[1].time_zone, Timezone::IANA(name) if name == "Europe/Berlin"));
    assert_eq!(
        said(&items[0]),
        (412, Some(Condition::Cal(CalCondition::ValidTimezone)), Some("Invalid timezone ID"))
    );
}

#[test]
fn calendar_creation_date_and_resource_type() {
    let (calendar, items, ok) = apply(vec![set(DavProperty::WebDav(WebDavProperty::CreationDate), DavValue::Timestamp(777))]);
    assert!(ok);
    assert_eq!(calendar.created, 777);
    assert!(items.is_empty());
    let types = |t| set(DavProperty::WebDav(WebDavProperty::ResourceType), DavValue::ResourceTypes(t));
    let (_, items, ok) = apply(vec![types(vec![ResourceType::Collection, ResourceType::Calendar])]);
    assert!(ok);
    assert_eq!(said(&items[0]), (200, None, None));
    let (_, items, ok) = apply(vec![types(vec![])]);
    assert!(ok);
    assert_eq!(said(&items[0]).0, 200);
    let (_, items, ok) = apply(vec![types(vec![ResourceType::Collection, ResourceType::AddressBook])]);
    assert!(!ok);
    assert_eq!(said(&items[0]), (403, Some(Condition::Base(BaseCondition::ValidResourceType)), None));
}

#[test]
fn calendar_properties_that_cannot_be_set() {
    let (calendar, items, ok) = apply(vec![
        set(DavProperty::WebDav(WebDavProperty::GetETag), text("x")),
        set(display_name(), DavValue::Timestamp(1)),
        set(description(), text("fine")),
    ]);
    assert!(!ok);
    assert_eq!(said(&items[0]), (409, None, Some("Property cannot be modified")));
    assert_eq!(said(&items[1]), (409, None, Some("Property cannot be modified")));
    // What comes after a refused property is still looked at.
    assert_eq!(said(&items[2]).0, 200);
    assert_eq!(calendar.preferences[1].description.as_deref(), Some("fine"));
}

#[test]
fn calendar_dead_properties() {
    // The name takes 3 bytes, the content 10.
    let (calendar, items, ok) = apply(vec![dead("x:a", "<b>1234</b"), dead("x:c", "0123456789")]);
    assert!(ok);
    assert_eq!(calendar.dead_properties.size(), 26);
    assert_eq!(items.len(), 2);
    assert_eq!(said(&items[1]).0, 200);
    // 39 bytes fit under 40, 40 do not.
    let (calendar, _, ok) = apply(vec![dead("x:a", "0123456789"), dead("x:c", &"c".repeat(23))]);
    assert!(ok);
    assert_eq!(calendar.dead_properties.size(), 39);
    let (calendar, items, ok) = apply(vec![dead("x:a", "0123456789"), dead("x:c", &"c".repeat(24))]);
    assert!(!ok);
    assert_eq!(calendar.dead_properties.size(), 13);
    assert_eq!(said(&items[1]), (507, None, Some("Dead property is too large.")));
}

#[test]
fn calendar_dead_property_replaces_its_namesake() {
    let (calendar, _, ok) = apply(vec![dead("x:a", "old"), dead("x:b", "keep"), dead("x:a", "new")]);
    assert!(ok);
    let got: Vec<(&str, &str)> =
        calendar.dead_properties.entries.iter().map(|e| (e.tag.name.as_str(), e.content.as_str())).collect();
    assert_eq!(got, vec![("x:b", "keep"), ("x:a", "new")]);
    // On creation nothing is replaced.
    let mut calendar = self::calendar();
    let mut items = vec![];
    assert!(apply_calendar_properties(&config(), ALICE, &mut calendar, false, vec![dead("x:a", "1"), dead("x:a", "2")], &mut items));
    assert_eq!(calendar.dead_properties.entries.len(), 2);
}

#[test]
fn dead_properties_without_a_budget_cannot_be_set() {
    let config = DavConfig { dead_property_size: None, ..config() };
    let mut calendar = calendar();
    let mut items = vec![];
    assert!(!apply_calendar_properties(&config, ALICE, &mut calendar, true, vec![dead("x:a", "1")], &mut items));
    assert_eq!(said(&items[0]), (409, None, Some("Property cannot be modified")));
    let mut event = event();
    assert!(!apply_event_properties(&config, &mut event, true, vec![dead("x:a", "1")], &mut items));
    assert_eq!(said(&items[1]).0, 409);
}

#[test]
fn writes_go_to_the_first_preferences_of_a_stranger() {
    let mut calendar = calendar();
    let mut items = vec![];
    assert!(apply_calendar_properties(&config(), 99, &mut calendar, true, vec![set(display_name(), text("N"))], &mut items));
    assert_eq!(calendar.preferences[0].name, "N");
    assert_eq!(calendar.preferences[1].name, "Alice's");
}

#[test]
fn event_properties() {
    let mut event = event();
    let mut items = vec![];
    let ok = apply_event_properties(
        &config(),
        &mut event,
        true,
        vec![
            set(display_name(), text("Lunch")),
            set(DavProperty::WebDav(WebDavProperty::CreationDate), DavValue::Timestamp(5)),
            dead("x:a", "1"),
        ],
        &mut items,
    );
    assert!(ok);
    assert_eq!(event.display_name.as_deref(), Some("Lunch"));
    assert_eq!(event.created, 5);
    assert_eq!(event.dead_properties.entries.len(), 1);
    assert_eq!(items.len(), 2);
    let mut items = vec![];
    let ok = apply_event_properties(
        &config(),
        &mut event,
        true,
        vec![set(display_name(), text(&"n".repeat(65))), set(description(), text("d")), dead("x:b", &"b".repeat(40))],
        &mut items,
    );
    assert!(!ok);
    assert_eq!(event.display_name.as_deref(), Some("Lunch"));
    assert_eq!(said(&items[0]), (507, None, Some("Display name too long")));
    assert_eq!(said(&items[1]), (409, None, Some("Property cannot be modified")));
    assert_eq!(said(&items[2]), (507, None, Some("Dead property is too large.")));
}

#[test]
fn removing_calendar_properties() {
    let mut calendar = calendar();
    calendar.dead_properties.add_element(tag("x:a"), "1".to_string());
    calendar.dead_properties.add_element(tag("x:b"), "2".to_string());
    let mut items = vec![];
    let removed = remove_calendar_properties(
        ALICE,
        &mut calendar,
        vec![
            description(),
            DavProperty::CalDav(CalDavProperty::TimezoneId),
            DavProperty::DeadProperty(tag("x:a")),
            display_name(),
        ],
        &mut items,
    );
    // The display name of a calendar cannot be removed.
    assert!(!removed);
    assert_eq!(calendar.preferences[1].description, None);
    assert!(matches!(calendar.preferences[1].time_zone, Timezone::Default));
    assert_eq!(calendar.preferences[0].description.as_deref(), Some("before"));
    assert_eq!(calendar.dead_properties.entries.len(), 1);
    assert_eq!(calendar.dead_properties.entries[0].tag.name, "x:b");
    let codes: Vec<u16> = items.iter().map(|i| i.status).collect();
    assert_eq!(codes, vec![200, 200, 200, 409]);
    assert_eq!(said(&items[3]), (409, None, Some("Property cannot be deleted")));
    let mut calendar = self::calendar();
    calendar.preferences[1].time_zone = Timezone::Custom(CalendarObject { size: 1, is_timezone: true, text: String::new() });
    assert!(remove_calendar_properties(ALICE, &mut calendar, vec![DavProperty::CalDav(CalDavProperty::CalendarTimezone)], &mut items));
    assert!(matches!(calendar.preferences[1].time_zone, Timezone::Default));
}

#[test]
fn removing_event_properties() {
    let mut event = event();
    event.dead_properties.add_element(tag("x:a"), "1".to_string());
    let mut items = vec![];
    let removed = remove_event_properties(
        &mut event,
        vec![display_name(), DavProperty::DeadProperty(tag("x:a")), DavProperty::DeadProperty(tag("x:none")), description()],
        &mut items,
    );
    assert!(!removed);
    assert!(remove_event_properties(&mut event, vec![display_name()], &mut vec![]));
    assert_eq!(event.display_name, None);
    assert!(event.dead_properties.entries.is_empty());
    let codes: Vec<u16> = items.iter().map(|i| i.status).collect();
    assert_eq!(codes, vec![200, 200, 200, 409]);
}

#[test]
fn dead_property_bag() {
    let mut bag = DeadProperty::new();
    assert_eq!(bag.size(), 0);
    bag.add_element(DeadElementTag { name: "n".to_string(), attrs: Some("at".to_string()) }, "é".to_string());
    assert_eq!(bag.size(), 5);
    bag.add_element(tag("m"), String::new());
    bag.add_element(tag("n"), "x".to_string());
    bag.remove_element(&tag("n"));
    assert_eq!(bag.entries.len(), 1);
    assert_eq!(bag.entries[0].tag.name, "m");
    bag.remove_element(&tag("zz"));
    assert_eq!(bag.entries.len(), 1);
    let copy = bag.entries[0].tag.duplicate();
    assert_eq!((copy.name.as_str(), copy.attrs), ("m", None));
    assert_eq!(DeadElementTag { name: "ab".to_string(), attrs: Some("cde".to_string()) }.size(), 5);
    let _ = DeadEntry { tag: tag("t"), content: String::new() };
}

fn resources() -> DavResources {
    let entry = |name: &str, id, parent, container| DavResource {
        name: name.to_string(),
        document_id: id,
        parent_id: parent,
        is_container: container,
        hierarchy_sequence: id,
        size: 1,
        event_time_range: None,
    };
    DavResources {
        base_path: "/dav/cal/alice/".to_string(),
        paths: vec![entry("work", 1, None, true), entry("work/lunch.ics", 2, Some(1), false)],
    }
}

fn alice() -> AccessToken {
    AccessToken { primary_id: ALICE, name: "alice".to_string(), member_of: vec![], access_to: vec![] }
}

fn uri(path: &str) -> OwnedUri {
    OwnedUri::new_owned(Collection::Calendar, ALICE, Some(path.to_string()))
}

fn calendar_facts() -> PropPatchFacts {
    PropPatchFacts {
        rights: 0,
        record: Some(ArchivedResource::Calendar(Archive { inner: calendar(), hash: 0xabc })),
        precondition: None,
    }
}

fn event_facts() -> PropPatchFacts {
    PropPatchFacts {
        rights: 0,
        record: Some(ArchivedResource::CalendarEvent(Archive { inner: event(), hash: 0xdef })),
        precondition: None,
    }
}

fn update(set: Vec<DavPropertyValue>, remove: Vec<DavProperty>, set_first: bool) -> PropertyUpdate {
    PropertyUpdate { set, remove, set_first }
}

#[test]
fn proppatch_sets_the_display_name() {
    // PROPPATCH /dav/cal/alice/work/ with displayname=Work and room for 64 bytes.
    let r = handle_calendar_proppatch_request(
        &alice(),
        &resources(),
        &uri("work"),
        Return::Absent,
        update(vec![set(display_name(), text("Work"))], vec![], true),
        calendar_facts(),
        &config(),
    )
    .unwrap();
    assert_eq!(r.status, 207);
    assert_eq!(r.namespace, Namespace::CalDav);
    assert_eq!(r.items.len(), 1);
    assert_eq!(said(&r.items[0]), (200, None, None));
    assert_eq!(r.etag, None);
    // What is written is what a later PROPFIND reads.
    let written = match r.commit {
        Some(PatchedRecord::Calendar(calendar)) => calendar,
        other => panic!("{:?}", other),
    };
    let stored = ArchivedResource::Calendar(Archive { inner: written, hash: 0xabd });
    assert_eq!(stored.display_name(ALICE), Some("Work"));
}

#[test]
fn proppatch_empty_timezone_id_is_refused() {
    let r = handle_calendar_proppatch_request(
        &alice(),
        &resources(),
        &uri("work"),
        Return::Minimal,
        update(vec![set(description(), text("kept out")), set(DavProperty::CalDav(CalDavProperty::TimezoneId), text(""))], vec![], true),
        calendar_facts(),
        &config(),
    )
    .unwrap();
    assert_eq!(r.status, 207);
    assert_eq!(said(&r.items[0]).0, 200);
    assert_eq!(
        said(&r.items[1]),
        (412, Some(Condition::Cal(CalCondition::ValidTimezone)), Some("Invalid timezone ID"))
    );
    // Nothing is written, and the entity tag is the one that the record had.
    assert!(r.commit.is_none());
    assert_eq!(r.etag.as_deref(), Some("\"00000abc\""));
}

#[test]
fn proppatch_minimal_answer() {
    let r = handle_calendar_proppatch_request(
        &alice(),
        &resources(),
        &uri("work/lunch.ics"),
        Return::Minimal,
        update(vec![set(display_name(), text("Lunch"))], vec![], false),
        event_facts(),
        &config(),
    )
    .unwrap();
    assert_eq!(r.status, 204);
    assert!(matches!(r.commit, Some(PatchedRecord::CalendarEvent(ref e)) if e.display_name.as_deref() == Some("Lunch")));
}

#[test]
fn proppatch_order_of_remove_and_set() {
    let both = |set_first| update(vec![set(display_name(), text("Lunch"))], vec![display_name()], set_first);
    let name_after = |set_first| {
        let r = handle_calendar_proppatch_request(&alice(), &resources(), &uri("work/lunch.ics"), Return::Absent, both(set_first), event_facts(), &config())
            .unwrap();
        assert_eq!(r.items.len(), 2);
        match r.commit {
            Some(PatchedRecord::CalendarEvent(e)) => e.display_name,
            other => panic!("{:?}", other),
        }
    };
    assert_eq!(name_after(false).as_deref(), Some("Lunch"));
    assert_eq!(name_after(true), None);
    let both = |set_first| update(vec![set(description(), text("new"))], vec![description()], set_first);
    let description_after = |set_first| {
        let r = handle_calendar_proppatch_request(&alice(), &resources(), &uri("work"), Return::Absent, both(set_first), calendar_facts(), &config())
            .unwrap();
        match r.commit {
            Some(PatchedRecord::Calendar(c)) => c.preferences[1].description.clone(),
            other => panic!("{:?}", other),
        }
    };
    assert_eq!(description_after(false).as_deref(), Some("new"));
    assert_eq!(description_after(true), None);
}

#[test]
fn proppatch_refused_set_keeps_what_was_to_be_removed() {
    let r = handle_calendar_proppatch_request(
        &alice(),
        &resources(),
        &uri("work/lunch.ics"),
        Return::Absent,
        update(vec![set(display_name(), text(&"n".repeat(65)))], vec![display_name()], true),
        event_facts(),
        &config(),
    )
    .unwrap();
    // Set first: the removal is not tried.
    assert_eq!(r.items.len(), 1);
    assert!(r.commit.is_none());
    assert_eq!(r.etag.as_deref(), Some("\"00000def\""));
    let r = handle_calendar_proppatch_request(
        &alice(),
        &resources(),
        &uri("work/lunch.ics"),
        Return::Absent,
        update(vec![set(display_name(), text(&"n".repeat(65)))], vec![display_name()], false),
        event_facts(),
        &config(),
    )
    .unwrap();
    assert_eq!(r.items.len(), 2);
    assert!(r.commit.is_none());
}

#[test]
fn proppatch_errors() {
    let one = || update(vec![set(display_name(), text("x"))], vec![], true);
    let run = |token: &AccessToken, path: Option<&str>, request, facts| {
        let uri = OwnedUri::new_owned(Collection::Calendar, ALICE, path.map(|p| p.to_string()));
        handle_calendar_proppatch_request(token, &resources(), &uri, Return::Absent, request, facts, &config())
    };
    assert_eq!(run(&alice(), Some("nothing"), one(), calendar_facts()).err(), Some(DavError::Code(404)));
    assert_eq!(run(&alice(), None, one(), calendar_facts()).err(), Some(DavError::Code(404)));
    // A request that changes nothing is answered before anything is checked.
    let stranger = AccessToken { primary_id: 50, name: "eve".to_string(), member_of: vec![], access_to: vec![] };
    let r = run(&stranger, Some("work"), update(vec![], vec![], true), calendar_facts()).unwrap();
    assert_eq!((r.status, r.items.len(), r.commit.is_none()), (204, 0, true));
    assert_eq!(run(&stranger, Some("work"), one(), calendar_facts()).err(), Some(DavError::Code(403)));
    // Reading the calendar is enough for the calendar, reading its items for an event.
    let mut facts = calendar_facts();
    facts.rights = 0x1;
    assert!(run(&stranger, Some("work"), one(), facts).is_ok());
    let mut facts = event_facts();
    facts.rights = 0x1;
    assert_eq!(run(&stranger, Some("work/lunch.ics"), one(), facts).err(), Some(DavError::Code(403)));
    let mut facts = event_facts();
    facts.rights = 0x8;
    assert!(run(&stranger, Some("work/lunch.ics"), one(), facts).is_ok());
    let mut facts = calendar_facts();
    facts.record = None;
    assert_eq!(run(&alice(), Some("work"), one(), facts).err(), Some(DavError::Code(404)));
    let mut facts = calendar_facts();
    facts.precondition = Some(DavError::Code(412));
    assert_eq!(run(&alice(), Some("work"), one(), facts).err(), Some(DavError::Code(412)));
    // A record of another kind than the hierarchy says.
    assert_eq!(run(&alice(), Some("work"), one(), event_facts()).err(), Some(DavError::Internal));
    assert_eq!(run(&alice(), Some("work/lunch.ics"), one(), calendar_facts()).err(), Some(DavError::Internal));
}

#[test]
fn proppatch_refused_remove_writes_nothing() {
    // The display name of a calendar cannot be removed: 409, and nothing is written.
    let run = |request| {
        handle_calendar_proppatch_request(&alice(), &resources(), &uri("work"), Return::Minimal, request, calendar_facts(), &config())
            .unwrap()
    };
    let r = run(update(vec![], vec![display_name()], false));
    assert_eq!(r.status, 207);
    assert_eq!(r.items.len(), 1);
    assert_eq!(said(&r.items[0]), (409, None, Some("Property cannot be deleted")));
    assert!(r.commit.is_none());
    assert_eq!(r.etag.as_deref(), Some("\"00000abc\""));
    // Beside a property that is set, in either order.
    for set_first in [false, true] {
        let r = run(update(vec![set(description(), text("fine"))], vec![display_name()], set_first));
        assert_eq!(r.status, 207);
        assert_eq!(r.items.len(), 2);
        assert!(r.items.iter().any(|i| i.status == 200));
        assert!(r.items.iter().any(|i| i.status == 409));
        assert!(r.commit.is_none());
        assert_eq!(r.etag.as_deref(), Some("\"00000abc\""));
    }
    // The same on an event.
    let r = handle_calendar_proppatch_request(
        &alice(),
        &resources(),
        &uri("work/lunch.ics"),
        Return::Absent,
        update(vec![], vec![description()], true),
        event_facts(),
        &config(),
    )
    .unwrap();
    assert_eq!(said(&r.items[0]).0, 409);
    assert!(r.commit.is_none());
    assert_eq!(r.etag.as_deref(), Some("\"00000def\""));
}

#[test]
fn proppatch_commits_exactly_when_every_item_is_accepted() {
    let requests = vec![
        update(vec![set(display_name(), text("ok"))], vec![description()], true),
        update(vec![set(display_name(), text("ok"))], vec![display_name()], true),
        update(vec![set(display_name(), text(&"n".repeat(65)))], vec![description()], false),
        update(vec![dead("x:a", "1")], vec![DavProperty::DeadProperty(tag("x:a"))], false),
        update(vec![set(DavProperty::WebDav(WebDavProperty::GetETag), text("x"))], vec![], true),
    ];
    for request in requests {
        let r = handle_calendar_proppatch_request(&alice(), &resources(), &uri("work"), Return::Absent, request, calendar_facts(), &config())
            .unwrap();
        let all_accepted = r.items.iter().all(|i| (200..300).contains(&i.status));
        assert_eq!(r.commit.is_some(), all_accepted);
        assert_eq!(r.etag.is_none(), all_accepted);
        assert_eq!(r.namespace, Namespace::CalDav);
    }
}
