use dav::calendar::delete::{handle_calendar_delete_request, DeleteFacts};
use dav::calendar::ical::ICalendar;
use dav::calendar::{Calendar, CalendarEvent, CalendarPreferences, Timezone};
use dav::card::get::{handle_card_get_request, CardGetFacts};
use dav::card::{AddressBook, ContactCard};
use dav::common::uri::OwnedUri;
use dav::common::{Archive, ArchivedResource, DavQuery, DavQueryResource};
use dav::file::{FileNode, FileProperties};
use dav::hierarchy::{DavResource, DavResources};
use dav::schema::{
    AddressbookQuery, DavProperty, DeadElementTag, DeadProperty, Depth, ExpandProperty,
    ExpandPropertyItem, MultiGet, Namespace, PropFind, ReportSet, RequestHeaders, ResourceType,
    Return, SyncCollection, WebDavProperty,
};
use dav::status;
use dav::token::{holds, AccessGrant, AccessToken, Acl, AclGrant, Collection};
use dav::{DavError, DavErrorCondition};

const ALICE: u32 = 7;

fn alice() -> AccessToken {
    AccessToken { primary_id: ALICE, name: "alice".to_string(), member_of: vec![], access_to: vec![] }
}

/// Alice, looking at the calendars of account 30.
const OTHER: u32 = 30;

fn resources(base: &str) -> DavResources {
    let entry = |name: &str, id, parent, container| DavResource {
        name: name.to_string(),
        document_id: id,
        parent_id: parent,
        is_container: container,
        hierarchy_sequence: id,
        size: 1,
        event_time_range: None,
    };
    DavResources {
        base_path: base.to_string(),
        paths: vec![
            entry("work", 1, None, true),
            entry("work/a", 2, Some(1), false),
            entry("work/b", 3, Some(1), false),
            entry("home", 4, None, true),
            entry("home/c", 5, Some(4), false),
        ],
    }
}

fn calendar(acls: Vec<AclGrant>) -> ArchivedResource {
    ArchivedResource::Calendar(Archive {
        inner: Calendar {
            name: "work".to_string(),
            preferences: vec![CalendarPreferences {
                account_id: OTHER,
                name: "Work".to_string(),
                description: None,
                sort_order: 0,
                color: None,
                time_zone: Timezone::Default,
            }],
            acls,
            dead_properties: DeadProperty { entries: vec![] },
            created: 1,
            modified: 2,
        },
        hash: 5,
    })
}

fn event() -> ArchivedResource {
    ArchivedResource::CalendarEvent(Archive {
        inner: CalendarEvent {
            display_name: Some("Lunch".to_string()),
            data: ICalendar { components: vec![] },
            dead_properties: DeadProperty { entries: vec![] },
            created: 3,
            modified: 4,
            size: 120,
        },
        hash: 6,
    })
}

fn uri(account: u32, path: Option<&str>) -> OwnedUri {
    OwnedUri::new_owned(Collection::Calendar, account, path.map(|p| p.to_string()))
}

fn delete(account: u32, path: Option<&str>, facts: &DeleteFacts) -> Result<(u16, Option<u32>, Vec<u32>), DavError> {
    handle_calendar_delete_request(&alice(), &resources("/dav/cal/x/"), &uri(account, path), facts)
        .map(|r| (r.status, r.calendar, r.events))
}

#[test]
fn delete_calendar_with_its_events() {
    let facts = DeleteFacts { record: Some(calendar(vec![])), parent_rights: 0, precondition: None };
    assert_eq!(delete(ALICE, Some("work"), &facts), Ok((204, Some(1), vec![2, 3])));
}

#[test]
fn delete_event() {
    let facts = DeleteFacts { record: Some(event()), parent_rights: 0, precondition: None };
    assert_eq!(delete(ALICE, Some("home/c"), &facts), Ok((204, None, vec![5])));
}

#[test]
fn delete_calendar_needs_both_rights() {
    // DELETE /dav/cal/.../work/ by Alice, who may delete but not remove items.
    let grant = |rights| vec![AclGrant { account_id: ALICE, rights }, AclGrant { account_id: 99, rights: 0xffff }];
    let facts = |rights| DeleteFacts { record: Some(calendar(grant(rights))), parent_rights: 0xffff, precondition: None };
    assert_eq!(delete(OTHER, Some("work"), &facts(Acl::Delete.bit())), Err(DavError::Code(403)));
    assert_eq!(delete(OTHER, Some("work"), &facts(Acl::RemoveItems.bit())), Err(DavError::Code(403)));
    assert_eq!(delete(OTHER, Some("work"), &facts(0)), Err(DavError::Code(403)));
    assert_eq!(
        delete(OTHER, Some("work"), &facts(Acl::Delete.bit() | Acl::RemoveItems.bit())),
        Ok((204, Some(1), vec![2, 3]))
    );
}

#[test]
fn delete_event_needs_the_right_to_remove_items() {
    let facts = |rights| DeleteFacts { record: Some(event()), parent_rights: rights, precondition: None };
    assert_eq!(delete(OTHER, Some("work/a"), &facts(Acl::Delete.bit())), Err(DavError::Code(403)));
    assert_eq!(delete(OTHER, Some("work/a"), &facts(Acl::RemoveItems.bit())), Ok((204, None, vec![2])));
}

#[test]
fn delete_errors() {
    let facts = DeleteFacts { record: Some(calendar(vec![])), parent_rights: 0, precondition: None };
    assert_eq!(delete(ALICE, None, &facts), Err(DavError::Code(403)));
    assert_eq!(delete(ALICE, Some(""), &facts), Err(DavError::Code(403)));
    assert_eq!(delete(ALICE, Some("nothing"), &facts), Err(DavError::Code(403)));
    let missing = DeleteFacts { record: None, parent_rights: 0, precondition: None };
    assert_eq!(delete(ALICE, Some("work"), &missing), Err(DavError::Code(404)));
    assert_eq!(delete(ALICE, Some("work/a"), &missing), Err(DavError::Code(404)));
    // The record is looked for before the rights of a calendar, and after those of an event.
    assert_eq!(delete(OTHER, Some("work"), &missing), Err(DavError::Code(404)));
    assert_eq!(delete(OTHER, Some("work/a"), &missing), Err(DavError::Code(403)));
    let locked = DeleteFacts { record: Some(calendar(vec![])), parent_rights: 0, precondition: Some(DavError::Code(423)) };
    assert_eq!(delete(ALICE, Some("work"), &locked), Err(DavError::Code(423)));
    let locked = DeleteFacts { record: Some(event()), parent_rights: 0, precondition: Some(DavError::Code(412)) };
    assert_eq!(delete(ALICE, Some("work/a"), &locked), Err(DavError::Code(412)));
}

fn card() -> Archive<ContactCard> {
    Archive {
        inner: ContactCard {
            display_name: None,
            card: "BEGIN:VCARD\r\nFN:Zoë\r\nEND:VCARD\r\n".to_string(),
            dead_properties: DeadProperty { entries: vec![] },
            created: 1,
            modified: 1700000000,
            size: 33,
        },
        hash: 0x2a,
    }
}

fn get(account: u32, path: Option<&str>, is_head: bool, facts: CardGetFacts) -> Result<dav::card::get::HttpResponse, DavError> {
    let uri = OwnedUri::new_owned(Collection::AddressBook, account, path.map(|p| p.to_string()));
    handle_card_get_request(&alice(), &resources("/dav/card/x/"), &uri, is_head, facts)
}

#[test]
fn get_card() {
    let facts = || CardGetFacts { parent_rights: 0, record: Some(card()), precondition: None };
    let r = get(ALICE, Some("work/a"), false, facts()).unwrap();
    assert_eq!(r.status, 200);
    assert_eq!(r.content_type.as_deref(), Some("text/vcard; charset=utf-8"));
    assert_eq!(r.etag.as_deref(), Some("\"0000002a\""));
    assert_eq!(r.last_modified, Some(1700000000));
    assert_eq!(r.body.as_deref(), Some("BEGIN:VCARD\r\nFN:Zoë\r\nEND:VCARD\r\n"));
    assert_eq!(r.content_length, None);
    let head = get(ALICE, Some("work/a"), true, facts()).unwrap();
    assert_eq!(head.body, None);
    // The length counts bytes: the card has 32 characters.
    assert_eq!(head.content_length, Some(33));
    // Twice the same record, twice the same tag.
    assert_eq!(get(ALICE, Some("work/a"), false, facts()).unwrap().etag, r.etag);
}

#[test]
fn get_card_errors() {
    let facts = |rights, record, precondition| CardGetFacts { parent_rights: rights, record, precondition };
    assert_eq!(get(ALICE, None, false, facts(0, Some(card()), None)).err(), Some(DavError::Code(405)));
    assert_eq!(get(ALICE, Some("nothing"), false, facts(0, Some(card()), None)).err(), Some(DavError::Code(404)));
    assert_eq!(get(ALICE, Some("work"), false, facts(0, Some(card()), None)).err(), Some(DavError::Code(405)));
    assert_eq!(get(OTHER, Some("work/a"), false, facts(Acl::Read.bit(), Some(card()), None)).err(), Some(DavError::Code(403)));
    assert!(get(OTHER, Some("work/a"), false, facts(Acl::ReadItems.bit(), Some(card()), None)).is_ok());
    assert_eq!(get(ALICE, Some("work/a"), false, facts(0, None, None)).err(), Some(DavError::Code(404)));
    assert_eq!(
        get(ALICE, Some("work/a"), false, facts(0, Some(card()), Some(DavError::Code(304)))).err(),
        Some(DavError::Code(304))
    );
}

#[test]
fn token_rights() {
    let token = AccessToken {
        primary_id: 1,
        name: "t".to_string(),
        member_of: vec![2, 3],
        access_to: vec![
            AccessGrant { account_id: 9, collections: vec![Collection::Calendar, Collection::FileNode] },
            AccessGrant { account_id: 10, collections: vec![] },
        ],
    };
    assert!(token.is_member(1) && token.is_member(3) && !token.is_member(9));
    assert!(token.has_access(2, Collection::AddressBook));
    assert!(token.has_access(9, Collection::FileNode));
    assert!(!token.has_access(9, Collection::AddressBook));
    assert!(!token.has_access(10, Collection::Calendar));
    let grants = vec![
        AclGrant { account_id: 2, rights: Acl::Read.bit() },
        AclGrant { account_id: 9, rights: Acl::Delete.bit() },
        AclGrant { account_id: 1, rights: Acl::Modify.bit() | Acl::RemoveItems.bit() },
    ];
    let rights = token.effective_acl(&grants);
    assert_eq!(rights, 0x1 | 0x2 | 0x40);
    assert!(holds(rights, Acl::Read) && holds(rights, Acl::RemoveItems) && !holds(rights, Acl::Delete));
    assert_eq!(token.effective_acl(&vec![]), 0);
    assert_eq!(Collection::Calendar.item_peer(), Collection::CalendarEvent);
    assert_eq!(Collection::AddressBook.item_peer(), Collection::ContactCard);
    assert_eq!(Collection::FileNode.item_peer(), Collection::FileNode);
}

#[test]
fn errors_and_statuses() {
    assert_eq!(DavError::Parse.status(), 400);
    assert_eq!(DavError::Internal.status(), 500);
    assert_eq!(DavError::Code(507).status(), 507);
    let condition = dav::schema::Condition::Cal(dav::schema::CalCondition::ValidFilter);
    assert_eq!(DavError::Condition(DavErrorCondition::new(412, condition)).status(), 412);
    let made: DavErrorCondition = condition.into();
    assert_eq!((made.code, made.condition), (409, condition));
    assert_eq!(DavError::from(made), DavError::Condition(made));
    assert!(status::is_success(200) && status::is_success(207) && status::is_success(299));
    assert!(!status::is_success(199) && !status::is_success(300) && !status::is_success(404));
    assert_eq!(
        (status::OK, status::CREATED, status::NO_CONTENT, status::MULTI_STATUS),
        (200, 201, 204, 207)
    );
}

#[test]
fn namespaces() {
    assert_eq!(Collection::Calendar.namespace(), Namespace::CalDav);
    assert_eq!(Collection::CalendarEvent.namespace(), Namespace::CalDav);
    assert_eq!(Collection::AddressBook.namespace(), Namespace::CardDav);
    assert_eq!(Collection::ContactCard.namespace(), Namespace::CardDav);
    assert_eq!(Collection::FileNode.namespace(), Namespace::Dav);
    assert_eq!(Collection::Principal.namespace(), Namespace::Dav);
}

fn file(with_payload: bool) -> ArchivedResource {
    ArchivedResource::FileNode(Archive {
        inner: FileNode {
            parent_id: 0,
            name: "n".to_string(),
            display_name: Some("File".to_string()),
            file: if with_payload {
                Some(FileProperties { blob_hash: vec![1], size: 44, media_type: Some("image/png".to_string()), executable: false })
            } else {
                None
            },
            created: 11,
            modified: 12,
            dead_properties: DeadProperty { entries: vec![] },
            acls: vec![AclGrant { account_id: 1, rights: 3 }],
        },
        hash: 1,
    })
}

fn book() -> ArchivedResource {
    ArchivedResource::AddressBook(Archive {
        inner: AddressBook {
            name: "b".to_string(),
            display_name: None,
            description: None,
            sort_order: 0,
            is_default: true,
            acls: vec![],
            dead_properties: DeadProperty { entries: vec![] },
            created: 21,
            modified: 22,
        },
        hash: 1,
    })
}

#[test]
fn archived_resources() {
    let calendar = calendar(vec![AclGrant { account_id: 1, rights: 1 }]);
    let card = ArchivedResource::ContactCard(card());
    assert_eq!(calendar.collection(), Collection::Calendar);
    assert_eq!(calendar.acls().map(|a| a.len()), Some(1));
    assert_eq!(event().acls(), None);
    assert_eq!(file(true).acls().map(|a| a.len()), Some(1));
    assert_eq!((calendar.created(), event().created(), book().created(), card.created(), file(true).created()), (1, 3, 21, 1, 11));
    assert_eq!((calendar.modified(), event().modified(), book().modified(), file(true).modified()), (2, 4, 22, 12));
    assert!(calendar.dead_properties().entries.is_empty());
    assert_eq!(file(true).content_length(), Some(44));
    assert_eq!(file(false).content_length(), None);
    assert_eq!(event().content_length(), Some(120));
    assert_eq!(card.content_length(), Some(33));
    assert_eq!(calendar.content_length(), None);
    assert_eq!(file(true).content_type(), Some("image/png"));
    assert_eq!(file(false).content_type(), None);
    assert_eq!(event().content_type(), Some("text/calendar"));
    assert_eq!(card.content_type(), Some("text/vcard"));
    assert_eq!(book().content_type(), None);
    // An account without preferences of its own sees the first.
    assert_eq!(calendar.display_name(ALICE), Some("Work"));
    assert_eq!(event().display_name(ALICE), Some("Lunch"));
    assert_eq!(book().display_name(ALICE), None);
    assert_eq!(file(true).display_name(ALICE), Some("File"));
}

#[test]
fn report_sets_and_resource_types() {
    assert_eq!(
        calendar(vec![]).supported_report_set(),
        Some(vec![
            ReportSet::SyncCollection,
            ReportSet::AclPrincipalPropSet,
            ReportSet::PrincipalMatch,
            ReportSet::ExpandProperty,
            ReportSet::CalendarQuery,
            ReportSet::CalendarMultiGet,
            ReportSet::FreeBusyQuery,
        ])
    );
    assert_eq!(book().supported_report_set().map(|s| s.len()), Some(6));
    assert_eq!(
        file(false).supported_report_set(),
        Some(vec![ReportSet::SyncCollection, ReportSet::AclPrincipalPropSet, ReportSet::PrincipalMatch])
    );
    assert_eq!(file(true).supported_report_set(), None);
    assert_eq!(event().supported_report_set(), None);
    assert_eq!(calendar(vec![]).resource_type(), Some(vec![ResourceType::Collection, ResourceType::Calendar]));
    assert_eq!(book().resource_type(), Some(vec![ResourceType::Collection, ResourceType::AddressBook]));
    assert_eq!(file(false).resource_type(), Some(vec![ResourceType::Collection]));
    assert_eq!(file(true).resource_type(), None);
    assert_eq!(event().resource_type(), None);
}

fn headers(depth: Depth) -> RequestHeaders {
    RequestHeaders { uri: "/".to_string(), depth, ret: Return::Representation, depth_no_root: false, overwrite_fail: false, destination: None }
}

#[test]
fn queries() {
    let q = DavQuery::propfind(uri(ALICE, Some("work")), PropFind::PropName, headers(Depth::Zero));
    assert_eq!((q.depth, q.limit, q.from_change_id, q.expand, q.is_minimal()), (0, None, None, false, false));
    assert!(matches!(q.resource, DavQueryResource::Uri(_)));
    for depth in [Depth::One, Depth::Infinity, Depth::Absent] {
        assert_eq!(DavQuery::propfind(uri(ALICE, None), PropFind::PropName, headers(depth)).depth, 1);
    }
    let q = DavQuery::multiget(
        MultiGet { properties: PropFind::AllProp(vec![]), hrefs: vec!["/a".to_string(), "/b".to_string()] },
        Collection::AddressBook,
        headers(Depth::One),
    );
    assert!(matches!(q.resource, DavQueryResource::Multiget { parent_collection: Collection::AddressBook, ref hrefs } if hrefs.len() == 2));
    assert_eq!(q.depth, 0);
    let q = DavQuery::addressbook_query(AddressbookQuery { properties: PropFind::PropName, limit: Some(5) }, vec![], headers(Depth::One));
    assert_eq!(q.limit, Some(5));
    assert!(matches!(q.resource, DavQueryResource::Query { parent_collection: Collection::AddressBook, .. }));
}

#[test]
fn sync_queries() {
    let changes = |token: Option<&str>, level_inf| {
        DavQuery::changes(
            uri(ALICE, Some("work")),
            SyncCollection { sync_token: token.map(|t| t.to_string()), properties: PropFind::PropName, level_inf, limit: Some(3) },
            headers(Depth::Zero),
        )
    };
    let q = changes(Some("urn:stalwart:davsync:1f"), false);
    assert_eq!((q.from_change_id, q.depth, q.limit, q.expand), (Some(31), 1, Some(3), false));
    assert_eq!(changes(None, true).from_change_id, Some(0));
    assert_eq!(changes(None, true).depth, usize::MAX);
    assert_eq!(changes(Some("urn:stalwart:davlock:1f"), false).from_change_id, Some(0));
    assert_eq!(changes(Some("nonsense"), false).from_change_id, Some(0));
}

#[test]
fn expand_queries_leave_dead_properties_out() {
    let item = |property| ExpandPropertyItem { property, depth: 0 };
    let q = DavQuery::expand(
        uri(ALICE, Some("work")),
        ExpandProperty {
            properties: vec![
                item(DavProperty::WebDav(WebDavProperty::Owner)),
                item(DavProperty::DeadProperty(DeadElementTag { name: "x".to_string(), attrs: None })),
                item(DavProperty::WebDav(WebDavProperty::DisplayName)),
            ],
        },
        headers(Depth::Zero),
    );
    assert!(q.expand);
    assert_eq!(q.depth, 0);
    match q.propfind {
        PropFind::Prop(props) => {
            assert_eq!(props.len(), 2);
            assert!(matches!(props[0], DavProperty::WebDav(WebDavProperty::Owner)));
            assert!(matches!(props[1], DavProperty::WebDav(WebDavProperty::DisplayName)));
        }
        other => panic!("{:?}", other),
    }
}
