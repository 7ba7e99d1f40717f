use dav::common::uri::{
    decode_path_element, lookup_name, map_uri_resource, parse_uri, validate_uri, AccountRef,
    DavResourceName, OwnedUri, UriResource, Urn,
};
use dav::common::{etag_of, extract_etag, Archive, Operation, ValueClass, ValueOp};
use dav::hierarchy::{DavResource, DavResources};
use dav::token::{AccessGrant, AccessToken, Collection};
use dav::{DavError, DavMethod};

fn token() -> AccessToken {
    AccessToken {
        primary_id: 7,
        name: "alice".to_string(),
        member_of: vec![9],
        access_to: vec![AccessGrant { account_id: 20, collections: vec![Collection::Calendar] }],
    }
}

fn resource(name: &str, id: u32, parent: Option<u32>, container: bool, seq: u32) -> DavResource {
    DavResource {
        name: name.to_string(),
        document_id: id,
        parent_id: parent,
        is_container: container,
        hierarchy_sequence: seq,
        size: 10,
        event_time_range: None,
    }
}

fn calendars() -> DavResources {
    DavResources {
        base_path: "/dav/cal/alice/".to_string(),
        paths: vec![
            resource("work", 1, None, true, 0),
            resource("work/meeting.ics", 2, Some(1), false, 1),
            resource("home", 3, None, true, 2),
        ],
    }
}

#[test]
fn urn_parse_lock_and_sync() {
    assert_eq!(Urn::parse("urn:stalwart:davlock:1f"), Some(Urn::Lock(0x1f)));
    assert_eq!(Urn::parse("urn:stalwart:davsync:0"), Some(Urn::Sync(0)));
    assert_eq!(Urn::parse("urn:stalwart:davsync:FFFFFFFFFFFFFFFF"), Some(Urn::Sync(u64::MAX)));
    assert_eq!(Urn::parse("urn:stalwart:davlock:+a"), Some(Urn::Lock(10)));
}

#[test]
fn urn_parse_rejects() {
    assert_eq!(Urn::parse(""), None);
    assert_eq!(Urn::parse("urn:stalwart:"), None);
    assert_eq!(Urn::parse("urn:stalwart:davlock"), None);
    assert_eq!(Urn::parse("urn:stalwart:davlock:"), None);
    assert_eq!(Urn::parse("urn:stalwart:davlock:+"), None);
    assert_eq!(Urn::parse("urn:stalwart:davlock:-1"), None);
    assert_eq!(Urn::parse("urn:stalwart:davlock:xyz"), None);
    assert_eq!(Urn::parse("urn:stalwart:other:1"), None);
    assert_eq!(Urn::parse("urn:other:davlock:1"), None);
    assert_eq!(Urn::parse("urn:stalwart:davlock:10000000000000000"), None);
    assert_eq!(Urn::parse("urn:stalwart:davlock:1:2"), None);
}

#[test]
fn urn_unwrap() {
    assert_eq!(Urn::Lock(5).try_unwrap_lock(), Some(5));
    assert_eq!(Urn::Lock(5).try_unwrap_sync(), None);
    assert_eq!(Urn::Sync(6).try_unwrap_sync(), Some(6));
    assert_eq!(Urn::Sync(6).try_unwrap_lock(), None);
}

#[test]
fn urn_text() {
    assert_eq!(Urn::Lock(0x1f).to_string(), "urn:stalwart:davlock:000000000000001f");
    assert_eq!(Urn::Sync(0).to_string(), "urn:stalwart:davsync:0000000000000000");
    assert_eq!(Urn::Sync(u64::MAX).to_string(), "urn:stalwart:davsync:ffffffffffffffff");
}

#[test]
fn urn_round_trip() {
    for id in [0u64, 1, 15, 16, 255, 4096, 0xdead_beef, u64::MAX] {
        assert_eq!(Urn::parse(&Urn::Lock(id).to_string()), Some(Urn::Lock(id)));
        assert_eq!(Urn::parse(&Urn::Sync(id).to_string()), Some(Urn::Sync(id)));
    }
}

#[test]
fn method_names() {
    assert_eq!(DavMethod::parse_name("GET"), Some(DavMethod::GET));
    assert_eq!(DavMethod::parse_name("PROPFIND"), Some(DavMethod::PROPFIND));
    assert_eq!(DavMethod::parse_name("MKCALENDAR"), Some(DavMethod::MKCALENDAR));
    assert_eq!(DavMethod::parse_name("ACL"), Some(DavMethod::ACL));
    assert_eq!(DavMethod::parse_name("get"), None);
    assert_eq!(DavMethod::parse_name("TRACE"), None);
    assert_eq!(DavMethod::parse_name(""), None);
}

#[test]
fn method_of_request() {
    assert_eq!(DavMethod::parse(&hyper::Method::GET), Some(DavMethod::GET));
    assert_eq!(DavMethod::parse(&hyper::Method::OPTIONS), Some(DavMethod::OPTIONS));
    let propfind = hyper::Method::from_bytes(b"PROPFIND").unwrap();
    assert_eq!(DavMethod::parse(&propfind), Some(DavMethod::PROPFIND));
    let unlock = hyper::Method::from_bytes(b"UNLOCK").unwrap();
    assert_eq!(DavMethod::parse(&unlock), Some(DavMethod::UNLOCK));
    assert_eq!(DavMethod::parse(&hyper::Method::TRACE), None);
}

#[test]
fn method_bodies() {
    for m in [
        DavMethod::PUT,
        DavMethod::POST,
        DavMethod::PATCH,
        DavMethod::PROPPATCH,
        DavMethod::PROPFIND,
        DavMethod::REPORT,
        DavMethod::LOCK,
        DavMethod::ACL,
        DavMethod::MKCALENDAR,
    ] {
        assert!(m.has_body());
    }
    for m in [
        DavMethod::GET,
        DavMethod::DELETE,
        DavMethod::HEAD,
        DavMethod::MKCOL,
        DavMethod::COPY,
        DavMethod::MOVE,
        DavMethod::UNLOCK,
        DavMethod::OPTIONS,
    ] {
        assert!(!m.has_body());
    }
}

#[test]
fn resource_names() {
    assert_eq!(DavResourceName::parse("cal"), Some(DavResourceName::Cal));
    assert_eq!(DavResourceName::parse("card"), Some(DavResourceName::Card));
    assert_eq!(DavResourceName::parse("file"), Some(DavResourceName::File));
    assert_eq!(DavResourceName::parse("principal"), Some(DavResourceName::Principal));
    assert_eq!(DavResourceName::parse("mail"), None);
    assert_eq!(DavResourceName::Cal.collection_path(), "/dav/cal/");
    assert_eq!(DavResourceName::of(Collection::ContactCard), DavResourceName::Card);
    assert_eq!(DavResourceName::of(Collection::CalendarEvent).collection(), Collection::Calendar);
}

#[test]
fn decode_percent() {
    assert_eq!(decode_path_element("alice"), "alice");
    assert_eq!(decode_path_element("a%20b"), "a b");
    assert_eq!(decode_path_element("%C3%A9"), "é");
    assert_eq!(decode_path_element("%c3%a9t%C3%A9"), "été");
    assert_eq!(decode_path_element("100%"), "100%");
    assert_eq!(decode_path_element("%zz"), "%zz");
    assert_eq!(decode_path_element("%4"), "%4");
    // Bytes that are no text: the segment stays as it is.
    assert_eq!(decode_path_element("%FF"), "%FF");
    assert_eq!(decode_path_element(""), "");
}

#[test]
fn parse_uri_parts() {
    let parts = parse_uri("/dav/cal/alice/work/meeting.ics").unwrap();
    assert_eq!(parts.collection, Collection::Calendar);
    assert!(matches!(parts.account, Some(AccountRef::Name(ref n)) if n == "alice"));
    assert_eq!(parts.resource.as_deref(), Some("work/meeting.ics"));

    let parts = parse_uri("https://example.org/dav/file/_42/docs/").unwrap();
    assert_eq!(parts.collection, Collection::FileNode);
    assert!(matches!(parts.account, Some(AccountRef::Id(42))));
    assert_eq!(parts.resource.as_deref(), Some("docs"));

    let parts = parse_uri("/dav/card").unwrap();
    assert_eq!(parts.collection, Collection::AddressBook);
    assert!(parts.account.is_none());
    assert!(parts.resource.is_none());

    let parts = parse_uri("/dav/principal/j%C3%BCrgen///").unwrap();
    assert_eq!(parts.collection, Collection::Principal);
    assert!(matches!(parts.account, Some(AccountRef::Name(ref n)) if n == "jürgen"));
    assert!(parts.resource.is_none());
}

#[test]
fn parse_uri_skips_empty_segments() {
    // The second of the three segments is empty and does not count.
    let parts = parse_uri("/dav/cal//alice").unwrap();
    assert!(matches!(parts.account, Some(AccountRef::Name(ref n)) if n == "alice"));
    assert!(parts.resource.is_none());
}

#[test]
fn parse_uri_errors() {
    for uri in ["", "/cal/alice", "/dav/", "/dav/mail/alice", "/dav/cal/_x/a", "/dav/cal/_/a",
        "/dav/cal/_4294967296/a", "/dav//"]
    {
        assert_eq!(parse_uri(uri).err(), Some(DavError::Code(404)), "{}", uri);
    }
}

#[test]
fn validate_uri_own_account() {
    let uri = validate_uri(&token(), "/dav/cal/alice/work", None).unwrap();
    assert_eq!(uri.collection, Collection::Calendar);
    assert_eq!(uri.account_id, Some(7));
    assert_eq!(uri.resource.as_deref(), Some("work"));
    assert!(lookup_name(&token(), "/dav/cal/alice/work").is_none());
}

#[test]
fn validate_uri_other_accounts() {
    // A member of account 9.
    assert_eq!(validate_uri(&token(), "/dav/file/_9/x", None).unwrap().account_id, Some(9));
    // Account 20 shares its calendars, not its files.
    assert_eq!(lookup_name(&token(), "/dav/cal/bob/x").as_deref(), Some("bob"));
    assert_eq!(validate_uri(&token(), "/dav/cal/bob/x", Some(20)).unwrap().account_id, Some(20));
    assert_eq!(validate_uri(&token(), "/dav/file/bob/x", Some(20)).err(), Some(DavError::Code(403)));
    // Nobody knows carol.
    assert_eq!(validate_uri(&token(), "/dav/cal/carol/x", None).err(), Some(DavError::Code(404)));
    // Principals are open to all.
    assert_eq!(validate_uri(&token(), "/dav/principal/_99", None).unwrap().account_id, Some(99));
    // Without an account there is nothing to check.
    let root = validate_uri(&token(), "/dav/file", None).unwrap();
    assert_eq!(root.account_id, None);
    assert_eq!(root.into_owned_uri().err(), Some(DavError::Code(403)));
}

#[test]
fn owned_uri() {
    let uri = validate_uri(&token(), "/dav/cal/alice/work", None).unwrap().into_owned_uri().unwrap();
    assert_eq!(uri.account_id, 7);
    assert_eq!(uri.collection_path(), "/dav/cal/");
    let made = OwnedUri::new_owned(Collection::FileNode, 3, Some("a".to_string()));
    assert_eq!(made.account_id, 3);
    assert_eq!(made.collection_path(), "/dav/file/");
}

#[test]
fn uri_round_trip() {
    let resources = calendars();
    for entry in &resources.paths {
        let uri = OwnedUri::new_owned(Collection::Calendar, 7, Some(entry.name.clone()));
        let mapped = map_uri_resource(&resources, &uri).unwrap();
        assert_eq!(mapped.resource, entry.document_id);
        assert_eq!(mapped.account_id, 7);
        let expected =
            if entry.is_container { Collection::Calendar } else { Collection::CalendarEvent };
        assert_eq!(mapped.collection, expected);
        // The formatted URI reads back as the same path.
        let formatted = resources.format_resource(entry);
        let parsed = parse_uri(&formatted).unwrap();
        assert_eq!(parsed.resource.as_deref(), Some(entry.name.as_str()));
    }
    let missing = UriResource {
        collection: Collection::Calendar,
        account_id: 7u32,
        resource: Some("nowhere".to_string()),
    };
    assert!(map_uri_resource(&resources, &missing).is_none());
    let root = UriResource { collection: Collection::Calendar, account_id: 7u32, resource: None };
    assert!(map_uri_resource(&resources, &root).is_none());
}

#[test]
fn map_uri_narrows_collection() {
    let cards = DavResources {
        base_path: "/dav/card/alice/".to_string(),
        paths: vec![resource("book", 1, None, true, 0), resource("book/a.vcf", 2, Some(1), false, 1)],
    };
    let uri = OwnedUri::new_owned(Collection::AddressBook, 7, Some("book/a.vcf".to_string()));
    assert_eq!(map_uri_resource(&cards, &uri).unwrap().collection, Collection::ContactCard);
    let uri = OwnedUri::new_owned(Collection::FileNode, 7, Some("book/a.vcf".to_string()));
    assert_eq!(map_uri_resource(&cards, &uri).unwrap().collection, Collection::FileNode);
}

#[test]
fn etag_text() {
    assert_eq!(etag_of(0), "\"00000000\"");
    assert_eq!(etag_of(255), "\"000000ff\"");
    assert_eq!(etag_of(u32::MAX), "\"ffffffff\"");
    assert_eq!(Archive { inner: (), hash: 0x1a2b }.etag(), "\"00001a2b\"");
}

#[test]
fn etag_stability() {
    let a = Archive { inner: 1u8, hash: 77 };
    assert_eq!(a.etag(), a.etag());
    let b = Archive { inner: 1u8, hash: 78 };
    assert_ne!(a.etag(), b.etag());
}

#[test]
fn etag_of_batch() {
    let ops = vec![
        Operation::Value { class: ValueClass::Property(3), op: ValueOp::Assign(vec![9, 0, 0, 1, 2]) },
        Operation::Other,
        Operation::Value { class: ValueClass::Property(4), op: ValueOp::Assign(vec![0, 0, 0, 7]) },
        Operation::Value { class: ValueClass::Property(3), op: ValueOp::Clear },
    ];
    assert_eq!(extract_etag(&ops, 3).as_deref(), Some("\"00000102\""));
    assert_eq!(extract_etag(&ops, 4).as_deref(), Some("\"00000007\""));
    assert_eq!(extract_etag(&ops, 5), None);
    let short = vec![Operation::Value {
        class: ValueClass::Property(3),
        op: ValueOp::Assign(vec![1, 2, 3]),
    }];
    assert_eq!(extract_etag(&short, 3), None);
    assert_eq!(extract_etag(&Vec::new(), 3), None);
}
