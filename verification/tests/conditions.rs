use dav::common::lock::{
    validate_headers, writes, Conditions, EtagCondition, IfCondition, IfList, ResourceState,
    StateToken,
};
use dav::token::{AccessToken, Acl, AclGrant, Collection};
use dav::{DavError, DavMethod};

fn state(path: &str, exists: bool, etag: Option<&str>, lock: Option<u64>) -> ResourceState {
    ResourceState {
        account_id: 1,
        collection: Collection::FileNode,
        document_id: if exists { Some(5) } else { None },
        etag: etag.map(|e| e.to_string()),
        path: path.to_string(),
        lock_token: lock,
    }
}

fn none() -> Conditions {
    Conditions { if_match: EtagCondition::Absent, if_none_match: EtagCondition::Absent, if_lists: vec![] }
}

fn tags(list: &[&str]) -> EtagCondition {
    EtagCondition::Tags(list.iter().map(|t| t.to_string()).collect())
}

fn lock(id: u64) -> IfCondition {
    IfCondition { negate: false, token: StateToken::Lock(id) }
}

fn etag(tag: &str, negate: bool) -> IfCondition {
    IfCondition { negate, token: StateToken::ETag(tag.to_string()) }
}

fn list(resource: Option<&str>, conditions: Vec<IfCondition>) -> IfList {
    IfList { resource: resource.map(|r| r.to_string()), conditions }
}

#[test]
fn no_conditions() {
    assert_eq!(validate_headers(&none(), &vec![], DavMethod::PUT), Ok(vec![]));
    assert_eq!(validate_headers(&none(), &vec![state("a", true, Some("\"1\""), None)], DavMethod::PUT), Ok(vec![]));
}

#[test]
fn if_match() {
    let existing = vec![state("a", true, Some("\"1\""), None)];
    let missing = vec![state("a", false, None, None)];
    let with = |m| Conditions { if_match: m, ..none() };
    assert_eq!(validate_headers(&with(EtagCondition::Any), &existing, DavMethod::PUT), Ok(vec![]));
    assert_eq!(validate_headers(&with(EtagCondition::Any), &missing, DavMethod::PUT), Err(DavError::Code(412)));
    assert_eq!(validate_headers(&with(tags(&["\"0\"", "\"1\""])), &existing, DavMethod::PUT), Ok(vec![]));
    assert_eq!(validate_headers(&with(tags(&["\"0\""])), &existing, DavMethod::PUT), Err(DavError::Code(412)));
    assert_eq!(validate_headers(&with(tags(&[])), &existing, DavMethod::GET), Err(DavError::Code(412)));
    assert_eq!(validate_headers(&with(tags(&["\"1\""])), &missing, DavMethod::PUT), Err(DavError::Code(412)));
}

#[test]
fn if_none_match() {
    let existing = vec![state("a", true, Some("\"1\""), None)];
    let missing = vec![state("a", false, None, None)];
    let with = |m| Conditions { if_none_match: m, ..none() };
    // The exclusive create.
    assert_eq!(validate_headers(&with(EtagCondition::Any), &missing, DavMethod::PUT), Ok(vec![]));
    assert_eq!(validate_headers(&with(EtagCondition::Any), &existing, DavMethod::PUT), Err(DavError::Code(412)));
    assert_eq!(validate_headers(&with(EtagCondition::Any), &existing, DavMethod::GET), Err(DavError::Code(412)));
    assert_eq!(validate_headers(&with(tags(&["\"1\""])), &existing, DavMethod::PUT), Err(DavError::Code(412)));
    assert_eq!(validate_headers(&with(tags(&["\"1\""])), &existing, DavMethod::GET), Err(DavError::Code(304)));
    assert_eq!(validate_headers(&with(tags(&["\"1\""])), &existing, DavMethod::HEAD), Err(DavError::Code(304)));
    assert_eq!(validate_headers(&with(tags(&["\"2\""])), &existing, DavMethod::GET), Ok(vec![]));
}

#[test]
fn if_lists() {
    let states = vec![state("a", true, Some("\"1\""), None), state("b", true, Some("\"2\""), None)];
    let with = |lists| Conditions { if_lists: lists, ..none() };
    assert_eq!(validate_headers(&with(vec![list(None, vec![etag("\"1\"", false)])]), &states, DavMethod::PUT), Ok(vec![]));
    assert_eq!(validate_headers(&with(vec![list(None, vec![etag("\"2\"", false)])]), &states, DavMethod::PUT), Err(DavError::Code(412)));
    assert_eq!(validate_headers(&with(vec![list(Some("b"), vec![etag("\"2\"", false)])]), &states, DavMethod::PUT), Ok(vec![]));
    // One list that holds is enough.
    let lists = vec![list(None, vec![etag("\"9\"", false)]), list(Some("b"), vec![etag("\"2\"", false), etag("\"3\"", true)])];
    assert_eq!(validate_headers(&with(lists), &states, DavMethod::PUT), Ok(vec![]));
    // All conditions of a list have to hold.
    let lists = vec![list(None, vec![etag("\"1\"", false), etag("\"1\"", true)])];
    assert_eq!(validate_headers(&with(lists), &states, DavMethod::PUT), Err(DavError::Code(412)));
    // A list about a resource that the request does not touch holds of nothing.
    assert_eq!(validate_headers(&with(vec![list(Some("c"), vec![])]), &states, DavMethod::PUT), Err(DavError::Code(412)));
    assert_eq!(validate_headers(&with(vec![list(Some("a"), vec![])]), &states, DavMethod::GET), Ok(vec![]));
    assert_eq!(validate_headers(&with(vec![list(None, vec![lock(7)])]), &states, DavMethod::PUT), Err(DavError::Code(412)));
}

#[test]
fn locks() {
    let states = vec![state("a", true, None, Some(7)), state("b", true, None, None), state("c", true, None, Some(9))];
    let with = |lists| Conditions { if_lists: lists, ..none() };
    assert_eq!(validate_headers(&none(), &states, DavMethod::MOVE), Err(DavError::Code(423)));
    // Reading needs no token.
    assert_eq!(validate_headers(&none(), &states, DavMethod::PROPFIND), Ok(vec![]));
    assert_eq!(validate_headers(&with(vec![list(None, vec![lock(7)])]), &states, DavMethod::MOVE), Err(DavError::Code(423)));
    let both = vec![list(None, vec![lock(7)]), list(Some("c"), vec![lock(9)])];
    assert_eq!(validate_headers(&with(both), &states, DavMethod::MOVE), Ok(vec![7, 9]));
    // A negated token is none that is submitted.
    let negated = vec![list(Some("b"), vec![IfCondition { negate: true, token: StateToken::Lock(7) }]), list(Some("c"), vec![lock(9)])];
    assert_eq!(validate_headers(&with(negated), &states, DavMethod::DELETE), Err(DavError::Code(423)));
    // A wrong token fails the list before the lock is looked at.
    assert_eq!(validate_headers(&with(vec![list(None, vec![lock(8)])]), &states, DavMethod::PUT), Err(DavError::Code(412)));
}

#[test]
fn methods_that_write() {
    for m in [DavMethod::GET, DavMethod::HEAD, DavMethod::OPTIONS, DavMethod::PROPFIND, DavMethod::REPORT] {
        assert!(!writes(m));
    }
    for m in [DavMethod::PUT, DavMethod::POST, DavMethod::DELETE, DavMethod::PATCH, DavMethod::PROPPATCH, DavMethod::MKCOL,
        DavMethod::MKCALENDAR, DavMethod::COPY, DavMethod::MOVE, DavMethod::LOCK, DavMethod::UNLOCK, DavMethod::ACL]
    {
        assert!(writes(m));
    }
}

#[test]
fn rights_on_documents() {
    let token = AccessToken { primary_id: 1, name: "t".to_string(), member_of: vec![2], access_to: vec![] };
    let grants = vec![AclGrant { account_id: 1, rights: Acl::Read.bit() }];
    assert!(token.has_access_to_document(2, &vec![], Acl::Delete));
    assert!(token.has_access_to_document(9, &grants, Acl::Read));
    assert!(!token.has_access_to_document(9, &grants, Acl::Modify));
    assert!(!token.has_access_to_document(9, &vec![], Acl::Read));
}
