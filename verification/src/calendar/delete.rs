//! DELETE on calendars and events.

use crate::common::uri::OwnedUri;
use crate::common::ArchivedResource;
use crate::hierarchy::{DavResource, DavResources};
use crate::status;
use crate::token::{holds, spec_holds, AccessToken, Acl};
use crate::DavError;
use vstd::prelude::*;

verus! {

/// What was read for a DELETE.
#[derive(Debug)]
pub struct DeleteFacts {
    /// The record of the resource.
    pub record: Option<ArchivedResource>,
    /// The rights of the token on the calendar that holds the event, where
    /// the request is about an event.
    pub parent_rights: u32,
    /// Why the conditional headers and lock tokens refuse the request, if
    /// they do.
    pub precondition: Option<DavError>,
}

/// The answer to a DELETE, and what it destroys in one commit.
#[derive(Debug)]
pub struct DeleteResult {
    pub status: u16,
    /// The calendar to destroy, where the request is about one.
    pub calendar: Option<u32>,
    /// The events to destroy.
    pub events: Vec<u32>,
}

/// What an answer to a DELETE says.
pub struct DeleteView {
    pub status: u16,
    pub calendar: Option<u32>,
    pub events: Seq<u32>,
}

impl View for DeleteResult {
    type V = DeleteView;

    open spec fn view(&self) -> DeleteView {
        DeleteView { status: self.status, calendar: self.calendar, events: self.events@ }
    }
}

/// What a result of a DELETE says.
pub open spec fn delete_result(r: Result<DeleteResult, DavError>) -> Result<DeleteView, DavError> {
    match r {
        Ok(result) => Ok(result@),
        Err(e) => Err(e),
    }
}

/// The documents of those of the entries at the first `n` of `picked` that
/// are no containers.
pub open spec fn spec_items_at(resources: &DavResources, picked: Seq<usize>, n: int) -> Seq<u32>
    decreases n,
{
    if n <= 0 {
        Seq::empty()
    } else if resources.paths@[picked[n - 1] as int].is_container {
        spec_items_at(resources, picked, n - 1)
    } else {
        spec_items_at(resources, picked, n - 1).push(
            resources.paths@[picked[n - 1] as int].document_id,
        )
    }
}

/// The events that a calendar holds.
pub open spec fn spec_events_of(resources: &DavResources, path: Seq<char>) -> Seq<u32> {
    let picked = resources.spec_subtree(path);
    spec_items_at(resources, picked, picked.len() as int)
}

/// The resource that a DELETE is about: the one that the path names, the
/// root of the account left out.
pub open spec fn spec_delete_target(resources: &DavResources, uri: &OwnedUri) -> Option<DavResource> {
    match uri.resource {
        Some(path) => if path@.len() > 0 {
            resources.spec_by_name(path@)
        } else {
            None
        },
        None => None,
    }
}

/// The token may delete the calendar with all its events: it speaks for
/// the account, or the calendar grants it both the right to delete and the
/// right to remove items.
pub open spec fn spec_may_delete_calendar(
    access_token: &AccessToken,
    account_id: u32,
    record: &ArchivedResource,
) -> bool {
    access_token.spec_is_member(account_id) || match record {
        ArchivedResource::Calendar(archive) => {
            let rights = access_token.spec_effective_acl(archive.inner.acls@);
            spec_holds(rights, Acl::Delete) && spec_holds(rights, Acl::RemoveItems)
        },
        _ => false,
    }
}

/// The answer to a DELETE on a calendar or an event: 403 for the root of
/// the account, for a resource that does not exist and for a token without
/// the rights; 404 where the record is missing; the error of the
/// conditional headers where they refuse; else 204, with the calendar and
/// all its events, or the one event, to destroy.
pub open spec fn spec_delete(
    access_token: &AccessToken,
    resources: &DavResources,
    uri: &OwnedUri,
    facts: &DeleteFacts,
) -> Result<DeleteView, DavError> {
    match spec_delete_target(resources, uri) {
        None => Err(DavError::Code(status::FORBIDDEN)),
        Some(target) => if target.is_container {
            if facts.record.is_none() {
                Err(DavError::Code(status::NOT_FOUND))
            } else if !spec_may_delete_calendar(
                access_token,
                uri.account_id,
                &facts.record.unwrap(),
            ) {
                Err(DavError::Code(status::FORBIDDEN))
            } else if facts.precondition.is_some() {
                Err(facts.precondition.unwrap())
            } else {
                Ok(
                    DeleteView {
                        status: status::NO_CONTENT,
                        calendar: Some(target.document_id),
                        events: spec_events_of(resources, uri.resource.unwrap()@),
                    },
                )
            }
        } else {
            if !access_token.spec_is_member(uri.account_id) && !spec_holds(
                facts.parent_rights,
                Acl::RemoveItems,
            ) {
                Err(DavError::Code(status::FORBIDDEN))
            } else if facts.record.is_none() {
                Err(DavError::Code(status::NOT_FOUND))
            } else if facts.precondition.is_some() {
                Err(facts.precondition.unwrap())
            } else {
                Ok(
                    DeleteView {
                        status: status::NO_CONTENT,
                        calendar: None,
                        events: seq![target.document_id],
                    },
                )
            }
        },
    }
}

fn events_of(resources: &DavResources, path: &str) -> (r: Vec<u32>)
    ensures
        r@ == spec_events_of(resources, path@),
{
    let picked = resources.subtree(path);
    let mut out: Vec<u32> = Vec::new();
    let mut k: usize = 0;
    while k < picked.len()
        invariant
            k <= picked.len(),
            forall|j: int| 0 <= j < picked@.len() ==> (#[trigger] picked@[j]) < resources.paths@.len(),
            out@ == spec_items_at(resources, picked@, k as int),
        decreases picked.len() - k,
    {
        let entry = &resources.paths[picked[k]];
        if !entry.is_container {
            out.push(entry.document_id);
        }
        k += 1;
    }
    out
}

fn may_delete_calendar(access_token: &AccessToken, account_id: u32, record: &ArchivedResource) -> (r:
    bool)
    ensures
        r == spec_may_delete_calendar(access_token, account_id, record),
{
    if access_token.is_member(account_id) {
        return true;
    }
    match record {
        ArchivedResource::Calendar(archive) => {
            let rights = access_token.effective_acl(&archive.inner.acls);
            holds(rights, Acl::Delete) && holds(rights, Acl::RemoveItems)
        },
        _ => false,
    }
}

/// Answers a DELETE on a calendar or an event. An error destroys nothing.
pub fn handle_calendar_delete_request(
    access_token: &AccessToken,
    resources: &DavResources,
    uri: &OwnedUri,
    facts: &DeleteFacts,
) -> (r: Result<DeleteResult, DavError>)
    ensures
        delete_result(r) == spec_delete(access_token, resources, uri, facts),
{
    let path = match &uri.resource {
        Some(path) => path,
        None => {
            return Err(DavError::Code(status::FORBIDDEN));
        },
    };
    if path.as_str().is_empty() {
        return Err(DavError::Code(status::FORBIDDEN));
    }
    let target = match resources.by_name(path.as_str()) {
        Some(target) => target,
        None => {
            return Err(DavError::Code(status::FORBIDDEN));
        },
    };
    if target.is_container {
        let record = match &facts.record {
            Some(record) => record,
            None => {
                return Err(DavError::Code(status::NOT_FOUND));
            },
        };
        if !may_delete_calendar(access_token, uri.account_id, record) {
            return Err(DavError::Code(status::FORBIDDEN));
        }
        if let Some(e) = facts.precondition {
            return Err(e);
        }
        Ok(
            DeleteResult {
                status: status::NO_CONTENT,
                calendar: Some(target.document_id),
                events: events_of(resources, path.as_str()),
            },
        )
    } else {
        if !access_token.is_member(uri.account_id) && !holds(facts.parent_rights, Acl::RemoveItems) {
            return Err(DavError::Code(status::FORBIDDEN));
        }
        if facts.record.is_none() {
            return Err(DavError::Code(status::NOT_FOUND));
        }
        if let Some(e) = facts.precondition {
            return Err(e);
        }
        let mut events: Vec<u32> = Vec::new();
        events.push(target.document_id);
        assert(events@ =~= seq![target.document_id]);
        Ok(DeleteResult { status: status::NO_CONTENT, calendar: None, events })
    }
}

} // verus!
