//! GET and HEAD on cards.

use crate::card::ContactCard;
use crate::common::uri::OwnedUri;
use crate::common::{etag_of, spec_etag, Archive};
use crate::hierarchy::DavResources;
use crate::status;
use crate::text::{byte_len, text_len};
use crate::token::{holds, spec_holds, AccessToken, Acl};
use crate::DavError;
use vstd::prelude::*;

verus! {

/// What was read for a GET on a card.
#[derive(Debug)]
pub struct CardGetFacts {
    /// The rights of the token on the address book that holds the card.
    pub parent_rights: u32,
    /// The record of the card.
    pub record: Option<Archive<ContactCard>>,
    /// Why the conditional headers refuse the request, if they do.
    pub precondition: Option<DavError>,
}

/// An answer with a body or the length of one.
#[derive(Debug)]
pub struct HttpResponse {
    pub status: u16,
    pub content_type: Option<String>,
    pub etag: Option<String>,
    /// When the resource was last changed, in seconds since the epoch.
    pub last_modified: Option<i64>,
    pub content_length: Option<usize>,
    pub body: Option<String>,
}

/// What an answer says.
pub struct HttpResponseView {
    pub status: u16,
    pub content_type: Option<Seq<char>>,
    pub etag: Option<Seq<char>>,
    pub last_modified: Option<i64>,
    pub content_length: Option<usize>,
    pub body: Option<Seq<char>>,
}

/// What a text says, where there is one.
pub open spec fn text_view(text: Option<String>) -> Option<Seq<char>> {
    match text {
        Some(text) => Some(text@),
        None => None,
    }
}

impl View for HttpResponse {
    type V = HttpResponseView;

    open spec fn view(&self) -> HttpResponseView {
        HttpResponseView {
            status: self.status,
            content_type: text_view(self.content_type),
            etag: text_view(self.etag),
            last_modified: self.last_modified,
            content_length: self.content_length,
            body: text_view(self.body),
        }
    }
}

/// What a result of a GET says.
pub open spec fn card_result(r: Result<HttpResponse, DavError>) -> Result<HttpResponseView, DavError> {
    match r {
        Ok(response) => Ok(response@),
        Err(e) => Err(e),
    }
}

/// The answer to a GET or HEAD on a card: 405 for the root of the account
/// and for an address book, 404 for a card that does not exist or has no
/// record, 403 for a token that may not read the items of the address
/// book, the error of the conditional headers where they refuse; else 200
/// with the card as vCard, or for HEAD with its length, the entity tag of
/// the record, and the time of its last change.
pub open spec fn spec_card_get(
    access_token: &AccessToken,
    resources: &DavResources,
    uri: &OwnedUri,
    is_head: bool,
    facts: &CardGetFacts,
) -> Result<HttpResponseView, DavError> {
    if uri.resource.is_none() {
        Err(DavError::Code(status::METHOD_NOT_ALLOWED))
    } else {
        match resources.spec_by_name(uri.resource.unwrap()@) {
            None => Err(DavError::Code(status::NOT_FOUND)),
            Some(target) => if target.is_container {
                Err(DavError::Code(status::METHOD_NOT_ALLOWED))
            } else if !access_token.spec_is_member(uri.account_id) && !spec_holds(
                facts.parent_rights,
                Acl::ReadItems,
            ) {
                Err(DavError::Code(status::FORBIDDEN))
            } else if facts.record.is_none() {
                Err(DavError::Code(status::NOT_FOUND))
            } else if facts.precondition.is_some() {
                Err(facts.precondition.unwrap())
            } else {
                let record = facts.record.unwrap();
                Ok(
                    HttpResponseView {
                        status: status::OK,
                        content_type: Some("text/vcard; charset=utf-8"@),
                        etag: Some(spec_etag(record.hash)),
                        last_modified: Some(record.inner.modified),
                        content_length: if is_head {
                            Some(byte_len(record.inner.card@) as usize)
                        } else {
                            None
                        },
                        body: if is_head {
                            None
                        } else {
                            Some(record.inner.card@)
                        },
                    },
                )
            },
        }
    }
}

/// Answers a GET or HEAD on a card.
pub fn handle_card_get_request(
    access_token: &AccessToken,
    resources: &DavResources,
    uri: &OwnedUri,
    is_head: bool,
    facts: CardGetFacts,
) -> (r: Result<HttpResponse, DavError>)
    ensures
        card_result(r) == spec_card_get(access_token, resources, uri, is_head, &facts),
{
    let path = match &uri.resource {
        Some(path) => path,
        None => {
            return Err(DavError::Code(status::METHOD_NOT_ALLOWED));
        },
    };
    let target = match resources.by_name(path.as_str()) {
        Some(target) => target,
        None => {
            return Err(DavError::Code(status::NOT_FOUND));
        },
    };
    if target.is_container {
        return Err(DavError::Code(status::METHOD_NOT_ALLOWED));
    }
    if !access_token.is_member(uri.account_id) && !holds(facts.parent_rights, Acl::ReadItems) {
        return Err(DavError::Code(status::FORBIDDEN));
    }
    let record = match facts.record {
        Some(record) => record,
        None => {
            return Err(DavError::Code(status::NOT_FOUND));
        },
    };
    if let Some(e) = facts.precondition {
        return Err(e);
    }
    let etag = etag_of(record.hash);
    let last_modified = record.inner.modified;
    let length = text_len(record.inner.card.as_str());
    Ok(
        HttpResponse {
            status: status::OK,
            content_type: Some("text/vcard; charset=utf-8".to_owned()),
            etag: Some(etag),
            last_modified: Some(last_modified),
            content_length: if is_head {
                Some(length)
            } else {
                None
            },
            body: if is_head {
                None
            } else {
                Some(record.inner.card)
            },
        },
    )
}

} // verus!
