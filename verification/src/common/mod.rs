//! What every profile shares: resolved URIs, entity tags, queries, and the
//! typed view of a stored resource.

pub mod lock;
pub mod uri;

use crate::calendar::{Calendar, CalendarEvent};
use crate::card::{AddressBook, ContactCard};
use crate::common::uri::{OwnedUri, Urn};
use crate::file::FileNode;
use crate::schema::{
    AddressbookQuery, CalendarQuery, DavProperty, DeadProperty, Depth, ExpandProperty,
    ExpandPropertyItem, Filter, MultiGet, Namespace, PropFind, ReportSet, RequestHeaders,
    ResourceType, Return, SyncCollection, TimeRange, Timezone,
};
use crate::text::{
    digits_value, fixed_hex, lemma_hex_round_trip, pow16, push_char, write_fixed_hex,
};
use crate::token::{AclGrant, Collection};
use crate::vecs::reversed;
use vstd::prelude::*;

verus! {

/// A stored record with the fingerprint of its content.
#[derive(Debug)]
pub struct Archive<T> {
    pub inner: T,
    pub hash: u32,
}

/// The entity tag of a fingerprint: the number as eight digits of
/// lower-case hexadecimal, in double quotes.
pub open spec fn spec_etag(hash: u32) -> Seq<char> {
    seq!['"'] + fixed_hex(hash as nat, 8) + seq!['"']
}

/// The entity tag of a fingerprint.
pub fn etag_of(hash: u32) -> (r: String)
    ensures
        r@ == spec_etag(hash),
{
    let mut out = String::new();
    push_char(&mut out, '"');
    write_fixed_hex(hash as u64, 8, &mut out);
    push_char(&mut out, '"');
    assert(out@ =~= spec_etag(hash));
    out
}

impl<T> Archive<T> {
    /// The entity tag of the record.
    pub fn etag(&self) -> (r: String)
        ensures
            r@ == spec_etag(self.hash),
    {
        etag_of(self.hash)
    }
}

/// A record that was not written again has the entity tag it had, and a
/// record with another fingerprint has another entity tag.
pub proof fn lemma_etag_stable(a: u32, b: u32)
    ensures
        (spec_etag(a) == spec_etag(b)) <==> a == b,
{
    if spec_etag(a) == spec_etag(b) {
        reveal_with_fuel(pow16, 9);
        assert(pow16(8) == 0x1_0000_0000);
        lemma_hex_round_trip(a as nat, 8, u32::MAX as int);
        lemma_hex_round_trip(b as nat, 8, u32::MAX as int);
        let ta = fixed_hex(a as nat, 8);
        let tb = fixed_hex(b as nat, 8);
        assert(spec_etag(a).len() == ta.len() + 2);
        assert(spec_etag(b).len() == tb.len() + 2);
        assert(spec_etag(a).subrange(1, 1 + ta.len() as int) =~= ta);
        assert(spec_etag(b).subrange(1, 1 + tb.len() as int) =~= tb);
        assert(digits_value(ta, 16) == digits_value(tb, 16));
    }
}

/// What a value is stored under.
#[derive(Debug, Clone, Copy, PartialEq, Eq, Structural)]
pub enum ValueClass {
    Property(u8),
    Other,
}

/// What is done to a stored value.
#[derive(Debug)]
pub enum ValueOp {
    Assign(Vec<u8>),
    Clear,
    Other,
}

/// One operation of a batch of writes, as far as entity tags depend on
/// it.
#[derive(Debug)]
pub enum Operation {
    Value { class: ValueClass, op: ValueOp },
    Other,
}

/// The number that the last four of `bytes` write, the first of them
/// counting most.
pub open spec fn spec_tail_number(bytes: Seq<u8>) -> Option<u32> {
    if bytes.len() >= 4 {
        let n = bytes.len() as int;
        Some(
            (bytes[n - 4] as int * 0x100_0000 + bytes[n - 3] as int * 0x1_0000 + bytes[n - 2] as int
                * 0x100 + bytes[n - 1] as int) as u32,
        )
    } else {
        None
    }
}

/// The fingerprint that the operation writes, where it sets the property
/// `value_property`.
pub open spec fn spec_written_hash(op: &Operation, value_property: u8) -> Option<Option<u32>> {
    match op {
        Operation::Value { class: ValueClass::Property(p), op: ValueOp::Assign(value) } => if *p
            == value_property {
            Some(spec_tail_number(value@))
        } else {
            None
        },
        _ => None,
    }
}

/// The fingerprint that the last of the first `n` operations writes that
/// sets the property `value_property`.
pub open spec fn spec_batch_hash(ops: Seq<Operation>, value_property: u8, n: int) -> Option<u32>
    decreases n,
{
    if n <= 0 {
        None
    } else {
        match spec_written_hash(&ops[n - 1], value_property) {
            Some(hash) => hash,
            None => spec_batch_hash(ops, value_property, n - 1),
        }
    }
}

/// The entity tag that a record has once a batch is committed: that of the
/// fingerprint in the last four bytes of the last value that the batch
/// sets for the property `value_property`.
pub fn extract_etag(ops: &Vec<Operation>, value_property: u8) -> (r: Option<String>)
    ensures
        r.is_some() == spec_batch_hash(ops@, value_property, ops@.len() as int).is_some(),
        r.is_some() ==> r.unwrap()@ == spec_etag(
            spec_batch_hash(ops@, value_property, ops@.len() as int).unwrap(),
        ),
{
    let mut n: usize = ops.len();
    while n > 0
        invariant
            n <= ops.len(),
            spec_batch_hash(ops@, value_property, ops@.len() as int) == spec_batch_hash(
                ops@,
                value_property,
                n as int,
            ),
        decreases n,
    {
        match &ops[n - 1] {
            Operation::Value { class: ValueClass::Property(p), op: ValueOp::Assign(value) } => {
                if *p == value_property {
                    let len = value.len();
                    if len < 4 {
                        return None;
                    }
                    let hash: u32 = (value[len - 4] as u32) * 0x100_0000 + (value[len - 3] as u32)
                        * 0x1_0000 + (value[len - 2] as u32) * 0x100 + (value[len - 1] as u32);
                    return Some(etag_of(hash));
                }
            },
            _ => {},
        }
        n -= 1;
    }
    None
}

impl Collection {
    /// The namespace that answers about the collection are written in.
    pub open spec fn spec_namespace(&self) -> Namespace {
        match self {
            Collection::Calendar | Collection::CalendarEvent => Namespace::CalDav,
            Collection::AddressBook | Collection::ContactCard => Namespace::CardDav,
            _ => Namespace::Dav,
        }
    }

    /// The namespace that answers about the collection are written in.
    pub fn namespace(&self) -> (r: Namespace)
        ensures
            r == self.spec_namespace(),
    {
        match self {
            Collection::Calendar | Collection::CalendarEvent => Namespace::CalDav,
            Collection::AddressBook | Collection::ContactCard => Namespace::CardDav,
            _ => Namespace::Dav,
        }
    }
}

/// One resource that a query reports on.
#[derive(Debug)]
pub struct PropFindItem {
    /// The URI of the resource.
    pub name: String,
    pub account_id: u32,
    pub document_id: u32,
    pub parent_id: Option<u32>,
    pub is_container: bool,
}

/// The filter of a query report.
#[derive(Debug)]
pub enum DavQueryFilter {
    Addressbook,
    Calendar { filter: Vec<Filter>, max_time_range: Option<TimeRange>, timezone: Timezone },
}

/// What a query reports on.
#[derive(Debug)]
pub enum DavQueryResource {
    Uri(OwnedUri),
    Multiget { parent_collection: Collection, hrefs: Vec<String> },
    Query { filter: DavQueryFilter, parent_collection: Collection, items: Vec<PropFindItem> },
    Absent,
}

/// A PROPFIND or a report, as the property engine takes it.
#[derive(Debug)]
pub struct DavQuery {
    pub resource: DavQueryResource,
    pub propfind: PropFind,
    pub from_change_id: Option<u64>,
    pub depth: usize,
    pub limit: Option<u32>,
    pub ret: Return,
    pub depth_no_root: bool,
    pub expand: bool,
}

/// How deep a PROPFIND goes: into the resource alone at depth 0, else one
/// level.
pub open spec fn spec_query_depth(depth: Depth) -> usize {
    if depth == Depth::Zero {
        0
    } else {
        1
    }
}

/// The change that a sync token names: the number of a sync URN, 0 for
/// anything else.
pub open spec fn spec_change_id(sync_token: Option<String>) -> u64 {
    match sync_token {
        Some(token) => match Urn::spec_parse(token@) {
            Some(Urn::Sync(id)) => id,
            _ => 0,
        },
        None => 0,
    }
}

/// The first `n` properties without the dead ones.
pub open spec fn spec_live_properties(items: Seq<ExpandPropertyItem>, n: int) -> Seq<DavProperty>
    decreases n,
{
    if n <= 0 {
        Seq::empty()
    } else if items[n - 1].property is DeadProperty {
        spec_live_properties(items, n - 1)
    } else {
        spec_live_properties(items, n - 1).push(items[n - 1].property)
    }
}

fn query_depth(depth: Depth) -> (r: usize)
    ensures
        r == spec_query_depth(depth),
{
    match depth {
        Depth::Zero => 0,
        _ => 1,
    }
}

fn live_properties(items: Vec<ExpandPropertyItem>) -> (r: Vec<DavProperty>)
    ensures
        r@ == spec_live_properties(items@, items@.len() as int),
{
    let ghost all = items@;
    let n = items.len();
    let mut rest = reversed(items);
    let mut kept: Vec<DavProperty> = Vec::new();
    let mut i: usize = 0;
    while i < n
        invariant
            i <= n,
            n == all.len(),
            rest@ == all.skip(i as int).reverse(),
            kept@ == spec_live_properties(all, i as int),
        decreases n - i,
    {
        let item = rest.pop().unwrap();
        assert(item == all[i as int]);
        assert(rest@ =~= all.skip(i + 1).reverse());
        if let DavProperty::DeadProperty(_) = &item.property {
        } else {
            kept.push(item.property);
        }
        i += 1;
    }
    kept
}

impl DavQuery {
    /// A PROPFIND on a resource.
    pub fn propfind(resource: OwnedUri, propfind: PropFind, headers: RequestHeaders) -> (r: DavQuery)
        ensures
            r.resource == DavQueryResource::Uri(resource),
            r.propfind == propfind,
            r.from_change_id.is_none(),
            r.depth == spec_query_depth(headers.depth),
            r.limit.is_none(),
            r.ret == headers.ret,
            r.depth_no_root == headers.depth_no_root,
            !r.expand,
    {
        DavQuery {
            resource: DavQueryResource::Uri(resource),
            propfind,
            from_change_id: None,
            depth: query_depth(headers.depth),
            limit: None,
            ret: headers.ret,
            depth_no_root: headers.depth_no_root,
            expand: false,
        }
    }

    /// A multiget report on the resources of a collection.
    pub fn multiget(multiget: MultiGet, collection: Collection, headers: RequestHeaders) -> (r:
        DavQuery)
        ensures
            r.resource == (DavQueryResource::Multiget {
                parent_collection: collection,
                hrefs: multiget.hrefs,
            }),
            r.propfind == multiget.properties,
            r.from_change_id.is_none(),
            r.depth == 0,
            r.limit.is_none(),
            r.ret == headers.ret,
            r.depth_no_root == headers.depth_no_root,
            !r.expand,
    {
        DavQuery {
            resource: DavQueryResource::Multiget {
                hrefs: multiget.hrefs,
                parent_collection: collection,
            },
            propfind: multiget.properties,
            from_change_id: None,
            depth: 0,
            limit: None,
            ret: headers.ret,
            depth_no_root: headers.depth_no_root,
            expand: false,
        }
    }

    /// An `addressbook-query` report on the cards `items`.
    pub fn addressbook_query(
        query: AddressbookQuery,
        items: Vec<PropFindItem>,
        headers: RequestHeaders,
    ) -> (r: DavQuery)
        ensures
            r.resource == (DavQueryResource::Query {
                filter: DavQueryFilter::Addressbook,
                parent_collection: Collection::AddressBook,
                items: items,
            }),
            r.propfind == query.properties,
            r.from_change_id.is_none(),
            r.depth == 0,
            r.limit == query.limit,
            r.ret == headers.ret,
            r.depth_no_root == headers.depth_no_root,
            !r.expand,
    {
        DavQuery {
            resource: DavQueryResource::Query {
                filter: DavQueryFilter::Addressbook,
                parent_collection: Collection::AddressBook,
                items,
            },
            propfind: query.properties,
            from_change_id: None,
            depth: 0,
            limit: query.limit,
            ret: headers.ret,
            depth_no_root: headers.depth_no_root,
            expand: false,
        }
    }

    /// A `calendar-query` report on the events `items`.
    pub fn calendar_query(
        query: CalendarQuery,
        max_time_range: Option<TimeRange>,
        items: Vec<PropFindItem>,
        headers: RequestHeaders,
    ) -> (r: DavQuery)
        ensures
            r.resource == (DavQueryResource::Query {
                filter: DavQueryFilter::Calendar {
                    filter: query.filters,
                    max_time_range: max_time_range,
                    timezone: query.timezone,
                },
                parent_collection: Collection::Calendar,
                items: items,
            }),
            r.propfind == query.properties,
            r.from_change_id.is_none(),
            r.depth == 0,
            r.limit.is_none(),
            r.ret == headers.ret,
            r.depth_no_root == headers.depth_no_root,
            !r.expand,
    {
        DavQuery {
            resource: DavQueryResource::Query {
                filter: DavQueryFilter::Calendar {
                    filter: query.filters,
                    timezone: query.timezone,
                    max_time_range,
                },
                parent_collection: Collection::Calendar,
                items,
            },
            propfind: query.properties,
            from_change_id: None,
            depth: 0,
            limit: None,
            ret: headers.ret,
            depth_no_root: headers.depth_no_root,
            expand: false,
        }
    }

    /// A `sync-collection` report: the changes since the change that the
    /// sync token names, all of them where it names none.
    pub fn changes(resource: OwnedUri, changes: SyncCollection, headers: RequestHeaders) -> (r:
        DavQuery)
        ensures
            r.resource == DavQueryResource::Uri(resource),
            r.propfind == changes.properties,
            r.from_change_id == Some(spec_change_id(changes.sync_token)),
            r.depth == (if changes.level_inf {
                usize::MAX
            } else {
                1
            }),
            r.limit == changes.limit,
            r.ret == headers.ret,
            r.depth_no_root == headers.depth_no_root,
            !r.expand,
    {
        let from_change_id = match &changes.sync_token {
            Some(token) => match Urn::parse(token.as_str()) {
                Some(urn) => match urn.try_unwrap_sync() {
                    Some(id) => id,
                    None => 0,
                },
                None => 0,
            },
            None => 0,
        };
        DavQuery {
            resource: DavQueryResource::Uri(resource),
            propfind: changes.properties,
            from_change_id: Some(from_change_id),
            depth: if changes.level_inf {
                usize::MAX
            } else {
                1
            },
            limit: changes.limit,
            ret: headers.ret,
            depth_no_root: headers.depth_no_root,
            expand: false,
        }
    }

    /// An `expand-property` report: a PROPFIND for the properties that it
    /// names, the dead ones left out.
    pub fn expand(resource: OwnedUri, expand: ExpandProperty, headers: RequestHeaders) -> (r:
        DavQuery)
        ensures
            r.resource == DavQueryResource::Uri(resource),
            r.propfind is Prop,
            r.propfind->Prop_0@ == spec_live_properties(
                expand.properties@,
                expand.properties@.len() as int,
            ),
            r.from_change_id.is_none(),
            r.depth == spec_query_depth(headers.depth),
            r.limit.is_none(),
            r.ret == headers.ret,
            r.depth_no_root == headers.depth_no_root,
            r.expand,
    {
        DavQuery {
            resource: DavQueryResource::Uri(resource),
            propfind: PropFind::Prop(live_properties(expand.properties)),
            from_change_id: None,
            depth: query_depth(headers.depth),
            limit: None,
            ret: headers.ret,
            depth_no_root: headers.depth_no_root,
            expand: true,
        }
    }

    /// Whether the client asked for a minimal answer.
    pub fn is_minimal(&self) -> (r: bool)
        ensures
            r == (self.ret == Return::Minimal),
    {
        matches!(self.ret, Return::Minimal)
    }
}

/// A stored resource of any kind.
#[derive(Debug)]
pub enum ArchivedResource {
    Calendar(Archive<Calendar>),
    CalendarEvent(Archive<CalendarEvent>),
    AddressBook(Archive<AddressBook>),
    ContactCard(Archive<ContactCard>),
    FileNode(Archive<FileNode>),
}

impl ArchivedResource {
    /// The collection that resources of this kind are stored in.
    pub open spec fn spec_collection(&self) -> Collection {
        match self {
            ArchivedResource::Calendar(_) => Collection::Calendar,
            ArchivedResource::CalendarEvent(_) => Collection::CalendarEvent,
            ArchivedResource::AddressBook(_) => Collection::AddressBook,
            ArchivedResource::ContactCard(_) => Collection::ContactCard,
            ArchivedResource::FileNode(_) => Collection::FileNode,
        }
    }

    /// The collection that resources of this kind are stored in.
    pub fn collection(&self) -> (r: Collection)
        ensures
            r == self.spec_collection(),
    {
        match self {
            ArchivedResource::Calendar(_) => Collection::Calendar,
            ArchivedResource::CalendarEvent(_) => Collection::CalendarEvent,
            ArchivedResource::AddressBook(_) => Collection::AddressBook,
            ArchivedResource::ContactCard(_) => Collection::ContactCard,
            ArchivedResource::FileNode(_) => Collection::FileNode,
        }
    }

    /// The grants of a container; an item has none of its own.
    pub fn acls(&self) -> (r: Option<&Vec<AclGrant>>)
        ensures
            r == (match self {
                ArchivedResource::Calendar(archive) => Some(&archive.inner.acls),
                ArchivedResource::AddressBook(archive) => Some(&archive.inner.acls),
                ArchivedResource::FileNode(archive) => Some(&archive.inner.acls),
                _ => None,
            }),
    {
        match self {
            ArchivedResource::Calendar(archive) => Some(&archive.inner.acls),
            ArchivedResource::AddressBook(archive) => Some(&archive.inner.acls),
            ArchivedResource::FileNode(archive) => Some(&archive.inner.acls),
            _ => None,
        }
    }

    /// When the resource was created.
    pub fn created(&self) -> (r: i64)
        ensures
            r == (match self {
                ArchivedResource::Calendar(archive) => archive.inner.created,
                ArchivedResource::CalendarEvent(archive) => archive.inner.created,
                ArchivedResource::AddressBook(archive) => archive.inner.created,
                ArchivedResource::ContactCard(archive) => archive.inner.created,
                ArchivedResource::FileNode(archive) => archive.inner.created,
            }),
    {
        match self {
            ArchivedResource::Calendar(archive) => archive.inner.created,
            ArchivedResource::CalendarEvent(archive) => archive.inner.created,
            ArchivedResource::AddressBook(archive) => archive.inner.created,
            ArchivedResource::ContactCard(archive) => archive.inner.created,
            ArchivedResource::FileNode(archive) => archive.inner.created,
        }
    }

    /// When the resource was last changed.
    pub fn modified(&self) -> (r: i64)
        ensures
            r == (match self {
                ArchivedResource::Calendar(archive) => archive.inner.modified,
                ArchivedResource::CalendarEvent(archive) => archive.inner.modified,
                ArchivedResource::AddressBook(archive) => archive.inner.modified,
                ArchivedResource::ContactCard(archive) => archive.inner.modified,
                ArchivedResource::FileNode(archive) => archive.inner.modified,
            }),
    {
        match self {
            ArchivedResource::Calendar(archive) => archive.inner.modified,
            ArchivedResource::CalendarEvent(archive) => archive.inner.modified,
            ArchivedResource::AddressBook(archive) => archive.inner.modified,
            ArchivedResource::ContactCard(archive) => archive.inner.modified,
            ArchivedResource::FileNode(archive) => archive.inner.modified,
        }
    }

    /// The dead properties of the resource.
    pub fn dead_properties(&self) -> (r: &DeadProperty)
        ensures
            *r == (match self {
                ArchivedResource::Calendar(archive) => archive.inner.dead_properties,
                ArchivedResource::CalendarEvent(archive) => archive.inner.dead_properties,
                ArchivedResource::AddressBook(archive) => archive.inner.dead_properties,
                ArchivedResource::ContactCard(archive) => archive.inner.dead_properties,
                ArchivedResource::FileNode(archive) => archive.inner.dead_properties,
            }),
    {
        match self {
            ArchivedResource::Calendar(archive) => &archive.inner.dead_properties,
            ArchivedResource::CalendarEvent(archive) => &archive.inner.dead_properties,
            ArchivedResource::AddressBook(archive) => &archive.inner.dead_properties,
            ArchivedResource::ContactCard(archive) => &archive.inner.dead_properties,
            ArchivedResource::FileNode(archive) => &archive.inner.dead_properties,
        }
    }

    /// The length of the content of an item; a container has none.
    pub fn content_length(&self) -> (r: Option<u32>)
        ensures
            r == (match self {
                ArchivedResource::FileNode(archive) => match archive.inner.file {
                    Some(file) => Some(file.size),
                    None => None,
                },
                ArchivedResource::CalendarEvent(archive) => Some(archive.inner.size),
                ArchivedResource::ContactCard(archive) => Some(archive.inner.size),
                _ => None,
            }),
    {
        match self {
            ArchivedResource::FileNode(archive) => match &archive.inner.file {
                Some(file) => Some(file.size),
                None => None,
            },
            ArchivedResource::CalendarEvent(archive) => Some(archive.inner.size),
            ArchivedResource::ContactCard(archive) => Some(archive.inner.size),
            ArchivedResource::AddressBook(_) | ArchivedResource::Calendar(_) => None,
        }
    }

    /// The media type of the content of an item.
    pub open spec fn spec_content_type(&self) -> Option<Seq<char>> {
        match self {
            ArchivedResource::FileNode(archive) => match archive.inner.file {
                Some(file) => match file.media_type {
                    Some(media_type) => Some(media_type@),
                    None => None,
                },
                None => None,
            },
            ArchivedResource::CalendarEvent(_) => Some("text/calendar"@),
            ArchivedResource::ContactCard(_) => Some("text/vcard"@),
            _ => None,
        }
    }

    /// The media type of the content of an item.
    pub fn content_type(&self) -> (r: Option<&str>)
        ensures
            r.is_some() == self.spec_content_type().is_some(),
            r.is_some() ==> r.unwrap()@ == self.spec_content_type().unwrap(),
    {
        match self {
            ArchivedResource::FileNode(archive) => match &archive.inner.file {
                Some(file) => match &file.media_type {
                    Some(media_type) => Some(media_type.as_str()),
                    None => None,
                },
                None => None,
            },
            ArchivedResource::CalendarEvent(_) => Some("text/calendar"),
            ArchivedResource::ContactCard(_) => Some("text/vcard"),
            ArchivedResource::AddressBook(_) | ArchivedResource::Calendar(_) => None,
        }
    }

    /// The name that `account_id` sees the resource by.
    pub open spec fn spec_display_name(&self, account_id: u32) -> Option<Seq<char>> {
        let name = match self {
            ArchivedResource::Calendar(archive) => match archive.inner.spec_preferences(
                account_id,
            ) {
                Some(i) => Some(archive.inner.preferences@[i].name),
                None => None,
            },
            ArchivedResource::CalendarEvent(archive) => archive.inner.display_name,
            ArchivedResource::AddressBook(archive) => archive.inner.display_name,
            ArchivedResource::ContactCard(archive) => archive.inner.display_name,
            ArchivedResource::FileNode(archive) => archive.inner.display_name,
        };
        match name {
            Some(name) => Some(name@),
            None => None,
        }
    }

    /// The name that `account_id` sees the resource by.
    pub fn display_name(&self, account_id: u32) -> (r: Option<&str>)
        ensures
            r.is_some() == self.spec_display_name(account_id).is_some(),
            r.is_some() ==> r.unwrap()@ == self.spec_display_name(account_id).unwrap(),
    {
        let name = match self {
            ArchivedResource::Calendar(archive) => match archive.inner.preferences(account_id) {
                Some(preferences) => Some(&preferences.name),
                None => None,
            },
            ArchivedResource::CalendarEvent(archive) => archive.inner.display_name.as_ref(),
            ArchivedResource::AddressBook(archive) => archive.inner.display_name.as_ref(),
            ArchivedResource::ContactCard(archive) => archive.inner.display_name.as_ref(),
            ArchivedResource::FileNode(archive) => archive.inner.display_name.as_ref(),
        };
        match name {
            Some(name) => Some(name.as_str()),
            None => None,
        }
    }

    /// The reports that the resource answers: those of its profile for a
    /// container, none for an item.
    pub open spec fn spec_supported_report_set(&self) -> Option<Seq<ReportSet>> {
        match self {
            ArchivedResource::Calendar(_) => Some(
                seq![
                    ReportSet::SyncCollection,
                    ReportSet::AclPrincipalPropSet,
                    ReportSet::PrincipalMatch,
                    ReportSet::ExpandProperty,
                    ReportSet::CalendarQuery,
                    ReportSet::CalendarMultiGet,
                    ReportSet::FreeBusyQuery,
                ],
            ),
            ArchivedResource::AddressBook(_) => Some(
                seq![
                    ReportSet::SyncCollection,
                    ReportSet::AclPrincipalPropSet,
                    ReportSet::PrincipalMatch,
                    ReportSet::ExpandProperty,
                    ReportSet::AddressbookQuery,
                    ReportSet::AddressbookMultiGet,
                ],
            ),
            ArchivedResource::FileNode(archive) => if archive.inner.file.is_none() {
                Some(
                    seq![
                        ReportSet::SyncCollection,
                        ReportSet::AclPrincipalPropSet,
                        ReportSet::PrincipalMatch,
                    ],
                )
            } else {
                None
            },
            _ => None,
        }
    }

    /// The reports that the resource answers.
    pub fn supported_report_set(&self) -> (r: Option<Vec<ReportSet>>)
        ensures
            r.is_some() == self.spec_supported_report_set().is_some(),
            r.is_some() ==> r.unwrap()@ == self.spec_supported_report_set().unwrap(),
    {
        match self {
            ArchivedResource::Calendar(_) => {
                let v = vec![
                    ReportSet::SyncCollection,
                    ReportSet::AclPrincipalPropSet,
                    ReportSet::PrincipalMatch,
                    ReportSet::ExpandProperty,
                    ReportSet::CalendarQuery,
                    ReportSet::CalendarMultiGet,
                    ReportSet::FreeBusyQuery,
                ];
                assert(v@ =~= self.spec_supported_report_set().unwrap());
                Some(v)
            },
            ArchivedResource::AddressBook(_) => {
                let v = vec![
                    ReportSet::SyncCollection,
                    ReportSet::AclPrincipalPropSet,
                    ReportSet::PrincipalMatch,
                    ReportSet::ExpandProperty,
                    ReportSet::AddressbookQuery,
                    ReportSet::AddressbookMultiGet,
                ];
                assert(v@ =~= self.spec_supported_report_set().unwrap());
                Some(v)
            },
            ArchivedResource::FileNode(archive) => {
                if archive.inner.file.is_none() {
                    let v = vec![
                        ReportSet::SyncCollection,
                        ReportSet::AclPrincipalPropSet,
                        ReportSet::PrincipalMatch,
                    ];
                    assert(v@ =~= self.spec_supported_report_set().unwrap());
                    Some(v)
                } else {
                    None
                }
            },
            _ => None,
        }
    }

    /// The resource types of a container; an item has none.
    pub open spec fn spec_resource_type(&self) -> Option<Seq<ResourceType>> {
        match self {
            ArchivedResource::Calendar(_) => Some(
                seq![ResourceType::Collection, ResourceType::Calendar],
            ),
            ArchivedResource::AddressBook(_) => Some(
                seq![ResourceType::Collection, ResourceType::AddressBook],
            ),
            ArchivedResource::FileNode(archive) => if archive.inner.file.is_none() {
                Some(seq![ResourceType::Collection])
            } else {
                None
            },
            _ => None,
        }
    }

    /// The resource types of a container; an item has none.
    pub fn resource_type(&self) -> (r: Option<Vec<ResourceType>>)
        ensures
            r.is_some() == self.spec_resource_type().is_some(),
            r.is_some() ==> r.unwrap()@ == self.spec_resource_type().unwrap(),
    {
        match self {
            ArchivedResource::Calendar(_) => {
                let v = vec![ResourceType::Collection, ResourceType::Calendar];
                assert(v@ =~= self.spec_resource_type().unwrap());
                Some(v)
            },
            ArchivedResource::AddressBook(_) => {
                let v = vec![ResourceType::Collection, ResourceType::AddressBook];
                assert(v@ =~= self.spec_resource_type().unwrap());
                Some(v)
            },
            ArchivedResource::FileNode(archive) => {
                if archive.inner.file.is_none() {
                    let v = vec![ResourceType::Collection];
                    assert(v@ =~= self.spec_resource_type().unwrap());
                    Some(v)
                } else {
                    None
                }
            },
            _ => None,
        }
    }
}

} // verus!
