//! The protocol's vocabulary: properties and their values, per-property
//! results, preconditions, time ranges, and the dead-property bag.

use crate::calendar::ical::{ComponentKind, ParameterName, PropertyName};
use crate::status;
use crate::vecs::reversed;
use crate::text::{
    byte_len, chars_of, find, find_from, has_at, matches_at, same_chars, same_text, text_len,
};
use vstd::prelude::*;

verus! {

/// The `Depth` request header.
#[derive(Debug, Clone, Copy, PartialEq, Eq, Structural)]
pub enum Depth {
    Zero,
    One,
    Infinity,
    Absent,
}

/// The `Prefer: return=` request header.
#[derive(Debug, Clone, Copy, PartialEq, Eq, Structural)]
pub enum Return {
    Minimal,
    Representation,
    Absent,
}

/// The XML namespace that a multi-status body is written in.
#[derive(Debug, Clone, Copy, PartialEq, Eq, Structural)]
pub enum Namespace {
    Dav,
    CalDav,
    CardDav,
}

/// The kinds of resource that a `resourcetype` property names.
#[derive(Debug, Clone, Copy, PartialEq, Eq, Structural)]
pub enum ResourceType {
    Collection,
    Principal,
    AddressBook,
    Calendar,
}

/// The reports that a resource can answer.
#[derive(Debug, Clone, Copy, PartialEq, Eq, Structural)]
pub enum ReportSet {
    SyncCollection,
    ExpandProperty,
    AddressbookQuery,
    AddressbookMultiGet,
    CalendarQuery,
    CalendarMultiGet,
    FreeBusyQuery,
    AclPrincipalPropSet,
    PrincipalMatch,
    PrincipalPropertySearch,
    PrincipalSearchPropertySet,
}

/// Preconditions of the base protocol.
#[derive(Debug, Clone, Copy, PartialEq, Eq, Structural)]
pub enum BaseCondition {
    NoConflictingLock,
    LockTokenSubmitted,
    ResourceMustBeNull,
    ValidResourceType,
    QuotaNotExceeded,
    SufficientDiskSpace,
    NeedPrivileges,
}

/// Preconditions of the calendar profile.
#[derive(Debug, Clone, Copy, PartialEq, Eq, Structural)]
pub enum CalCondition {
    CalendarCollectionLocationOk,
    ValidCalendarData,
    ValidFilter,
    ValidTimezone,
    SupportedCalendarData,
    SupportedCalendarComponent,
    MaxResourceSize,
    NoUidConflict,
}

/// Preconditions of the address-book profile.
#[derive(Debug, Clone, Copy, PartialEq, Eq, Structural)]
pub enum CardCondition {
    SupportedAddressData,
    ValidAddressData,
    NoUidConflict,
    MaxResourceSize,
    AddressBookCollectionLocationOk,
}

/// The precondition element that accompanies a failure status.
#[derive(Debug, Clone, Copy, PartialEq, Eq, Structural)]
pub enum Condition {
    Base(BaseCondition),
    Cal(CalCondition),
    Card(CardCondition),
}

/// A closed-open span of time, in seconds since the epoch.
#[derive(Debug, Clone, Copy, PartialEq, Eq, Structural)]
pub struct TimeRange {
    pub start: i64,
    pub end: i64,
}

impl TimeRange {
    /// Whether something that lasts from `start` to `end` overlaps this
    /// range. An event overlaps when it begins before the range ends and ends
    /// after the range begins. A to-do, which may have no extent, overlaps
    /// when the range begins no later than its end and the range ends after
    /// its start or no earlier than its end.
    pub open spec fn spec_is_in_range(&self, is_todo: bool, start: i64, end: i64) -> bool {
        if is_todo {
            self.start <= end && (self.end > start || self.end >= end)
        } else {
            self.start < end && self.end > start
        }
    }

    /// The moment lies in the range, its end left out.
    pub open spec fn spec_holds_moment(&self, timestamp: i64) -> bool {
        self.start <= timestamp && self.end > timestamp
    }

    /// Whether the moment lies in the range, its end left out.
    pub fn holds_moment(&self, timestamp: i64) -> (r: bool)
        ensures
            r == self.spec_holds_moment(timestamp),
    {
        self.start <= timestamp && self.end > timestamp
    }

    /// Whether something that lasts from `start` to `end` overlaps this range.
    pub fn is_in_range(&self, is_todo: bool, start: i64, end: i64) -> (r: bool)
        ensures
            r == self.spec_is_in_range(is_todo, start, end),
    {
        if is_todo {
            self.start <= end && (self.end > start || self.end >= end)
        } else {
            self.start < end && self.end > start
        }
    }
}

/// The qualified name of a dead property, with the attributes it was sent
/// with.
#[derive(Debug)]
pub struct DeadElementTag {
    pub name: String,
    pub attrs: Option<String>,
}

impl DeadElementTag {
    /// The bytes that the tag takes in the bag.
    pub open spec fn spec_size(&self) -> nat {
        byte_len(self.name@) + match self.attrs {
            Some(a) => byte_len(a@),
            None => 0,
        }
    }

    /// The bytes that the tag takes in the bag.
    pub fn size(&self) -> (r: usize)
        requires
            self.spec_size() <= usize::MAX,
        ensures
            r == self.spec_size(),
    {
        let n = text_len(self.name.as_str());
        match &self.attrs {
            Some(a) => n + text_len(a.as_str()),
            None => n,
        }
    }

    /// A copy of the tag.
    pub fn duplicate(&self) -> (r: DeadElementTag)
        ensures
            r == *self,
    {
        DeadElementTag {
            name: self.name.clone(),
            attrs: match &self.attrs {
                Some(a) => Some(a.clone()),
                None => None,
            },
        }
    }
}

/// One dead property: its name and the XML fragment kept for it.
#[derive(Debug)]
pub struct DeadEntry {
    pub tag: DeadElementTag,
    pub content: String,
}

impl DeadEntry {
    /// The bytes that the entry takes in the bag.
    pub open spec fn spec_size(&self) -> nat {
        self.tag.spec_size() + byte_len(self.content@)
    }
}

/// The bytes that the first `n` entries take.
pub open spec fn entries_size(entries: Seq<DeadEntry>, n: int) -> nat
    decreases n,
{
    if n <= 0 {
        0
    } else {
        entries_size(entries, n - 1) + entries[n - 1].spec_size()
    }
}

/// The first `n` entries without those named `name`.
pub open spec fn entries_without(entries: Seq<DeadEntry>, name: Seq<char>, n: int) -> Seq<DeadEntry>
    decreases n,
{
    if n <= 0 {
        Seq::empty()
    } else if entries[n - 1].tag.name@ == name {
        entries_without(entries, name, n - 1)
    } else {
        entries_without(entries, name, n - 1).push(entries[n - 1])
    }
}

/// More entries take no fewer bytes.
pub proof fn lemma_entries_size_grows(entries: Seq<DeadEntry>, n: int, m: int)
    requires
        n <= m,
    ensures
        entries_size(entries, n) <= entries_size(entries, m),
    decreases m - n,
{
    if n < m {
        lemma_entries_size_grows(entries, n, m - 1);
    }
}

/// Removing entries never makes a bag larger.
pub proof fn lemma_without_size(entries: Seq<DeadEntry>, name: Seq<char>, n: int)
    requires
        0 <= n <= entries.len(),
    ensures
        entries_size(
            entries_without(entries, name, n),
            entries_without(entries, name, n).len() as int,
        ) <= entries_size(entries, n),
        forall|k: int|
            0 <= k < entries_without(entries, name, n).len() ==> (#[trigger] entries_without(
                entries,
                name,
                n,
            )[k]).tag.name@ != name,
    decreases n,
{
    if n > 0 {
        lemma_without_size(entries, name, n - 1);
        let prev = entries_without(entries, name, n - 1);
        if entries[n - 1].tag.name@ != name {
            let cur = prev.push(entries[n - 1]);
            lemma_size_prefix(cur, prev, prev.len() as int);
        }
    }
}

/// The size of a prefix depends on that prefix alone.
pub proof fn lemma_size_prefix(a: Seq<DeadEntry>, b: Seq<DeadEntry>, n: int)
    requires
        0 <= n <= a.len(),
        n <= b.len(),
        forall|k: int| 0 <= k < n ==> a[k] == b[k],
    ensures
        entries_size(a, n) == entries_size(b, n),
    decreases n,
{
    if n > 0 {
        lemma_size_prefix(a, b, n - 1);
    }
}

/// The dead properties of a resource: client-defined properties kept as
/// they came, in the order in which they were set.
#[derive(Debug)]
pub struct DeadProperty {
    pub entries: Vec<DeadEntry>,
}

impl DeadProperty {
    /// The bytes that the bag takes.
    pub open spec fn spec_size(&self) -> nat {
        entries_size(self.entries@, self.entries@.len() as int)
    }

    /// The entries left once those named `name` are taken out.
    pub open spec fn spec_without(&self, name: Seq<char>) -> Seq<DeadEntry> {
        entries_without(self.entries@, name, self.entries@.len() as int)
    }

    /// A bag without entries.
    pub fn new() -> (r: DeadProperty)
        ensures
            r.entries@.len() == 0,
    {
        DeadProperty { entries: Vec::new() }
    }

    /// Whether the bytes of the bag can be counted: their number fits the
    /// machine's word.
    pub fn fits(&self) -> (r: bool)
        ensures
            r == (self.spec_size() <= usize::MAX),
    {
        let mut total: usize = 0;
        let mut i: usize = 0;
        while i < self.entries.len()
            invariant
                i <= self.entries.len(),
                total == entries_size(self.entries@, i as int),
            decreases self.entries.len() - i,
        {
            proof {
                lemma_entries_size_grows(
                    self.entries@,
                    i as int + 1,
                    self.entries@.len() as int,
                );
            }
            let e = &self.entries[i];
            let name = text_len(e.tag.name.as_str());
            let attrs = match &e.tag.attrs {
                Some(a) => text_len(a.as_str()),
                None => 0,
            };
            let content = text_len(e.content.as_str());
            total = match total.checked_add(name) {
                Some(a) => match a.checked_add(attrs) {
                    Some(b) => match b.checked_add(content) {
                        Some(c) => c,
                        None => {
                            return false;
                        },
                    },
                    None => {
                        return false;
                    },
                },
                None => {
                    return false;
                },
            };
            i += 1;
        }
        true
    }

    /// The bytes that the bag takes.
    pub fn size(&self) -> (r: usize)
        requires
            self.spec_size() <= usize::MAX,
        ensures
            r == self.spec_size(),
    {
        let mut total: usize = 0;
        let mut i: usize = 0;
        while i < self.entries.len()
            invariant
                i <= self.entries.len(),
                total == entries_size(self.entries@, i as int),
                self.spec_size() <= usize::MAX,
            decreases self.entries.len() - i,
        {
            proof {
                lemma_entries_size_grows(
                    self.entries@,
                    i as int + 1,
                    self.entries@.len() as int,
                );
            }
            let e = &self.entries[i];
            total = total + e.tag.size() + text_len(e.content.as_str());
            i += 1;
        }
        total
    }

    /// Takes out every entry named as `element` is.
    pub fn remove_element(&mut self, element: &DeadElementTag)
        ensures
            final(self).entries@ == old(self).spec_without(element.name@),
    {
        let mut taken: Vec<DeadEntry> = Vec::new();
        core::mem::swap(&mut self.entries, &mut taken);
        let ghost all = taken@;
        let n = taken.len();
        let mut rest = reversed(taken);
        let mut kept: Vec<DeadEntry> = Vec::new();
        let mut i: usize = 0;
        while i < n
            invariant
                i <= n,
                n == all.len(),
                rest@ == all.skip(i as int).reverse(),
                kept@ == entries_without(all, element.name@, i as int),
            decreases n - i,
        {
            let e = rest.pop().unwrap();
            assert(e == all[i as int]);
            assert(rest@ =~= all.skip(i + 1).reverse());
            if !same_text(e.tag.name.as_str(), element.name.as_str()) {
                kept.push(e);
            }
            i += 1;
        }
        self.entries = kept;
    }

    /// Puts `content` under `element` at the end of the bag.
    pub fn add_element(&mut self, element: DeadElementTag, content: String)
        ensures
            final(self).entries@ == old(self).entries@.push(
                (DeadEntry { tag: element, content: content }),
            ),
    {
        self.entries.push(DeadEntry { tag: element, content });
    }
}

/// The properties of the base protocol.
#[derive(Debug, Clone, Copy, PartialEq, Eq, Structural)]
pub enum WebDavProperty {
    CreationDate,
    DisplayName,
    GetContentLanguage,
    GetContentLength,
    GetContentType,
    GetETag,
    GetLastModified,
    ResourceType,
    LockDiscovery,
    SupportedLock,
    CurrentUserPrincipal,
    QuotaAvailableBytes,
    QuotaUsedBytes,
    SupportedReportSet,
    SyncToken,
    Owner,
    Group,
    Acl,
}

/// One property of a component that `calendar-data` asks for.
#[derive(Debug)]
pub struct CalendarDataProperty {
    /// The type of the components that the selector is about; any where
    /// none is given.
    pub component: Option<ComponentKind>,
    /// The property that the selector is about; any where none is given.
    pub name: Option<PropertyName>,
    /// The property is to be written without its value.
    pub no_value: bool,
}

/// What `calendar-data` asks for: the properties to return, and how to
/// treat recurrences and free-busy periods.
#[derive(Debug)]
pub struct CalendarData {
    pub properties: Vec<CalendarDataProperty>,
    pub expand: Option<TimeRange>,
    pub limit_recurrence: Option<TimeRange>,
    pub limit_freebusy: Option<TimeRange>,
}

/// The properties of the calendar profile.
#[derive(Debug)]
pub enum CalDavProperty {
    CalendarDescription,
    CalendarTimezone,
    TimezoneId,
    SupportedCalendarComponentSet,
    SupportedCalendarData,
    MaxResourceSize,
    CalendarData(CalendarData),
}

/// The properties of the address-book profile.
#[derive(Debug, Clone, Copy, PartialEq, Eq, Structural)]
pub enum CardDavProperty {
    AddressbookDescription,
    SupportedAddressData,
    MaxResourceSize,
    AddressData,
}

/// A property by its name.
#[derive(Debug)]
pub enum DavProperty {
    WebDav(WebDavProperty),
    CalDav(CalDavProperty),
    CardDav(CardDavProperty),
    DeadProperty(DeadElementTag),
}

/// A calendar object that came as the value of a property: what the engine
/// reads of it, and the object as it came.
#[derive(Debug)]
pub struct CalendarObject {
    /// The bytes that the object takes in memory.
    pub size: usize,
    /// The object defines exactly one time zone.
    pub is_timezone: bool,
    pub text: String,
}

/// The value of a property.
#[derive(Debug)]
pub enum DavValue {
    String(String),
    Timestamp(i64),
    Uint64(u64),
    ICalendar(CalendarObject),
    ResourceTypes(Vec<ResourceType>),
    /// The XML fragment of a dead property.
    DeadProperty(String),
    Null,
}

/// A property with its value.
#[derive(Debug)]
pub struct DavPropertyValue {
    pub property: DavProperty,
    pub value: DavValue,
}

impl From<DavProperty> for DavPropertyValue {
    fn from(property: DavProperty) -> (r: DavPropertyValue) {
        DavPropertyValue { property, value: DavValue::Null }
    }
}

impl vstd::std_specs::convert::FromSpecImpl<DavProperty> for DavPropertyValue {
    open spec fn obeys_from_spec() -> bool {
        true
    }

    open spec fn from_spec(property: DavProperty) -> DavPropertyValue {
        DavPropertyValue { property: property, value: DavValue::Null }
    }
}

/// The result for one property or a group of properties.
#[derive(Debug)]
pub struct PropStat {
    pub props: Vec<DavPropertyValue>,
    pub status: u16,
    pub error: Option<Condition>,
    pub response_description: Option<String>,
}

/// What a result says: the properties, the status, the precondition that
/// failed and the description as text.
pub struct PropStatView {
    pub props: Seq<DavPropertyValue>,
    pub status: u16,
    pub error: Option<Condition>,
    pub description: Option<Seq<char>>,
}

impl View for PropStat {
    type V = PropStatView;

    open spec fn view(&self) -> PropStatView {
        PropStatView {
            props: self.props@,
            status: self.status,
            error: self.error,
            description: match self.response_description {
                Some(d) => Some(d@),
                None => None,
            },
        }
    }
}

/// What each of `items` says.
pub open spec fn propstat_views(items: Seq<PropStat>) -> Seq<PropStatView> {
    Seq::new(items.len(), |i: int| items[i]@)
}

/// The result for the property `prop` alone.
pub open spec fn spec_propstat(
    prop: DavProperty,
    status: u16,
    error: Option<Condition>,
    description: Option<Seq<char>>,
) -> PropStatView {
    PropStatView {
        props: seq![DavPropertyValue { property: prop, value: DavValue::Null }],
        status: status,
        error: error,
        description: description,
    }
}

impl PropStat {
    /// The result 200 for one property.
    pub fn new(prop: DavProperty) -> (r: PropStat)
        ensures
            r@ == spec_propstat(prop, status::OK, None, None),
    {
        let mut props: Vec<DavPropertyValue> = Vec::new();
        props.push(DavPropertyValue { property: prop, value: DavValue::Null });
        let r = PropStat { props, status: status::OK, error: None, response_description: None };
        assert(r@.props =~= spec_propstat(prop, status::OK, None, None).props);
        r
    }

    /// The result with another status.
    pub fn with_status(self, status: u16) -> (r: PropStat)
        ensures
            r@ == (PropStatView { status: status, ..self@ }),
    {
        let mut r = self;
        r.status = status;
        r
    }

    /// The result with the precondition that failed.
    pub fn with_error(self, condition: Condition) -> (r: PropStat)
        ensures
            r@ == (PropStatView { error: Some(condition), ..self@ }),
    {
        let mut r = self;
        r.error = Some(condition);
        r
    }

    /// The result with the reason in words.
    pub fn with_response_description(self, description: &str) -> (r: PropStat)
        ensures
            r@ == (PropStatView { description: Some(description@), ..self@ }),
    {
        let mut r = self;
        r.response_description = Some(description.to_owned());
        r
    }
}

/// Which properties a request asks for.
#[derive(Debug)]
pub enum PropFind {
    PropName,
    AllProp(Vec<DavProperty>),
    Prop(Vec<DavProperty>),
}

/// How a text is compared.
#[derive(Debug, Clone, Copy, PartialEq, Eq, Structural)]
pub enum MatchType {
    Equals,
    Contains,
    StartsWith,
    EndsWith,
}

/// A text to look for. The text of the property is put in lower case
/// before it is compared, so `value` is in lower case.
#[derive(Debug)]
pub struct TextMatch {
    pub match_type: MatchType,
    pub value: String,
    pub negate: bool,
}

impl TextMatch {
    /// Whether `text` is what is looked for: it is, begins with, ends with
    /// or holds `value`, or, where `negate` is set, does not.
    pub open spec fn spec_matches(&self, text: Seq<char>) -> bool {
        let v = self.value@;
        let hit = match self.match_type {
            MatchType::Equals => text == v,
            MatchType::Contains => find_from(text, v, 0).is_some(),
            MatchType::StartsWith => matches_at(text, v, 0),
            MatchType::EndsWith => matches_at(text, v, text.len() - v.len()),
        };
        hit != self.negate
    }

    /// Whether `text`, which is in lower case, is what is looked for.
    pub fn matches(&self, text: &str) -> (r: bool)
        ensures
            r == self.spec_matches(text@),
    {
        let t = chars_of(text);
        let v = chars_of(self.value.as_str());
        let hit = match self.match_type {
            MatchType::Equals => {
                assert(t@.subrange(0, t@.len() as int) =~= t@);
                same_chars(&t, 0, t.len(), &v)
            },
            MatchType::Contains => find(&t, &v, 0).is_some(),
            MatchType::StartsWith => has_at(&t, 0, &v),
            MatchType::EndsWith => if v.len() <= t.len() {
                has_at(&t, t.len() - v.len(), &v)
            } else {
                false
            },
        };
        hit != self.negate
    }
}

/// What a filter asks of what it selects.
#[derive(Debug)]
pub enum FilterOp {
    Exists,
    Undefined,
    TextMatch(TextMatch),
    TimeRange(TimeRange),
}

/// One entry of a calendar filter. `comp` is the path of component types
/// that leads to the components that the entry is about.
#[derive(Debug)]
pub enum Filter {
    /// From here on one entry that holds suffices.
    AnyOf,
    /// From here on every entry has to hold.
    AllOf,
    Component { comp: Vec<ComponentKind>, op: FilterOp },
    Property { comp: Vec<ComponentKind>, prop: PropertyName, op: FilterOp },
    Parameter { comp: Vec<ComponentKind>, prop: PropertyName, param: ParameterName, op: FilterOp },
}

/// The time zone that a query gives for times without one.
#[derive(Debug)]
pub enum Timezone {
    Name(String),
    Id(String),
    Absent,
}

/// A `calendar-query` report.
#[derive(Debug)]
pub struct CalendarQuery {
    pub properties: PropFind,
    pub filters: Vec<Filter>,
    pub timezone: Timezone,
}

/// An `addressbook-query` report, its filter left aside.
#[derive(Debug)]
pub struct AddressbookQuery {
    pub properties: PropFind,
    pub limit: Option<u32>,
}

/// A multiget report.
#[derive(Debug)]
pub struct MultiGet {
    pub properties: PropFind,
    pub hrefs: Vec<String>,
}

/// A `sync-collection` report.
#[derive(Debug)]
pub struct SyncCollection {
    pub sync_token: Option<String>,
    pub properties: PropFind,
    pub level_inf: bool,
    pub limit: Option<u32>,
}

/// One property of an `expand-property` report.
#[derive(Debug)]
pub struct ExpandPropertyItem {
    pub property: DavProperty,
    pub depth: u32,
}

/// An `expand-property` report.
#[derive(Debug)]
pub struct ExpandProperty {
    pub properties: Vec<ExpandPropertyItem>,
}

/// A PROPPATCH request: what to set, what to remove, and which comes
/// first.
#[derive(Debug)]
pub struct PropertyUpdate {
    pub set: Vec<DavPropertyValue>,
    pub remove: Vec<DavProperty>,
    pub set_first: bool,
}

impl PropertyUpdate {
    /// Whether the request sets or removes anything.
    pub fn has_changes(&self) -> (r: bool)
        ensures
            r == (self.set@.len() > 0 || self.remove@.len() > 0),
    {
        self.set.len() > 0 || self.remove.len() > 0
    }
}

/// The conditional headers and the other headers that steer a request.
#[derive(Debug)]
pub struct RequestHeaders {
    pub uri: String,
    pub depth: Depth,
    pub ret: Return,
    pub depth_no_root: bool,
    pub overwrite_fail: bool,
    pub destination: Option<String>,
}

} // verus!
