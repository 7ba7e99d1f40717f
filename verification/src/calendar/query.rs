//! The `calendar-query` report: which events a filter selects, and what is
//! written of each.

use crate::calendar::ical::{
    ComponentKind, EntryParameter, EntryValue, EventComponent, EventEntry, ExpandedInstance,
    ICalendar, ParameterName, Period, PropertyName,
};
use crate::calendar::zone::{
    instant_line, rewrite_line, rewritten_line, timestamp_in_zone, write_instant, zone_id_of,
    InstantKind, Zone, FLOATING_ZONE_ID, MAX_ZONE_ID,
};
use crate::calendar::CalendarEvent;
use crate::common::uri::OwnedUri;
use crate::common::{DavQuery, DavQueryFilter, DavQueryResource, PropFindItem};
use crate::hierarchy::{DavResource, DavResources};
use crate::schema::RequestHeaders;
use crate::status;
use crate::token::{AccessToken, Collection};
use crate::vecs::{sort, sorted};
use crate::DavError;
use crate::schema::{
    CalDavProperty, CalendarData, CalendarDataProperty, CalendarQuery, DavProperty, Filter,
    FilterOp, PropFind, TextMatch, TimeRange, Timezone,
};
use crate::text::{lowercase_of, to_lowercase};
use std::collections::HashSet;
use vstd::prelude::*;

verus! {

broadcast use vstd::std_specs::hash::group_hash_axioms;

/// The first start or the last end of the resource's instances lies in the
/// range, ends included. A resource without instances lies in no range.
pub open spec fn spec_in_time_range(resource: &DavResource, range: &TimeRange) -> bool {
    match resource.event_time_range {
        Some((start, end)) => (range.start <= start <= range.end) || (range.start <= end
            <= range.end),
        None => false,
    }
}

/// Whether the stored range of a resource meets `range`.
pub fn is_resource_in_time_range(resource: &DavResource, range: &TimeRange) -> (r: bool)
    ensures
        r == spec_in_time_range(resource, range),
{
    if let Some((start, end)) = resource.event_time_range() {
        (range.start <= start && start <= range.end) || (range.start <= end && end <= range.end)
    } else {
        false
    }
}

/// The time range of a filter entry, if it asks for one.
pub open spec fn spec_filter_time_range(filter: &Filter) -> Option<TimeRange> {
    match filter {
        Filter::Component { op: FilterOp::TimeRange(range), .. } => Some(*range),
        Filter::Property { op: FilterOp::TimeRange(range), .. } => Some(*range),
        Filter::Parameter { op: FilterOp::TimeRange(range), .. } => Some(*range),
        _ => None,
    }
}

/// `range` made to reach as far as `other` on both sides.
pub open spec fn spec_widened(range: TimeRange, other: TimeRange) -> TimeRange {
    TimeRange {
        start: if other.start < range.start {
            other.start
        } else {
            range.start
        },
        end: if other.end > range.end {
            other.end
        } else {
            range.end
        },
    }
}

/// The smallest range that holds `so_far`, where that is a range, and
/// `other`.
pub open spec fn spec_hull(so_far: Option<TimeRange>, other: TimeRange) -> TimeRange {
    match so_far {
        Some(range) => spec_widened(range, other),
        None => other,
    }
}

/// The smallest range that holds the time ranges of the first `n` filter
/// entries; `None` where none of them carries a time range.
pub open spec fn spec_filters_span(filters: Seq<Filter>, n: int) -> Option<TimeRange>
    decreases n,
{
    if n <= 0 {
        None
    } else {
        match spec_filter_time_range(&filters[n - 1]) {
            Some(range) => Some(spec_hull(spec_filters_span(filters, n - 1), range)),
            None => spec_filters_span(filters, n - 1),
        }
    }
}

/// The range to look for events in: the smallest that holds every time
/// range of the filter; `None` exactly where no entry of the filter
/// carries a time range.
pub open spec fn spec_filter_range(query: &CalendarQuery) -> Option<TimeRange> {
    spec_filters_span(query.filters@, query.filters@.len() as int)
}

fn join(so_far: Option<TimeRange>, other: &TimeRange) -> (r: Option<TimeRange>)
    ensures
        r == Some(spec_hull(so_far, *other)),
{
    match so_far {
        Some(range) => {
            let mut range = range;
            if other.start < range.start {
                range.start = other.start;
            }
            if other.end > range.end {
                range.end = other.end;
            }
            Some(range)
        },
        None => Some(*other),
    }
}

/// The range to look for events in, where the filter asks for a time
/// range.
pub fn extract_filter_range(query: &CalendarQuery) -> (r: Option<TimeRange>)
    ensures
        r == spec_filter_range(query),
{
    let mut range: Option<TimeRange> = None;
    let mut i: usize = 0;
    while i < query.filters.len()
        invariant
            i <= query.filters.len(),
            range == spec_filters_span(query.filters@, i as int),
        decreases query.filters.len() - i,
    {
        match &query.filters[i] {
            Filter::Component { op: FilterOp::TimeRange(date_range), .. } => {
                range = join(range, date_range);
            },
            Filter::Property { op: FilterOp::TimeRange(date_range), .. } => {
                range = join(range, date_range);
            },
            Filter::Parameter { op: FilterOp::TimeRange(date_range), .. } => {
                range = join(range, date_range);
            },
            _ => {},
        }
        i += 1;
    }
    range
}

/// A filter has a range exactly where one of its entries carries a time
/// range.
pub proof fn lemma_filter_range_some(filters: Seq<Filter>, n: int)
    requires
        0 <= n <= filters.len(),
    ensures
        spec_filters_span(filters, n).is_some() <==> exists|k: int|
            0 <= k < n && spec_filter_time_range(&#[trigger] filters[k]).is_some(),
    decreases n,
{
    if n > 0 {
        lemma_filter_range_some(filters, n - 1);
        if spec_filter_time_range(&filters[n - 1]).is_some() {
            assert(spec_filter_time_range(&filters[n - 1]).is_some());
        } else if exists|k: int|
            0 <= k < n && spec_filter_time_range(&#[trigger] filters[k]).is_some() {
            let k = choose|k: int|
                0 <= k < n && spec_filter_time_range(&#[trigger] filters[k]).is_some();
            assert(k < n - 1);
        }
    }
}

/// The range of the filter holds every time range that the filter asks
/// for.
pub proof fn lemma_filter_range_covers(filters: Seq<Filter>, n: int, k: int)
    requires
        0 <= k < n <= filters.len(),
        spec_filter_time_range(&filters[k]).is_some(),
    ensures
        spec_filters_span(filters, n).is_some(),
        spec_filters_span(filters, n).unwrap().start <= spec_filter_time_range(
            &filters[k],
        ).unwrap().start,
        spec_filters_span(filters, n).unwrap().end >= spec_filter_time_range(
            &filters[k],
        ).unwrap().end,
    decreases n,
{
    if k < n - 1 {
        lemma_filter_range_covers(filters, n - 1, k);
    }
}

/// Where every time range that a filter asks for is the range `range`, the
/// range of the filter is `range` or the filter has none.
pub proof fn lemma_filter_range_single(filters: Seq<Filter>, n: int, range: TimeRange)
    requires
        0 <= n <= filters.len(),
        forall|k: int|
            0 <= k < n ==> spec_filter_time_range(&#[trigger] filters[k]).is_none()
                || spec_filter_time_range(&filters[k]) == Some(range),
    ensures
        spec_filters_span(filters, n).is_none() || spec_filters_span(filters, n) == Some(range),
    decreases n,
{
    if n > 0 {
        lemma_filter_range_single(filters, n - 1, range);
        assert(spec_filter_time_range(&filters[n - 1]).is_none() || spec_filter_time_range(
            &filters[n - 1],
        ) == Some(range));
    }
}

/// The ranges that `calendar-data` gives: for the expansion and for the
/// limits on recurrences and free-busy periods.
pub open spec fn spec_data_ranges(data: &crate::schema::CalendarData) -> Seq<Option<TimeRange>> {
    seq![data.expand, data.limit_recurrence, data.limit_freebusy]
}

/// The smallest range that holds `range`, where that is one, and the first
/// `n` of `ranges` that are given; `None` where there is none of either.
pub open spec fn spec_span(range: Option<TimeRange>, ranges: Seq<Option<TimeRange>>, n: int) -> Option<
    TimeRange,
>
    decreases n,
{
    if n <= 0 {
        range
    } else {
        match ranges[n - 1] {
            Some(other) => Some(spec_hull(spec_span(range, ranges, n - 1), other)),
            None => spec_span(range, ranges, n - 1),
        }
    }
}

/// The position of the first `calendar-data` among the properties at or
/// after `from`.
pub open spec fn spec_calendar_data_index(props: Seq<DavProperty>, from: int) -> Option<int>
    decreases props.len() - from,
{
    if from < 0 || from >= props.len() {
        None
    } else if props[from] matches DavProperty::CalDav(CalDavProperty::CalendarData(_)) {
        Some(from)
    } else {
        spec_calendar_data_index(props, from + 1)
    }
}

/// The properties that a request names.
pub open spec fn spec_props(propfind: &PropFind) -> Seq<DavProperty> {
    match propfind {
        PropFind::AllProp(props) => props@,
        PropFind::Prop(props) => props@,
        PropFind::PropName => Seq::empty(),
    }
}

/// The range within which recurrences have to be known: the smallest that
/// holds that of the filter and the ranges of the first `calendar-data`
/// that the request names; that of the filter where it names none.
pub open spec fn spec_data_range(propfind: &PropFind, filter_range: Option<TimeRange>) -> Option<
    TimeRange,
> {
    match spec_calendar_data_index(spec_props(propfind), 0) {
        Some(i) => {
            let data = spec_props(propfind)[i]->CalDav_0->CalendarData_0;
            spec_span(filter_range, spec_data_ranges(&data), 3)
        },
        None => filter_range,
    }
}

/// The range within which the recurrences of the reported events have to
/// be known.
pub fn extract_data_range(propfind: &PropFind, filter_range: Option<TimeRange>) -> (r: Option<
    TimeRange,
>)
    ensures
        r == spec_data_range(propfind, filter_range),
{
    let props = match propfind {
        PropFind::AllProp(props) => props,
        PropFind::Prop(props) => props,
        PropFind::PropName => {
            return filter_range;
        },
    };
    let mut i: usize = 0;
    while i < props.len()
        invariant
            i <= props.len(),
            props@ == spec_props(propfind),
            spec_calendar_data_index(props@, 0) == spec_calendar_data_index(props@, i as int),
        decreases props.len() - i,
    {
        if let DavProperty::CalDav(CalDavProperty::CalendarData(data)) = &props[i] {
            let mut range = filter_range;
            let ghost ranges = spec_data_ranges(data);
            proof {
                reveal_with_fuel(spec_span, 4);
            }
            if let Some(other) = &data.expand {
                range = join(range, other);
            }
            assert(range == spec_span(filter_range, ranges, 1));
            if let Some(other) = &data.limit_recurrence {
                range = join(range, other);
            }
            assert(range == spec_span(filter_range, ranges, 2));
            if let Some(other) = &data.limit_freebusy {
                range = join(range, other);
            }
            assert(range == spec_span(filter_range, ranges, 3));
            return range;
        }
        i += 1;
    }
    filter_range
}

/// The zone that a query names, where it names one that is known.
pub open spec fn spec_parse_tz(tz: &Timezone) -> Option<u16> {
    match tz {
        Timezone::Name(value) | Timezone::Id(value) => match zone_id_of(value@) {
            Some(id) => if id <= MAX_ZONE_ID {
                Some(id)
            } else {
                None
            },
            None => None,
        },
        Timezone::Absent => None,
    }
}

/// The zone that a query gives for times without one, where it names one
/// that is known.
pub fn try_parse_tz(tz: &Timezone) -> (r: Option<Zone>)
    ensures
        r.is_some() == spec_parse_tz(tz).is_some(),
        r.is_some() ==> r.unwrap()@ == spec_parse_tz(tz).unwrap(),
{
    match tz {
        Timezone::Name(value) => Zone::from_name(value.as_str()),
        Timezone::Id(value) => Zone::from_name(value.as_str()),
        Timezone::Absent => None,
    }
}


/// The type of the components that a path of component types leads to: the
/// last of the path, the calendar itself for an empty path.
pub open spec fn spec_path_target(comp: Seq<ComponentKind>) -> ComponentKind {
    if comp.len() > 0 {
        comp.last()
    } else {
        ComponentKind::VCalendar
    }
}

/// The path `comp` leads to the component `c`: to any component where it
/// ends at the calendar, else to those of the type it ends at.
pub open spec fn spec_path_selects(comp: Seq<ComponentKind>, c: &EventComponent) -> bool {
    spec_path_target(comp) is VCalendar || c.component_type.spec_same(&spec_path_target(comp))
}

/// The positions below `n` of the components that the path `comp` leads
/// to, ascending.
pub open spec fn spec_find_components(ical: &ICalendar, comp: Seq<ComponentKind>, n: int) -> Seq<
    usize,
>
    decreases n,
{
    if n <= 0 {
        Seq::empty()
    } else if spec_path_selects(comp, &ical.components@[n - 1]) {
        spec_find_components(ical, comp, n - 1).push((n - 1) as usize)
    } else {
        spec_find_components(ical, comp, n - 1)
    }
}

/// The position of the first entry at or after `from` that is the
/// property `prop`.
pub open spec fn spec_find_property(entries: Seq<EventEntry>, prop: &PropertyName, from: int) -> Option<
    int,
>
    decreases entries.len() - from,
{
    if from < 0 || from >= entries.len() {
        None
    } else if entries[from].name.spec_same(prop) {
        Some(from)
    } else {
        spec_find_property(entries, prop, from + 1)
    }
}

/// The position of the first parameter at or after `from` that is named
/// `name`.
pub open spec fn spec_find_parameter(
    params: Seq<EntryParameter>,
    name: &ParameterName,
    from: int,
) -> Option<int>
    decreases params.len() - from,
{
    if from < 0 || from >= params.len() {
        None
    } else if params[from].name.spec_same(name) {
        Some(from)
    } else {
        spec_find_parameter(params, name, from + 1)
    }
}

/// The text of the first `TZID` parameter at or after `from` that has one.
pub open spec fn spec_tz_text(params: Seq<EntryParameter>, from: int) -> Option<Seq<char>>
    decreases params.len() - from,
{
    if from < 0 || from >= params.len() {
        None
    } else if params[from].name is Tzid && params[from].text.is_some() {
        Some(params[from].text.unwrap()@)
    } else {
        spec_tz_text(params, from + 1)
    }
}

/// The zone of the times of an entry: the one that its `TZID` names where
/// that is known, else `default`.
pub open spec fn spec_entry_zone(entry: &EventEntry, default: u16) -> u16 {
    match spec_tz_text(entry.params@, 0) {
        Some(name) => match zone_id_of(name) {
            Some(id) => if id <= MAX_ZONE_ID {
                id
            } else {
                default
            },
            None => default,
        },
        None => default,
    }
}

/// One of the first `n` values is a text that, in lower case, is what
/// `text_match` looks for.
pub open spec fn spec_any_text(values: Seq<EntryValue>, text_match: &TextMatch, n: int) -> bool
    decreases n,
{
    if n <= 0 {
        false
    } else {
        spec_any_text(values, text_match, n - 1) || match values[n - 1].text {
            Some(text) => text_match.spec_matches(lowercase_of(text@)),
            None => false,
        }
    }
}

/// The moment that the first value of an entry names, in the entry's zone.
pub open spec fn spec_entry_timestamp(entry: &EventEntry, default: u16) -> Option<i64> {
    if entry.values@.len() > 0 && entry.values@[0].date_time.is_some() {
        timestamp_in_zone(entry.values@[0].date_time.unwrap(), spec_entry_zone(entry, default))
    } else {
        None
    }
}

/// What a filter asks holds of a property that exists: always where it
/// asks for existence and never where it asks for absence; where it looks
/// for a text, of one of the values; where it gives a time range, of the
/// moment that the first value names, which has to lie in the range, its
/// end left out.
pub open spec fn spec_property_holds(entry: &EventEntry, op: &FilterOp, default: u16) -> bool {
    match op {
        FilterOp::Exists => true,
        FilterOp::Undefined => false,
        FilterOp::TextMatch(text_match) => spec_any_text(
            entry.values@,
            text_match,
            entry.values@.len() as int,
        ),
        FilterOp::TimeRange(range) => match spec_entry_timestamp(entry, default) {
            Some(timestamp) => range.spec_holds_moment(timestamp),
            None => false,
        },
    }
}

/// What a filter asks holds of a parameter that exists. A parameter lies
/// in no time range.
pub open spec fn spec_parameter_holds(param: &EntryParameter, op: &FilterOp) -> bool {
    match op {
        FilterOp::Exists => true,
        FilterOp::Undefined => false,
        FilterOp::TextMatch(text_match) => match param.text {
            Some(text) => text_match.spec_matches(lowercase_of(text@)),
            None => false,
        },
        FilterOp::TimeRange(_) => false,
    }
}

/// One of the first `n` of the components at `found` has the property
/// `prop`, and `op` holds of its first such entry.
pub open spec fn spec_any_property(
    ical: &ICalendar,
    found: Seq<usize>,
    prop: &PropertyName,
    op: &FilterOp,
    default: u16,
    n: int,
) -> bool
    decreases n,
{
    if n <= 0 {
        false
    } else {
        let entries = ical.components@[found[n - 1] as int].entries@;
        spec_any_property(ical, found, prop, op, default, n - 1) || match spec_find_property(
            entries,
            prop,
            0,
        ) {
            Some(i) => spec_property_holds(&entries[i], op, default),
            None => false,
        }
    }
}

/// One of the first `n` of the components at `found` has the property
/// `prop` with the parameter `param`, and `op` holds of the first such
/// parameter of its first such entry.
pub open spec fn spec_any_parameter(
    ical: &ICalendar,
    found: Seq<usize>,
    prop: &PropertyName,
    param: &ParameterName,
    op: &FilterOp,
    n: int,
) -> bool
    decreases n,
{
    if n <= 0 {
        false
    } else {
        let entries = ical.components@[found[n - 1] as int].entries@;
        spec_any_parameter(ical, found, prop, param, op, n - 1) || match spec_find_property(
            entries,
            prop,
            0,
        ) {
            Some(i) => match spec_find_parameter(entries[i].params@, param, 0) {
                Some(k) => spec_parameter_holds(&entries[i].params@[k], op),
                None => false,
            },
            None => false,
        }
    }
}

/// The instance belongs to a component that the path `comp` leads to and
/// overlaps `range`, as a to-do does where the component is one.
pub open spec fn spec_instance_in(
    ical: &ICalendar,
    comp: Seq<ComponentKind>,
    range: &TimeRange,
    instance: ExpandedInstance,
) -> bool {
    instance.comp_id < ical.components@.len() && spec_path_selects(
        comp,
        &ical.components@[instance.comp_id as int],
    ) && range.spec_is_in_range(
        ical.components@[instance.comp_id as int].component_type is VTodo,
        instance.start,
        instance.end,
    )
}

/// The components of those of the first `n` instances that lie in
/// `range`.
pub open spec fn spec_instances_in(
    expanded: Seq<ExpandedInstance>,
    ical: &ICalendar,
    comp: Seq<ComponentKind>,
    range: &TimeRange,
    n: int,
) -> Set<u32>
    decreases n,
{
    if n <= 0 {
        Set::empty()
    } else if spec_instance_in(ical, comp, range, expanded[n - 1]) {
        spec_instances_in(expanded, ical, comp, range, n - 1).insert(expanded[n - 1].comp_id)
    } else {
        spec_instances_in(expanded, ical, comp, range, n - 1)
    }
}

/// Where a scan of a filter stands.
pub struct ScanState {
    /// Every entry has to hold, as opposed to one.
    pub is_all: bool,
    /// An entry held.
    pub matches_one: bool,
    /// An entry that had to hold did not: the event is out.
    pub rejected: bool,
    /// The components with instances in every time range seen so far.
    pub filtered: Set<u32>,
}

/// The state after an entry that holds or does not.
pub open spec fn spec_verdict(state: ScanState, holds: bool) -> ScanState {
    if holds {
        ScanState { matches_one: true, ..state }
    } else if state.is_all {
        ScanState { rejected: true, ..state }
    } else {
        state
    }
}

/// The components that remain once a time range on components has been
/// seen: those with instances in it, and in every range seen before.
pub open spec fn spec_narrowed(filtered: Set<u32>, within: Set<u32>) -> Set<u32> {
    if filtered.is_empty() {
        within
    } else {
        filtered.intersect(within)
    }
}

/// The state after one entry of a filter.
pub open spec fn spec_step(
    state: ScanState,
    ical: &ICalendar,
    expanded: Seq<ExpandedInstance>,
    default: u16,
    filter: &Filter,
) -> ScanState {
    let n = ical.components@.len() as int;
    if state.rejected {
        state
    } else {
        match filter {
            Filter::AnyOf => ScanState { is_all: false, ..state },
            Filter::AllOf => ScanState { is_all: true, ..state },
            Filter::Property { comp, prop, op } => {
                let found = spec_find_components(ical, comp@, n);
                spec_verdict(
                    state,
                    op is Undefined || spec_any_property(
                        ical,
                        found,
                        prop,
                        op,
                        default,
                        found.len() as int,
                    ),
                )
            },
            Filter::Parameter { comp, prop, param, op } => {
                let found = spec_find_components(ical, comp@, n);
                spec_verdict(
                    state,
                    op is Undefined || spec_any_parameter(
                        ical,
                        found,
                        prop,
                        param,
                        op,
                        found.len() as int,
                    ),
                )
            },
            Filter::Component { comp, op } => {
                let found = spec_find_components(ical, comp@, n);
                match op {
                    FilterOp::Exists => spec_verdict(state, found.len() > 0),
                    FilterOp::Undefined => spec_verdict(state, found.len() == 0),
                    FilterOp::TextMatch(_) => spec_verdict(state, false),
                    FilterOp::TimeRange(range) => if found.len() == 0 {
                        spec_verdict(state, false)
                    } else {
                        let within = spec_instances_in(
                            expanded,
                            ical,
                            comp@,
                            range,
                            expanded.len() as int,
                        );
                        let narrowed = spec_narrowed(state.filtered, within);
                        spec_verdict(
                            ScanState { filtered: narrowed, ..state },
                            !narrowed.is_empty(),
                        )
                    },
                }
            },
        }
    }
}

/// The state after the first `n` entries of a filter, from a state in which
/// every entry has to hold and none has held.
pub open spec fn spec_scan(
    filtered: Set<u32>,
    ical: &ICalendar,
    expanded: Seq<ExpandedInstance>,
    default: u16,
    filters: Seq<Filter>,
    n: int,
) -> ScanState
    decreases n,
{
    if n <= 0 {
        ScanState { is_all: true, matches_one: false, rejected: false, filtered: filtered }
    } else {
        spec_step(
            spec_scan(filtered, ical, expanded, default, filters, n - 1),
            ical,
            expanded,
            default,
            &filters[n - 1],
        )
    }
}

/// Whether a scan admits the event: no entry that had to hold failed, and
/// at the end either every entry had to hold or one held.
pub open spec fn spec_admits(state: ScanState) -> bool {
    !state.rejected && (state.is_all || state.matches_one)
}

proof fn lemma_rejected_stays(
    filtered: Set<u32>,
    ical: &ICalendar,
    expanded: Seq<ExpandedInstance>,
    default: u16,
    filters: Seq<Filter>,
    n: int,
    m: int,
)
    requires
        0 <= n <= m,
        spec_scan(filtered, ical, expanded, default, filters, n).rejected,
    ensures
        spec_scan(filtered, ical, expanded, default, filters, m) == spec_scan(
            filtered,
            ical,
            expanded,
            default,
            filters,
            n,
        ),
    decreases m - n,
{
    if n < m {
        lemma_rejected_stays(filtered, ical, expanded, default, filters, n, m - 1);
    }
}

/// The components of an object that a path of component types leads to.
pub fn find_components(ical: &ICalendar, comp: &Vec<ComponentKind>) -> (r: Vec<usize>)
    ensures
        r@ == spec_find_components(ical, comp@, ical.components@.len() as int),
        forall|k: int| 0 <= k < r@.len() ==> (#[trigger] r@[k]) < ical.components@.len(),
{
    let mut out: Vec<usize> = Vec::new();
    let mut i: usize = 0;
    while i < ical.components.len()
        invariant
            i <= ical.components.len(),
            out@ == spec_find_components(ical, comp@, i as int),
            forall|k: int| 0 <= k < out@.len() ==> (#[trigger] out@[k]) < i,
        decreases ical.components.len() - i,
    {
        if path_selects(comp, &ical.components[i]) {
            out.push(i);
        }
        i += 1;
    }
    out
}

fn path_selects(comp: &Vec<ComponentKind>, c: &EventComponent) -> (r: bool)
    ensures
        r == spec_path_selects(comp@, c),
{
    if comp.len() == 0 {
        return true;
    }
    let target = &comp[comp.len() - 1];
    matches!(target, ComponentKind::VCalendar) || c.component_type.same(target)
}

/// The first entry of a component that is the property `prop`.
pub fn find_property<'x>(comp: &'x EventComponent, prop: &PropertyName) -> (r: Option<
    &'x EventEntry,
>)
    ensures
        r.is_some() == spec_find_property(comp.entries@, prop, 0).is_some(),
        r.is_some() ==> *r.unwrap() == comp.entries@[spec_find_property(
            comp.entries@,
            prop,
            0,
        ).unwrap()],
{
    let mut i: usize = 0;
    while i < comp.entries.len()
        invariant
            i <= comp.entries.len(),
            spec_find_property(comp.entries@, prop, 0) == spec_find_property(
                comp.entries@,
                prop,
                i as int,
            ),
        decreases comp.entries.len() - i,
    {
        if comp.entries[i].name.same(prop) {
            return Some(&comp.entries[i]);
        }
        i += 1;
    }
    None
}

/// The first parameter of an entry that is named `name`.
pub fn find_parameter<'x>(entry: &'x EventEntry, name: &ParameterName) -> (r: Option<
    &'x EntryParameter,
>)
    ensures
        r.is_some() == spec_find_parameter(entry.params@, name, 0).is_some(),
        r.is_some() ==> *r.unwrap() == entry.params@[spec_find_parameter(
            entry.params@,
            name,
            0,
        ).unwrap()],
{
    let mut i: usize = 0;
    while i < entry.params.len()
        invariant
            i <= entry.params.len(),
            spec_find_parameter(entry.params@, name, 0) == spec_find_parameter(
                entry.params@,
                name,
                i as int,
            ),
        decreases entry.params.len() - i,
    {
        if entry.params[i].name.same(name) {
            return Some(&entry.params[i]);
        }
        i += 1;
    }
    None
}

/// The zone of the times of an entry.
pub fn entry_zone(entry: &EventEntry, default: Zone) -> (r: Zone)
    ensures
        r@ == spec_entry_zone(entry, default@),
{
    let mut i: usize = 0;
    while i < entry.params.len()
        invariant
            i <= entry.params.len(),
            spec_tz_text(entry.params@, 0) == spec_tz_text(entry.params@, i as int),
        decreases entry.params.len() - i,
    {
        if let ParameterName::Tzid = &entry.params[i].name {
            if let Some(name) = &entry.params[i].text {
                return match Zone::from_name(name.as_str()) {
                    Some(zone) => zone,
                    None => default,
                };
            }
        }
        i += 1;
    }
    default
}

fn property_holds(entry: &EventEntry, op: &FilterOp, default: Zone) -> (r: bool)
    ensures
        r == spec_property_holds(entry, op, default@),
{
    match op {
        FilterOp::Exists => true,
        FilterOp::Undefined => false,
        FilterOp::TextMatch(text_match) => any_text(&entry.values, text_match),
        FilterOp::TimeRange(range) => {
            if entry.values.len() == 0 {
                return false;
            }
            match &entry.values[0].date_time {
                Some(date) => match entry_zone(entry, default).timestamp(date) {
                    Some(timestamp) => range.holds_moment(timestamp),
                    None => false,
                },
                None => false,
            }
        },
    }
}

fn any_text(values: &Vec<EntryValue>, text_match: &TextMatch) -> (r: bool)
    ensures
        r == spec_any_text(values@, text_match, values@.len() as int),
{
    let mut result = false;
    let mut i: usize = 0;
    while i < values.len() && !result
        invariant
            i <= values.len(),
            result == spec_any_text(values@, text_match, i as int),
            result ==> i == values.len() || spec_any_text(values@, text_match, values@.len() as int),
        decreases values.len() - i,
    {
        if let Some(text) = &values[i].text {
            if text_match.matches(to_lowercase(text.as_str()).as_str()) {
                result = true;
                proof {
                    lemma_any_text_grows(values@, text_match, i + 1, values@.len() as int);
                }
            }
        }
        i += 1;
    }
    result
}

proof fn lemma_any_text_grows(values: Seq<EntryValue>, text_match: &TextMatch, n: int, m: int)
    requires
        n <= m,
        spec_any_text(values, text_match, n),
    ensures
        spec_any_text(values, text_match, m),
    decreases m - n,
{
    if n < m {
        lemma_any_text_grows(values, text_match, n, m - 1);
    }
}

fn parameter_holds(param: &EntryParameter, op: &FilterOp) -> (r: bool)
    ensures
        r == spec_parameter_holds(param, op),
{
    match op {
        FilterOp::Exists => true,
        FilterOp::Undefined => false,
        FilterOp::TextMatch(text_match) => match &param.text {
            Some(text) => text_match.matches(to_lowercase(text.as_str()).as_str()),
            None => false,
        },
        FilterOp::TimeRange(_) => false,
    }
}

fn any_property(
    ical: &ICalendar,
    found: &Vec<usize>,
    prop: &PropertyName,
    op: &FilterOp,
    default: Zone,
) -> (r: bool)
    requires
        forall|k: int| 0 <= k < found@.len() ==> (#[trigger] found@[k]) < ical.components@.len(),
    ensures
        r == spec_any_property(ical, found@, prop, op, default@, found@.len() as int),
{
    let mut result = false;
    let mut i: usize = 0;
    while i < found.len()
        invariant
            i <= found.len(),
            forall|k: int| 0 <= k < found@.len() ==> (#[trigger] found@[k]) < ical.components@.len(),
            result == spec_any_property(ical, found@, prop, op, default@, i as int),
        decreases found.len() - i,
    {
        if let Some(entry) = find_property(&ical.components[found[i]], prop) {
            if property_holds(entry, op, default) {
                result = true;
            }
        }
        i += 1;
    }
    result
}

fn any_parameter(
    ical: &ICalendar,
    found: &Vec<usize>,
    prop: &PropertyName,
    param: &ParameterName,
    op: &FilterOp,
) -> (r: bool)
    requires
        forall|k: int| 0 <= k < found@.len() ==> (#[trigger] found@[k]) < ical.components@.len(),
    ensures
        r == spec_any_parameter(ical, found@, prop, param, op, found@.len() as int),
{
    let mut result = false;
    let mut i: usize = 0;
    while i < found.len()
        invariant
            i <= found.len(),
            forall|k: int| 0 <= k < found@.len() ==> (#[trigger] found@[k]) < ical.components@.len(),
            result == spec_any_parameter(ical, found@, prop, param, op, i as int),
        decreases found.len() - i,
    {
        if let Some(entry) = find_property(&ical.components[found[i]], prop) {
            if let Some(found_param) = find_parameter(entry, param) {
                if parameter_holds(found_param, op) {
                    result = true;
                }
            }
        }
        i += 1;
    }
    result
}

/// The components that remain of `filtered` once the time range `range`
/// on the components of the path `comp` has been seen.
fn narrowed(
    filtered: &HashSet<u32>,
    expanded: &Vec<ExpandedInstance>,
    ical: &ICalendar,
    comp: &Vec<ComponentKind>,
    range: &TimeRange,
) -> (r: HashSet<u32>)
    ensures
        r@ == spec_narrowed(
            filtered@,
            spec_instances_in(expanded@, ical, comp@, range, expanded@.len() as int),
        ),
{
    let all = filtered.is_empty();
    let mut out: HashSet<u32> = HashSet::new();
    let mut i: usize = 0;
    while i < expanded.len()
        invariant
            i <= expanded.len(),
            all == filtered@.is_empty(),
            out@ =~= spec_narrowed(
                filtered@,
                spec_instances_in(expanded@, ical, comp@, range, i as int),
            ),
        decreases expanded.len() - i,
    {
        let instance = expanded[i];
        let id = instance.comp_id as usize;
        if id < ical.components.len() {
            let c = &ical.components[id];
            if path_selects(comp, c) && range.is_in_range(
                matches!(c.component_type, ComponentKind::VTodo),
                instance.start,
                instance.end,
            ) {
                if all || filtered.contains(&instance.comp_id) {
                    out.insert(instance.comp_id);
                }
            }
        }
        i += 1;
    }
    out
}

fn holds_id(ids: &Vec<u32>, id: u32) -> (r: bool)
    ensures
        r == ids@.contains(id),
{
    let mut i: usize = 0;
    while i < ids.len()
        invariant
            i <= ids.len(),
            forall|j: int| 0 <= j < i ==> ids@[j] != id,
        decreases ids.len() - i,
    {
        if ids[i] == id {
            return true;
        }
        i += 1;
    }
    false
}

/// What a query keeps of one event while it is answered: the instances of
/// the event, and the components that the time ranges of the filter
/// select.
#[derive(Debug)]
pub struct CalendarQueryHandler {
    pub default_tz: Zone,
    pub filtered_components: HashSet<u32>,
    pub expanded_times: Vec<ExpandedInstance>,
}

impl CalendarQueryHandler {
    /// A handler for one event. `expanded` holds the instances of the event
    /// within `max_time_range`, or nothing where they could not be
    /// computed; without a range no instance is kept.
    pub fn new(
        expanded: Option<Vec<ExpandedInstance>>,
        max_time_range: Option<TimeRange>,
        default_tz: Zone,
    ) -> (r: CalendarQueryHandler)
        ensures
            r.default_tz@ == default_tz@,
            r.filtered_components@ == Set::<u32>::empty(),
            r.expanded_times@ == (if max_time_range.is_some() && expanded.is_some() {
                expanded.unwrap()@
            } else {
                Seq::empty()
            }),
    {
        let expanded_times = match (max_time_range, expanded) {
            (Some(_), Some(expanded)) => expanded,
            _ => Vec::new(),
        };
        CalendarQueryHandler { default_tz, filtered_components: HashSet::new(), expanded_times }
    }

    /// The state in which a scan of `filters` over `event` ends.
    pub open spec fn spec_filter(&self, event: &CalendarEvent, filters: Seq<Filter>) -> ScanState {
        spec_scan(
            self.filtered_components@,
            &event.data,
            self.expanded_times@,
            self.default_tz@,
            filters,
            filters.len() as int,
        )
    }

    /// Whether the filter admits the event. The entries are taken in
    /// order; `AllOf` and `AnyOf` say whether the entries that follow all
    /// have to hold or one of them. The components that the time ranges on
    /// components select are kept for `serialize_ical`.
    pub fn filter(&mut self, event: &CalendarEvent, filters: &Vec<Filter>) -> (r: bool)
        ensures
            r == spec_admits(old(self).spec_filter(event, filters@)),
            final(self).filtered_components@ == old(self).spec_filter(event, filters@).filtered,
            final(self).expanded_times == old(self).expanded_times,
            final(self).default_tz == old(self).default_tz,
    {
        let ical = &event.data;
        let ghost before = self.filtered_components@;
        let ghost expanded = self.expanded_times@;
        let ghost default = self.default_tz@;
        let mut is_all = true;
        let mut matches_one = false;
        let mut i: usize = 0;
        while i < filters.len()
            invariant
                i <= filters.len(),
                ical == &event.data,
                self.expanded_times == old(self).expanded_times,
                self.default_tz == old(self).default_tz,
                expanded == self.expanded_times@,
                default == self.default_tz@,
                before == old(self).filtered_components@,
                spec_scan(before, ical, expanded, default, filters@, i as int) == (ScanState {
                    is_all: is_all,
                    matches_one: matches_one,
                    rejected: false,
                    filtered: self.filtered_components@,
                }),
            decreases filters.len() - i,
        {
            let ghost state = spec_scan(before, ical, expanded, default, filters@, i as int);
            let holds = match &filters[i] {
                Filter::AnyOf => {
                    is_all = false;
                    None
                },
                Filter::AllOf => {
                    is_all = true;
                    None
                },
                Filter::Property { comp, prop, op } => {
                    let found = find_components(ical, comp);
                    Some(
                        matches!(op, FilterOp::Undefined) || any_property(
                            ical,
                            &found,
                            prop,
                            op,
                            self.default_tz,
                        ),
                    )
                },
                Filter::Parameter { comp, prop, param, op } => {
                    let found = find_components(ical, comp);
                    Some(
                        matches!(op, FilterOp::Undefined) || any_parameter(
                            ical,
                            &found,
                            prop,
                            param,
                            op,
                        ),
                    )
                },
                Filter::Component { comp, op } => {
                    let found = find_components(ical, comp);
                    match op {
                        FilterOp::Exists => Some(found.len() > 0),
                        FilterOp::Undefined => Some(found.len() == 0),
                        FilterOp::TextMatch(_) => Some(false),
                        FilterOp::TimeRange(range) => {
                            if found.len() == 0 {
                                Some(false)
                            } else {
                                let kept = narrowed(
                                    &self.filtered_components,
                                    &self.expanded_times,
                                    ical,
                                    comp,
                                    range,
                                );
                                self.filtered_components = kept;
                                Some(!self.filtered_components.is_empty())
                            }
                        },
                    }
                },
            };
            i += 1;
            if let Some(holds) = holds {
                if holds {
                    matches_one = true;
                } else if is_all {
                    proof {
                        lemma_rejected_stays(
                            before,
                            ical,
                            expanded,
                            default,
                            filters@,
                            i as int,
                            filters@.len() as int,
                        );
                    }
                    return false;
                }
            }
        }
        is_all || matches_one
    }

    /// The instances that the handler holds.
    pub fn into_expanded_times(self) -> (r: Vec<ExpandedInstance>)
        ensures
            r == self.expanded_times,
    {
        self.expanded_times
    }
}


/// The selector `s` is about entries named `name` of components of the
/// type `component_type`.
pub open spec fn spec_selector_fits(
    s: &CalendarDataProperty,
    component_type: &ComponentKind,
    name: &PropertyName,
) -> bool {
    (s.component.is_none() || s.component.unwrap().spec_same(component_type)) && (
    s.name.is_none() || s.name.unwrap().spec_same(name))
}

/// The position of the first selector at or after `from` that fits.
pub open spec fn spec_selector(
    selectors: Seq<CalendarDataProperty>,
    component_type: &ComponentKind,
    name: &PropertyName,
    from: int,
) -> Option<int>
    decreases selectors.len() - from,
{
    if from < 0 || from >= selectors.len() {
        None
    } else if spec_selector_fits(&selectors[from], component_type, name) {
        Some(from)
    } else {
        spec_selector(selectors, component_type, name, from + 1)
    }
}

/// Whether an entry is written, and if so whether with its value: every
/// entry with its value where nothing is selected, and every entry of the
/// calendar itself; else the entries that a selector fits, with their
/// values unless the first such selector says otherwise.
pub open spec fn spec_projection(
    data: &CalendarData,
    component_type: &ComponentKind,
    name: &PropertyName,
) -> Option<bool> {
    if data.properties@.len() == 0 || component_type is VCalendar {
        Some(true)
    } else {
        match spec_selector(data.properties@, component_type, name, 0) {
            Some(i) => Some(!data.properties@[i].no_value),
            None => None,
        }
    }
}

/// One of the first `n` instances belongs to the component `id` and lies
/// in `range`.
pub open spec fn spec_any_instance(
    expanded: Seq<ExpandedInstance>,
    id: u32,
    range: &TimeRange,
    is_todo: bool,
    n: int,
) -> bool
    decreases n,
{
    if n <= 0 {
        false
    } else {
        spec_any_instance(expanded, id, range, is_todo, n - 1) || (expanded[n - 1].comp_id == id
            && range.spec_is_in_range(is_todo, expanded[n - 1].start, expanded[n - 1].end))
    }
}

/// The component is left out with all it holds: the filter selected
/// components and not this one, which takes place at some time; or it
/// replaces an occurrence outside the limit on recurrences; or it is a
/// free-busy component with nothing inside the limit on free-busy time.
pub open spec fn spec_skipped(
    filtered: Set<u32>,
    expanded: Seq<ExpandedInstance>,
    data: &CalendarData,
    c: &EventComponent,
    id: u32,
) -> bool {
    let n = expanded.len() as int;
    ||| (!filtered.is_empty() && c.component_type.spec_has_time_ranges() && !filtered.contains(id))
    ||| (data.limit_recurrence.is_some() && c.spec_is_recurrence_override() && !spec_any_instance(
        expanded,
        id,
        &data.limit_recurrence.unwrap(),
        c.component_type is VTodo,
        n,
    ))
    ||| (data.limit_freebusy.is_some() && c.component_type is VFreebusy && !spec_any_instance(
        expanded,
        id,
        &data.limit_freebusy.unwrap(),
        false,
        n,
    ))
}

/// One of the first `n` entries of the component is written.
pub open spec fn spec_any_projected(c: &EventComponent, data: &CalendarData, n: int) -> bool
    decreases n,
{
    if n <= 0 {
        false
    } else {
        spec_any_projected(c, data, n - 1) || spec_projection(
            data,
            &c.component_type,
            &c.entries@[n - 1].name,
        ).is_some()
    }
}

/// One of the first `n` entries of the component is written and is a
/// duration.
pub open spec fn spec_has_duration(c: &EventComponent, data: &CalendarData, n: int) -> bool
    decreases n,
{
    if n <= 0 {
        false
    } else {
        spec_has_duration(c, data, n - 1) || (spec_projection(
            data,
            &c.component_type,
            &c.entries@[n - 1].name,
        ).is_some() && c.entries@[n - 1].name is Duration)
    }
}

/// The content line of an entry, with or without its value.
pub open spec fn spec_entry_text(entry: &EventEntry, with_value: bool) -> Seq<char> {
    if with_value {
        entry.line@
    } else {
        entry.bare_line@
    }
}

/// The span of a period whose start is the moment `start` and whose end,
/// where it names one, is the moment `end`: from the start to the end, or
/// from the start for the length of the period, where both are moments
/// that fit.
pub open spec fn spec_span_between(period: Period, start: Option<i64>, end: Option<i64>) -> Option<
    (i64, i64),
> {
    match period {
        Period::Range { .. } => match (start, end) {
            (Some(s), Some(e)) => Some((s, e)),
            _ => None,
        },
        Period::Duration { seconds, .. } => match start {
            Some(s) => if i64::MIN <= s + seconds <= i64::MAX {
                Some((s, (s + seconds) as i64))
            } else {
                None
            },
            None => None,
        },
    }
}

/// The span of a period in the zone `zone`.
pub open spec fn spec_period_span(period: Period, zone: u16) -> Option<(i64, i64)> {
    match period {
        Period::Range { start, end } => spec_span_between(
            period,
            timestamp_in_zone(start, zone),
            timestamp_in_zone(end, zone),
        ),
        Period::Duration { start, .. } => spec_span_between(
            period,
            timestamp_in_zone(start, zone),
            None,
        ),
    }
}

/// The value is a period that overlaps `range`.
pub open spec fn spec_value_in(value: &EntryValue, range: &TimeRange, zone: u16) -> bool {
    match value.period {
        Some(period) => match spec_period_span(period, zone) {
            Some((s, e)) => range.spec_is_in_range(false, s, e),
            None => false,
        },
        None => false,
    }
}

/// Those of the first `n` values that are periods overlapping `range`, as
/// they are written, with commas between them.
pub open spec fn spec_joined(values: Seq<EntryValue>, range: &TimeRange, zone: u16, n: int) -> Seq<
    char,
>
    decreases n,
{
    if n <= 0 {
        Seq::empty()
    } else if spec_value_in(&values[n - 1], range, zone) {
        let before = spec_joined(values, range, zone, n - 1);
        if before.len() > 0 {
            before + seq![','] + values[n - 1].written@
        } else {
            values[n - 1].written@
        }
    } else {
        spec_joined(values, range, zone, n - 1)
    }
}

/// One of the first `n` values is a period that overlaps `range`.
pub open spec fn spec_any_value_in(values: Seq<EntryValue>, range: &TimeRange, zone: u16, n: int) -> bool
    decreases n,
{
    if n <= 0 {
        false
    } else {
        spec_any_value_in(values, range, zone, n - 1) || spec_value_in(&values[n - 1], range, zone)
    }
}

/// A free-busy entry with those of its periods that overlap `range`, as a
/// content line for the calendar library to read.
pub open spec fn spec_freebusy_kept(entry: &EventEntry, range: &TimeRange, zone: u16) -> Seq<char> {
    entry.head@ + spec_joined(entry.values@, range, zone, entry.values@.len() as int) + "\r\n"@
}

/// The content line of a free-busy entry under a limit on free-busy time:
/// what the calendar library writes for the entry with its periods that
/// overlap the limit; nothing where none does.
pub open spec fn spec_freebusy_text(entry: &EventEntry, range: &TimeRange, default: u16) -> Seq<
    char,
> {
    let zone = spec_entry_zone(entry, default);
    let n = entry.values@.len() as int;
    if spec_any_value_in(entry.values@, range, zone, n) {
        rewritten_line(spec_freebusy_kept(entry, range, zone))
    } else {
        Seq::empty()
    }
}

/// What is written for one entry of a component that is written as it
/// is.
pub open spec fn spec_plain_entry_text(
    c: &EventComponent,
    data: &CalendarData,
    default: u16,
    i: int,
) -> Seq<char> {
    let entry = &c.entries@[i];
    match spec_projection(data, &c.component_type, &entry.name) {
        Some(with_value) => if data.limit_freebusy.is_some() && c.component_type is VFreebusy
            && entry.name is Freebusy {
            spec_freebusy_text(entry, &data.limit_freebusy.unwrap(), default)
        } else {
            spec_entry_text(entry, with_value)
        },
        None => Seq::empty(),
    }
}

/// What is written for the first `n` entries of a component that is
/// written as it is.
pub open spec fn spec_entries_text(c: &EventComponent, data: &CalendarData, default: u16, n: int) -> Seq<
    char,
>
    decreases n,
{
    if n <= 0 {
        Seq::empty()
    } else {
        spec_entries_text(c, data, default, n - 1) + spec_plain_entry_text(c, data, default, n - 1)
    }
}

/// An instance keeps the entry: it is written, says nothing of when the
/// component takes place or recurs, and is none of those that only an
/// instance of a recurring component keeps unless the component recurs.
pub open spec fn spec_instance_keeps(
    c: &EventComponent,
    data: &CalendarData,
    is_recurrent: bool,
    i: int,
) -> Option<bool> {
    let name = &c.entries@[i].name;
    if name.spec_is_recurrence_data() || (name.spec_is_master_only() && !is_recurrent) {
        None
    } else {
        spec_projection(data, &c.component_type, name)
    }
}

/// What an instance keeps of the first `n` entries of its component.
pub open spec fn spec_instance_entries(
    c: &EventComponent,
    data: &CalendarData,
    is_recurrent: bool,
    n: int,
) -> Seq<char>
    decreases n,
{
    if n <= 0 {
        Seq::empty()
    } else {
        spec_instance_entries(c, data, is_recurrent, n - 1) + match spec_instance_keeps(
            c,
            data,
            is_recurrent,
            n - 1,
        ) {
            Some(with_value) => spec_entry_text(&c.entries@[n - 1], with_value),
            None => Seq::empty(),
        }
    }
}

/// The line that begins a component.
pub open spec fn spec_begin(c: &EventComponent) -> Seq<char> {
    "BEGIN:"@ + c.component_type.spec_name() + "\r\n"@
}

/// The line that ends a component.
pub open spec fn spec_end(c: &EventComponent) -> Seq<char> {
    "END:"@ + c.component_type.spec_name() + "\r\n"@
}

/// A line, or nothing.
pub open spec fn spec_line(line: Option<Seq<char>>) -> Seq<char> {
    match line {
        Some(line) => line,
        None => Seq::empty(),
    }
}

/// A component of the type of `c` with the line of its start, the lines of
/// its recurrence id and of its end where it has them, and the lines
/// `kept`.
pub open spec fn spec_instance_block(
    c: &EventComponent,
    start: Seq<char>,
    recurrence_id: Option<Seq<char>>,
    end: Option<Seq<char>>,
    kept: Seq<char>,
) -> Seq<char> {
    spec_begin(c) + start + spec_line(recurrence_id) + spec_line(end) + kept + spec_end(c)
}

/// The component written for one instance: its start, the recurrence id
/// where the component replaces an occurrence, its end unless the
/// component gives a duration, and what the instance keeps of the
/// component's entries.
pub open spec fn spec_instance_text(
    c: &EventComponent,
    data: &CalendarData,
    instance: ExpandedInstance,
) -> Seq<char> {
    let n = c.entries@.len() as int;
    spec_instance_block(
        c,
        instant_line(InstantKind::Start, instance.start),
        if c.spec_is_recurrence_override() {
            Some(instant_line(InstantKind::RecurrenceId, instance.start))
        } else {
            None
        },
        if spec_has_duration(c, data, n) {
            None
        } else {
            Some(instant_line(InstantKind::End, instance.end))
        },
        spec_instance_entries(c, data, c.spec_is_recurrent(), n),
    )
}

/// The components written for those of the first `n` instances that
/// belong to the component `id` and lie in the range of the expansion.
pub open spec fn spec_expansions_text(
    c: &EventComponent,
    id: u32,
    data: &CalendarData,
    expanded: Seq<ExpandedInstance>,
    n: int,
) -> Seq<char>
    decreases n,
{
    if n <= 0 {
        Seq::empty()
    } else {
        spec_expansions_text(c, id, data, expanded, n - 1) + if expanded[n - 1].comp_id == id
            && data.expand.unwrap().spec_is_in_range(
            c.component_type is VTodo,
            expanded[n - 1].start,
            expanded[n - 1].end,
        ) {
            spec_instance_text(c, data, expanded[n - 1])
        } else {
            Seq::empty()
        }
    }
}

/// What is written for the component `id` and what it holds, down to
/// `depth` levels below it: nothing where the component is left out or no
/// entry of it is written; one component for each instance where
/// recurrences are expanded and the component recurs or replaces an
/// occurrence; else the component with its entries and, inside it, what is
/// written for the components that it holds.
pub open spec fn spec_component_text(
    filtered: Set<u32>,
    expanded: Seq<ExpandedInstance>,
    default: u16,
    ical: &ICalendar,
    data: &CalendarData,
    id: u32,
    depth: nat,
) -> Seq<char>
    decreases depth, ical.components@[id as int].component_ids@.len() + 1,
{
    let c = &ical.components@[id as int];
    let n = c.entries@.len() as int;
    if id >= ical.components@.len() {
        Seq::empty()
    } else if spec_skipped(filtered, expanded, data, c, id) {
        Seq::empty()
    } else if data.expand.is_some() && (c.spec_is_recurrent() || c.spec_is_recurrence_override()) {
        spec_expansions_text(c, id, data, expanded, expanded.len() as int)
    } else if !spec_any_projected(c, data, n) {
        Seq::empty()
    } else {
        spec_begin(c) + spec_entries_text(c, data, default, n) + spec_children_text(
            filtered,
            expanded,
            default,
            ical,
            data,
            id,
            c.component_ids@.len() as int,
            depth,
        ) + spec_end(c)
    }
}

/// What is written for the first `n` of the components that the component
/// `parent` holds, where `depth` levels below it are still written.
pub open spec fn spec_children_text(
    filtered: Set<u32>,
    expanded: Seq<ExpandedInstance>,
    default: u16,
    ical: &ICalendar,
    data: &CalendarData,
    parent: u32,
    n: int,
    depth: nat,
) -> Seq<char>
    decreases depth, n,
{
    if n <= 0 || parent >= ical.components@.len() {
        Seq::empty()
    } else {
        let ids = ical.components@[parent as int].component_ids@;
        if n > ids.len() {
            Seq::empty()
        } else if depth > 0 && ids[n - 1] < ical.components@.len() {
            spec_children_text(filtered, expanded, default, ical, data, parent, n - 1, depth)
                + spec_component_text(
                filtered,
                expanded,
                default,
                ical,
                data,
                ids[n - 1],
                (depth - 1) as nat,
            )
        } else {
            spec_children_text(filtered, expanded, default, ical, data, parent, n - 1, depth)
        }
    }
}

fn selector_fits(s: &CalendarDataProperty, component_type: &ComponentKind, name: &PropertyName) -> (r:
    bool)
    ensures
        r == spec_selector_fits(s, component_type, name),
{
    let type_fits = match &s.component {
        Some(wanted) => wanted.same(component_type),
        None => true,
    };
    let name_fits = match &s.name {
        Some(wanted) => wanted.same(name),
        None => true,
    };
    type_fits && name_fits
}

fn projection(data: &CalendarData, component_type: &ComponentKind, name: &PropertyName) -> (r:
    Option<bool>)
    ensures
        r == spec_projection(data, component_type, name),
{
    if data.properties.len() == 0 || matches!(component_type, ComponentKind::VCalendar) {
        return Some(true);
    }
    let mut i: usize = 0;
    while i < data.properties.len()
        invariant
            i <= data.properties.len(),
            data.properties@.len() != 0,
            !(component_type is VCalendar),
            spec_selector(data.properties@, component_type, name, 0) == spec_selector(
                data.properties@,
                component_type,
                name,
                i as int,
            ),
        decreases data.properties.len() - i,
    {
        if selector_fits(&data.properties[i], component_type, name) {
            return Some(!data.properties[i].no_value);
        }
        i += 1;
    }
    None
}

fn any_instance(expanded: &Vec<ExpandedInstance>, id: u32, range: &TimeRange, is_todo: bool) -> (r:
    bool)
    ensures
        r == spec_any_instance(expanded@, id, range, is_todo, expanded@.len() as int),
{
    let mut found = false;
    let mut i: usize = 0;
    while i < expanded.len()
        invariant
            i <= expanded.len(),
            found == spec_any_instance(expanded@, id, range, is_todo, i as int),
        decreases expanded.len() - i,
    {
        if expanded[i].comp_id == id && range.is_in_range(
            is_todo,
            expanded[i].start,
            expanded[i].end,
        ) {
            found = true;
        }
        i += 1;
    }
    found
}

/// The span of a period, from the moments of its start and of its end.
pub fn span_between(period: &Period, start: Option<i64>, end: Option<i64>) -> (r: Option<(i64, i64)>)
    ensures
        r == spec_span_between(*period, start, end),
{
    match period {
        Period::Range { .. } => match (start, end) {
            (Some(s), Some(e)) => Some((s, e)),
            _ => None,
        },
        Period::Duration { seconds, .. } => match start {
            Some(s) => match s.checked_add(*seconds) {
                Some(e) => Some((s, e)),
                None => None,
            },
            None => None,
        },
    }
}

fn period_span(period: &Period, zone: Zone) -> (r: Option<(i64, i64)>)
    ensures
        r == spec_period_span(*period, zone@),
{
    match period {
        Period::Range { start, end } => span_between(
            period,
            zone.timestamp(start),
            zone.timestamp(end),
        ),
        Period::Duration { start, .. } => span_between(period, zone.timestamp(start), None),
    }
}

fn value_in(value: &EntryValue, range: &TimeRange, zone: Zone) -> (r: bool)
    ensures
        r == spec_value_in(value, range, zone@),
{
    match &value.period {
        Some(period) => match period_span(period, zone) {
            Some((s, e)) => range.is_in_range(false, s, e),
            None => false,
        },
        None => false,
    }
}

fn freebusy_text(entry: &EventEntry, range: &TimeRange, default: Zone) -> (r: String)
    ensures
        r@ == spec_freebusy_text(entry, range, default@),
{
    let zone = entry_zone(entry, default);
    let mut joined = String::new();
    let mut any = false;
    let mut i: usize = 0;
    while i < entry.values.len()
        invariant
            i <= entry.values.len(),
            joined@ == spec_joined(entry.values@, range, zone@, i as int),
            any == spec_any_value_in(entry.values@, range, zone@, i as int),
        decreases entry.values.len() - i,
    {
        if value_in(&entry.values[i], range, zone) {
            if !joined.as_str().is_empty() {
                proof {
                    reveal_strlit(",");
                }
                joined.append(",");
                assert(","@ =~= seq![',']);
            }
            joined.append(entry.values[i].written.as_str());
            any = true;
        }
        i += 1;
    }
    if any {
        let mut kept = entry.head.clone();
        kept.append(joined.as_str());
        kept.append("\r\n");
        rewrite_line(kept.as_str())
    } else {
        String::new()
    }
}

fn entries_text(c: &EventComponent, data: &CalendarData, default: Zone) -> (r: String)
    ensures
        r@ == spec_entries_text(c, data, default@, c.entries@.len() as int),
{
    let mut out = String::new();
    let limited = data.limit_freebusy.is_some() && matches!(
        c.component_type,
        ComponentKind::VFreebusy
    );
    let mut i: usize = 0;
    while i < c.entries.len()
        invariant
            i <= c.entries.len(),
            limited == (data.limit_freebusy.is_some() && c.component_type is VFreebusy),
            out@ == spec_entries_text(c, data, default@, i as int),
        decreases c.entries.len() - i,
    {
        let entry = &c.entries[i];
        let ghost before = out@;
        match projection(data, &c.component_type, &entry.name) {
            Some(with_value) => {
                if limited && matches!(entry.name, PropertyName::Freebusy) {
                    let range = match &data.limit_freebusy {
                        Some(range) => range,
                        None => {
                            i += 1;
                            continue ;
                        },
                    };
                    let text = freebusy_text(entry, range, default);
                    out.append(text.as_str());
                } else if with_value {
                    out.append(entry.line.as_str());
                } else {
                    out.append(entry.bare_line.as_str());
                }
            },
            None => {
                assert(before + Seq::<char>::empty() =~= before);
            },
        }
        i += 1;
    }
    out
}

fn any_projected(c: &EventComponent, data: &CalendarData) -> (r: bool)
    ensures
        r == spec_any_projected(c, data, c.entries@.len() as int),
{
    let mut found = false;
    let mut i: usize = 0;
    while i < c.entries.len()
        invariant
            i <= c.entries.len(),
            found == spec_any_projected(c, data, i as int),
        decreases c.entries.len() - i,
    {
        if projection(data, &c.component_type, &c.entries[i].name).is_some() {
            found = true;
        }
        i += 1;
    }
    found
}

fn has_duration(c: &EventComponent, data: &CalendarData) -> (r: bool)
    ensures
        r == spec_has_duration(c, data, c.entries@.len() as int),
{
    let mut found = false;
    let mut i: usize = 0;
    while i < c.entries.len()
        invariant
            i <= c.entries.len(),
            found == spec_has_duration(c, data, i as int),
        decreases c.entries.len() - i,
    {
        if projection(data, &c.component_type, &c.entries[i].name).is_some() && matches!(
            c.entries[i].name,
            PropertyName::Duration
        ) {
            found = true;
        }
        i += 1;
    }
    found
}

fn instance_entries(c: &EventComponent, data: &CalendarData, is_recurrent: bool) -> (r: String)
    ensures
        r@ == spec_instance_entries(c, data, is_recurrent, c.entries@.len() as int),
{
    let mut out = String::new();
    let mut i: usize = 0;
    while i < c.entries.len()
        invariant
            i <= c.entries.len(),
            out@ == spec_instance_entries(c, data, is_recurrent, i as int),
        decreases c.entries.len() - i,
    {
        let entry = &c.entries[i];
        let ghost before = out@;
        let keeps = if entry.name.is_recurrence_data() || (entry.name.is_master_only()
            && !is_recurrent) {
            None
        } else {
            projection(data, &c.component_type, &entry.name)
        };
        match keeps {
            Some(true) => {
                out.append(entry.line.as_str());
            },
            Some(false) => {
                out.append(entry.bare_line.as_str());
            },
            None => {
                assert(before + Seq::<char>::empty() =~= before);
            },
        }
        i += 1;
    }
    out
}

fn begin_line(c: &EventComponent) -> (r: String)
    ensures
        r@ == spec_begin(c),
{
    let mut out = "BEGIN:".to_owned();
    out.append(c.component_type.as_str());
    out.append("\r\n");
    out
}

fn end_line(c: &EventComponent) -> (r: String)
    ensures
        r@ == spec_end(c),
{
    let mut out = "END:".to_owned();
    out.append(c.component_type.as_str());
    out.append("\r\n");
    out
}

fn instance_text(
    c: &EventComponent,
    data: &CalendarData,
    instance: ExpandedInstance,
    is_recurrent: bool,
    is_override: bool,
    with_duration: bool,
    kept: &String,
) -> (r: String)
    requires
        is_recurrent == c.spec_is_recurrent(),
        is_override == c.spec_is_recurrence_override(),
        with_duration == spec_has_duration(c, data, c.entries@.len() as int),
        kept@ == spec_instance_entries(c, data, is_recurrent, c.entries@.len() as int),
    ensures
        r@ == spec_instance_text(c, data, instance),
{
    let start = write_instant(InstantKind::Start, instance.start);
    let recurrence_id = if is_override {
        Some(write_instant(InstantKind::RecurrenceId, instance.start))
    } else {
        None
    };
    let end = if with_duration {
        None
    } else {
        Some(write_instant(InstantKind::End, instance.end))
    };
    instance_block(c, start.as_str(), &recurrence_id, &end, kept.as_str())
}

/// What a line says, where there is one.
pub open spec fn line_view(line: &Option<String>) -> Option<Seq<char>> {
    match line {
        Some(line) => Some(line@),
        None => None,
    }
}

/// Writes the component of one instance from its lines.
pub fn instance_block(
    c: &EventComponent,
    start: &str,
    recurrence_id: &Option<String>,
    end: &Option<String>,
    kept: &str,
) -> (r: String)
    ensures
        r@ == spec_instance_block(c, start@, line_view(recurrence_id), line_view(end), kept@),
{
    let mut out = begin_line(c);
    out.append(start);
    let ghost a = out@;
    match recurrence_id {
        Some(line) => {
            out.append(line.as_str());
        },
        None => {
            assert(a + Seq::<char>::empty() =~= a);
        },
    }
    let ghost b = out@;
    match end {
        Some(line) => {
            out.append(line.as_str());
        },
        None => {
            assert(b + Seq::<char>::empty() =~= b);
        },
    }
    out.append(kept);
    out.append(end_line(c).as_str());
    out
}

fn expansions_text(
    c: &EventComponent,
    id: u32,
    data: &CalendarData,
    expanded: &Vec<ExpandedInstance>,
) -> (r: String)
    requires
        data.expand.is_some(),
    ensures
        r@ == spec_expansions_text(c, id, data, expanded@, expanded@.len() as int),
{
    let range = match &data.expand {
        Some(range) => range,
        None => {
            return String::new();
        },
    };
    let is_recurrent = c.is_recurrent();
    let is_override = c.is_recurrence_override();
    let with_duration = has_duration(c, data);
    let is_todo = matches!(c.component_type, ComponentKind::VTodo);
    let kept = instance_entries(c, data, is_recurrent);
    let mut out = String::new();
    let mut i: usize = 0;
    while i < expanded.len()
        invariant
            i <= expanded.len(),
            data.expand == Some(*range),
            is_recurrent == c.spec_is_recurrent(),
            is_override == c.spec_is_recurrence_override(),
            with_duration == spec_has_duration(c, data, c.entries@.len() as int),
            is_todo == (c.component_type is VTodo),
            kept@ == spec_instance_entries(c, data, is_recurrent, c.entries@.len() as int),
            out@ == spec_expansions_text(c, id, data, expanded@, i as int),
        decreases expanded.len() - i,
    {
        let instance = expanded[i];
        let ghost before = out@;
        if instance.comp_id == id && range.is_in_range(is_todo, instance.start, instance.end) {
            let text = instance_text(
                c,
                data,
                instance,
                is_recurrent,
                is_override,
                with_duration,
                &kept,
            );
            out.append(text.as_str());
        } else {
            assert(before + Seq::<char>::empty() =~= before);
        }
        i += 1;
    }
    out
}

impl CalendarQueryHandler {
    fn skipped(&self, data: &CalendarData, c: &EventComponent, id: u32) -> (r: bool)
        ensures
            r == spec_skipped(self.filtered_components@, self.expanded_times@, data, c, id),
    {
        if !self.filtered_components.is_empty() && c.component_type.has_time_ranges()
            && !self.filtered_components.contains(&id) {
            return true;
        }
        if let Some(limit) = &data.limit_recurrence {
            if c.is_recurrence_override() && !any_instance(
                &self.expanded_times,
                id,
                limit,
                matches!(c.component_type, ComponentKind::VTodo),
            ) {
                return true;
            }
        }
        if let Some(limit) = &data.limit_freebusy {
            if matches!(c.component_type, ComponentKind::VFreebusy) && !any_instance(
                &self.expanded_times,
                id,
                limit,
                false,
            ) {
                return true;
            }
        }
        false
    }

    /// What is written for the component `id` and what it holds, down to
    /// `depth` levels below it.
    fn component_text(&self, ical: &ICalendar, data: &CalendarData, id: u32, depth: usize) -> (r:
        String)
        requires
            ical.wf(),
            id < ical.components@.len(),
        ensures
            r@ == spec_component_text(
                self.filtered_components@,
                self.expanded_times@,
                self.default_tz@,
                ical,
                data,
                id,
                depth as nat,
            ),
        decreases depth,
    {
        let c = &ical.components[id as usize];
        if self.skipped(data, c, id) {
            return String::new();
        }
        if data.expand.is_some() && (c.is_recurrent() || c.is_recurrence_override()) {
            return expansions_text(c, id, data, &self.expanded_times);
        }
        if !any_projected(c, data) {
            return String::new();
        }
        let mut out = begin_line(c);
        out.append(entries_text(c, data, self.default_tz).as_str());
        let ghost head = out@;
        let mut k: usize = 0;
        while k < c.component_ids.len()
            invariant
                k <= c.component_ids.len(),
                ical.wf(),
                id < ical.components@.len(),
                c == &ical.components@[id as int],
                out@ == head + spec_children_text(
                    self.filtered_components@,
                    self.expanded_times@,
                    self.default_tz@,
                    ical,
                    data,
                    id,
                    k as int,
                    depth as nat,
                ),
            decreases c.component_ids.len() - k,
        {
            let child = c.component_ids[k];
            assert(ical.components@[id as int].component_ids@[k as int] < ical.components@.len());
            if depth > 0 {
                let text = self.component_text(ical, data, child, depth - 1);
                out.append(text.as_str());
            }
            k += 1;
            proof {
                assert(out@ =~= head + spec_children_text(
                    self.filtered_components@,
                    self.expanded_times@,
                    self.default_tz@,
                    ical,
                    data,
                    id,
                    k as int,
                    depth as nat,
                ));
            }
        }
        out.append(end_line(c).as_str());
        out
    }

    /// The instances as they stand when an event is written: in the order
    /// of their starts where recurrences are expanded, else as they
    /// were.
    pub open spec fn spec_ordered(&self, data: &CalendarData) -> Seq<ExpandedInstance> {
        if data.expand.is_some() {
            sorted(self.expanded_times@, self.expanded_times@.len() as int)
        } else {
            self.expanded_times@
        }
    }

    /// The event as the report returns it: what is written for its first
    /// component and what that holds. No chain of components that hold one
    /// another is longer than the object has components, so the depth to
    /// which components are written leaves none out.
    pub open spec fn spec_serialize_ical(&self, event: &CalendarEvent, data: &CalendarData) -> Seq<
        char,
    > {
        spec_component_text(
            self.filtered_components@,
            self.spec_ordered(data),
            self.default_tz@,
            &event.data,
            data,
            0,
            event.data.components@.len(),
        )
    }

    /// Writes the event as the report returns it: the components that the
    /// filter and the limits of `calendar-data` leave, with the entries
    /// that `calendar-data` selects, recurrences expanded where it asks
    /// for that.
    pub fn serialize_ical(&mut self, event: &CalendarEvent, data: &CalendarData) -> (r: String)
        requires
            event.data.wf(),
        ensures
            r@ == old(self).spec_serialize_ical(event, data),
            final(self).expanded_times@ == old(self).spec_ordered(data),
            final(self).filtered_components == old(self).filtered_components,
            final(self).default_tz == old(self).default_tz,
    {
        if data.expand.is_some() {
            self.expanded_times = sort(&self.expanded_times);
        }
        self.component_text(&event.data, data, 0, event.data.components.len())
    }
}



/// The report takes the resource: the token speaks for the account or the
/// resource is among those shared with it, and the resource lies in the
/// range of the filter, where the filter has one.
pub open spec fn spec_reported(
    is_member: bool,
    shared_ids: Seq<u32>,
    filter_range: Option<TimeRange>,
    resource: &DavResource,
) -> bool {
    (is_member || shared_ids.contains(resource.document_id)) && (filter_range.is_none()
        || spec_in_time_range(resource, &filter_range.unwrap()))
}

/// The positions of those of the first `n` of `children` that the report
/// takes.
pub open spec fn spec_query_children(
    resources: &DavResources,
    children: Seq<usize>,
    is_member: bool,
    shared_ids: Seq<u32>,
    filter_range: Option<TimeRange>,
    n: int,
) -> Seq<usize>
    decreases n,
{
    if n <= 0 {
        Seq::empty()
    } else if spec_reported(
        is_member,
        shared_ids,
        filter_range,
        &resources.paths@[children[n - 1] as int],
    ) {
        spec_query_children(resources, children, is_member, shared_ids, filter_range, n - 1).push(
            children[n - 1],
        )
    } else {
        spec_query_children(resources, children, is_member, shared_ids, filter_range, n - 1)
    }
}

/// The item reports on the entry at `position`.
pub open spec fn spec_item_of(
    resources: &DavResources,
    account_id: u32,
    position: usize,
    item: &PropFindItem,
) -> bool {
    let resource = &resources.paths@[position as int];
    &&& item.name@ == resources.spec_format_resource(resource)
    &&& item.account_id == account_id
    &&& item.document_id == resource.document_id
    &&& item.parent_id == resource.parent_id
    &&& item.is_container == resource.is_container
}

/// The events of the calendar `calendar_id` that a report takes.
pub open spec fn spec_query_positions(
    resources: &DavResources,
    calendar_id: u32,
    is_member: bool,
    shared_ids: Seq<u32>,
    filter_range: Option<TimeRange>,
) -> Seq<usize> {
    let children = resources.spec_children(calendar_id);
    spec_query_children(
        resources,
        children,
        is_member,
        shared_ids,
        filter_range,
        children.len() as int,
    )
}

/// Selects the events of the calendar `calendar_id` that a report takes.
pub fn select_query_items(
    resources: &DavResources,
    calendar_id: u32,
    account_id: u32,
    is_member: bool,
    shared_ids: &Vec<u32>,
    filter_range: Option<TimeRange>,
) -> (r: Vec<PropFindItem>)
    ensures
        r@.len() == spec_query_positions(
            resources,
            calendar_id,
            is_member,
            shared_ids@,
            filter_range,
        ).len(),
        forall|k: int|
            0 <= k < r@.len() ==> spec_item_of(
                resources,
                account_id,
                spec_query_positions(resources, calendar_id, is_member, shared_ids@, filter_range)[k],
                &#[trigger] r@[k],
            ),
{
    let children = resources.children(calendar_id);
    let mut items: Vec<PropFindItem> = Vec::new();
    let mut i: usize = 0;
    while i < children.len()
        invariant
            i <= children.len(),
            children@ == resources.spec_children(calendar_id),
            forall|k: int| 0 <= k < children@.len() ==> (#[trigger] children@[k]) < resources.paths@.len(),
            items@.len() == spec_query_children(
                resources,
                children@,
                is_member,
                shared_ids@,
                filter_range,
                i as int,
            ).len(),
            forall|k: int|
                0 <= k < items@.len() ==> spec_item_of(
                    resources,
                    account_id,
                    spec_query_children(
                        resources,
                        children@,
                        is_member,
                        shared_ids@,
                        filter_range,
                        i as int,
                    )[k],
                    &#[trigger] items@[k],
                ),
        decreases children.len() - i,
    {
        let resource = &resources.paths[children[i]];
        let shared = is_member || holds_id(shared_ids, resource.document_id);
        let in_range = match &filter_range {
            Some(range) => is_resource_in_time_range(resource, range),
            None => true,
        };
        if shared && in_range {
            items.push(
                PropFindItem {
                    name: resources.format_resource(resource),
                    account_id,
                    document_id: resource.document_id,
                    parent_id: resource.parent_id,
                    is_container: resource.is_container,
                },
            );
        }
        i += 1;
    }
    items
}

/// Every event that a report takes lies in the range of its filter: the
/// first start or the last end of its stored instances is inside.
pub proof fn lemma_query_in_range(
    resources: &DavResources,
    children: Seq<usize>,
    is_member: bool,
    shared_ids: Seq<u32>,
    filter_range: Option<TimeRange>,
    n: int,
)
    requires
        0 <= n <= children.len(),
        filter_range.is_some(),
    ensures
        forall|k: int|
            0 <= k < spec_query_children(
                resources,
                children,
                is_member,
                shared_ids,
                filter_range,
                n,
            ).len() ==> spec_in_time_range(
                &resources.paths@[(#[trigger] spec_query_children(
                    resources,
                    children,
                    is_member,
                    shared_ids,
                    filter_range,
                    n,
                )[k]) as int],
                &filter_range.unwrap(),
            ),
    decreases n,
{
    if n > 0 {
        lemma_query_in_range(resources, children, is_member, shared_ids, filter_range, n - 1);
        let prev = spec_query_children(resources, children, is_member, shared_ids, filter_range, n - 1);
        let cur = spec_query_children(resources, children, is_member, shared_ids, filter_range, n);
        assert forall|k: int| 0 <= k < cur.len() implies spec_in_time_range(
            &resources.paths@[(#[trigger] cur[k]) as int],
            &filter_range.unwrap(),
        ) by {
            if k < prev.len() {
                assert(cur[k] == prev[k]);
            }
        }
    }
}

/// A query that asks for the time range `range` of its events, and for no
/// other time range, reports only events whose stored range meets `range`:
/// an event without a stored range is not reported.
pub proof fn lemma_pre_range_sound(
    query: &CalendarQuery,
    range: TimeRange,
    resources: &DavResources,
    calendar_id: u32,
    is_member: bool,
    shared_ids: Seq<u32>,
)
    requires
        exists|k: int|
            0 <= k < query.filters@.len() && spec_filter_time_range(&#[trigger] query.filters@[k])
                == Some(range),
        forall|k: int|
            0 <= k < query.filters@.len() ==> spec_filter_time_range(&#[trigger] query.filters@[k]).is_none()
                || spec_filter_time_range(&query.filters@[k]) == Some(range),
    ensures
        spec_filter_range(query) == Some(range),
        forall|k: int|
            0 <= k < spec_query_positions(
                resources,
                calendar_id,
                is_member,
                shared_ids,
                spec_filter_range(query),
            ).len() ==> spec_in_time_range(
                &resources.paths@[(#[trigger] spec_query_positions(
                    resources,
                    calendar_id,
                    is_member,
                    shared_ids,
                    spec_filter_range(query),
                )[k]) as int],
                &range,
            ),
{
    let n = query.filters@.len() as int;
    lemma_filter_range_single(query.filters@, n, range);
    lemma_filter_range_some(query.filters@, n);
    let k = choose|k: int|
        0 <= k < n && spec_filter_time_range(&#[trigger] query.filters@[k]) == Some(range);
    assert(spec_filter_time_range(&query.filters@[k]).is_some());
    let children = resources.spec_children(calendar_id);
    lemma_query_in_range(
        resources,
        children,
        is_member,
        shared_ids,
        Some(range),
        children.len() as int,
    );
}

/// The calendar that a report is about.
pub open spec fn spec_query_target(resources: &DavResources, uri: &OwnedUri) -> Result<
    DavResource,
    DavError,
> {
    match uri.resource {
        None => Err(DavError::Code(status::METHOD_NOT_ALLOWED)),
        Some(path) => match resources.spec_by_name(path@) {
            None => Err(DavError::Code(status::NOT_FOUND)),
            Some(target) => if target.is_container {
                Ok(target)
            } else {
                Err(DavError::Code(status::METHOD_NOT_ALLOWED))
            },
        },
    }
}

/// Prepares a `calendar-query` report: the events of the calendar that the
/// token may see and that lie in the range of the filter, and the range
/// within which their recurrences have to be known. Fails with 405 for
/// the root of the account and for an event, and with 404 for a calendar
/// that does not exist.
pub fn handle_calendar_query_request(
    access_token: &AccessToken,
    resources: &DavResources,
    uri: &OwnedUri,
    shared_ids: &Vec<u32>,
    headers: RequestHeaders,
    request: CalendarQuery,
) -> (r: Result<DavQuery, DavError>)
    ensures
        spec_query_target(resources, uri).is_err() ==> r.is_err() && r.unwrap_err()
            == spec_query_target(resources, uri).unwrap_err(),
        spec_query_target(resources, uri).is_ok() ==> r.is_ok() && ({
            let query = r.unwrap();
            let positions = spec_query_positions(
                resources,
                spec_query_target(resources, uri).unwrap().document_id,
                access_token.spec_is_member(uri.account_id),
                shared_ids@,
                spec_filter_range(&request),
            );
            &&& query.propfind == request.properties
            &&& query.from_change_id.is_none()
            &&& query.depth == 0
            &&& query.limit.is_none()
            &&& query.ret == headers.ret
            &&& query.depth_no_root == headers.depth_no_root
            &&& !query.expand
            &&& query.resource matches DavQueryResource::Query { filter, parent_collection, items }
            &&& parent_collection == Collection::Calendar
            &&& filter == (DavQueryFilter::Calendar {
                filter: request.filters,
                max_time_range: spec_data_range(&request.properties, spec_filter_range(&request)),
                timezone: request.timezone,
            })
            &&& items@.len() == positions.len()
            &&& forall|k: int|
                0 <= k < items@.len() ==> spec_item_of(
                    resources,
                    uri.account_id,
                    positions[k],
                    &#[trigger] items@[k],
                )
        }),
{
    let path = match &uri.resource {
        Some(path) => path,
        None => {
            return Err(DavError::Code(status::METHOD_NOT_ALLOWED));
        },
    };
    let target = match resources.by_name(path.as_str()) {
        Some(target) => target,
        None => {
            return Err(DavError::Code(status::NOT_FOUND));
        },
    };
    if !target.is_container() {
        return Err(DavError::Code(status::METHOD_NOT_ALLOWED));
    }
    let filter_range = extract_filter_range(&request);
    let items = select_query_items(
        resources,
        target.document_id,
        uri.account_id,
        access_token.is_member(uri.account_id),
        shared_ids,
        filter_range,
    );
    let max_time_range = extract_data_range(&request.properties, filter_range);
    Ok(DavQuery::calendar_query(request, max_time_range, items, headers))
}

/// The zone of times that name none: the one that the query gives where
/// it is known, else local time without a place.
pub fn default_zone(tz: &Timezone) -> (r: Zone)
    ensures
        r@ == (match spec_parse_tz(tz) {
            Some(id) => id,
            None => FLOATING_ZONE_ID,
        }),
{
    match try_parse_tz(tz) {
        Some(zone) => zone,
        None => Zone::floating(),
    }
}

} // verus!
