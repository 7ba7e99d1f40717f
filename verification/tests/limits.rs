use dav::calendar::ical::{ComponentKind, EventComponent, ICalendar};
use dav::calendar::proppatch::patchable;
use dav::calendar::{Calendar, CalendarPreferences, Timezone};
use dav::common::{Archive, ArchivedResource};
use dav::file::copy_move::{ids_fit, nodes_fit, FetchedNode};
use dav::hierarchy::{DavResource, DavResources};
use dav::schema::{DeadElementTag, DeadProperty};

fn files(ids: &[u32]) -> DavResources {
    DavResources {
        base_path: "/dav/file/a/".to_string(),
        paths: ids
            .iter()
            .map(|id| DavResource {
                name: format!("n{id}"),
                document_id: *id,
                parent_id: None,
                is_container: false,
                hierarchy_sequence: 0,
                size: 0,
                event_time_range: None,
            })
            .collect(),
    }
}

fn nodes(ids: &[u32]) -> Vec<FetchedNode> {
    ids.iter().map(|id| FetchedNode { document_id: *id, node: None }).collect()
}

#[test]
fn document_ids_that_fit() {
    assert!(ids_fit(&files(&[])));
    assert!(ids_fit(&files(&[0, 1, u32::MAX - 1])));
    assert!(!ids_fit(&files(&[0, u32::MAX])));
    assert!(nodes_fit(&nodes(&[]), 0));
    assert!(nodes_fit(&nodes(&[5]), 0));
    assert!(!nodes_fit(&nodes(&[5, 6]), 0));
    assert!(nodes_fit(&nodes(&[5, 6]), 1));
    assert!(!nodes_fit(&nodes(&[5]), u32::MAX));
    assert!(!nodes_fit(&nodes(&[u32::MAX]), 9));
}

fn component(ids: Vec<u32>) -> EventComponent {
    EventComponent { component_type: ComponentKind::VEvent, entries: vec![], component_ids: ids }
}

#[test]
fn calendar_objects_that_hold_their_own_components() {
    let tree = |components| ICalendar { components }.is_wf();
    assert!(!tree(vec![]));
    assert!(tree(vec![component(vec![])]));
    assert!(tree(vec![component(vec![1, 2]), component(vec![2]), component(vec![])]));
    assert!(tree(vec![component(vec![0])]));
    assert!(tree(vec![component(vec![1]), component(vec![0])]));
    assert!(!tree(vec![component(vec![1]), component(vec![5])]));
    assert!(!tree(vec![component(vec![1])]));
}

#[test]
fn records_that_can_be_patched() {
    let calendar = |preferences: Vec<CalendarPreferences>| {
        Some(ArchivedResource::Calendar(Archive {
            inner: Calendar {
                name: "c".to_string(),
                preferences,
                acls: vec![],
                dead_properties: DeadProperty { entries: vec![] },
                created: 0,
                modified: 0,
            },
            hash: 0,
        }))
    };
    assert!(patchable(&None));
    assert!(!patchable(&calendar(vec![])));
    assert!(patchable(&calendar(vec![CalendarPreferences {
        account_id: 1,
        name: String::new(),
        description: None,
        sort_order: 0,
        color: None,
        time_zone: Timezone::Default,
    }])));
    let mut bag = DeadProperty::new();
    bag.add_element(DeadElementTag { name: "n".to_string(), attrs: None }, "c".to_string());
    assert!(bag.fits());
}
