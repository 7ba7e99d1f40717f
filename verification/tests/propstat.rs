use dav::schema::{
    CalCondition, Condition, DavProperty, DavPropertyValue, DavValue, PropStat, WebDavProperty,
};
use dav::PropStatBuilder;

fn prop(p: WebDavProperty) -> DavPropertyValue {
    DavPropertyValue::from(DavProperty::WebDav(p))
}

fn names(item: &PropStat) -> Vec<WebDavProperty> {
    item.props
        .iter()
        .map(|p| match p.property {
            DavProperty::WebDav(w) => w,
            _ => panic!("not a property of the base protocol"),
        })
        .collect()
}

#[test]
fn builder_groups_by_status() {
    let mut builder = PropStatBuilder::default();
    builder
        .insert_ok(prop(WebDavProperty::DisplayName))
        .insert_with_status(prop(WebDavProperty::Owner), 404)
        .insert_ok(prop(WebDavProperty::GetETag))
        .insert_with_status(prop(WebDavProperty::Group), 404)
        .insert_with_status(prop(WebDavProperty::Acl), 403);
    let built = builder.build();
    assert_eq!(built.len(), 3);
    assert_eq!((built[0].status, names(&built[0])), (200, vec![WebDavProperty::DisplayName, WebDavProperty::GetETag]));
    assert_eq!((built[1].status, names(&built[1])), (404, vec![WebDavProperty::Owner, WebDavProperty::Group]));
    assert_eq!((built[2].status, names(&built[2])), (403, vec![WebDavProperty::Acl]));
    assert!(built.iter().all(|i| i.error.is_none() && i.response_description.is_none()));
}

#[test]
fn builder_tells_apart_conditions_and_descriptions() {
    let condition = Condition::Cal(CalCondition::ValidTimezone);
    let mut builder = PropStatBuilder::new();
    builder.insert_error_with_description(prop(WebDavProperty::DisplayName), 507, "too long".to_string());
    builder.insert_error_with_description(prop(WebDavProperty::Owner), 507, "too large".to_string());
    builder.insert_error_with_description(prop(WebDavProperty::Group), 507, "too long".to_string());
    builder.insert_with_status(prop(WebDavProperty::Acl), 507);
    builder.insert_precondition_failed(prop(WebDavProperty::GetETag), 412, condition);
    builder.insert_precondition_failed_with_description(prop(WebDavProperty::SyncToken), 412, condition, "empty".to_string());
    builder.insert_precondition_failed(prop(WebDavProperty::ResourceType), 412, condition);
    let built = builder.build();
    let got: Vec<(u16, Option<Condition>, Option<&str>, usize)> = built
        .iter()
        .map(|i| (i.status, i.error, i.response_description.as_deref(), i.props.len()))
        .collect();
    assert_eq!(
        got,
        vec![
            (507, None, Some("too long"), 2),
            (507, None, Some("too large"), 1),
            (507, None, None, 1),
            (412, Some(condition), None, 2),
            (412, Some(condition), Some("empty"), 1),
        ]
    );
}

#[test]
fn builder_of_nothing() {
    assert!(PropStatBuilder::new().build().is_empty());
}

#[test]
fn propstat_steps() {
    let item = PropStat::new(DavProperty::WebDav(WebDavProperty::DisplayName));
    assert_eq!((item.status, item.error, item.response_description.clone(), item.props.len()), (200, None, None, 1));
    assert!(matches!(item.props[0].value, DavValue::Null));
    let item = item
        .with_status(412)
        .with_error(Condition::Cal(CalCondition::ValidFilter))
        .with_response_description("why");
    assert_eq!(
        (item.status, item.error, item.response_description.as_deref()),
        (412, Some(Condition::Cal(CalCondition::ValidFilter)), Some("why"))
    );
}
