use adminapi::filter;
use adminapi::query::{Query, QueryBuilder};
use adminapi::value::Value;

fn text(s: &str) -> Value {
    Value::String(s.to_string())
}

fn object(fields: Vec<(&str, Value)>) -> Value {
    Value::Object(
        fields
            .into_iter()
            .map(|(name, value)| (name.to_string(), value))
            .collect(),
    )
}

fn names(list: &[&str]) -> Vec<String> {
    list.iter().map(|s| s.to_string()).collect()
}

fn to_json(value: &Value) -> serde_json::Value {
    match value {
        Value::Null => serde_json::Value::Null,
        Value::Bool(b) => serde_json::Value::Bool(*b),
        Value::Number(adminapi::value::Number::Int(n)) => {
            serde_json::Value::Number(serde_json::Number::from_i128(*n).unwrap())
        }
        Value::Number(adminapi::value::Number::Float(bits)) => {
            serde_json::Value::Number(serde_json::Number::from_f64(f64::from_bits(*bits)).unwrap())
        }
        Value::String(s) => serde_json::Value::String(s.clone()),
        Value::Array(items) => serde_json::Value::Array(items.iter().map(to_json).collect()),
        Value::Object(fields) => serde_json::Value::Object(
            fields
                .iter()
                .map(|(name, value)| (name.clone(), to_json(value)))
                .collect(),
        ),
    }
}

#[test]
fn query_serializes_filters_and_restriction() {
    let query = Query::builder()
        .filter("hostname", filter::regexp(".*payment.*"))
        .restrict(names(&["hostname"]))
        .build();
    assert_eq!(
        query.to_value(),
        object(vec![
            (
                "filters",
                object(vec![("hostname", object(vec![("Regexp", text(".*payment.*"))]))])
            ),
            ("restrict", Value::Array(vec![text("hostname"), text("object_id")])),
        ])
    );
    let expected: serde_json::Value = serde_json::from_str(
        r#"{"filters": {"hostname": {"Regexp": ".*payment.*"}}, "restrict": ["hostname", "object_id"]}"#,
    )
    .unwrap();
    assert_eq!(to_json(&query.to_value()), expected);
    assert_eq!(
        serde_json::to_string(&to_json(&query.to_value())).unwrap(),
        r#"{"filters":{"hostname":{"Regexp":".*payment.*"}},"restrict":["hostname","object_id"]}"#
    );
}

#[test]
fn query_without_restriction_asks_for_hostname_and_object_id() {
    let query = Query::builder().filter("state", "online").build();
    assert_eq!(query.restrict.len(), 2);
    assert_eq!(query.restrict.key_at(0), "hostname");
    assert_eq!(query.restrict.key_at(1), "object_id");
    assert_eq!(query.filters.get("state"), Some(&text("online")));
    assert_eq!(query.order_by, None);
}

#[test]
fn query_adds_object_id_once() {
    let query = QueryBuilder::new()
        .restrict(names(&["object_id", "memory"]))
        .build();
    assert_eq!(query.restrict.len(), 2);
    assert_eq!(query.restrict.key_at(0), "object_id");
    assert_eq!(query.restrict.key_at(1), "memory");
    let query = QueryBuilder::new().restrict(names(&["memory"])).build();
    assert_eq!(query.restrict.len(), 2);
    assert_eq!(query.restrict.key_at(0), "memory");
    assert_eq!(query.restrict.key_at(1), "object_id");
}

#[test]
fn restriction_keeps_each_name_once_and_replaces_the_earlier_one() {
    let query = QueryBuilder::new()
        .restrict(names(&["a", "b"]))
        .restrict(names(&["c", "d", "c", "e", "d"]))
        .build();
    assert_eq!(
        query.to_value(),
        object(vec![
            ("filters", object(vec![])),
            (
                "restrict",
                Value::Array(vec![text("c"), text("d"), text("e"), text("object_id")])
            ),
        ])
    );
}

#[test]
fn empty_restriction_counts_as_none() {
    let query = QueryBuilder::new().restrict(Vec::new()).build();
    assert_eq!(query.restrict.len(), 2);
    assert_eq!(query.restrict.key_at(0), "hostname");
}

#[test]
fn later_filter_on_an_attribute_replaces_the_earlier() {
    let query = Query::builder()
        .filter("hostname", "a")
        .filter("state", "online")
        .filter("hostname", filter::not("b"))
        .build();
    assert_eq!(query.filters.len(), 2);
    assert_eq!(
        query.filters.get("hostname"),
        Some(&object(vec![("Not", text("b"))]))
    );
}

#[test]
fn order_by_is_sent_only_where_set() {
    let query = Query::builder()
        .order_by(Some("hostname".to_string()))
        .build();
    assert_eq!(
        query.to_value(),
        object(vec![
            ("filters", object(vec![])),
            ("restrict", Value::Array(vec![text("hostname"), text("object_id")])),
            ("order_by", text("hostname")),
        ])
    );
    let query = Query::builder()
        .order_by(Some("hostname".to_string()))
        .order_by(None)
        .build();
    assert_eq!(query.order_by, None);
}

#[test]
fn new_query_is_empty() {
    let query = Query::new();
    assert_eq!(query.filters.len(), 0);
    assert_eq!(query.restrict.len(), 0);
    assert_eq!(query.order_by, None);
    assert_eq!(
        query.to_value(),
        object(vec![("filters", object(vec![])), ("restrict", Value::Array(vec![]))])
    );
    let built = Query::default();
    assert_eq!(built.to_value(), query.to_value());
    assert_eq!(QueryBuilder::default().build().to_value(), Query::builder().build().to_value());
}

#[test]
fn clone_of_a_query_is_independent() {
    let builder = Query::builder().filter("state", "online").restrict(names(&["memory"]));
    let copy = builder.clone();
    let query = builder.order_by(Some("memory".to_string())).build();
    let other = copy.build();
    assert_eq!(other.order_by, None);
    assert_eq!(query.order_by, Some("memory".to_string()));
    assert_eq!(other.clone().to_value(), other.to_value());
    assert_eq!(other.filters.get("state"), Some(&text("online")));
}
