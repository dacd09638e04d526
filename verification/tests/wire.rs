use adminapi::api::{CommitResponse, NewObjectResponse, QueryResponse, Server};
use adminapi::commit::{AttributeChange, Changeset, Commit, Dataset};
use adminapi::error::Error;
use adminapi::value::{Number, Value};

fn text(s: &str) -> Value {
    Value::String(s.to_string())
}

fn number(n: i128) -> Value {
    Value::Number(Number::Int(n))
}

fn object(fields: Vec<(&str, Value)>) -> Value {
    Value::Object(
        fields
            .into_iter()
            .map(|(name, value)| (name.to_string(), value))
            .collect(),
    )
}

fn edited() -> Server {
    let mut attributes = Dataset::new();
    attributes.set("hostname", "web01").set("tags", vec!["a"]);
    let mut server = Server {
        object_id: 7,
        attributes,
        changes: Changeset::default(),
    };
    server.set("hostname", "web02").unwrap();
    server.add("tags", "b").unwrap();
    server.remove("tags", "a").unwrap();
    server
}

#[test]
fn dataset_is_sent_as_an_object() {
    let mut dataset = Dataset::new();
    dataset.set("hostname", "web01").set("memory", 16).set("tags", vec!["a"]);
    assert_eq!(
        dataset.to_value(),
        object(vec![
            ("hostname", text("web01")),
            ("memory", number(16)),
            ("tags", Value::Array(vec![text("a")])),
        ])
    );
    assert_eq!(Dataset::new().to_value(), object(vec![]));
    assert_eq!(Dataset::default().to_value(), object(vec![]));
}

#[test]
fn changes_are_tagged_by_their_action() {
    let update = AttributeChange::Update {
        old: text("a"),
        new: Value::Null,
    };
    assert_eq!(
        update.to_value(),
        object(vec![
            ("action", text("update")),
            ("old", text("a")),
            ("new", Value::Null),
        ])
    );
    let multi = AttributeChange::Multi {
        remove: vec![text("x")],
        add: vec![number(1), number(2)],
    };
    assert_eq!(
        multi.to_value(),
        object(vec![
            ("action", text("multi")),
            ("remove", Value::Array(vec![text("x")])),
            ("add", Value::Array(vec![number(1), number(2)])),
        ])
    );
    assert_eq!(multi.clone(), multi);
}

#[test]
fn changeset_carries_the_object_id_and_one_entry_per_attribute() {
    let changeset = edited().changeset();
    assert_eq!(
        changeset.to_value(),
        object(vec![
            ("object_id", number(7)),
            (
                "hostname",
                object(vec![
                    ("action", text("update")),
                    ("old", text("web01")),
                    ("new", text("web02")),
                ])
            ),
            (
                "tags",
                object(vec![
                    ("action", text("multi")),
                    ("remove", Value::Array(vec![text("a")])),
                    ("add", Value::Array(vec![text("b")])),
                ])
            ),
        ])
    );
    assert_eq!(
        Changeset::default().to_value(),
        object(vec![("object_id", number(0))])
    );
}

#[test]
fn commit_lists_created_changed_and_deleted() {
    let mut created = Dataset::new();
    created.set("hostname", "new01");
    let commit = Commit::new()
        .create(created)
        .update(edited().changeset())
        .delete(3)
        .delete(u64::MAX);
    let value = commit.to_value();
    let fields = match &value {
        Value::Object(fields) => fields,
        other => panic!("not an object: {other:?}"),
    };
    assert_eq!(fields.len(), 3);
    assert_eq!(fields[0].0, "created");
    assert_eq!(
        fields[0].1,
        Value::Array(vec![object(vec![("hostname", text("new01"))])])
    );
    assert_eq!(fields[1].0, "changed");
    assert_eq!(fields[1].1, Value::Array(vec![edited().changeset().to_value()]));
    assert_eq!(fields[2].0, "deleted");
    assert_eq!(
        fields[2].1,
        Value::Array(vec![number(3), number(18446744073709551615)])
    );
}

#[test]
fn empty_commit_has_three_empty_lists() {
    let expected = object(vec![
        ("created", Value::Array(vec![])),
        ("changed", Value::Array(vec![])),
        ("deleted", Value::Array(vec![])),
    ]);
    assert_eq!(Commit::new().to_value(), expected);
    assert_eq!(Commit::default().to_value(), expected);
}

#[test]
fn commit_response_is_read_from_its_shape() {
    let response = CommitResponse::from_value(&object(vec![
        ("status", text("success")),
        ("message", text("done")),
    ]))
    .unwrap();
    assert_eq!(
        response,
        CommitResponse {
            status: "success".to_string(),
            message: Some("done".to_string()),
        }
    );
    let response = CommitResponse::from_value(&object(vec![("message", Value::Null)])).unwrap();
    assert_eq!(
        response,
        CommitResponse {
            status: String::new(),
            message: None,
        }
    );
    let response = CommitResponse::from_value(&object(vec![
        ("status", text("error")),
        ("other", number(1)),
    ]))
    .unwrap();
    assert_eq!(response.status, "error");
    assert_eq!(response.message, None);
}

#[test]
fn malformed_commit_response_is_refused() {
    for value in [
        Value::Null,
        Value::Array(vec![]),
        object(vec![("status", number(1))]),
        object(vec![("status", Value::Null)]),
        object(vec![("status", text("ok")), ("message", number(1))]),
    ] {
        let error = CommitResponse::from_value(&value).unwrap_err();
        assert!(matches!(error, Error::JsonError(_)), "{value:?}");
    }
}

#[test]
fn new_object_response_gives_the_template() {
    let response = NewObjectResponse::from_value(&object(vec![(
        "result",
        object(vec![
            ("hostname", Value::Null),
            ("tags", Value::Array(vec![])),
            ("hostname", text("later wins")),
        ]),
    )]))
    .unwrap();
    assert_eq!(response.result.get("hostname"), text("later wins"));
    assert_eq!(response.result.get("tags"), Value::Array(vec![]));
    assert_eq!(response.result.keys(), vec!["hostname".to_string(), "tags".to_string()]);
}

#[test]
fn malformed_new_object_response_is_refused() {
    for value in [
        Value::Null,
        object(vec![]),
        object(vec![("result", Value::Array(vec![]))]),
        object(vec![("result", Value::Null)]),
    ] {
        let error = NewObjectResponse::from_value(&value).unwrap_err();
        assert!(matches!(error, Error::JsonError(_)), "{value:?}");
    }
}

#[test]
fn query_response_gives_the_objects() {
    let response = QueryResponse::from_value(&object(vec![
        ("status", text("success")),
        (
            "result",
            Value::Array(vec![
                object(vec![
                    ("object_id", number(1)),
                    ("hostname", text("web01")),
                ]),
                object(vec![
                    ("hostname", text("web02")),
                    ("object_id", number(18446744073709551615)),
                    ("tags", Value::Array(vec![text("a")])),
                ]),
            ]),
        ),
    ]))
    .unwrap();
    assert_eq!(response.status, "success");
    let servers = response.all();
    assert_eq!(servers.len(), 2);
    assert_eq!(servers[0].object_id, 1);
    assert_eq!(servers[0].get("hostname"), text("web01"));
    assert_eq!(servers[0].get("object_id"), Value::Null);
    assert!(!servers[0].has_changes());
    assert_eq!(servers[1].object_id, u64::MAX);
    assert_eq!(servers[1].attributes.keys(), vec!["hostname".to_string(), "tags".to_string()]);
}

#[test]
fn query_response_status_may_be_left_out() {
    let response =
        QueryResponse::from_value(&object(vec![("result", Value::Array(vec![]))])).unwrap();
    assert_eq!(response.status, "");
    assert!(response.all().is_empty());
}

#[test]
fn malformed_query_response_is_refused() {
    let good = object(vec![("object_id", number(1))]);
    for value in [
        Value::Null,
        object(vec![]),
        object(vec![("result", Value::Null)]),
        object(vec![("status", number(1)), ("result", Value::Array(vec![]))]),
        object(vec![("result", Value::Array(vec![good.clone(), Value::Null]))]),
        object(vec![("result", Value::Array(vec![object(vec![("hostname", text("a"))]), good.clone()]))]),
        object(vec![("result", Value::Array(vec![object(vec![("object_id", number(-1))])]))]),
        object(vec![(
            "result",
            Value::Array(vec![object(vec![("object_id", number(18446744073709551616))])]),
        )]),
        object(vec![("result", Value::Array(vec![object(vec![("object_id", text("1"))])]))]),
        object(vec![(
            "result",
            Value::Array(vec![object(vec![("object_id", Value::Number(Number::Float(0)))])]),
        )]),
    ] {
        let error = QueryResponse::from_value(&value).unwrap_err();
        assert!(matches!(error, Error::JsonError(_)), "{value:?}");
    }
}

#[test]
fn clones_of_commits_and_responses_hold_the_same() {
    let mut created = Dataset::new();
    created.set("hostname", "new01");
    let commit = Commit::new().create(created).update(edited().changeset()).delete(3);
    assert_eq!(commit.clone().to_value(), commit.to_value());
    let response = CommitResponse {
        status: "error".to_string(),
        message: Some("no".to_string()),
    };
    assert_eq!(response.clone(), response);
    let query = QueryResponse {
        status: "success".to_string(),
        result: vec![edited()],
    };
    let copy = query.clone();
    assert_eq!(copy.status, "success");
    assert_eq!(copy.result.len(), 1);
    assert_eq!(copy.result[0].changeset().to_value(), edited().changeset().to_value());
    let template = NewObjectResponse { result: Dataset::new() };
    assert_eq!(template.clone().result.to_value(), template.result.to_value());
}
