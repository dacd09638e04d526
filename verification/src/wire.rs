//! The JSON shapes in which requests go to the service and answers come
//! back.

use crate::api::{CommitResponse, NewObjectResponse, QueryResponse, Server, ServerModel};
use crate::commit::{
    AttributeChange, Attributes, ChangeModel, Changes, Changeset, ChangesetModel, Commit, Dataset,
};
use crate::error::Error;
use crate::query::{text_of, Query};
use crate::text::same_text;
use crate::value::{models_of, Number, Value, ValueModel};
use vstd::prelude::*;

verus! {

/// The object whose entries are the `names`, in order, each with the value
/// that `values` hold under it.
pub open spec fn object_of(names: Seq<Seq<char>>, values: Map<Seq<char>, ValueModel>) -> ValueModel {
    ValueModel::Object(Seq::new(names.len(), |i: int| (names[i], values[names[i]])))
}

/// The array of the strings `texts`.
pub open spec fn strings_of(texts: Seq<Seq<char>>) -> ValueModel {
    ValueModel::Array(Seq::new(texts.len(), |i: int| ValueModel::String(texts[i])))
}

/// The number `n` as a value.
pub open spec fn number_of(n: u64) -> ValueModel {
    ValueModel::Number(Number::Int(n as i128))
}

/// The shape of a change: its kind under `action`, then `old` and `new` of
/// an overwrite, or `remove` and `add` of a change to an array.
pub open spec fn change_json(change: ChangeModel) -> ValueModel {
    match change {
        ChangeModel::Update { old, new } => ValueModel::Object(
            seq![("action"@, ValueModel::String("update"@)), ("old"@, old), ("new"@, new)],
        ),
        ChangeModel::Multi { remove, add } => ValueModel::Object(
            seq![
                ("action"@, ValueModel::String("multi"@)),
                ("remove"@, ValueModel::Array(remove)),
                ("add"@, ValueModel::Array(add)),
            ],
        ),
    }
}

/// A copy of `items` as an array value.
fn array_of(items: &Vec<Value>) -> (array: Value)
    ensures
        array@ == ValueModel::Array(models_of(items@)),
{
    let mut copy: Vec<Value> = Vec::new();
    let mut i: usize = 0;
    while i < items.len()
        invariant
            i <= items.len(),
            copy.len() == i,
            forall|j: int| 0 <= j < i ==> copy[j]@ == items[j]@,
        decreases items.len() - i,
    {
        copy.push(items[i].clone());
        i += 1;
    }
    let array = Value::Array(copy);
    assert(array@->Array_0 =~= models_of(items@));
    array
}

/// The string value that holds `text`.
fn string_value(text: &str) -> (value: Value)
    ensures
        value@ == ValueModel::String(text@),
{
    Value::String(text.to_owned())
}

/// An entry of an object.
fn entry(name: &str, value: Value) -> (entry: (String, Value))
    ensures
        entry.0@ == name@,
        entry.1@ == value@,
{
    (name.to_owned(), value)
}

impl Dataset {
    /// The shape of the attributes: an object with one entry for each.
    pub open spec fn json(&self) -> ValueModel {
        object_of(self.names(), self@)
    }

    /// The attributes in the shape in which they are sent.
    pub fn to_value(&self) -> (value: Value)
        ensures
            value@ == self.json(),
    {
        let names = self.keys();
        let mut fields: Vec<(String, Value)> = Vec::new();
        let mut i: usize = 0;
        while i < names.len()
            invariant
                i <= names.len(),
                fields.len() == i,
                crate::cli::texts_of(names@) == self.names(),
                forall|name: Seq<char>|
                    self@.dom().contains(name) <==> self.names().contains(name),
                forall|j: int|
                    0 <= j < i ==> (#[trigger] fields[j]).0@ == self.names()[j] && fields[j].1@
                        == self@[self.names()[j]],
            decreases names.len() - i,
        {
            assert(crate::cli::texts_of(names@)[i as int] == names@[i as int]@);
            assert(self.names().contains(names@[i as int]@));
            let value = self.get(names[i].as_str());
            fields.push((names[i].clone(), value));
            i += 1;
        }
        let value = Value::Object(fields);
        assert(value@->Object_0 =~= self.json()->Object_0);
        value
    }
}

impl AttributeChange {
    /// The change in the shape in which it is sent.
    pub fn to_value(&self) -> (value: Value)
        ensures
            value@ == change_json(self@),
    {
        let mut fields: Vec<(String, Value)> = Vec::new();
        match self {
            AttributeChange::Update { old, new } => {
                fields.push(entry("action", string_value("update")));
                fields.push(entry("old", old.clone()));
                fields.push(entry("new", new.clone()));
                let value = Value::Object(fields);
                assert(value@->Object_0 =~= change_json(self@)->Object_0);
                value
            },
            AttributeChange::Multi { remove, add } => {
                fields.push(entry("action", string_value("multi")));
                fields.push(entry("remove", array_of(remove)));
                fields.push(entry("add", array_of(add)));
                let value = Value::Object(fields);
                assert(value@->Object_0 =~= change_json(self@)->Object_0);
                value
            },
        }
    }
}

impl Changeset {
    /// The shape of the changes to one object: its identifier under
    /// `object_id`, then one entry for each changed attribute.
    pub open spec fn json(&self) -> ValueModel {
        ValueModel::Object(
            seq![("object_id"@, number_of(self.object_id))] + Seq::new(
                self.attributes.keys().len(),
                |i: int|
                    (
                        self.attributes.keys()[i],
                        change_json(self.attributes@[self.attributes.keys()[i]]),
                    ),
            ),
        )
    }

    /// The changes in the shape in which they are sent.
    pub fn to_value(&self) -> (value: Value)
        ensures
            value@ == self.json(),
    {
        let n = self.attributes.len();
        let mut fields: Vec<(String, Value)> = Vec::new();
        fields.push(entry("object_id", Value::Number(Number::Int(self.object_id as i128))));
        let mut i: usize = 0;
        while i < n
            invariant
                i <= n,
                n == self.attributes.keys().len(),
                fields.len() == i + 1,
                fields[0].0@ == "object_id"@,
                fields[0].1@ == number_of(self.object_id),
                forall|j: int|
                    0 <= j < i ==> (#[trigger] fields[j + 1]).0@ == self.attributes.keys()[j]
                        && fields[j + 1].1@ == change_json(
                        self.attributes@[self.attributes.keys()[j]],
                    ),
            decreases n - i,
        {
            let name = self.attributes.key_at(i).clone();
            let change = self.attributes.value_at(i).to_value();
            fields.push((name, change));
            i += 1;
        }
        let value = Value::Object(fields);
        assert(value@->Object_0 =~= self.json()->Object_0) by {
            let ours = value@->Object_0;
            let theirs = self.json()->Object_0;
            assert(ours.len() == theirs.len());
            assert forall|k: int| 0 <= k < ours.len() implies ours[k] == theirs[k] by {
                if k > 0 {
                    assert(fields[(k - 1) + 1].0@ == self.attributes.keys()[k - 1]);
                }
            }
        }
        value
    }
}

impl Commit {
    /// The shape of a batch: the attributes of the objects to create under
    /// `created`, the changes under `changed`, and the identifiers of the
    /// objects to delete under `deleted`.
    pub open spec fn json(&self) -> ValueModel {
        ValueModel::Object(
            seq![
                (
                    "created"@,
                    ValueModel::Array(
                        Seq::new(self.created@.len(), |i: int| self.created@[i].json()),
                    ),
                ),
                (
                    "changed"@,
                    ValueModel::Array(
                        Seq::new(self.changed@.len(), |i: int| self.changed@[i].json()),
                    ),
                ),
                (
                    "deleted"@,
                    ValueModel::Array(
                        Seq::new(self.deleted@.len(), |i: int| number_of(self.deleted@[i])),
                    ),
                ),
            ],
        )
    }

    /// The batch in the shape in which it is sent.
    pub fn to_value(&self) -> (value: Value)
        ensures
            value@ == self.json(),
    {
        let mut created: Vec<Value> = Vec::new();
        let mut i: usize = 0;
        while i < self.created.len()
            invariant
                i <= self.created.len(),
                created.len() == i,
                forall|j: int| 0 <= j < i ==> created[j]@ == self.created@[j].json(),
            decreases self.created.len() - i,
        {
            created.push(self.created[i].to_value());
            i += 1;
        }
        let mut changed: Vec<Value> = Vec::new();
        let mut i: usize = 0;
        while i < self.changed.len()
            invariant
                i <= self.changed.len(),
                changed.len() == i,
                forall|j: int| 0 <= j < i ==> changed[j]@ == self.changed@[j].json(),
            decreases self.changed.len() - i,
        {
            changed.push(self.changed[i].to_value());
            i += 1;
        }
        let mut deleted: Vec<Value> = Vec::new();
        let mut i: usize = 0;
        while i < self.deleted.len()
            invariant
                i <= self.deleted.len(),
                deleted.len() == i,
                forall|j: int| 0 <= j < i ==> deleted[j]@ == number_of(self.deleted@[j]),
            decreases self.deleted.len() - i,
        {
            deleted.push(Value::Number(Number::Int(self.deleted[i] as i128)));
            i += 1;
        }
        let created = Value::Array(created);
        let changed = Value::Array(changed);
        let deleted = Value::Array(deleted);
        assert(created@->Array_0 =~= Seq::new(self.created@.len(), |i: int| self.created@[i].json()));
        assert(changed@->Array_0 =~= Seq::new(self.changed@.len(), |i: int| self.changed@[i].json()));
        assert(deleted@->Array_0 =~= Seq::new(
            self.deleted@.len(),
            |i: int| number_of(self.deleted@[i]),
        ));
        let mut fields: Vec<(String, Value)> = Vec::new();
        fields.push(entry("created", created));
        fields.push(entry("changed", changed));
        fields.push(entry("deleted", deleted));
        let value = Value::Object(fields);
        assert(value@->Object_0 =~= self.json()->Object_0);
        value
    }
}

impl Query {
    /// The shape of a query: the filters by attribute under `filters`, the
    /// attributes asked for under `restrict`, and under `order_by` the
    /// attribute that orders the answer, where there is one.
    pub open spec fn json(&self) -> ValueModel {
        let fixed = seq![
            ("filters"@, object_of(self.filters.keys(), self.filters@)),
            ("restrict"@, strings_of(self.restrict.keys())),
        ];
        match self.order_by {
            Some(attribute) => ValueModel::Object(
                fixed.push(("order_by"@, ValueModel::String(attribute@))),
            ),
            None => ValueModel::Object(fixed),
        }
    }

    /// The query in the shape in which it is sent.
    pub fn to_value(&self) -> (value: Value)
        ensures
            value@ == self.json(),
    {
        let n = self.filters.len();
        let mut filters: Vec<(String, Value)> = Vec::new();
        let mut i: usize = 0;
        while i < n
            invariant
                i <= n,
                n == self.filters.keys().len(),
                filters.len() == i,
                forall|j: int|
                    0 <= j < i ==> (#[trigger] filters[j]).0@ == self.filters.keys()[j]
                        && filters[j].1@ == self.filters@[self.filters.keys()[j]],
            decreases n - i,
        {
            filters.push((self.filters.key_at(i).clone(), self.filters.value_at(i).clone()));
            i += 1;
        }
        let filters = Value::Object(filters);
        assert(filters@->Object_0 =~= object_of(self.filters.keys(), self.filters@)->Object_0);
        let m = self.restrict.len();
        let mut restrict: Vec<Value> = Vec::new();
        let mut i: usize = 0;
        while i < m
            invariant
                i <= m,
                m == self.restrict.keys().len(),
                restrict.len() == i,
                forall|j: int|
                    0 <= j < i ==> restrict[j]@ == ValueModel::String(self.restrict.keys()[j]),
            decreases m - i,
        {
            restrict.push(string_value(self.restrict.key_at(i).as_str()));
            i += 1;
        }
        let restrict = Value::Array(restrict);
        assert(restrict@->Array_0 =~= strings_of(self.restrict.keys())->Array_0);
        let mut fields: Vec<(String, Value)> = Vec::new();
        fields.push(entry("filters", filters));
        fields.push(entry("restrict", restrict));
        match &self.order_by {
            Some(attribute) => {
                fields.push(entry("order_by", string_value(attribute.as_str())));
                let value = Value::Object(fields);
                assert(value@->Object_0 =~= self.json()->Object_0);
                value
            },
            None => {
                let value = Value::Object(fields);
                assert(value@->Object_0 =~= self.json()->Object_0);
                value
            },
        }
    }
}

/// The entries of an object: names with their values, in order.
pub type Fields = Seq<(Seq<char>, ValueModel)>;

/// The names of `fields`, in order.
pub open spec fn field_names(fields: Fields) -> Seq<Seq<char>> {
    Seq::new(fields.len(), |i: int| fields[i].0)
}

/// The value of the first entry of `fields` that is called `name`.
pub open spec fn field(fields: Fields, name: Seq<char>) -> Option<ValueModel> {
    match field_names(fields).index_of_first(name) {
        Some(place) => Some(fields[place].1),
        None => None,
    }
}

/// The attributes that `fields` give, but for the entries called
/// `skipped`: of two entries of one name the later counts.
pub open spec fn attributes_but(fields: Fields, skipped: Option<Seq<char>>) -> Attributes
    decreases fields.len(),
{
    if fields.len() == 0 {
        Map::empty()
    } else if skipped == Some(fields.last().0) {
        attributes_but(fields.drop_last(), skipped)
    } else {
        attributes_but(fields.drop_last(), skipped).insert(fields.last().0, fields.last().1)
    }
}

/// The text under `name` in `fields` where it may be left out: the empty
/// text where it is, nothing where the entry is no string.
pub open spec fn text_or_empty(fields: Fields, name: Seq<char>) -> Option<Seq<char>> {
    match field(fields, name) {
        None => Some(Seq::empty()),
        Some(ValueModel::String(text)) => Some(text),
        Some(_) => None,
    }
}

/// The text under `name` in `fields` where it may be left out or null:
/// nothing where the entry is neither a string nor null.
pub open spec fn optional_text(fields: Fields, name: Seq<char>) -> Option<Option<Seq<char>>> {
    match field(fields, name) {
        None => Some(None),
        Some(ValueModel::Null) => Some(None),
        Some(ValueModel::String(text)) => Some(Some(text)),
        Some(_) => None,
    }
}

/// The status and the message of the answer to a commit that has the shape
/// `value`: an object whose `status`, if it has one, is a string, and whose
/// `message`, if it has one, is a string or null.
pub open spec fn commit_response_of(value: ValueModel) -> Option<(Seq<char>, Option<Seq<char>>)> {
    match value {
        ValueModel::Object(fields) => match (
            text_or_empty(fields, "status"@),
            optional_text(fields, "message"@),
        ) {
            (Some(status), Some(message)) => Some((status, message)),
            _ => None,
        },
        _ => None,
    }
}

/// The attributes of the answer to a request for a new object that has the
/// shape `value`: an object whose `result` is an object.
pub open spec fn new_object_response_of(value: ValueModel) -> Option<Attributes> {
    match value {
        ValueModel::Object(fields) => match field(fields, "result"@) {
            Some(ValueModel::Object(attributes)) => Some(attributes_but(attributes, None)),
            _ => None,
        },
        _ => None,
    }
}

/// The object that has the shape `value`: an object whose `object_id` is a
/// whole number from 0 to 2^64 - 1 and whose other entries are its
/// attributes. No edit is recorded for it.
pub open spec fn server_of(value: ValueModel) -> Option<ServerModel> {
    match value {
        ValueModel::Object(fields) => match field(fields, "object_id"@) {
            Some(ValueModel::Number(Number::Int(id))) => if 0 <= id <= u64::MAX {
                Some(
                    ServerModel {
                        object_id: id as u64,
                        attributes: attributes_but(fields, Some("object_id"@)),
                        changes: ChangesetModel { object_id: 0, attributes: Changes::empty() },
                    },
                )
            } else {
                None
            },
            _ => None,
        },
        _ => None,
    }
}

/// The objects that have the shapes `values`, if each of them is one.
pub open spec fn servers_of(values: Seq<ValueModel>) -> Option<Seq<ServerModel>>
    decreases values.len(),
{
    if values.len() == 0 {
        Some(Seq::empty())
    } else {
        match (servers_of(values.drop_last()), server_of(values.last())) {
            (Some(front), Some(last)) => Some(front.push(last)),
            _ => None,
        }
    }
}

/// The status and the objects of the answer to a query that has the shape
/// `value`: an object whose `status`, if it has one, is a string, and whose
/// `result` is an array of objects.
pub open spec fn query_response_of(value: ValueModel) -> Option<(Seq<char>, Seq<ServerModel>)> {
    match value {
        ValueModel::Object(fields) => match (
            text_or_empty(fields, "status"@),
            field(fields, "result"@),
        ) {
            (Some(status), Some(ValueModel::Array(items))) => match servers_of(items) {
                Some(servers) => Some((status, servers)),
                None => None,
            },
            _ => None,
        },
        _ => None,
    }
}

/// The values of the objects `servers`, in order.
pub open spec fn server_views(servers: Seq<Server>) -> Seq<ServerModel> {
    Seq::new(servers.len(), |i: int| servers[i]@)
}

/// Where a front part of `values` holds a shape that is no object, so does
/// the whole.
proof fn lemma_servers_of_prefix(values: Seq<ValueModel>, len: int)
    requires
        0 <= len <= values.len(),
        servers_of(values.take(len)) is None,
    ensures
        servers_of(values) is None,
    decreases values.len(),
{
    if len < values.len() {
        assert(values.drop_last().take(len) =~= values.take(len));
        lemma_servers_of_prefix(values.drop_last(), len);
    } else {
        assert(values.take(len) =~= values);
    }
}

/// Finds the first entry of `fields` that is called `name`.
fn find_field<'a>(fields: &'a Vec<(String, Value)>, name: &str) -> (found: Option<&'a Value>)
    ensures
        match found {
            Some(value) => field(Value::Object(*fields)@->Object_0, name@) == Some(value@),
            None => field(Value::Object(*fields)@->Object_0, name@) is None,
        },
{
    let ghost entries = Value::Object(*fields)@->Object_0;
    let ghost names = field_names(entries);
    let mut i: usize = 0;
    while i < fields.len()
        invariant
            i <= fields.len(),
            entries == Value::Object(*fields)@->Object_0,
            names == field_names(entries),
            forall|j: int| 0 <= j < i ==> names[j] != name@,
        decreases fields.len() - i,
    {
        assert(names[i as int] == fields[i as int].0@);
        if same_text(fields[i].0.as_str(), name) {
            proof {
                names.index_of_first_ensures(name@);
                let first = names.index_of_first(name@);
                assert(names[i as int] == name@);
                assert(first is Some);
                if first->0 < i {
                    assert(names[first->0] != name@);
                }
                assert(first->0 == i);
            }
            return Some(&fields[i].1);
        }
        i += 1;
    }
    proof {
        names.index_of_first_ensures(name@);
        if names.contains(name@) {
            let k = choose|k: int| 0 <= k < names.len() && names[k] == name@;
            assert(names[k] != name@);
        }
    }
    None
}

/// Reads the text under `name` where it may be left out.
fn read_text_or_empty(fields: &Vec<(String, Value)>, name: &str) -> (text: Option<String>)
    ensures
        text_of(text) == text_or_empty(Value::Object(*fields)@->Object_0, name@),
{
    match find_field(fields, name) {
        None => Some(String::new()),
        Some(Value::String(text)) => Some(text.clone()),
        Some(_) => None,
    }
}

/// Reads the attributes that `fields` give, but for the entries called
/// `skipped`.
fn read_attributes(fields: &Vec<(String, Value)>, skipped: Option<&str>) -> (dataset: Dataset)
    ensures
        dataset@ == attributes_but(
            Value::Object(*fields)@->Object_0,
            match skipped {
                Some(name) => Some(name@),
                None => None,
            },
        ),
{
    let ghost entries = Value::Object(*fields)@->Object_0;
    let ghost skip = match skipped {
        Some(name) => Some(name@),
        None => None,
    };
    let mut dataset = Dataset::new();
    assert(entries.take(0) =~= Seq::empty());
    let mut i: usize = 0;
    while i < fields.len()
        invariant
            i <= fields.len(),
            entries == Value::Object(*fields)@->Object_0,
            skip == match skipped {
                Some(name) => Some(name@),
                None => None,
            },
            dataset@ == attributes_but(entries.take(i as int), skip),
        decreases fields.len() - i,
    {
        assert(entries.take(i + 1).drop_last() =~= entries.take(i as int));
        assert(entries.take(i + 1).last() == (fields[i as int].0@, fields[i as int].1@));
        let skipped_here = match skipped {
            Some(name) => same_text(fields[i].0.as_str(), name),
            None => false,
        };
        if !skipped_here {
            dataset.set(fields[i].0.as_str(), fields[i].1.clone());
        }
        i += 1;
    }
    assert(entries.take(fields.len() as int) =~= entries);
    dataset
}

/// Reads the object that has the shape `value`.
fn read_server(value: &Value) -> (server: Option<Server>)
    ensures
        match server {
            Some(server) => server_of(value@) == Some(server@),
            None => server_of(value@) is None,
        },
{
    match value {
        Value::Object(fields) => match find_field(fields, "object_id") {
            Some(Value::Number(Number::Int(id))) => {
                if 0 <= *id && *id <= u64::MAX as i128 {
                    Some(
                        Server {
                            object_id: *id as u64,
                            attributes: read_attributes(fields, Some("object_id")),
                            changes: Changeset::default(),
                        },
                    )
                } else {
                    None
                }
            },
            _ => None,
        },
        _ => None,
    }
}

/// The failure to read an answer that does not have its shape.
fn malformed(what: &str) -> (error: Error)
    ensures
        error is JsonError,
{
    let mut text = "the answer is not of the shape of ".to_owned();
    text.append(what);
    Error::JsonError(text)
}

impl CommitResponse {
    /// Reads the answer to a commit from its JSON shape.
    pub fn from_value(value: &Value) -> (res: Result<CommitResponse, Error>)
        ensures
            match res {
                Ok(response) => commit_response_of(value@) == Some(
                    (response.status@, text_of(response.message)),
                ),
                Err(error) => commit_response_of(value@) is None && error is JsonError,
            },
    {
        let fields = match value {
            Value::Object(fields) => fields,
            _ => {
                return Err(malformed("a commit response"));
            },
        };
        let status = match read_text_or_empty(fields, "status") {
            Some(status) => status,
            None => {
                return Err(malformed("a commit response"));
            },
        };
        let message = match find_field(fields, "message") {
            None => None,
            Some(Value::Null) => None,
            Some(Value::String(text)) => Some(text.clone()),
            Some(_) => {
                return Err(malformed("a commit response"));
            },
        };
        Ok(CommitResponse { status, message })
    }
}

impl NewObjectResponse {
    /// Reads the answer to a request for a new object from its JSON shape.
    pub fn from_value(value: &Value) -> (res: Result<NewObjectResponse, Error>)
        ensures
            match res {
                Ok(response) => new_object_response_of(value@) == Some(response.result@),
                Err(error) => new_object_response_of(value@) is None && error is JsonError,
            },
    {
        let fields = match value {
            Value::Object(fields) => fields,
            _ => {
                return Err(malformed("a new object response"));
            },
        };
        match find_field(fields, "result") {
            Some(Value::Object(attributes)) => Ok(
                NewObjectResponse { result: read_attributes(attributes, None) },
            ),
            _ => Err(malformed("a new object response")),
        }
    }
}

impl QueryResponse<Dataset> {
    /// Reads the answer to a query from its JSON shape.
    pub fn from_value(value: &Value) -> (res: Result<QueryResponse, Error>)
        ensures
            match res {
                Ok(response) => query_response_of(value@) == Some(
                    (response.status@, server_views(response.result@)),
                ),
                Err(error) => query_response_of(value@) is None && error is JsonError,
            },
    {
        let fields = match value {
            Value::Object(fields) => fields,
            _ => {
                return Err(malformed("a query response"));
            },
        };
        let status = match read_text_or_empty(fields, "status") {
            Some(status) => status,
            None => {
                return Err(malformed("a query response"));
            },
        };
        let items = match find_field(fields, "result") {
            Some(Value::Array(items)) => items,
            _ => {
                return Err(malformed("a query response"));
            },
        };
        let ghost shapes = models_of(items@);
        assert(shapes =~= Value::Array(*items)@->Array_0);
        let mut result: Vec<Server> = Vec::new();
        assert(shapes.take(0) =~= Seq::empty());
        assert(server_views(result@) =~= Seq::empty());
        let mut i: usize = 0;
        while i < items.len()
            invariant
                i <= items.len(),
                shapes == models_of(items@),
                servers_of(shapes.take(i as int)) == Some(server_views(result@)),
                query_response_of(value@) == match servers_of(shapes) {
                    Some(servers) => Some((status@, servers)),
                    None => None,
                },
            decreases items.len() - i,
        {
            assert(shapes.take(i + 1).drop_last() =~= shapes.take(i as int));
            assert(shapes.take(i + 1).last() == items@[i as int]@);
            match read_server(&items[i]) {
                Some(server) => {
                    let ghost before = server_views(result@);
                    result.push(server);
                    assert(server_views(result@) =~= before.push(server@));
                },
                None => {
                    proof {
                        lemma_servers_of_prefix(shapes, i + 1);
                    }
                    return Err(malformed("a query response"));
                },
            }
            i += 1;
        }
        assert(shapes.take(items.len() as int) =~= shapes);
        Ok(QueryResponse { status, result })
    }
}

} // verus!
