//! Attribute sets, the changes made to them, and the batch that commits them.

use crate::name_map::{NameMap, Replicate};
use crate::value::{models_of, Number, Value, ValueModel};
use vstd::prelude::*;

verus! {

/// The value of one attribute.
pub type AttributeValue = Value;

/// Types that can stand as the value of an attribute.
pub trait IntoAttributeValue: Sized {
    /// The attribute value that `self` converts to.
    spec fn as_attribute_value(self) -> ValueModel;

    /// Converts `self` into an attribute value.
    fn into_attribute_value(self) -> (value: AttributeValue)
        ensures
            value@ == self.as_attribute_value(),
    ;
}

impl IntoAttributeValue for String {
    open spec fn as_attribute_value(self) -> ValueModel {
        ValueModel::String(self@)
    }

    fn into_attribute_value(self) -> (value: AttributeValue) {
        Value::String(self)
    }
}

impl IntoAttributeValue for () {
    open spec fn as_attribute_value(self) -> ValueModel {
        ValueModel::Null
    }

    fn into_attribute_value(self) -> (value: AttributeValue) {
        Value::Null
    }
}

impl IntoAttributeValue for i32 {
    open spec fn as_attribute_value(self) -> ValueModel {
        ValueModel::Number(Number::Int(self as i128))
    }

    fn into_attribute_value(self) -> (value: AttributeValue) {
        Value::Number(Number::Int(self as i128))
    }
}

impl<T: IntoAttributeValue> IntoAttributeValue for Vec<T> {
    open spec fn as_attribute_value(self) -> ValueModel {
        ValueModel::Array(self@.map_values(|item: T| item.as_attribute_value()))
    }

    fn into_attribute_value(self) -> (value: AttributeValue) {
        let ghost items = self@;
        let mut out: Vec<Value> = Vec::new();
        for item in it: self
            invariant
                it.seq() == items,
                out.len() == it.index(),
                forall|j: int| 0 <= j < out.len() ==> out[j]@ == items[j].as_attribute_value(),
        {
            out.push(item.into_attribute_value());
        }
        let value = Value::Array(out);
        assert(value@->Array_0 =~= items.map_values(|item: T| item.as_attribute_value()));
        value
    }
}

impl IntoAttributeValue for Value {
    open spec fn as_attribute_value(self) -> ValueModel {
        self@
    }

    fn into_attribute_value(self) -> (value: AttributeValue) {
        self
    }
}

impl IntoAttributeValue for &str {
    open spec fn as_attribute_value(self) -> ValueModel {
        ValueModel::String(self@)
    }

    fn into_attribute_value(self) -> (value: AttributeValue) {
        Value::String(self.to_owned())
    }
}

/// The attributes of an object as a map from name to value.
pub type Attributes = Map<Seq<char>, ValueModel>;

/// The value that `attrs` hold under `name`: null where they hold none.
pub open spec fn attribute(attrs: Attributes, name: Seq<char>) -> ValueModel {
    if attrs.dom().contains(name) {
        attrs[name]
    } else {
        ValueModel::Null
    }
}

/// `attrs` after `value` is appended to the array under `name`. A missing
/// attribute becomes an array of that one value; one that is no array is
/// left as it is.
pub open spec fn with_added(attrs: Attributes, name: Seq<char>, value: ValueModel) -> Attributes {
    if !attrs.dom().contains(name) {
        attrs.insert(name, ValueModel::Array(seq![value]))
    } else {
        match attrs[name] {
            ValueModel::Array(items) => attrs.insert(name, ValueModel::Array(items.push(value))),
            _ => attrs,
        }
    }
}

/// `attrs` after the first occurrence of `value` is taken out of the array
/// under `name`. The attribute stays an array, also when nothing is left in
/// it; an attribute that is missing or no array is left as it is.
pub open spec fn with_removed(attrs: Attributes, name: Seq<char>, value: ValueModel) -> Attributes {
    if attrs.dom().contains(name) && attrs[name] is Array {
        attrs.insert(name, ValueModel::Array(attrs[name]->Array_0.remove_value(value)))
    } else {
        attrs
    }
}

/// `attrs` after the attribute `name` is emptied: an array becomes the
/// empty array, any other value null; a missing attribute stays missing.
pub open spec fn with_cleared(attrs: Attributes, name: Seq<char>) -> Attributes {
    if attrs.dom().contains(name) {
        if attrs[name] is Array {
            attrs.insert(name, ValueModel::Array(Seq::empty()))
        } else {
            attrs.insert(name, ValueModel::Null)
        }
    } else {
        attrs
    }
}

/// The full attribute set of one object.
#[derive(Debug)]
pub struct Dataset {
    entries: NameMap<Value>,
}

impl View for Dataset {
    type V = Attributes;

    closed spec fn view(&self) -> Attributes {
        self.entries@
    }
}

impl Dataset {
    /// The names of the attributes, in the order in which they are held.
    pub closed spec fn names(&self) -> Seq<Seq<char>> {
        self.entries.keys()
    }

    /// The dataset without attributes.
    pub fn new() -> (dataset: Self)
        ensures
            dataset@ == Attributes::empty(),
    {
        Dataset { entries: NameMap::new() }
    }

    /// Sets the attribute `name` to `attr`.
    pub fn set<V: IntoAttributeValue>(&mut self, name: &str, attr: V) -> (this: &mut Self)
        ensures
            this@ == old(self)@.insert(name@, attr.as_attribute_value()),
            *final(self) == *final(this),
    {
        self.entries.insert(name.to_owned(), attr.into_attribute_value());
        self
    }

    /// Appends `attr` to the array attribute `name`.
    pub fn add<V: IntoAttributeValue>(&mut self, name: &str, attr: V) -> (this: &mut Self)
        ensures
            this@ == with_added(old(self)@, name@, attr.as_attribute_value()),
            *final(self) == *final(this),
    {
        let attr = attr.into_attribute_value();
        match self.entries.get(name) {
            None => {
                let mut items: Vec<Value> = Vec::new();
                items.push(attr);
                let array = Value::Array(items);
                assert(array@->Array_0 =~= seq![attr@]);
                self.entries.insert(name.to_owned(), array);
            },
            Some(current) => {
                match current.clone() {
                    Value::Array(mut items) => {
                        let ghost before = current@->Array_0;
                        items.push(attr);
                        let array = Value::Array(items);
                        assert(array@->Array_0 =~= before.push(attr@));
                        self.entries.insert(name.to_owned(), array);
                    },
                    _ => {},
                }
            },
        }
        self
    }

    /// Takes the first occurrence of `attr` out of the array attribute `name`.
    pub fn remove<V: IntoAttributeValue>(&mut self, name: &str, attr: V) -> (this: &mut Self)
        ensures
            this@ == with_removed(old(self)@, name@, attr.as_attribute_value()),
            *final(self) == *final(this),
    {
        let attr = attr.into_attribute_value();
        let current = match self.entries.get(name) {
            Some(current) => current.clone(),
            None => {
                return self;
            },
        };
        match current {
            Value::Array(mut items) => {
                let ghost before = models_of(items@);
                assert(before =~= current@->Array_0);
                let mut i: usize = 0;
                while i < items.len()
                    invariant
                        i <= items.len(),
                        models_of(items@) == before,
                        forall|j: int| 0 <= j < i ==> before[j] != attr@,
                    ensures
                        i <= items.len(),
                        models_of(items@) == before,
                        forall|j: int| 0 <= j < i ==> before[j] != attr@,
                        i < items.len() ==> before[i as int] == attr@,
                    decreases items.len() - i,
                {
                    if items[i].equals(&attr) {
                        assert(before[i as int] == items[i as int]@);
                        break;
                    }
                    assert(before[i as int] == items[i as int]@);
                    i += 1;
                }
                proof {
                    before.index_of_first_ensures(attr@);
                    if i < items.len() {
                        let first = before.index_of_first(attr@);
                        assert(first is Some);
                        assert(first->0 == i);
                    } else {
                        assert(!before.contains(attr@));
                    }
                }
                if i < items.len() {
                    items.remove(i);
                    assert(models_of(items@) =~= before.remove(i as int));
                }
                assert(models_of(items@) == before.remove_value(attr@));
                let array = Value::Array(items);
                assert(array@->Array_0 =~= before.remove_value(attr@));
                self.entries.insert(name.to_owned(), array);
            },
            _ => {},
        }
        self
    }

    /// The value of the attribute `name`: null where there is none.
    pub fn get(&self, name: &str) -> (value: AttributeValue)
        ensures
            value@ == attribute(self@, name@),
    {
        match self.entries.get(name) {
            Some(value) => value.clone(),
            None => Value::Null,
        }
    }

    /// The names of the attributes, in the order in which they are held.
    /// They are distinct and are the names under which a value is held.
    pub fn keys(&self) -> (names: Vec<String>)
        ensures
            crate::cli::texts_of(names@) == self.names(),
            self.names().no_duplicates(),
            forall|name: Seq<char>| self@.dom().contains(name) <==> self.names().contains(name),
    {
        let n = self.entries.len();
        let mut names: Vec<String> = Vec::new();
        let mut i: usize = 0;
        while i < n
            invariant
                i <= n,
                n == self.entries.keys().len(),
                names.len() == i,
                forall|j: int| 0 <= j < i ==> names[j]@ == self.entries.keys()[j],
            decreases n - i,
        {
            names.push(self.entries.key_at(i).clone());
            i += 1;
        }
        assert(crate::cli::texts_of(names@) =~= self.names());
        names
    }

    /// Empties the attribute `name`.
    pub fn clear(&mut self, name: &str) -> (this: &mut Self)
        ensures
            this@ == with_cleared(old(self)@, name@),
            *final(self) == *final(this),
    {
        let is_array = match self.entries.get(name) {
            Some(current) => current.is_array(),
            None => {
                return self;
            },
        };
        if is_array {
            let array = Value::Array(Vec::new());
            assert(array@->Array_0 =~= Seq::<ValueModel>::empty());
            self.entries.insert(name.to_owned(), array);
        } else {
            self.entries.insert(name.to_owned(), Value::Null);
        }
        self
    }
}

/// The change recorded for one attribute.
#[derive(Debug, PartialEq, Eq)]
pub enum AttributeChange {
    /// A scalar attribute was overwritten.
    Update { old: AttributeValue, new: AttributeValue },
    /// Values were added to or removed from an array attribute.
    Multi { remove: Vec<AttributeValue>, add: Vec<AttributeValue> },
}

/// The mathematical value of an [`AttributeChange`].
pub enum ChangeModel {
    Update { old: ValueModel, new: ValueModel },
    Multi { remove: Seq<ValueModel>, add: Seq<ValueModel> },
}

impl View for AttributeChange {
    type V = ChangeModel;

    open spec fn view(&self) -> ChangeModel {
        match self {
            AttributeChange::Update { old, new } => ChangeModel::Update { old: old@, new: new@ },
            AttributeChange::Multi { remove, add } => ChangeModel::Multi {
                remove: models_of(remove@),
                add: models_of(add@),
            },
        }
    }
}

impl Replicate for Value {
    fn replicate(&self) -> (copy: Self) {
        self.clone()
    }
}

/// A copy of `items` that stands for the same values.
fn replicate_values(items: &Vec<Value>) -> (copy: Vec<Value>)
    ensures
        models_of(copy@) == models_of(items@),
{
    let mut copy: Vec<Value> = Vec::new();
    let mut i: usize = 0;
    while i < items.len()
        invariant
            i <= items.len(),
            copy.len() == i,
            forall|j: int| 0 <= j < i ==> copy[j]@ == items[j]@,
        decreases items.len() - i,
    {
        copy.push(items[i].clone());
        i += 1;
    }
    assert(models_of(copy@) =~= models_of(items@));
    copy
}

impl Clone for AttributeChange {
    fn clone(&self) -> (copy: Self)
        ensures
            copy@ == self@,
    {
        match self {
            AttributeChange::Update { old, new } => AttributeChange::Update {
                old: old.clone(),
                new: new.clone(),
            },
            AttributeChange::Multi { remove, add } => AttributeChange::Multi {
                remove: replicate_values(remove),
                add: replicate_values(add),
            },
        }
    }
}

impl Replicate for AttributeChange {
    fn replicate(&self) -> (copy: Self) {
        self.clone()
    }
}

impl Default for Dataset {
    fn default() -> (dataset: Self)
        ensures
            dataset@ == Attributes::empty(),
    {
        Dataset::new()
    }
}

impl Clone for Dataset {
    fn clone(&self) -> (copy: Self)
        ensures
            copy@ == self@,
    {
        Dataset { entries: self.entries.replicate() }
    }
}

/// The changes that are to be made to the attributes of one object.
#[derive(Debug)]
pub struct Changeset {
    pub object_id: u64,
    pub attributes: NameMap<AttributeChange>,
}

/// The changes recorded for the attributes of an object, by name.
pub type Changes = Map<Seq<char>, ChangeModel>;

/// The mathematical value of a [`Changeset`].
pub struct ChangesetModel {
    pub object_id: u64,
    pub attributes: Changes,
}

impl View for Changeset {
    type V = ChangesetModel;

    open spec fn view(&self) -> ChangesetModel {
        ChangesetModel { object_id: self.object_id, attributes: self.attributes@ }
    }
}

impl Default for Changeset {
    fn default() -> (changeset: Self)
        ensures
            changeset@ == (ChangesetModel { object_id: 0, attributes: Changes::empty() }),
    {
        Changeset { object_id: 0, attributes: NameMap::new() }
    }
}

impl Clone for Changeset {
    fn clone(&self) -> (copy: Self)
        ensures
            copy@ == self@,
    {
        Changeset { object_id: self.object_id, attributes: self.attributes.replicate() }
    }
}

/// Whether `changes` record a change for any attribute.
pub open spec fn any_change(changes: Changes) -> bool {
    exists|name: Seq<char>| changes.dom().contains(name)
}

impl Changeset {
    /// Whether a change is recorded for any attribute.
    pub fn has_changes(&self) -> (changed: bool)
        ensures
            changed == any_change(self@.attributes),
    {
        let n = self.attributes.len();
        if n > 0 {
            let name = self.attributes.key_at(0);
            assert(self@.attributes.dom().contains(name@));
            true
        } else {
            assert forall|name: Seq<char>| !self@.attributes.dom().contains(name) by {
                assert(!self.attributes.keys().contains(name));
            }
            false
        }
    }
}

/// Types that can be handed over as the attributes of an object to create.
pub trait IntoDataset: Sized {
    /// The attributes that `self` converts to.
    spec fn as_dataset(self) -> Attributes;

    /// Converts `self` into a dataset.
    fn into_dataset(self) -> (dataset: Dataset)
        ensures
            dataset@ == self.as_dataset(),
    ;
}

impl IntoDataset for Dataset {
    open spec fn as_dataset(self) -> Attributes {
        self@
    }

    fn into_dataset(self) -> (dataset: Dataset) {
        self
    }
}

/// One batch of objects to create, to change and to delete.
#[derive(Clone, Debug)]
pub struct Commit {
    pub created: Vec<Dataset>,
    pub changed: Vec<Changeset>,
    pub deleted: Vec<u64>,
}

/// The mathematical value of a [`Commit`].
pub struct CommitModel {
    pub created: Seq<Attributes>,
    pub changed: Seq<ChangesetModel>,
    pub deleted: Seq<u64>,
}

impl View for Commit {
    type V = CommitModel;

    open spec fn view(&self) -> CommitModel {
        CommitModel {
            created: Seq::new(self.created@.len(), |i: int| self.created@[i]@),
            changed: Seq::new(self.changed@.len(), |i: int| self.changed@[i]@),
            deleted: self.deleted@,
        }
    }
}

impl Default for Commit {
    fn default() -> (commit: Self)
        ensures
            commit@ == (CommitModel {
                created: Seq::empty(),
                changed: Seq::empty(),
                deleted: Seq::empty(),
            }),
    {
        Commit::new()
    }
}

impl Commit {
    /// The empty batch.
    pub fn new() -> (commit: Self)
        ensures
            commit@ == (CommitModel {
                created: Seq::empty(),
                changed: Seq::empty(),
                deleted: Seq::empty(),
            }),
    {
        let commit = Commit { created: Vec::new(), changed: Vec::new(), deleted: Vec::new() };
        assert(commit@.created =~= Seq::empty());
        assert(commit@.changed =~= Seq::empty());
        commit
    }

    /// Adds an object to create.
    pub fn create<D: IntoDataset>(self, attrs: D) -> (commit: Self)
        ensures
            commit@ == (CommitModel { created: self@.created.push(attrs.as_dataset()), ..self@ }),
    {
        let mut commit = self;
        commit.created.push(attrs.into_dataset());
        assert(commit@.created =~= self@.created.push(attrs.as_dataset()));
        assert(commit@.changed =~= self@.changed);
        commit
    }

    /// Adds the changes to one object.
    pub fn update(self, changeset: Changeset) -> (commit: Self)
        ensures
            commit@ == (CommitModel { changed: self@.changed.push(changeset@), ..self@ }),
    {
        let mut commit = self;
        commit.changed.push(changeset);
        assert(commit@.changed =~= self@.changed.push(changeset@));
        assert(commit@.created =~= self@.created);
        commit
    }

    /// Adds an object to delete.
    pub fn delete(self, object_id: u64) -> (commit: Self)
        ensures
            commit@ == (CommitModel { deleted: self@.deleted.push(object_id), ..self@ }),
    {
        let mut commit = self;
        commit.deleted.push(object_id);
        assert(commit@.created =~= self@.created);
        assert(commit@.changed =~= self@.changed);
        commit
    }
}

} // verus!
