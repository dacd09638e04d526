//! Queries for objects and their builder.

use crate::filter::{AttributeFilter, IntoFilterValue};
use crate::name_map::NameMap;
use crate::value::ValueModel;
use vstd::prelude::*;

verus! {

/// A set of attribute names that keeps the order in which they were put in.
pub type NameSet = NameMap<()>;

/// A query: which objects are asked for, which of their attributes are to
/// be given, and by which attribute the answer is ordered.
#[derive(Clone, Debug)]
pub struct Query {
    pub filters: AttributeFilter,
    pub restrict: NameSet,
    pub order_by: Option<String>,
}

/// The mathematical value of a [`Query`].
pub struct QueryModel {
    pub filters: Map<Seq<char>, ValueModel>,
    pub restrict: Seq<Seq<char>>,
    pub order_by: Option<Seq<char>>,
}

/// The text of an optional string.
pub open spec fn text_of(text: Option<String>) -> Option<Seq<char>> {
    match text {
        Some(text) => Some(text@),
        None => None,
    }
}

impl View for Query {
    type V = QueryModel;

    open spec fn view(&self) -> QueryModel {
        QueryModel {
            filters: self.filters@,
            restrict: self.restrict.keys(),
            order_by: text_of(self.order_by),
        }
    }
}

/// `names` without the second and later occurrences of each name.
pub open spec fn without_repeats(names: Seq<Seq<char>>) -> Seq<Seq<char>>
    decreases names.len(),
{
    if names.len() == 0 {
        Seq::empty()
    } else {
        let before = without_repeats(names.drop_last());
        if before.contains(names.last()) {
            before
        } else {
            before.push(names.last())
        }
    }
}

/// Every name of `names` and no other is among `without_repeats(names)`.
pub proof fn lemma_without_repeats_holds_same(names: Seq<Seq<char>>)
    ensures
        forall|name: Seq<char>| without_repeats(names).contains(name) <==> names.contains(name),
        without_repeats(names).no_duplicates(),
    decreases names.len(),
{
    if names.len() > 0 {
        let front = names.drop_last();
        lemma_without_repeats_holds_same(front);
        let before = without_repeats(front);
        let after = without_repeats(names);
        assert forall|name: Seq<char>| after.contains(name) <==> names.contains(name) by {
            if names.contains(name) {
                let i = choose|i: int| 0 <= i < names.len() && names[i] == name;
                if i < names.len() - 1 {
                    assert(front[i] == name);
                    assert(front.contains(name));
                    assert(before.contains(name));
                    let k = choose|k: int| 0 <= k < before.len() && before[k] == name;
                    assert(after[k] == name);
                } else if !before.contains(name) {
                    assert(after[before.len() as int] == name);
                } else {
                    let k = choose|k: int| 0 <= k < before.len() && before[k] == name;
                    assert(after[k] == name);
                }
            }
            if after.contains(name) {
                let k = choose|k: int| 0 <= k < after.len() && after[k] == name;
                if k < before.len() {
                    assert(before[k] == name);
                    assert(before.contains(name));
                    assert(front.contains(name));
                    let i = choose|i: int| 0 <= i < front.len() && front[i] == name;
                    assert(names[i] == name);
                } else {
                    assert(names[names.len() - 1] == name);
                }
            }
        }
    }
}

/// Names that are distinct already are left as they are.
pub proof fn lemma_without_repeats_keeps_distinct(names: Seq<Seq<char>>)
    requires
        names.no_duplicates(),
    ensures
        without_repeats(names) == names,
    decreases names.len(),
{
    if names.len() > 0 {
        let front = names.drop_last();
        lemma_without_repeats_keeps_distinct(front);
        lemma_without_repeats_holds_same(front);
        if front.contains(names.last()) {
            let i = choose|i: int| 0 <= i < front.len() && front[i] == names.last();
            assert(names[i] == names[names.len() - 1]);
        }
        assert(front.push(names.last()) =~= names);
    }
}

/// `names` with `name` put last unless they hold it.
pub open spec fn with_name(names: Seq<Seq<char>>, name: Seq<char>) -> Seq<Seq<char>> {
    if names.contains(name) {
        names
    } else {
        names.push(name)
    }
}

/// The attributes that a query built with the restriction `names` asks for:
/// the primary name where none was given, and the identifier in any case.
pub open spec fn built_restriction(names: Seq<Seq<char>>) -> Seq<Seq<char>> {
    with_name(
        if names.len() == 0 {
            seq!["hostname"@]
        } else {
            names
        },
        "object_id"@,
    )
}

impl Default for Query {
    fn default() -> (query: Self)
        ensures
            query@ == Query::new_spec(),
    {
        Query::new()
    }
}

impl Query {
    /// The query without filters and without restriction.
    pub fn new() -> (query: Self)
        ensures
            query@ == Query::new_spec(),
    {
        Query { filters: NameMap::new(), restrict: NameMap::new(), order_by: None }
    }

    /// A builder that starts from the query without filters.
    pub fn builder() -> (builder: QueryBuilder)
        ensures
            builder@ == Query::new_spec(),
    {
        QueryBuilder::new()
    }

    /// The value of the query without filters and without restriction.
    pub open spec fn new_spec() -> QueryModel {
        QueryModel { filters: Map::empty(), restrict: Seq::empty(), order_by: None }
    }
}

/// Builds a query step by step.
#[derive(Clone, Debug)]
pub struct QueryBuilder(Query);

impl View for QueryBuilder {
    type V = QueryModel;

    closed spec fn view(&self) -> QueryModel {
        self.0@
    }
}

impl Default for QueryBuilder {
    fn default() -> (builder: Self)
        ensures
            builder@ == Query::new_spec(),
    {
        QueryBuilder::new()
    }
}

impl QueryBuilder {
    /// A builder that starts from the query without filters.
    pub fn new() -> (builder: Self)
        ensures
            builder@ == Query::new_spec(),
    {
        QueryBuilder(Query::new())
    }

    /// Asks that `attribute` meet the filter `value`. A later filter on the
    /// same attribute replaces the earlier one.
    pub fn filter<V: IntoFilterValue>(self, attribute: &str, value: V) -> (builder: Self)
        ensures
            builder@ == (QueryModel {
                filters: self@.filters.insert(attribute@, value.as_filter_value()),
                ..self@
            }),
    {
        let mut query = self.0;
        query.filters.insert(attribute.to_owned(), value.into_filter_value());
        QueryBuilder(query)
    }

    /// Asks for the attributes `attributes` and no others. An earlier
    /// restriction is replaced.
    pub fn restrict(self, attributes: Vec<String>) -> (builder: Self)
        ensures
            builder@ == (QueryModel {
                restrict: without_repeats(Seq::new(attributes@.len(), |i: int| attributes@[i]@)),
                ..self@
            }),
    {
        let ghost names = Seq::new(attributes@.len(), |i: int| attributes@[i]@);
        let mut query = self.0;
        let mut restrict: NameSet = NameMap::new();
        assert(names.take(0) =~= Seq::empty());
        let mut i: usize = 0;
        while i < attributes.len()
            invariant
                i <= attributes.len(),
                names == Seq::new(attributes@.len(), |i: int| attributes@[i]@),
                restrict.keys() == without_repeats(names.take(i as int)),
            decreases attributes.len() - i,
        {
            assert(names.take(i + 1).drop_last() =~= names.take(i as int));
            restrict.insert(attributes[i].clone(), ());
            i += 1;
        }
        assert(names.take(attributes.len() as int) =~= names);
        query.restrict = restrict;
        QueryBuilder(query)
    }

    /// Orders the answer by the attribute `value`, or leaves it unordered.
    pub fn order_by(self, value: Option<String>) -> (builder: Self)
        ensures
            builder@ == (QueryModel { order_by: text_of(value), ..self@ }),
    {
        let mut query = self.0;
        query.order_by = value;
        QueryBuilder(query)
    }

    /// The query. It asks for the identifier in any case, and for the
    /// primary name where no restriction was given.
    pub fn build(self) -> (query: Query)
        ensures
            query@ == (QueryModel { restrict: built_restriction(self@.restrict), ..self@ }),
    {
        let mut query = self.0;
        if query.restrict.len() == 0 {
            query.restrict.insert("hostname".to_owned(), ());
            assert(query.restrict.keys() =~= seq!["hostname"@]);
        }
        query.restrict.insert("object_id".to_owned(), ());
        query
    }
}

} // verus!
