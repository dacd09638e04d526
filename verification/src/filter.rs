//! Filter values and the operators that build them.

use crate::name_map::NameMap;
use crate::value::{Number, Value, ValueModel};
use vstd::prelude::*;

verus! {

/// A filter is an ordinary value; an operator applied to an argument is the
/// object with the single entry `{operator: argument}`.
pub type FilterValue = Value;

/// The filters of a query: for each attribute the filter that it must meet.
pub type AttributeFilter = NameMap<FilterValue>;

/// The value an operator named `name` yields for the argument `arg`.
pub open spec fn filter_of(name: Seq<char>, arg: ValueModel) -> ValueModel {
    ValueModel::Object(seq![(name, arg)])
}

/// Types that can stand as the argument of a filter operator.
pub trait IntoFilterValue: Sized {
    /// The filter value that `self` converts to.
    spec fn as_filter_value(self) -> ValueModel;

    /// Converts `self` into a filter value.
    fn into_filter_value(self) -> (value: FilterValue)
        ensures
            value@ == self.as_filter_value(),
    ;
}

impl IntoFilterValue for () {
    open spec fn as_filter_value(self) -> ValueModel {
        ValueModel::Null
    }

    fn into_filter_value(self) -> (value: FilterValue) {
        Value::Null
    }
}

impl IntoFilterValue for String {
    open spec fn as_filter_value(self) -> ValueModel {
        ValueModel::String(self@)
    }

    fn into_filter_value(self) -> (value: FilterValue) {
        Value::String(self)
    }
}

impl IntoFilterValue for &str {
    open spec fn as_filter_value(self) -> ValueModel {
        ValueModel::String(self@)
    }

    fn into_filter_value(self) -> (value: FilterValue) {
        Value::String(self.to_owned())
    }
}

impl IntoFilterValue for i32 {
    open spec fn as_filter_value(self) -> ValueModel {
        ValueModel::Number(Number::Int(self as i128))
    }

    fn into_filter_value(self) -> (value: FilterValue) {
        Value::Number(Number::Int(self as i128))
    }
}

impl<T: IntoFilterValue> IntoFilterValue for Vec<T> {
    open spec fn as_filter_value(self) -> ValueModel {
        ValueModel::Array(self@.map_values(|item: T| item.as_filter_value()))
    }

    fn into_filter_value(self) -> (value: FilterValue) {
        let ghost items = self@;
        let mut out: Vec<Value> = Vec::new();
        for item in it: self
            invariant
                it.seq() == items,
                out.len() == it.index(),
                forall|j: int| 0 <= j < out.len() ==> out[j]@ == items[j].as_filter_value(),
        {
            out.push(item.into_filter_value());
        }
        let value = Value::Array(out);
        assert(value@->Array_0 =~= items.map_values(|item: T| item.as_filter_value()));
        value
    }
}

impl IntoFilterValue for Value {
    open spec fn as_filter_value(self) -> ValueModel {
        self@
    }

    fn into_filter_value(self) -> (value: FilterValue) {
        self
    }
}

/// Wraps `value` in the operator `filter_name`.
fn create_filter<V: IntoFilterValue>(filter_name: &str, value: V) -> (filter: FilterValue)
    ensures
        filter@ == filter_of(filter_name@, value.as_filter_value()),
{
    let mut fields: Vec<(String, Value)> = Vec::new();
    fields.push((filter_name.to_owned(), value.into_filter_value()));
    let filter = Value::Object(fields);
    assert(filter@->Object_0 =~= seq![(filter_name@, value.as_filter_value())]);
    filter
}

/// The `All` filter applied to `value`.
pub fn all<V: IntoFilterValue>(value: V) -> (filter: FilterValue)
    ensures
        filter@ == filter_of("All"@, value.as_filter_value()),
{
    create_filter("All", value)
}

/// The `Any` filter applied to `value`.
pub fn any<V: IntoFilterValue>(value: V) -> (filter: FilterValue)
    ensures
        filter@ == filter_of("Any"@, value.as_filter_value()),
{
    create_filter("Any", value)
}

/// The `ContainedBy` filter applied to `value`.
pub fn contained_by<V: IntoFilterValue>(value: V) -> (filter: FilterValue)
    ensures
        filter@ == filter_of("ContainedBy"@, value.as_filter_value()),
{
    create_filter("ContainedBy", value)
}

/// The `ContainedOnlyBy` filter applied to `value`.
pub fn contained_only_by<V: IntoFilterValue>(value: V) -> (filter: FilterValue)
    ensures
        filter@ == filter_of("ContainedOnlyBy"@, value.as_filter_value()),
{
    create_filter("ContainedOnlyBy", value)
}

/// The `Contains` filter applied to `value`.
pub fn contains<V: IntoFilterValue>(value: V) -> (filter: FilterValue)
    ensures
        filter@ == filter_of("Contains"@, value.as_filter_value()),
{
    create_filter("Contains", value)
}

/// The `Empty` filter, which takes no argument.
pub fn empty() -> (filter: FilterValue)
    ensures
        filter@ == filter_of("Empty"@, ValueModel::Null),
{
    create_filter("Empty", ())
}

/// The `GreaterThan` filter applied to `value`.
pub fn greater_than<V: IntoFilterValue>(value: V) -> (filter: FilterValue)
    ensures
        filter@ == filter_of("GreaterThan"@, value.as_filter_value()),
{
    create_filter("GreaterThan", value)
}

/// The `GreaterThanOrEquals` filter applied to `value`.
pub fn greater_than_or_equals<V: IntoFilterValue>(value: V) -> (filter: FilterValue)
    ensures
        filter@ == filter_of("GreaterThanOrEquals"@, value.as_filter_value()),
{
    create_filter("GreaterThanOrEquals", value)
}

/// The `LessThan` filter applied to `value`.
pub fn less_than<V: IntoFilterValue>(value: V) -> (filter: FilterValue)
    ensures
        filter@ == filter_of("LessThan"@, value.as_filter_value()),
{
    create_filter("LessThan", value)
}

/// The `LessThanOrEquals` filter applied to `value`.
pub fn less_than_or_equals<V: IntoFilterValue>(value: V) -> (filter: FilterValue)
    ensures
        filter@ == filter_of("LessThanOrEquals"@, value.as_filter_value()),
{
    create_filter("LessThanOrEquals", value)
}

/// The `Not` filter applied to `value`.
pub fn not<V: IntoFilterValue>(value: V) -> (filter: FilterValue)
    ensures
        filter@ == filter_of("Not"@, value.as_filter_value()),
{
    create_filter("Not", value)
}

/// The `Overlaps` filter applied to `value`.
pub fn overlaps<V: IntoFilterValue>(value: V) -> (filter: FilterValue)
    ensures
        filter@ == filter_of("Overlaps"@, value.as_filter_value()),
{
    create_filter("Overlaps", value)
}

/// The `Regexp` filter applied to `value`.
pub fn regexp<V: IntoFilterValue>(value: V) -> (filter: FilterValue)
    ensures
        filter@ == filter_of("Regexp"@, value.as_filter_value()),
{
    create_filter("Regexp", value)
}

/// The `StartsWith` filter applied to `value`.
pub fn starts_with<V: IntoFilterValue>(value: V) -> (filter: FilterValue)
    ensures
        filter@ == filter_of("StartsWith"@, value.as_filter_value()),
{
    create_filter("StartsWith", value)
}

} // verus!
