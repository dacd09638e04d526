use adminapi::cli::{
    get_filter_function, lookup_function, parse_filter_arg, parse_filter_args, Operator,
};
use adminapi::error::{Error, ErrorKind};
use adminapi::value::Value;

fn text(s: &str) -> Value {
    Value::String(s.to_string())
}

fn filter(name: &str, arg: Value) -> Value {
    Value::Object(vec![(name.to_string(), arg)])
}

fn args(list: &[&str]) -> Vec<String> {
    list.iter().map(|s| s.to_string()).collect()
}

#[test]
fn compiles_not_empty() {
    let compiled = parse_filter_arg("not(empty())".to_string());
    assert_eq!(compiled, filter("Not", filter("Empty", Value::Null)));
}

#[test]
fn compiles_regexp() {
    let compiled = parse_filter_arg("regexp(.*payment.*)".to_string());
    assert_eq!(compiled, filter("Regexp", text(".*payment.*")));
}

#[test]
fn compiles_any_with_three_tokens() {
    let compiled = parse_filter_arg("any(a b c)".to_string());
    assert_eq!(
        compiled,
        filter("Any", Value::Array(vec![text("a"), text("b"), text("c")]))
    );
}

#[test]
fn plain_text_is_a_string() {
    assert_eq!(lookup_function("web01"), text("web01"));
    assert_eq!(lookup_function(""), text(""));
}

#[test]
fn numbers_are_not_coerced() {
    assert_eq!(lookup_function("42"), text("42"));
    assert_eq!(
        lookup_function("greaterthan(5)"),
        filter("GreaterThan", text("5"))
    );
}

#[test]
fn operator_names_ignore_case() {
    assert_eq!(lookup_function("REGEXP(a)"), filter("Regexp", text("a")));
    assert_eq!(lookup_function("StartsWith(a)"), filter("StartsWith", text("a")));
    assert_eq!(
        lookup_function("ContainedOnlyBy(10.0.0.0/8)"),
        filter("ContainedOnlyBy", text("10.0.0.0/8"))
    );
}

#[test]
fn every_operator_is_known() {
    let table = [
        ("all", "All"),
        ("any", "Any"),
        ("containedby", "ContainedBy"),
        ("containedonlyby", "ContainedOnlyBy"),
        ("contains", "Contains"),
        ("greaterthan", "GreaterThan"),
        ("greaterthanorequals", "GreaterThanOrEquals"),
        ("lessthan", "LessThan"),
        ("lessthanorequals", "LessThanOrEquals"),
        ("not", "Not"),
        ("overlaps", "Overlaps"),
        ("regexp", "Regexp"),
        ("startswith", "StartsWith"),
    ];
    for (word, name) in table {
        let expression = format!("{word}(x)");
        assert_eq!(lookup_function(&expression), filter(name, text("x")));
    }
    assert_eq!(lookup_function("empty(x)"), filter("Empty", Value::Null));
}

#[test]
fn operator_lookup_takes_lower_case_words_only() {
    assert_eq!(get_filter_function("not"), Some(Operator::Not));
    assert_eq!(get_filter_function("startswith"), Some(Operator::StartsWith));
    assert_eq!(get_filter_function("Not"), None);
    assert_eq!(get_filter_function(""), None);
    assert_eq!(get_filter_function("equals"), None);
}

#[test]
fn empty_ignores_its_argument() {
    assert_eq!(lookup_function("empty()"), filter("Empty", Value::Null));
    assert_eq!(lookup_function("empty(a b)"), filter("Empty", Value::Null));
    assert_eq!(Operator::Empty.apply(text("x")), filter("Empty", Value::Null));
}

#[test]
fn operator_without_argument_gets_the_empty_array() {
    assert_eq!(lookup_function("not()"), filter("Not", Value::Array(vec![])));
}

#[test]
fn unknown_operator_keeps_the_whole_text() {
    assert_eq!(lookup_function("foo(bar)"), text("foo(bar)"));
    assert_eq!(
        lookup_function("not(foo(bar baz))"),
        filter("Not", text("foo(bar baz)"))
    );
}

#[test]
fn nested_groups_are_compiled_when_they_close() {
    assert_eq!(
        lookup_function("not(any(a b))"),
        filter("Not", filter("Any", Value::Array(vec![text("a"), text("b")])))
    );
    assert_eq!(
        lookup_function("all(not(regexp(^web)))"),
        filter("All", filter("Not", filter("Regexp", text("^web"))))
    );
}

#[test]
fn groups_at_one_level_are_separate_arguments() {
    assert_eq!(
        lookup_function("any(regexp(a) regexp(b))"),
        filter(
            "Any",
            Value::Array(vec![filter("Regexp", text("a")), filter("Regexp", text("b"))])
        )
    );
    assert_eq!(
        lookup_function("any(regexp(^web) startswith(db))"),
        filter(
            "Any",
            Value::Array(vec![
                filter("Regexp", text("^web")),
                filter("StartsWith", text("db")),
            ])
        )
    );
    assert_eq!(
        lookup_function("all(not(empty()) any(a b) x)"),
        filter(
            "All",
            Value::Array(vec![
                filter("Not", filter("Empty", Value::Null)),
                filter("Any", Value::Array(vec![text("a"), text("b")])),
                text("x"),
            ])
        )
    );
}

#[test]
fn spaces_inside_parentheses_do_not_split_at_the_outer_level() {
    assert_eq!(
        lookup_function("regexp(a b) c"),
        Value::Array(vec![
            filter("Regexp", Value::Array(vec![text("a"), text("b")])),
            text("c"),
        ])
    );
    assert_eq!(
        lookup_function("not(a) not(b)"),
        Value::Array(vec![filter("Not", text("a")), filter("Not", text("b"))])
    );
}

#[test]
fn tokens_without_a_name_form_an_array() {
    assert_eq!(
        lookup_function("a b"),
        Value::Array(vec![text("a"), text("b")])
    );
    assert_eq!(lookup_function("a "), text("a"));
    assert_eq!(
        lookup_function(" a"),
        Value::Array(vec![text(""), text("a")])
    );
}

#[test]
fn text_without_name_and_tokens_is_kept_whole() {
    assert_eq!(lookup_function("(abc)"), text("(abc)"));
    assert_eq!(lookup_function("abc)"), text("abc)"));
}

#[test]
fn text_that_is_no_single_group_is_kept_whole() {
    assert_eq!(lookup_function("n(o)(t)(y)"), text("n(o)(t)(y)"));
    assert_eq!(lookup_function("not(x)y"), text("not(x)y"));
    assert_eq!(lookup_function("not(x"), text("not(x"));
    assert_eq!(lookup_function("not(x))"), text("not(x))"));
    assert_eq!(lookup_function("not((x)"), text("not((x)"));
    assert_eq!(lookup_function("not(a)(b)"), text("not(a)(b)"));
    assert_eq!(lookup_function("not(()())"), filter("Not", text("()()")));
}

#[test]
fn filter_args_split_at_the_first_equals_sign() {
    let filters = parse_filter_args(args(&["hostname=regexp(a=b)", "state=online"])).unwrap();
    assert_eq!(filters.len(), 2);
    assert_eq!(
        filters.get("hostname"),
        Some(&filter("Regexp", text("a=b")))
    );
    assert_eq!(filters.get("state"), Some(&text("online")));
    assert_eq!(filters.get("other"), None);
}

#[test]
fn filter_args_keep_the_later_of_two_filters() {
    let filters = parse_filter_args(args(&["a=1", "b=2", "a=3"])).unwrap();
    assert_eq!(filters.len(), 2);
    assert_eq!(filters.get("a"), Some(&text("3")));
    assert_eq!(filters.key_at(0), "a");
    assert_eq!(filters.key_at(1), "b");
}

#[test]
fn filter_args_without_arguments_are_empty() {
    let filters = parse_filter_args(Vec::new()).unwrap();
    assert_eq!(filters.len(), 0);
}

#[test]
fn filter_arg_without_expression_is_refused() {
    let error = parse_filter_args(args(&["hostname="])).unwrap_err();
    assert_eq!(error, Error::MissingValueForAttribute("hostname".to_string()));
    assert_eq!(error.kind(), ErrorKind::ProtocolViolation);
    let error = parse_filter_args(args(&["a=1", "hostname", "b="])).unwrap_err();
    assert_eq!(error, Error::MissingValueForAttribute("hostname".to_string()));
}
