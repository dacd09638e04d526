//! The filter expression compiler: `NAME(arg1 arg2 ...)` text to filter values.

use crate::filter;
use crate::error::Error;
use crate::filter::{filter_of, AttributeFilter, FilterValue};
use crate::name_map::NameMap;
use crate::text::{chars_of, lowercase, same_text, string_from_chars, to_ascii_lower};
use crate::value::{Value, ValueModel};
use vstd::prelude::*;

verus! {

/// The operators of the filter language.
#[derive(Clone, Copy, Debug, PartialEq, Eq, Structural)]
pub enum Operator {
    All,
    Any,
    ContainedBy,
    ContainedOnlyBy,
    Contains,
    Empty,
    GreaterThan,
    GreaterThanOrEquals,
    LessThan,
    LessThanOrEquals,
    Not,
    Overlaps,
    Regexp,
    StartsWith,
}

impl Operator {
    /// The operator's name in a filter value.
    pub open spec fn wire_name(self) -> Seq<char> {
        match self {
            Operator::All => "All"@,
            Operator::Any => "Any"@,
            Operator::ContainedBy => "ContainedBy"@,
            Operator::ContainedOnlyBy => "ContainedOnlyBy"@,
            Operator::Contains => "Contains"@,
            Operator::Empty => "Empty"@,
            Operator::GreaterThan => "GreaterThan"@,
            Operator::GreaterThanOrEquals => "GreaterThanOrEquals"@,
            Operator::LessThan => "LessThan"@,
            Operator::LessThanOrEquals => "LessThanOrEquals"@,
            Operator::Not => "Not"@,
            Operator::Overlaps => "Overlaps"@,
            Operator::Regexp => "Regexp"@,
            Operator::StartsWith => "StartsWith"@,
        }
    }

    /// The filter that the operator makes of `arg`. `Empty` ignores its argument.
    pub open spec fn apply_spec(self, arg: ValueModel) -> ValueModel {
        if self == Operator::Empty {
            filter_of(self.wire_name(), ValueModel::Null)
        } else {
            filter_of(self.wire_name(), arg)
        }
    }

    /// Applies the operator to `arg`.
    pub fn apply(self, arg: FilterValue) -> (filter: FilterValue)
        ensures
            filter@ == self.apply_spec(arg@),
    {
        match self {
            Operator::All => filter::all(arg),
            Operator::Any => filter::any(arg),
            Operator::ContainedBy => filter::contained_by(arg),
            Operator::ContainedOnlyBy => filter::contained_only_by(arg),
            Operator::Contains => filter::contains(arg),
            Operator::Empty => filter::empty(),
            Operator::GreaterThan => filter::greater_than(arg),
            Operator::GreaterThanOrEquals => filter::greater_than_or_equals(arg),
            Operator::LessThan => filter::less_than(arg),
            Operator::LessThanOrEquals => filter::less_than_or_equals(arg),
            Operator::Not => filter::not(arg),
            Operator::Overlaps => filter::overlaps(arg),
            Operator::Regexp => filter::regexp(arg),
            Operator::StartsWith => filter::starts_with(arg),
        }
    }
}

/// The operator that the lower-case word `name` names, if any.
pub open spec fn operator_named(name: Seq<char>) -> Option<Operator> {
    if name == "all"@ {
        Some(Operator::All)
    } else if name == "any"@ {
        Some(Operator::Any)
    } else if name == "containedby"@ {
        Some(Operator::ContainedBy)
    } else if name == "containedonlyby"@ {
        Some(Operator::ContainedOnlyBy)
    } else if name == "contains"@ {
        Some(Operator::Contains)
    } else if name == "empty"@ {
        Some(Operator::Empty)
    } else if name == "greaterthan"@ {
        Some(Operator::GreaterThan)
    } else if name == "greaterthanorequals"@ {
        Some(Operator::GreaterThanOrEquals)
    } else if name == "lessthan"@ {
        Some(Operator::LessThan)
    } else if name == "lessthanorequals"@ {
        Some(Operator::LessThanOrEquals)
    } else if name == "not"@ {
        Some(Operator::Not)
    } else if name == "overlaps"@ {
        Some(Operator::Overlaps)
    } else if name == "regexp"@ {
        Some(Operator::Regexp)
    } else if name == "startswith"@ {
        Some(Operator::StartsWith)
    } else {
        None
    }
}

/// Looks up the operator that the lower-case word `name` names.
pub fn get_filter_function(name: &str) -> (operator: Option<Operator>)
    ensures
        operator == operator_named(name@),
{
    if same_text(name, "all") {
        Some(Operator::All)
    } else if same_text(name, "any") {
        Some(Operator::Any)
    } else if same_text(name, "containedby") {
        Some(Operator::ContainedBy)
    } else if same_text(name, "containedonlyby") {
        Some(Operator::ContainedOnlyBy)
    } else if same_text(name, "contains") {
        Some(Operator::Contains)
    } else if same_text(name, "empty") {
        Some(Operator::Empty)
    } else if same_text(name, "greaterthan") {
        Some(Operator::GreaterThan)
    } else if same_text(name, "greaterthanorequals") {
        Some(Operator::GreaterThanOrEquals)
    } else if same_text(name, "lessthan") {
        Some(Operator::LessThan)
    } else if same_text(name, "lessthanorequals") {
        Some(Operator::LessThanOrEquals)
    } else if same_text(name, "not") {
        Some(Operator::Not)
    } else if same_text(name, "overlaps") {
        Some(Operator::Overlaps)
    } else if same_text(name, "regexp") {
        Some(Operator::Regexp)
    } else if same_text(name, "startswith") {
        Some(Operator::StartsWith)
    } else {
        None
    }
}

/// The opening parentheses of `text` less its closing ones.
pub open spec fn balance(text: Seq<char>) -> int
    decreases text.len(),
{
    if text.len() == 0 {
        0
    } else if text.last() == '(' {
        balance(text.drop_last()) + 1
    } else if text.last() == ')' {
        balance(text.drop_last()) - 1
    } else {
        balance(text.drop_last())
    }
}

/// Whether the parentheses of `text` pair up: every one that closes has one
/// that opened before it, and none is left open.
pub open spec fn well_nested(text: Seq<char>) -> bool {
    &&& balance(text) == 0
    &&& forall|k: int| 0 <= k <= text.len() ==> balance(#[trigger] text.take(k)) >= 0
}

/// Whether a space stands at `i` in `text` outside all parentheses: as many
/// have closed before it as have opened.
pub open spec fn top_space(text: Seq<char>, i: int) -> bool {
    0 <= i < text.len() && text[i] == ' ' && balance(text.take(i)) == 0
}

/// A text cut at its spaces outside all parentheses: the pieces that a
/// space has ended, and the piece after the last such space.
pub struct Split {
    pub tokens: Seq<Seq<char>>,
    pub buffer: Seq<char>,
}

/// `text` cut at each space that stands outside all parentheses.
pub open spec fn split(text: Seq<char>) -> Split
    decreases text.len(),
{
    if text.len() == 0 {
        Split { tokens: Seq::empty(), buffer: Seq::empty() }
    } else {
        let before = split(text.drop_last());
        if top_space(text, text.len() - 1) {
            Split { tokens: before.tokens.push(before.buffer), buffer: Seq::empty() }
        } else {
            Split { tokens: before.tokens, buffer: before.buffer.push(text.last()) }
        }
    }
}

/// Whether a space stands in `text` outside all parentheses.
pub open spec fn has_top_space(text: Seq<char>) -> bool {
    split(text).tokens.len() > 0
}

/// The argument texts that `text` lists: its pieces between the spaces
/// outside all parentheses, without the piece after the last such space
/// where that is empty. Text without such a space is one argument, and
/// empty text none.
pub open spec fn arguments(text: Seq<char>) -> Seq<Seq<char>> {
    if split(text).buffer.len() > 0 {
        split(text).tokens.push(split(text).buffer)
    } else {
        split(text).tokens
    }
}

/// The name and the argument list of `text` where it has the form
/// `name(list)`: the name is what stands before the first parenthesis, the
/// last character closes that parenthesis, and the parentheses of the list
/// between them pair up.
pub open spec fn application_of(text: Seq<char>) -> Option<(Seq<char>, Seq<char>)> {
    match text.index_of_first('(') {
        Some(open) => {
            let list = text.subrange(open + 1, text.len() - 1);
            if text.last() == ')' && well_nested(list) {
                Some((text.take(open), list))
            } else {
                None
            }
        },
        None => None,
    }
}

/// The one argument that an operator is given: the single compiled argument
/// itself, or the array of them when there are none or several.
pub open spec fn operand(compiled: Seq<ValueModel>) -> ValueModel {
    if compiled.len() == 1 {
        compiled[0]
    } else {
        ValueModel::Array(compiled)
    }
}

/// The filter values that the argument texts `args` denote. An argument of
/// `limit` characters or more counts as null; the arguments of a text are
/// never longer than it, so that [`compile`] meets none.
pub open spec fn compile_each(args: Seq<Seq<char>>, limit: nat) -> Seq<ValueModel>
    decreases limit, 0nat,
{
    Seq::new(
        args.len(),
        |i: int|
            if 0 <= i < args.len() && args[i].len() < limit {
                compile(args[i])
            } else {
                ValueModel::Null
            },
    )
}

/// The filter value that the expression `text` denotes.
///
/// - Text with a space outside all parentheses lists arguments; it denotes
///   what its one argument denotes, or the array of what its arguments
///   denote.
/// - Text of the form `name(list)` whose name is that of an operator, in
///   any case of letters, denotes the operator applied to what the list
///   denotes: to its one argument or to the array of its arguments.
/// - Any other text denotes the string that holds it: text without
///   parentheses, text under an unknown name, and text whose parentheses do
///   not pair up.
pub open spec fn compile(text: Seq<char>) -> ValueModel
    decreases text.len(), 1nat,
{
    if has_top_space(text) {
        operand(compile_each(arguments(text), text.len()))
    } else {
        match application_of(text) {
            Some((name, list)) => match operator_named(lowercase(name)) {
                Some(operator) => operator.apply_spec(
                    operand(compile_each(arguments(list), text.len())),
                ),
                None => ValueModel::String(text),
            },
            None => ValueModel::String(text),
        }
    }
}

/// The character sequences that `tokens` hold.
pub open spec fn token_views(tokens: Seq<Vec<char>>) -> Seq<Seq<char>> {
    tokens.map_values(|token: Vec<char>| token@)
}

/// Reading one more character extends the cut by one step.
proof fn lemma_split_take(text: Seq<char>, i: int)
    requires
        0 <= i < text.len(),
    ensures
        text.take(i + 1).drop_last() == text.take(i),
        text.take(i + 1).last() == text[i],
        top_space(text.take(i + 1), i) == top_space(text, i),
{
    assert(text.take(i + 1).drop_last() =~= text.take(i));
    assert(text.take(i + 1).take(i) =~= text.take(i));
}

/// No piece that a space has ended is as long as the text, and the last
/// piece and the count of the others together are no longer than it.
proof fn lemma_split_bounds(text: Seq<char>)
    ensures
        split(text).buffer.len() + split(text).tokens.len() <= text.len(),
        forall|i: int|
            0 <= i < split(text).tokens.len() ==> (#[trigger] split(text).tokens[i]).len()
                < text.len(),
    decreases text.len(),
{
    if text.len() > 0 {
        lemma_split_bounds(text.drop_last());
    }
}

/// No argument of a text is longer than the text, and where a space stands
/// outside all parentheses each argument is shorter.
pub proof fn lemma_arguments_shorter(text: Seq<char>)
    ensures
        forall|i: int|
            0 <= i < arguments(text).len() ==> (#[trigger] arguments(text)[i]).len()
                <= text.len(),
        has_top_space(text) ==> forall|i: int|
            0 <= i < arguments(text).len() ==> (#[trigger] arguments(text)[i]).len()
                < text.len(),
{
    lemma_split_bounds(text);
}

/// Whether `text` holds no parenthesis and no space.
pub open spec fn is_plain(text: Seq<char>) -> bool {
    forall|i: int| 0 <= i < text.len() ==> text[i] != '(' && text[i] != ')' && text[i] != ' '
}

/// Whether `text` is one argument: its parentheses pair up and no space
/// stands in it outside all parentheses.
pub open spec fn is_group(text: Seq<char>) -> bool {
    well_nested(text) && forall|i: int| !top_space(text, i)
}

/// The expression `name(list)`.
pub open spec fn application(name: Seq<char>, list: Seq<char>) -> Seq<char> {
    name.push('(') + list.push(')')
}

/// The texts `parts` with one space between each two.
pub open spec fn spaced(parts: Seq<Seq<char>>) -> Seq<char>
    decreases parts.len(),
{
    if parts.len() == 0 {
        Seq::empty()
    } else if parts.len() == 1 {
        parts[0]
    } else {
        spaced(parts.drop_last()).push(' ') + parts.last()
    }
}

/// What each of `texts` denotes, in order.
pub open spec fn compiled(texts: Seq<Seq<char>>) -> Seq<ValueModel> {
    Seq::new(texts.len(), |i: int| compile(texts[i]))
}

/// The balance of a front part of `text` with one more character.
proof fn lemma_balance_step(text: Seq<char>, k: int)
    requires
        0 <= k < text.len(),
    ensures
        balance(text.take(k + 1)) == balance(text.take(k)) + if text[k] == '(' {
            1int
        } else if text[k] == ')' {
            -1int
        } else {
            0int
        },
{
    assert(text.take(k + 1).drop_last() =~= text.take(k));
}

/// After text whose parentheses have all closed, text without a space
/// outside its own parentheses joins the last piece, and the balance is
/// its own.
proof fn lemma_split_append(prefix: Seq<char>, part: Seq<char>, k: int)
    requires
        balance(prefix) == 0,
        0 <= k <= part.len(),
        forall|j: int| 0 <= j < k ==> !top_space(part, j),
    ensures
        balance(prefix + part.take(k)) == balance(part.take(k)),
        split(prefix + part.take(k)) == (Split {
            tokens: split(prefix).tokens,
            buffer: split(prefix).buffer + part.take(k),
        }),
    decreases k,
{
    if k == 0 {
        assert(prefix + part.take(0) =~= prefix);
        assert(split(prefix).buffer + part.take(0) =~= split(prefix).buffer);
        assert(part.take(0) =~= Seq::<char>::empty());
    } else {
        lemma_split_append(prefix, part, k - 1);
        lemma_balance_step(part, k - 1);
        let now = prefix + part.take(k);
        let before = prefix + part.take(k - 1);
        assert(now.drop_last() =~= before);
        assert(now.last() == part[k - 1]);
        assert(now.take(now.len() - 1) =~= before);
        assert(!top_space(part, k - 1));
        assert((split(prefix).buffer + part.take(k - 1)).push(part[k - 1]) =~= split(
            prefix,
        ).buffer + part.take(k));
    }
}

/// Text without a space outside its parentheses is one piece.
proof fn lemma_split_group(text: Seq<char>)
    requires
        forall|j: int| !top_space(text, j),
    ensures
        split(text) == (Split { tokens: Seq::empty(), buffer: text }),
{
    lemma_split_append(Seq::empty(), text, text.len() as int);
    assert(text.take(text.len() as int) =~= text);
    assert(Seq::<char>::empty() + text =~= text);
}

/// Inside the parentheses of `name(list` the depth is one more than that
/// of the list, and no space stands outside all parentheses.
proof fn lemma_application_inside(name: Seq<char>, list: Seq<char>, k: int)
    requires
        is_plain(name),
        0 <= k <= list.len(),
        forall|j: int| 0 <= j <= k ==> balance(#[trigger] list.take(j)) >= 0,
    ensures
        balance(name.push('(') + list.take(k)) == 1 + balance(list.take(k)),
        split(name.push('(') + list.take(k)) == (Split {
            tokens: Seq::empty(),
            buffer: name.push('(') + list.take(k),
        }),
    decreases k,
{
    if k == 0 {
        assert forall|j: int| !top_space(name, j) by {}
        lemma_split_group(name);
        lemma_plain_balance(name, name.len() as int);
        assert(name.take(name.len() as int) =~= name);
        let opened = name.push('(');
        assert(opened + list.take(0) =~= opened);
        assert(opened.drop_last() =~= name);
        assert(list.take(0) =~= Seq::<char>::empty());
        assert(!top_space(opened, opened.len() - 1));
    } else {
        lemma_application_inside(name, list, k - 1);
        lemma_balance_step(list, k - 1);
        let now = name.push('(') + list.take(k);
        let before = name.push('(') + list.take(k - 1);
        assert(now.drop_last() =~= before);
        assert(now.last() == list[k - 1]);
        assert(now.take(now.len() - 1) =~= before);
        assert(balance(list.take(k - 1)) >= 0);
        assert(before.push(list[k - 1]) =~= now);
    }
}

/// Plain text has no parenthesis to count.
proof fn lemma_plain_balance(text: Seq<char>, k: int)
    requires
        is_plain(text),
        0 <= k <= text.len(),
    ensures
        balance(text.take(k)) == 0,
    decreases k,
{
    if k > 0 {
        lemma_plain_balance(text, k - 1);
        lemma_balance_step(text, k - 1);
    } else {
        assert(text.take(0) =~= Seq::<char>::empty());
    }
}

/// Text without parentheses and spaces denotes the string that holds it.
pub proof fn lemma_plain_text_is_literal(text: Seq<char>)
    requires
        is_plain(text),
    ensures
        compile(text) == ValueModel::String(text),
{
    assert forall|j: int| !top_space(text, j) by {}
    lemma_split_group(text);
    text.index_of_first_ensures('(');
    if text.index_of_first('(') is Some {
        assert(text[text.index_of_first('(')->0] == '(');
    }
}

/// The arguments of a text are compiled each on its own: the guard of
/// [`compile_each`] against long arguments never applies to them.
pub proof fn lemma_compile_each_arguments(list: Seq<char>, limit: nat)
    requires
        list.len() < limit,
    ensures
        compile_each(arguments(list), limit) == compiled(arguments(list)),
{
    lemma_arguments_shorter(list);
    assert(compile_each(arguments(list), limit) =~= compiled(arguments(list)));
}

/// An operator applied to a list: `name(list)`, with the name of an
/// operator in any case of letters and a list whose parentheses pair up,
/// denotes the operator applied to what the one argument of the list
/// denotes, or to the array of what its arguments denote. Under any other
/// name it denotes the string that holds the whole expression.
pub proof fn lemma_application_applies_operator(name: Seq<char>, list: Seq<char>)
    requires
        is_plain(name),
        well_nested(list),
    ensures
        compile(application(name, list)) == match operator_named(lowercase(name)) {
            Some(operator) => operator.apply_spec(operand(compiled(arguments(list)))),
            None => ValueModel::String(application(name, list)),
        },
{
    let text = application(name, list);
    lemma_application_inside(name, list, list.len() as int);
    assert(list.take(list.len() as int) =~= list);
    let opened = name.push('(') + list;
    assert(text =~= opened.push(')'));
    assert(text.drop_last() =~= opened);
    assert(text.take(text.len() - 1) =~= opened);
    assert(!top_space(text, text.len() - 1));
    assert(!has_top_space(text));
    text.index_of_first_ensures('(');
    let open = text.index_of_first('(');
    assert(text[name.len() as int] == '(');
    assert(open is Some);
    if open->0 < name.len() {
        assert(text[open->0] == name[open->0]);
    }
    assert(open->0 == name.len());
    assert(text.subrange(name.len() as int + 1, text.len() - 1) =~= list);
    assert(text.take(name.len() as int) =~= name);
    assert(application_of(text) == Some((name, list)));
    lemma_compile_each_arguments(list, text.len());
}

/// Arguments with spaces between them: of two or more texts, each of them
/// one argument and the last not empty, joined by single spaces, each is
/// compiled on its own, and together they denote the array of what they
/// denote.
pub proof fn lemma_spaced_groups_are_an_array(parts: Seq<Seq<char>>)
    requires
        parts.len() >= 2,
        forall|i: int| 0 <= i < parts.len() ==> is_group(#[trigger] parts[i]),
        parts.last().len() > 0,
    ensures
        arguments(spaced(parts)) == parts,
        compile(spaced(parts)) == ValueModel::Array(compiled(parts)),
{
    lemma_split_spaced(parts);
    let text = spaced(parts);
    assert(arguments(text) =~= parts) by {
        assert(parts.drop_last().push(parts.last()) =~= parts);
    }
    lemma_arguments_shorter(text);
    assert(compile_each(parts, text.len()) =~= compiled(parts)) by {
        assert forall|i: int| 0 <= i < parts.len() implies compile_each(parts, text.len())[i]
            == compiled(parts)[i] by {
            assert(arguments(text)[i].len() < text.len());
        }
    }
}

/// Texts that are each one argument, joined by single spaces, are cut at
/// exactly those spaces.
proof fn lemma_split_spaced(parts: Seq<Seq<char>>)
    requires
        parts.len() >= 1,
        forall|i: int| 0 <= i < parts.len() ==> is_group(#[trigger] parts[i]),
    ensures
        balance(spaced(parts)) == 0,
        split(spaced(parts)) == (Split { tokens: parts.drop_last(), buffer: parts.last() }),
    decreases parts.len(),
{
    if parts.len() == 1 {
        assert(is_group(parts[0]));
        lemma_split_group(parts[0]);
        assert(parts.drop_last() =~= Seq::<Seq<char>>::empty());
    } else {
        let front = parts.drop_last();
        assert forall|i: int| 0 <= i < front.len() implies is_group(#[trigger] front[i]) by {
            assert(front[i] == parts[i]);
        }
        lemma_split_spaced(front);
        let joined = spaced(front).push(' ');
        assert(joined.drop_last() =~= spaced(front));
        assert(joined.take(joined.len() - 1) =~= spaced(front));
        assert(top_space(joined, joined.len() - 1));
        assert(balance(joined) == 0);
        let last = parts.last();
        assert(is_group(last));
        lemma_split_append(joined, last, last.len() as int);
        assert(last.take(last.len() as int) =~= last);
        assert(front.drop_last().push(front.last()) =~= front);
        assert(Seq::<char>::empty() + last =~= last);
    }
}

/// Cuts `text` at each space outside all parentheses.
fn split_chars_top(text: &Vec<char>) -> (cut: (Vec<Vec<char>>, Vec<char>))
    ensures
        token_views(cut.0@) == split(text@).tokens,
        cut.1@ == split(text@).buffer,
{
    let mut depth: i128 = 0;
    let mut tokens: Vec<Vec<char>> = Vec::new();
    let mut buffer: Vec<char> = Vec::new();
    let mut i: usize = 0;
    assert(token_views(tokens@) =~= split(text@.take(0)).tokens);
    while i < text.len()
        invariant
            i <= text.len(),
            -(i as int) <= depth <= i as int,
            depth == balance(text@.take(i as int)),
            token_views(tokens@) == split(text@.take(i as int)).tokens,
            buffer@ == split(text@.take(i as int)).buffer,
        decreases text.len() - i,
    {
        let c = text[i];
        proof {
            lemma_split_take(text@, i as int);
        }
        if c == ' ' && depth == 0 {
            let mut token: Vec<char> = Vec::new();
            std::mem::swap(&mut token, &mut buffer);
            let ghost before = tokens@;
            tokens.push(token);
            assert(token_views(tokens@) =~= token_views(before).push(token@));
        } else {
            buffer.push(c);
        }
        if c == '(' {
            depth += 1;
        }
        if c == ')' {
            depth -= 1;
        }
        i += 1;
    }
    assert(text@.take(text.len() as int) =~= text@);
    (tokens, buffer)
}

/// Whether the parentheses of `text` pair up.
fn pairs_up(text: &Vec<char>) -> (paired: bool)
    ensures
        paired == well_nested(text@),
{
    let mut depth: i128 = 0;
    let mut i: usize = 0;
    while i < text.len()
        invariant
            i <= text.len(),
            0 <= depth <= i as int,
            depth == balance(text@.take(i as int)),
            forall|k: int| 0 <= k <= i ==> balance(#[trigger] text@.take(k)) >= 0,
        decreases text.len() - i,
    {
        let c = text[i];
        assert(text@.take(i + 1).drop_last() =~= text@.take(i as int));
        if c == '(' {
            depth += 1;
        } else if c == ')' {
            if depth == 0 {
                assert(balance(text@.take(i + 1)) < 0);
                return false;
            }
            depth -= 1;
        }
        i += 1;
    }
    assert(text@.take(text.len() as int) =~= text@);
    depth == 0
}

/// Takes `text` apart into name and argument list where it has the form
/// `name(list)`.
fn take_apart(text: &Vec<char>) -> (parts: Option<(Vec<char>, Vec<char>)>)
    ensures
        match parts {
            Some((name, list)) => application_of(text@) == Some((name@, list@)) && list@.len()
                < text@.len(),
            None => application_of(text@) is None,
        },
{
    let mut name: Vec<char> = Vec::new();
    let mut open: usize = 0;
    while open < text.len() && text[open] != '('
        invariant
            open <= text.len(),
            name@ == text@.take(open as int),
            forall|j: int| 0 <= j < open ==> text[j] != '(',
        decreases text.len() - open,
    {
        name.push(text[open]);
        open += 1;
        assert(text@.take(open as int) =~= text@.take(open - 1).push(text@[open - 1]));
    }
    proof {
        text@.index_of_first_ensures('(');
        let found = text@.index_of_first('(');
        if open < text.len() {
            assert(text@[open as int] == '(');
            if found->0 < open {
                assert(text@[found->0] != '(');
            }
            assert(found == Some(open as int));
        }
    }
    if open >= text.len() {
        return None;
    }
    if text[text.len() - 1] != ')' {
        return None;
    }
    let mut list: Vec<char> = Vec::new();
    let mut i = open + 1;
    while i < text.len() - 1
        invariant
            open + 1 <= i <= text.len() - 1,
            list@ == text@.subrange(open + 1, i as int),
        decreases text.len() - i,
    {
        list.push(text[i]);
        i += 1;
        assert(text@.subrange(open + 1, i as int) =~= text@.subrange(open + 1, i - 1).push(
            text@[i - 1],
        ));
    }
    if pairs_up(&list) {
        Some((name, list))
    } else {
        None
    }
}

/// The lower-case form of `name`, as a string.
fn lowercase_string(name: &Vec<char>) -> (lowered: String)
    ensures
        lowered@ == lowercase(name@),
{
    let mut lowered = String::new();
    let mut i: usize = 0;
    while i < name.len()
        invariant
            i <= name.len(),
            lowered@ == lowercase(name@).take(i as int),
        decreases name.len() - i,
    {
        lowered.push(to_ascii_lower(name[i]));
        i += 1;
        assert(lowercase(name@).take(i as int) =~= lowercase(name@).take(i - 1).push(
            lowercase(name@)[i - 1],
        ));
    }
    assert(lowercase(name@).take(name.len() as int) =~= lowercase(name@));
    lowered
}

/// Compiles each of the argument texts `tokens`.
fn compile_list(tokens: &Vec<Vec<char>>, Ghost(limit): Ghost<nat>) -> (compiled: Vec<Value>)
    requires
        forall|j: int| 0 <= j < tokens.len() ==> (#[trigger] tokens[j])@.len() < limit,
    ensures
        crate::value::models_of(compiled@) == compile_each(token_views(tokens@), limit),
    decreases limit, 0nat,
{
    let mut compiled: Vec<Value> = Vec::new();
    let mut i: usize = 0;
    while i < tokens.len()
        invariant
            i <= tokens.len(),
            compiled.len() == i,
            forall|j: int| 0 <= j < tokens.len() ==> (#[trigger] tokens[j])@.len() < limit,
            forall|j: int| 0 <= j < i ==> compiled[j]@ == compile(tokens[j]@),
        decreases tokens.len() - i,
    {
        compiled.push(compile_chars(&tokens[i]));
        i += 1;
    }
    assert(crate::value::models_of(compiled@) =~= compile_each(token_views(tokens@), limit)) by {
        assert forall|j: int| 0 <= j < tokens.len() implies token_views(tokens@)[j]
            == tokens[j]@ by {}
    }
    compiled
}

/// The one argument that an operator is given.
fn operand_of(compiled: Vec<Value>) -> (argument: Value)
    ensures
        argument@ == operand(crate::value::models_of(compiled@)),
{
    let mut compiled = compiled;
    if compiled.len() == 1 {
        let only = compiled.pop().unwrap();
        only
    } else {
        let array = Value::Array(compiled);
        assert(array@->Array_0 =~= crate::value::models_of(compiled@));
        array
    }
}

/// The argument texts that `text` lists.
fn arguments_of(text: &Vec<char>) -> (tokens: Vec<Vec<char>>)
    ensures
        token_views(tokens@) == arguments(text@),
{
    let (mut tokens, buffer) = split_chars_top(text);
    if buffer.len() > 0 {
        let ghost before = tokens@;
        tokens.push(buffer);
        assert(token_views(tokens@) =~= token_views(before).push(buffer@));
    }
    tokens
}

/// Compiles the expression held in `text`.
fn compile_chars(text: &Vec<char>) -> (filter: FilterValue)
    ensures
        filter@ == compile(text@),
    decreases text@.len(), 1nat,
{
    let (mut tokens, buffer) = split_chars_top(text);
    proof {
        lemma_arguments_shorter(text@);
    }
    if tokens.len() > 0 {
        if buffer.len() > 0 {
            let ghost before = tokens@;
            tokens.push(buffer);
            assert(token_views(tokens@) =~= token_views(before).push(buffer@));
        }
        assert(token_views(tokens@) == arguments(text@));
        assert forall|j: int| 0 <= j < tokens.len() implies (#[trigger] tokens[j])@.len()
            < text@.len() by {
            assert(token_views(tokens@)[j] == tokens[j]@);
        }
        let compiled = compile_list(&tokens, Ghost(text@.len()));
        return operand_of(compiled);
    }
    let (name, list) = match take_apart(text) {
        Some(parts) => parts,
        None => {
            return Value::String(string_from_chars(text));
        },
    };
    let lowered = lowercase_string(&name);
    match get_filter_function(lowered.as_str()) {
        Some(operator) => {
            let arguments = arguments_of(&list);
            proof {
                lemma_arguments_shorter(list@);
            }
            assert forall|j: int| 0 <= j < arguments.len() implies (#[trigger] arguments[j])@.len()
                < text@.len() by {
                assert(token_views(arguments@)[j] == arguments[j]@);
            }
            let compiled = compile_list(&arguments, Ghost(text@.len()));
            operator.apply(operand_of(compiled))
        },
        None => Value::String(string_from_chars(text)),
    }
}

/// Compiles the filter expression `text`.
pub fn lookup_function(text: &str) -> (filter: FilterValue)
    ensures
        filter@ == compile(text@),
{
    let chars = chars_of(text);
    compile_chars(&chars)
}

/// Compiles the filter expression `arg`.
pub fn parse_filter_arg(arg: String) -> (filter: FilterValue)
    ensures
        filter@ == compile(arg@),
{
    lookup_function(arg.as_str())
}

/// The attribute name and the expression of the argument `arg`: what
/// stands before its first `=` and what stands after it. An argument
/// without `=` is all name.
pub open spec fn split_argument(arg: Seq<char>) -> (Seq<char>, Seq<char>) {
    match arg.index_of_first('=') {
        Some(place) => (arg.take(place), arg.skip(place + 1)),
        None => (arg, Seq::empty()),
    }
}

/// Whether the argument `arg` gives no expression.
pub open spec fn lacks_expression(arg: Seq<char>) -> bool {
    split_argument(arg).1.len() == 0
}

/// The filters that the arguments `args` give, each of which has an
/// expression. A later argument for an attribute replaces an earlier one.
pub open spec fn filters_of(args: Seq<Seq<char>>) -> Map<Seq<char>, ValueModel>
    decreases args.len(),
{
    if args.len() == 0 {
        Map::empty()
    } else {
        filters_of(args.drop_last()).insert(
            split_argument(args.last()).0,
            compile(split_argument(args.last()).1),
        )
    }
}

/// The texts of `args`, in order.
pub open spec fn texts_of(args: Seq<String>) -> Seq<Seq<char>> {
    Seq::new(args.len(), |i: int| args[i]@)
}

/// Splits the argument held in `arg` into attribute name and expression.
fn split_chars(arg: &Vec<char>) -> (parts: (Vec<char>, Vec<char>))
    ensures
        (parts.0@, parts.1@) == split_argument(arg@),
{
    let mut name: Vec<char> = Vec::new();
    let mut i: usize = 0;
    while i < arg.len() && arg[i] != '='
        invariant
            i <= arg.len(),
            name@ == arg@.take(i as int),
            forall|j: int| 0 <= j < i ==> arg[j] != '=',
        decreases arg.len() - i,
    {
        name.push(arg[i]);
        i += 1;
        assert(arg@.take(i as int) =~= arg@.take(i - 1).push(arg@[i - 1]));
    }
    proof {
        arg@.index_of_first_ensures('=');
        let found = arg@.index_of_first('=');
        if i < arg.len() {
            assert(arg@[i as int] == '=');
            if found->0 < i {
                assert(arg@[found->0] != '=');
            }
            assert(found == Some(i as int));
        } else {
            assert(arg@.take(i as int) =~= arg@);
        }
    }
    let mut expression: Vec<char> = Vec::new();
    if i < arg.len() {
        let mut k = i + 1;
        while k < arg.len()
            invariant
                i + 1 <= k <= arg.len(),
                expression@ == arg@.subrange(i + 1, k as int),
            decreases arg.len() - k,
        {
            expression.push(arg[k]);
            k += 1;
            assert(arg@.subrange(i + 1, k as int) =~= arg@.subrange(i + 1, k - 1).push(
                arg@[k - 1],
            ));
        }
        assert(arg@.subrange(i + 1, arg.len() as int) =~= arg@.skip(i + 1));
    }
    (name, expression)
}

/// Compiles the command-line arguments `args`, each of the form
/// `name=expression`, into the filters of a query.
///
/// The first argument without an expression is refused, under the name of
/// its attribute.
pub fn parse_filter_args(args: Vec<String>) -> (res: Result<AttributeFilter, Error>)
    ensures
        match res {
            Ok(filter) => {
                &&& forall|i: int| 0 <= i < args@.len() ==> !lacks_expression(#[trigger] args@[i]@)
                &&& filter@ == filters_of(texts_of(args@))
            },
            Err(error) => exists|i: int|
                {
                    &&& 0 <= i < args@.len()
                    &&& lacks_expression(#[trigger] args@[i]@)
                    &&& forall|j: int| 0 <= j < i ==> !lacks_expression(#[trigger] args@[j]@)
                    &&& error matches Error::MissingValueForAttribute(name)
                    &&& name@ == split_argument(args@[i]@).0
                },
        },
{
    let mut filter: AttributeFilter = NameMap::new();
    let ghost texts = texts_of(args@);
    assert(texts.take(0) =~= Seq::empty());
    let mut i: usize = 0;
    while i < args.len()
        invariant
            i <= args.len(),
            texts == texts_of(args@),
            forall|j: int| 0 <= j < i ==> !lacks_expression(#[trigger] args@[j]@),
            filter@ == filters_of(texts.take(i as int)),
        decreases args.len() - i,
    {
        let arg = chars_of(args[i].as_str());
        let (name, expression) = split_chars(&arg);
        if expression.len() == 0 {
            return Err(Error::MissingValueForAttribute(string_from_chars(&name)));
        }
        assert(texts.take(i + 1).drop_last() =~= texts.take(i as int));
        assert(texts.take(i + 1).last() == args@[i as int]@);
        filter.insert(string_from_chars(&name), compile_chars(&expression));
        i += 1;
    }
    assert(texts.take(args.len() as int) =~= texts);
    Ok(filter)
}

} // verus!
