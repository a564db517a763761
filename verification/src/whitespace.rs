//! What the two layouts have in common: the indented text of a document is its
//! compact text with line feeds and spaces put in between.

use vstd::prelude::*;
use crate::model::{
    comma_before, digits, escape, escape_char, hex_digit, indented, key_separator, line_break,
    number_text, quoted, render, render_items, render_members, spaces, Json, Layout,
};

verus! {

/// The characters that JSON counts as whitespace.
pub open spec fn is_whitespace(c: char) -> bool {
    c == ' ' || c == '\n' || c == '\r' || c == '\t'
}

/// `text` without its whitespace.
pub open spec fn strip(text: Seq<char>) -> Seq<char>
    decreases text.len(),
{
    if text.len() == 0 {
        Seq::empty()
    } else if is_whitespace(text.last()) {
        strip(text.drop_last())
    } else {
        strip(text.drop_last()).push(text.last())
    }
}

/// A string without a space. Inside a string literal the space is the one
/// whitespace character that is not escaped.
pub open spec fn no_space(s: Seq<char>) -> bool {
    forall|i: int| 0 <= i < s.len() ==> #[trigger] s[i] != ' '
}

/// A document in which no string and no member name holds a space.
pub open spec fn no_spaces(value: Json) -> bool
    decreases value,
{
    match value {
        Json::String(s) => no_space(s),
        Json::Array(items) => forall|i: int| 0 <= i < items.len() ==> no_spaces(#[trigger] items[i]),
        Json::Object(members) => forall|i: int|
            0 <= i < members.len() ==> no_space((#[trigger] members[i]).0) && no_spaces(
                members[i].1,
            ),
        _ => true,
    }
}

/// Stripping two texts and joining them is stripping the joined text.
pub proof fn lemma_strip_add(a: Seq<char>, b: Seq<char>)
    ensures
        strip(a + b) == strip(a) + strip(b),
    decreases b.len(),
{
    if b.len() == 0 {
        assert(a + b =~= a);
        assert(strip(a) + strip(b) =~= strip(a));
    } else {
        lemma_strip_add(a, b.drop_last());
        assert((a + b).drop_last() =~= a + b.drop_last());
        assert((a + b).last() == b.last());
        if is_whitespace(b.last()) {
        } else {
            assert(strip(a + b) =~= strip(a) + strip(b));
        }
    }
}

/// A text that holds no whitespace is left as it is.
pub proof fn lemma_strip_keeps(text: Seq<char>)
    requires
        forall|i: int| 0 <= i < text.len() ==> !is_whitespace(#[trigger] text[i]),
    ensures
        strip(text) == text,
    decreases text.len(),
{
    if text.len() > 0 {
        let front = text.drop_last();
        assert forall|i: int| 0 <= i < front.len() implies !is_whitespace(#[trigger] front[i]) by {
            assert(front[i] == text[i]);
        }
        lemma_strip_keeps(front);
        assert(front.push(text.last()) =~= text);
    }
}

/// What is left of a single character.
pub proof fn lemma_strip_one(c: char)
    ensures
        strip(seq![c]) == if is_whitespace(c) {
            Seq::<char>::empty()
        } else {
            seq![c]
        },
{
    reveal_with_fuel(strip, 2);
    assert(seq![c].drop_last() =~= Seq::<char>::empty());
    assert(Seq::<char>::empty().push(c) =~= seq![c]);
}

/// Nothing is left of a line break.
pub proof fn lemma_strip_line_break(layout: Layout, depth: nat)
    ensures
        strip(line_break(layout, depth)) == Seq::<char>::empty(),
{
    match layout {
        None => {},
        Some(unit) => {
            lemma_strip_spaces(unit * depth);
            lemma_strip_add(seq!['\n'], spaces(unit * depth));
            lemma_strip_one('\n');
        },
    }
}

/// Nothing is left of a run of spaces.
pub proof fn lemma_strip_spaces(n: nat)
    ensures
        strip(spaces(n)) == Seq::<char>::empty(),
    decreases n,
{
    if n > 0 {
        lemma_strip_spaces((n - 1) as nat);
        assert(spaces(n).drop_last() =~= spaces((n - 1) as nat));
    }
}

/// The digits of a number hold no whitespace.
pub proof fn lemma_digits_stay(n: nat)
    ensures
        forall|i: int| 0 <= i < digits(n).len() ==> !is_whitespace(#[trigger] digits(n)[i]),
    decreases n,
{
    if n >= 10 {
        lemma_digits_stay(n / 10);
        assert forall|i: int| 0 <= i < digits(n).len() implies !is_whitespace(
            #[trigger] digits(n)[i],
        ) by {
            if i < digits(n / 10).len() {
                assert(digits(n)[i] == digits(n / 10)[i]);
            } else {
                assert(digits(n)[i] == hex_digit(n % 10));
            }
        }
    } else {
        assert(digits(n)[0] == hex_digit(n));
    }
}

/// What stands for a character other than the space holds no whitespace.
pub proof fn lemma_escape_char_stays(c: char)
    requires
        c != ' ',
    ensures
        forall|i: int|
            0 <= i < escape_char(c).len() ==> !is_whitespace(#[trigger] escape_char(c)[i]),
{
    let n = c as u32;
    if n < 0x20 {
        assert(!is_whitespace(hex_digit((n / 16) as nat)));
        assert(!is_whitespace(hex_digit((n % 16) as nat)));
    }
}

/// An escaped string holds no whitespace unless the string holds a space.
pub proof fn lemma_escape_stays(s: Seq<char>)
    requires
        no_space(s),
    ensures
        forall|i: int| 0 <= i < escape(s).len() ==> !is_whitespace(#[trigger] escape(s)[i]),
    decreases s.len(),
{
    if s.len() > 0 {
        let front = s.drop_last();
        assert forall|i: int| 0 <= i < front.len() implies #[trigger] front[i] != ' ' by {
            assert(front[i] == s[i]);
        }
        lemma_escape_stays(front);
        assert(s.last() == s[s.len() - 1]);
        lemma_escape_char_stays(s.last());
        assert forall|i: int| 0 <= i < escape(s).len() implies !is_whitespace(
            #[trigger] escape(s)[i],
        ) by {
            if i < escape(front).len() {
                assert(escape(s)[i] == escape(front)[i]);
            } else {
                assert(escape(s)[i] == escape_char(s.last())[i - escape(front).len()]);
            }
        }
    }
}

/// A string literal is left as it is unless the string holds a space.
pub proof fn lemma_strip_quoted(s: Seq<char>)
    requires
        no_space(s),
    ensures
        strip(quoted(s)) == quoted(s),
{
    lemma_escape_stays(s);
    lemma_strip_keeps(quoted(s));
}

/// The text of a number is left as it is.
pub proof fn lemma_strip_number(n: int)
    ensures
        strip(number_text(n)) == number_text(n),
{
    if n < 0 {
        lemma_digits_stay((-n) as nat);
    } else {
        lemma_digits_stay(n as nat);
    }
    lemma_strip_keeps(number_text(n));
}

/// The two layouts differ in whitespace only: the indented text of a document
/// without its whitespace is the compact text of the document, whatever the
/// width of the indentation and the level that the text starts at, as long as
/// no string in the document holds a space.
pub proof fn theorem_pretty_is_compact_plus_whitespace(value: Json, unit: nat, depth: nat)
    requires
        no_spaces(value),
    ensures
        strip(render(value, Some(unit), depth)) == render(value, None, 0),
    decreases value, 0nat,
{
    let layout: Layout = Some(unit);
    let pretty = render(value, layout, depth);
    match value {
        Json::Null => {
            lemma_strip_keeps(pretty);
        },
        Json::Bool(flag) => {
            lemma_strip_keeps(pretty);
        },
        Json::Number(n) => {
            lemma_strip_number(n);
        },
        Json::String(s) => {
            lemma_strip_quoted(s);
        },
        Json::Array(items) => {
            if items.len() == 0 {
                lemma_strip_keeps(pretty);
            } else {
                let inside = render_items(items, items.len(), layout, depth + 1);
                lemma_items_differ_in_whitespace(items, items.len(), unit, depth + 1);
                lemma_strip_line_break(layout, depth);
                lemma_strip_keeps(seq!['[']);
                lemma_strip_keeps(seq![']']);
                lemma_strip_add(seq!['['], inside);
                lemma_strip_add(seq!['['] + inside, line_break(layout, depth));
                lemma_strip_add(seq!['['] + inside + line_break(layout, depth), seq![']']);
                assert(strip(pretty) =~= render(value, None, 0));
            }
        },
        Json::Object(members) => {
            if members.len() == 0 {
                lemma_strip_keeps(pretty);
            } else {
                let inside = render_members(members, members.len(), layout, depth + 1);
                lemma_members_differ_in_whitespace(members, members.len(), unit, depth + 1);
                lemma_strip_line_break(layout, depth);
                lemma_strip_keeps(seq!['{']);
                lemma_strip_keeps(seq!['}']);
                lemma_strip_add(seq!['{'], inside);
                lemma_strip_add(seq!['{'] + inside, line_break(layout, depth));
                lemma_strip_add(seq!['{'] + inside + line_break(layout, depth), seq!['}']);
                assert(strip(pretty) =~= render(value, None, 0));
            }
        },
    }
}

/// The same of the items of an array.
pub proof fn lemma_items_differ_in_whitespace(items: Seq<Json>, count: nat, unit: nat, depth: nat)
    requires
        no_spaces(Json::Array(items)),
        count <= items.len(),
    ensures
        strip(render_items(items, count, Some(unit), depth)) == render_items(items, count, None, 0),
    decreases items, count,
{
    let layout: Layout = Some(unit);
    if count > 0 {
        let before = render_items(items, (count - 1) as nat, layout, depth);
        let item = render(items[count - 1], layout, depth);
        let comma = comma_before(count - 1);
        lemma_items_differ_in_whitespace(items, (count - 1) as nat, unit, depth);
        assert(Json::Array(items)->Array_0 == items);
        assert(no_spaces(items[count - 1]));
        theorem_pretty_is_compact_plus_whitespace(items[count - 1], unit, depth);
        lemma_strip_line_break(layout, depth);
        lemma_strip_keeps(comma);
        lemma_strip_add(before, comma);
        lemma_strip_add(before + comma, line_break(layout, depth));
        lemma_strip_add(before + comma + line_break(layout, depth), item);
        assert(strip(render_items(items, count, layout, depth)) =~= render_items(
            items,
            count,
            None,
            0,
        ));
    }
}

/// The same of the members of an object.
pub proof fn lemma_members_differ_in_whitespace(
    members: Seq<(Seq<char>, Json)>,
    count: nat,
    unit: nat,
    depth: nat,
)
    requires
        no_spaces(Json::Object(members)),
        count <= members.len(),
    ensures
        strip(render_members(members, count, Some(unit), depth)) == render_members(
            members,
            count,
            None,
            0,
        ),
    decreases members, count,
{
    let layout: Layout = Some(unit);
    if count > 0 {
        let before = render_members(members, (count - 1) as nat, layout, depth);
        let name = quoted(members[count - 1].0);
        let item = render(members[count - 1].1, layout, depth);
        let comma = comma_before(count - 1);
        let colon = key_separator(layout);
        lemma_members_differ_in_whitespace(members, (count - 1) as nat, unit, depth);
        assert(Json::Object(members)->Object_0 == members);
        assert(no_space(members[count - 1].0) && no_spaces(members[count - 1].1));
        theorem_pretty_is_compact_plus_whitespace(members[count - 1].1, unit, depth);
        lemma_strip_line_break(layout, depth);
        lemma_strip_keeps(comma);
        lemma_strip_quoted(members[count - 1].0);
        lemma_strip_one(':');
        lemma_strip_one(' ');
        lemma_strip_add(seq![':'], seq![' ']);
        assert(colon =~= seq![':'] + seq![' ']);
        assert(strip(colon) =~= seq![':']);
        lemma_strip_add(before, comma);
        lemma_strip_add(before + comma, line_break(layout, depth));
        lemma_strip_add(before + comma + line_break(layout, depth), name);
        lemma_strip_add(before + comma + line_break(layout, depth) + name, colon);
        lemma_strip_add(before + comma + line_break(layout, depth) + name + colon, item);
        assert(strip(render_members(members, count, layout, depth)) =~= render_members(
            members,
            count,
            None,
            0,
        ));
    }
}

/// An array without items and an object without members are written as `[]`
/// and `{}`, with nothing in between, in either layout and at any level.
pub proof fn theorem_empty_containers_collapse(layout: Layout, depth: nat)
    ensures
        render(Json::Array(Seq::empty()), layout, depth) == seq!['[', ']'],
        render(Json::Object(Seq::empty()), layout, depth) == seq!['{', '}'],
{
}

} // verus!
