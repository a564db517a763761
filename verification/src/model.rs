//! The mathematical model of a JSON document and of its text.
//!
//! [`Json`] is what a value of this library stands for, and [`render`] is the
//! text that serialising it yields, in compact or in indented form. The
//! contracts of the generators, of the serialisation trait and of the fluent
//! writer are stated over these functions.

use vstd::prelude::*;
use crate::entries::lookup;

verus! {

/// A JSON document.
pub ghost enum Json {
    Null,
    Bool(bool),
    Number(int),
    String(Seq<char>),
    Array(Seq<Json>),
    /// The members in the order in which they are written.
    Object(Seq<(Seq<char>, Json)>),
}

/// How text is laid out: `None` is compact, `Some(unit)` is indented by `unit`
/// spaces for each level of nesting.
pub type Layout = Option<nat>;

/// The digit `0`..`9` or `a`..`f` for a number below 16.
pub open spec fn hex_digit(n: nat) -> char
    recommends
        n < 16,
{
    if n < 10 {
        (('0' as u8) + n) as u8 as char
    } else {
        (('a' as u8) + n - 10) as u8 as char
    }
}

/// The decimal digits of a natural number, without leading zeros.
pub open spec fn digits(n: nat) -> Seq<char>
    decreases n,
{
    if n < 10 {
        seq![hex_digit(n)]
    } else {
        digits(n / 10).push(hex_digit(n % 10))
    }
}

/// The text of an integer.
pub open spec fn number_text(n: int) -> Seq<char> {
    if n < 0 {
        seq!['-'] + digits((-n) as nat)
    } else {
        digits(n as nat)
    }
}

/// What stands for one character inside a string literal: a quote, a backslash
/// and the control characters are escaped, all others stand for themselves.
pub open spec fn escape_char(c: char) -> Seq<char> {
    if c == '"' {
        seq!['\\', '"']
    } else if c == '\\' {
        seq!['\\', '\\']
    } else if c == '\u{8}' {
        seq!['\\', 'b']
    } else if c == '\u{c}' {
        seq!['\\', 'f']
    } else if c == '\n' {
        seq!['\\', 'n']
    } else if c == '\r' {
        seq!['\\', 'r']
    } else if c == '\t' {
        seq!['\\', 't']
    } else if (c as u32) < 0x20 {
        seq!['\\', 'u', '0', '0', hex_digit((c as u32 / 16) as nat), hex_digit((c as u32 % 16) as nat)]
    } else {
        seq![c]
    }
}

/// The characters of a string, each escaped.
pub open spec fn escape(s: Seq<char>) -> Seq<char>
    decreases s.len(),
{
    if s.len() == 0 {
        Seq::empty()
    } else {
        escape(s.drop_last()) + escape_char(s.last())
    }
}

/// A string literal: the escaped string between quotes.
pub open spec fn quoted(s: Seq<char>) -> Seq<char> {
    seq!['"'] + escape(s) + seq!['"']
}

/// `n` spaces.
pub open spec fn spaces(n: nat) -> Seq<char> {
    Seq::new(n, |i: int| ' ')
}

/// What separates one line of output from the next: nothing in compact
/// layout, a line feed and the indentation of `depth` levels otherwise.
pub open spec fn line_break(layout: Layout, depth: nat) -> Seq<char> {
    match layout {
        None => Seq::empty(),
        Some(unit) => seq!['\n'] + spaces(unit * depth),
    }
}

/// What separates a key from its value.
pub open spec fn key_separator(layout: Layout) -> Seq<char> {
    match layout {
        None => seq![':'],
        Some(_) => seq![':', ' '],
    }
}

/// The nesting level of what stands inside a container that itself stands at
/// level `depth`. Compact layout does not count levels.
pub open spec fn indented(layout: Layout, depth: nat) -> nat {
    match layout {
        None => depth,
        Some(_) => depth + 1,
    }
}

/// A comma before every item but the first.
pub open spec fn comma_before(index: int) -> Seq<char> {
    if index == 0 {
        Seq::empty()
    } else {
        seq![',']
    }
}

/// The text of a document that starts at nesting level `depth`. An empty array
/// is `[]` and an empty object is `{}` in either layout.
pub open spec fn render(value: Json, layout: Layout, depth: nat) -> Seq<char>
    decreases value, 0nat,
{
    match value {
        Json::Null => seq!['n', 'u', 'l', 'l'],
        Json::Bool(true) => seq!['t', 'r', 'u', 'e'],
        Json::Bool(false) => seq!['f', 'a', 'l', 's', 'e'],
        Json::Number(n) => number_text(n),
        Json::String(s) => quoted(s),
        Json::Array(items) => if items.len() == 0 {
            seq!['[', ']']
        } else {
            seq!['['] + render_items(items, items.len(), layout, indented(layout, depth)) + line_break(
                layout,
                depth,
            )
                + seq![']']
        },
        Json::Object(members) => if members.len() == 0 {
            seq!['{', '}']
        } else {
            seq!['{'] + render_members(members, members.len(), layout, indented(layout, depth)) + line_break(
                layout,
                depth,
            ) + seq!['}']
        },
    }
}

/// The text of the first `count` items of an array whose items stand at
/// nesting level `depth`: each on a line of its own, a comma between them.
pub open spec fn render_items(items: Seq<Json>, count: nat, layout: Layout, depth: nat) -> Seq<char>
    decreases items, count,
{
    if count == 0 || count > items.len() {
        Seq::empty()
    } else {
        render_items(items, (count - 1) as nat, layout, depth) + comma_before(count - 1)
            + line_break(layout, depth) + render(items[count - 1], layout, depth)
    }
}

/// The text of the first `count` members of an object whose members stand at
/// nesting level `depth`.
pub open spec fn render_members(
    members: Seq<(Seq<char>, Json)>,
    count: nat,
    layout: Layout,
    depth: nat,
) -> Seq<char>
    decreases members, count,
{
    if count == 0 || count > members.len() {
        Seq::empty()
    } else {
        render_members(members, (count - 1) as nat, layout, depth) + comma_before(count - 1)
            + line_break(layout, depth) + quoted(members[count - 1].0) + key_separator(layout)
            + render(members[count - 1].1, layout, depth)
    }
}

/// How many levels of indentation the text of a document opens at most.
pub open spec fn nesting(value: Json) -> nat
    decreases value, 0nat,
{
    match value {
        Json::Array(items) => if items.len() == 0 {
            0
        } else {
            1 + nesting_of_items(items, items.len())
        },
        Json::Object(members) => if members.len() == 0 {
            0
        } else {
            1 + nesting_of_members(members, members.len())
        },
        _ => 0,
    }
}

/// The largest nesting among the first `count` items.
pub open spec fn nesting_of_items(items: Seq<Json>, count: nat) -> nat
    decreases items, count,
{
    if count == 0 || count > items.len() {
        0
    } else {
        let before = nesting_of_items(items, (count - 1) as nat);
        let last = nesting(items[count - 1]);
        if before >= last {
            before
        } else {
            last
        }
    }
}

/// The largest nesting among the values of the first `count` members.
pub open spec fn nesting_of_members(members: Seq<(Seq<char>, Json)>, count: nat) -> nat
    decreases members, count,
{
    if count == 0 || count > members.len() {
        0
    } else {
        let before = nesting_of_members(members, (count - 1) as nat);
        let last = nesting(members[count - 1].1);
        if before >= last {
            before
        } else {
            last
        }
    }
}

/// When two documents count as equal: scalars if they are the same, arrays
/// if they are equal item by item, and objects if they have equally many
/// members and every member of the first has an equal one of the same name in
/// the second, wherever it stands.
pub open spec fn json_eq(a: Json, b: Json) -> bool
    decreases a,
{
    match (a, b) {
        (Json::Null, Json::Null) => true,
        (Json::Bool(x), Json::Bool(y)) => x == y,
        (Json::Number(x), Json::Number(y)) => x == y,
        (Json::String(x), Json::String(y)) => x == y,
        (Json::Array(xs), Json::Array(ys)) => {
            &&& xs.len() == ys.len()
            &&& forall|i: int| 0 <= i < xs.len() ==> json_eq(#[trigger] xs[i], ys[i])
        },
        (Json::Object(xs), Json::Object(ys)) => {
            &&& xs.len() == ys.len()
            &&& forall|i: int|
                0 <= i < xs.len() ==> match lookup(ys, (#[trigger] xs[i]).0) {
                    Some(y) => json_eq(xs[i].1, y),
                    None => false,
                }
        },
        _ => false,
    }
}

} // verus!
