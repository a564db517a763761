//! What can be written as JSON, and how.

use vstd::prelude::*;
use crate::codegen::{wrote, Generator, Sink};
use crate::model::{
    comma_before, indented, key_separator, line_break, nesting, nesting_of_items,
    nesting_of_members, quoted, render, render_items, render_members, Json,
};
use crate::number::Number;
use crate::object::Iter;
use crate::value::{model_of, JsonValue, Object};

verus! {

/// Whether the generator can count the nesting levels that `value` opens.
pub open spec fn fits(sink: Sink, value: Json) -> bool {
    sink.layout is Some ==> sink.depth + nesting(value) <= sink.max_depth
}

/// A value that can be written to a generator as JSON.
pub trait ToJson<G: Generator> {
    /// The document that the value is written as.
    spec fn model(&self) -> Json;

    /// Writes the value to `gen`, laid out as `gen` lays text out and starting
    /// at the nesting level that `gen` is at.
    fn generate(&self, gen: &mut G) -> (done: std::io::Result<()>)
        requires
            fits(old(gen).sink(), self.model()),
        ensures
            wrote(
                old(gen).sink(),
                final(gen).sink(),
                done,
                render(self.model(), old(gen).sink().layout, old(gen).sink().depth),
            ),
    ;
}

/// The documents that the items of a sequence are written as.
pub open spec fn models<G: Generator, T: ToJson<G>>(items: Seq<T>) -> Seq<Json> {
    Seq::new(items.len(), |i: int| items[i].model())
}

/// The members that the entries of a map are written as.
pub open spec fn member_models<G: Generator, V: ToJson<G>>(entries: Seq<(Seq<char>, V)>) -> Seq<
    (Seq<char>, Json),
> {
    Seq::new(entries.len(), |i: int| (entries[i].0, entries[i].1.model()))
}

/// No item nests deeper than the deepest of them.
pub proof fn lemma_nesting_of_items(items: Seq<Json>, count: nat, i: int)
    requires
        0 <= i < count <= items.len(),
    ensures
        nesting(items[i]) <= nesting_of_items(items, count),
    decreases count,
{
    if i < count - 1 {
        lemma_nesting_of_items(items, (count - 1) as nat, i);
    }
}

/// No member nests deeper than the deepest of them.
pub proof fn lemma_nesting_of_members(members: Seq<(Seq<char>, Json)>, count: nat, i: int)
    requires
        0 <= i < count <= members.len(),
    ensures
        nesting(members[i].1) <= nesting_of_members(members, count),
    decreases count,
{
    if i < count - 1 {
        lemma_nesting_of_members(members, (count - 1) as nat, i);
    }
}

/// The deepest of the items nests no deeper than a bound that holds of each.
pub proof fn lemma_nesting_of_items_bound(items: Seq<Json>, count: nat, bound: nat)
    requires
        count <= items.len(),
        forall|i: int| 0 <= i < count ==> nesting(#[trigger] items[i]) <= bound,
    ensures
        nesting_of_items(items, count) <= bound,
    decreases count,
{
    if count > 0 {
        lemma_nesting_of_items_bound(items, (count - 1) as nat, bound);
    }
}

/// The deepest of the members nests no deeper than a bound that holds of each.
pub proof fn lemma_nesting_of_members_bound(
    members: Seq<(Seq<char>, Json)>,
    count: nat,
    bound: nat,
)
    requires
        count <= members.len(),
        forall|i: int| 0 <= i < count ==> nesting((#[trigger] members[i]).1) <= bound,
    ensures
        nesting_of_members(members, count) <= bound,
    decreases count,
{
    if count > 0 {
        lemma_nesting_of_members_bound(members, (count - 1) as nat, bound);
    }
}

/// Writes a sequence of items as an array: `[]` if there are none, else each
/// item on a line of its own, one level deeper, with commas between them.
fn generate_array<G: Generator, T: ToJson<G>>(items: &[T], gen: &mut G) -> (done: std::io::Result<
    (),
>)
    requires
        fits(old(gen).sink(), Json::Array(models::<G, T>(items@))),
    ensures
        wrote(
            old(gen).sink(),
            final(gen).sink(),
            done,
            render(
                Json::Array(models::<G, T>(items@)),
                old(gen).sink().layout,
                old(gen).sink().depth,
            ),
        ),
{
    let ghost start = gen.sink();
    let ghost all = models::<G, T>(items@);
    let ghost inner = indented(start.layout, start.depth);
    gen.write_char('[')?;
    if items.len() == 0 {
        let done = gen.write_char(']');
        proof {
            assert(start.text + seq!['['] + seq![']'] =~= start.text + seq!['[', ']']);
        }
        return done;
    }
    gen.indent();
    let mut i: usize = 0;
    while i < items.len()
        invariant
            i <= items@.len(),
            all == models::<G, T>(items@),
            inner == indented(start.layout, start.depth),
            fits(start, Json::Array(all)),
            start == old(gen).sink(),
            gen.sink() == (Sink {
                text: start.text + seq!['['] + render_items(all, i as nat, start.layout, inner),
                depth: inner,
                ..start
            }),
        decreases items@.len() - i,
    {
        let ghost before = gen.sink().text;
        if i > 0 {
            gen.write_char(',')?;
        }
        gen.new_line()?;
        proof {
            lemma_nesting_of_items(all, all.len(), i as int);
        }
        items[i].generate(gen)?;
        proof {
            assert(gen.sink().text =~= start.text + seq!['['] + render_items(
                all,
                (i + 1) as nat,
                start.layout,
                inner,
            ));
        }
        i += 1;
    }
    gen.dedent();
    gen.new_line()?;
    let done = gen.write_char(']');
    proof {
        assert(start.text + seq!['['] + render_items(all, all.len(), start.layout, inner)
            + line_break(start.layout, start.depth) + seq![']'] =~= start.text + render(
            Json::Array(all),
            start.layout,
            start.depth,
        ));
    }
    done
}

/// Writes the entries that `iter` yields as an object: `{}` if there are
/// none, else each member on a line of its own, one level deeper, with commas
/// between them.
fn generate_object<G: Generator, V: ToJson<G>>(iter: Iter<'_, V>, gen: &mut G) -> (done:
    std::io::Result<()>)
    requires
        fits(old(gen).sink(), Json::Object(member_models::<G, V>(iter@))),
    ensures
        wrote(
            old(gen).sink(),
            final(gen).sink(),
            done,
            render(
                Json::Object(member_models::<G, V>(iter@)),
                old(gen).sink().layout,
                old(gen).sink().depth,
            ),
        ),
{
    let mut iter = iter;
    let ghost start = gen.sink();
    let ghost entries = iter@;
    let ghost all = member_models::<G, V>(entries);
    let ghost inner = indented(start.layout, start.depth);
    gen.write_char('{')?;
    let mut first = true;
    let ghost mut i: nat = 0;
    loop
        invariant
            i <= entries.len(),
            first == (i == 0),
            iter@ == entries.skip(i as int),
            all == member_models::<G, V>(entries),
            inner == indented(start.layout, start.depth),
            fits(start, Json::Object(all)),
            start == old(gen).sink(),
            first ==> gen.sink() == (Sink { text: start.text + seq!['{'], ..start }),
            !first ==> gen.sink() == (Sink {
                text: start.text + seq!['{'] + render_members(all, i, start.layout, inner),
                depth: inner,
                ..start
            }),
        ensures
            i == entries.len(),
        decreases entries.len() - i,
    {
        match iter.next() {
            Some((key, value)) => {
                assert(entries.skip(i as int).first() == entries[i as int]);
                assert(entries.skip(i as int).drop_first() =~= entries.skip(i as int + 1));
                if first {
                    gen.indent();
                    first = false;
                } else {
                    gen.write_char(',')?;
                }
                gen.new_line()?;
                gen.write_str(key)?;
                gen.write_min(": ", ':')?;
                proof {
                    reveal_strlit(": ");
                    assert(": "@ =~= seq![':', ' ']);
                    lemma_nesting_of_members(all, all.len(), i as int);
                }
                value.generate(gen)?;
                proof {
                    assert(render_members(all, 0, start.layout, inner) =~= Seq::empty());
                    assert(gen.sink().text =~= start.text + seq!['{'] + render_members(
                        all,
                        i + 1,
                        start.layout,
                        inner,
                    ));
                    i = i + 1;
                }
            },
            None => {
                break ;
            },
        }
    }
    if first {
        let done = gen.write_char('}');
        proof {
            assert(start.text + seq!['{'] + seq!['}'] =~= start.text + seq!['{', '}']);
        }
        return done;
    }
    gen.dedent();
    gen.new_line()?;
    let done = gen.write_char('}');
    proof {
        assert(start.text + seq!['{'] + render_members(all, all.len(), start.layout, inner)
            + line_break(start.layout, start.depth) + seq!['}'] =~= start.text + render(
            Json::Object(all),
            start.layout,
            start.depth,
        ));
    }
    done
}

impl<G: Generator> ToJson<G> for JsonValue {
    open spec fn model(&self) -> Json {
        self@
    }

    fn generate(&self, gen: &mut G) -> (done: std::io::Result<()>)
        decreases self,
    {
        let ghost start = gen.sink();
        match self {
            JsonValue::Null => {
                proof {
                    reveal_strlit("null");
                    assert("null"@ =~= seq!['n', 'u', 'l', 'l']);
                }
                gen.write("null")
            },
            JsonValue::Short(short) => gen.write_str(short.as_str()),
            JsonValue::String(string) => gen.write_str(string.as_str()),
            JsonValue::Number(number) => gen.write_number(number),
            JsonValue::Boolean(true) => {
                proof {
                    reveal_strlit("true");
                    assert("true"@ =~= seq!['t', 'r', 'u', 'e']);
                }
                gen.write("true")
            },
            JsonValue::Boolean(false) => {
                proof {
                    reveal_strlit("false");
                    assert("false"@ =~= seq!['f', 'a', 'l', 's', 'e']);
                }
                gen.write("false")
            },
            JsonValue::Array(items) => {
                let ghost all = self@->Array_0;
                let ghost inner = indented(start.layout, start.depth);
                gen.write_char('[')?;
                if items.len() == 0 {
                    let done = gen.write_char(']');
                    proof {
                        assert(start.text + seq!['['] + seq![']'] =~= start.text + seq!['[', ']']);
                    }
                    return done;
                }
                gen.indent();
                let mut i: usize = 0;
                while i < items.len()
                    invariant
                        i <= items@.len(),
                        *self == JsonValue::Array(*items),
                        all == self@->Array_0,
                        inner == indented(start.layout, start.depth),
                        fits(start, Json::Array(all)),
                        start == old(gen).sink(),
                        gen.sink() == (Sink {
                            text: start.text + seq!['['] + render_items(
                                all,
                                i as nat,
                                start.layout,
                                inner,
                            ),
                            depth: inner,
                            ..start
                        }),
                    decreases items@.len() - i,
                {
                    if i > 0 {
                        gen.write_char(',')?;
                    }
                    gen.new_line()?;
                    proof {
                        lemma_nesting_of_items(all, all.len(), i as int);
                        assert(all[i as int] == items@[i as int]@);
                    }
                    items[i].generate(gen)?;
                    proof {
                        assert(gen.sink().text =~= start.text + seq!['['] + render_items(
                            all,
                            (i + 1) as nat,
                            start.layout,
                            inner,
                        ));
                    }
                    i += 1;
                }
                gen.dedent();
                gen.new_line()?;
                let done = gen.write_char(']');
                proof {
                    assert(start.text + seq!['['] + render_items(
                        all,
                        all.len(),
                        start.layout,
                        inner,
                    ) + line_break(start.layout, start.depth) + seq![']'] =~= start.text + render(
                        Json::Array(all),
                        start.layout,
                        start.depth,
                    ));
                }
                done
            },
            JsonValue::Object(object) => {
                let ghost all = self@->Object_0;
                let ghost entries = object@;
                let ghost inner = indented(start.layout, start.depth);
                let mut iter = object.iter();
                gen.write_char('{')?;
                let mut first = true;
                let ghost mut i: nat = 0;
                loop
                    invariant
                        i <= entries.len(),
                        first == (i == 0),
                        iter@ == entries.skip(i as int),
                        *self == JsonValue::Object(*object),
                        entries == object@,
                        all == self@->Object_0,
                        inner == indented(start.layout, start.depth),
                        fits(start, Json::Object(all)),
                        start == old(gen).sink(),
                        first ==> gen.sink() == (Sink { text: start.text + seq!['{'], ..start }),
                        !first ==> gen.sink() == (Sink {
                            text: start.text + seq!['{'] + render_members(
                                all,
                                i,
                                start.layout,
                                inner,
                            ),
                            depth: inner,
                            ..start
                        }),
                    ensures
                        i == entries.len(),
                    decreases entries.len() - i,
                {
                    match iter.next() {
                        Some((key, value)) => {
                            assert(entries.skip(i as int).first() == entries[i as int]);
                            assert(entries.skip(i as int).drop_first() =~= entries.skip(
                                i as int + 1,
                            ));
                            if first {
                                gen.indent();
                                first = false;
                            } else {
                                gen.write_char(',')?;
                            }
                            gen.new_line()?;
                            gen.write_str(key)?;
                            gen.write_min(": ", ':')?;
                            proof {
                                reveal_strlit(": ");
                                assert(": "@ =~= seq![':', ' ']);
                                lemma_nesting_of_members(all, all.len(), i as int);
                                object.lemma_value_decreases(i as int);
                                assert(all[i as int] == (entries[i as int].0, entries[i as int].1@));
                            }
                            value.generate(gen)?;
                            proof {
                                assert(render_members(all, 0, start.layout, inner)
                                    =~= Seq::empty());
                                assert(gen.sink().text =~= start.text + seq!['{'] + render_members(
                                    all,
                                    i + 1,
                                    start.layout,
                                    inner,
                                ));
                                i = i + 1;
                            }
                        },
                        None => {
                            break ;
                        },
                    }
                }
                if first {
                    let done = gen.write_char('}');
                    proof {
                        assert(start.text + seq!['{'] + seq!['}'] =~= start.text + seq!['{', '}']);
                    }
                    return done;
                }
                gen.dedent();
                gen.new_line()?;
                let done = gen.write_char('}');
                proof {
                    assert(start.text + seq!['{'] + render_members(
                        all,
                        all.len(),
                        start.layout,
                        inner,
                    ) + line_break(start.layout, start.depth) + seq!['}'] =~= start.text + render(
                        Json::Object(all),
                        start.layout,
                        start.depth,
                    ));
                }
                done
            },
        }
    }
}

impl<G: Generator> ToJson<G> for () {
    open spec fn model(&self) -> Json {
        Json::Null
    }

    fn generate(&self, gen: &mut G) -> (done: std::io::Result<()>) {
        proof {
            reveal_strlit("null");
            assert("null"@ =~= seq!['n', 'u', 'l', 'l']);
        }
        gen.write("null")
    }
}

impl<G: Generator> ToJson<G> for bool {
    open spec fn model(&self) -> Json {
        Json::Bool(*self)
    }

    fn generate(&self, gen: &mut G) -> (done: std::io::Result<()>) {
        proof {
            reveal_strlit("true");
            reveal_strlit("false");
            assert("true"@ =~= seq!['t', 'r', 'u', 'e']);
            assert("false"@ =~= seq!['f', 'a', 'l', 's', 'e']);
        }
        gen.write(
            if *self {
                "true"
            } else {
                "false"
            },
        )
    }
}

impl<'a, G: Generator> ToJson<G> for &'a str {
    open spec fn model(&self) -> Json {
        Json::String(self@)
    }

    fn generate(&self, gen: &mut G) -> (done: std::io::Result<()>) {
        gen.write_str(self)
    }
}

impl<G: Generator> ToJson<G> for String {
    open spec fn model(&self) -> Json {
        Json::String(self@)
    }

    fn generate(&self, gen: &mut G) -> (done: std::io::Result<()>) {
        gen.write_str(self.as_str())
    }
}

impl<G: Generator> ToJson<G> for Number {
    open spec fn model(&self) -> Json {
        Json::Number(self@)
    }

    fn generate(&self, gen: &mut G) -> (done: std::io::Result<()>) {
        gen.write_number(self)
    }
}

impl<G: Generator, T: ToJson<G>> ToJson<G> for Option<T> {
    open spec fn model(&self) -> Json {
        match self {
            Some(value) => value.model(),
            None => Json::Null,
        }
    }

    fn generate(&self, gen: &mut G) -> (done: std::io::Result<()>) {
        match self {
            Some(value) => value.generate(gen),
            None => {
                proof {
                    reveal_strlit("null");
                    assert("null"@ =~= seq!['n', 'u', 'l', 'l']);
                }
                gen.write("null")
            },
        }
    }
}

impl<G: Generator, T: ToJson<G>> ToJson<G> for Vec<T> {
    open spec fn model(&self) -> Json {
        Json::Array(models::<G, T>(self@))
    }

    fn generate(&self, gen: &mut G) -> (done: std::io::Result<()>) {
        generate_array(self.as_slice(), gen)
    }
}

impl<'a, G: Generator, T: ToJson<G>> ToJson<G> for &'a [T] {
    open spec fn model(&self) -> Json {
        Json::Array(models::<G, T>(self@))
    }

    fn generate(&self, gen: &mut G) -> (done: std::io::Result<()>) {
        generate_array(self, gen)
    }
}

impl<G: Generator> ToJson<G> for Object {
    open spec fn model(&self) -> Json {
        Json::Object(member_models::<G, JsonValue>(self@))
    }

    fn generate(&self, gen: &mut G) -> (done: std::io::Result<()>) {
        generate_object(self.iter(), gen)
    }
}

impl<G: Generator> ToJson<G> for u8 {
    open spec fn model(&self) -> Json {
        Json::Number(*self as int)
    }

    fn generate(&self, gen: &mut G) -> (done: std::io::Result<()>) {
        gen.write_number(&Number::from(*self))
    }
}

impl<G: Generator> ToJson<G> for u16 {
    open spec fn model(&self) -> Json {
        Json::Number(*self as int)
    }

    fn generate(&self, gen: &mut G) -> (done: std::io::Result<()>) {
        gen.write_number(&Number::from(*self))
    }
}

impl<G: Generator> ToJson<G> for u32 {
    open spec fn model(&self) -> Json {
        Json::Number(*self as int)
    }

    fn generate(&self, gen: &mut G) -> (done: std::io::Result<()>) {
        gen.write_number(&Number::from(*self))
    }
}

impl<G: Generator> ToJson<G> for u64 {
    open spec fn model(&self) -> Json {
        Json::Number(*self as int)
    }

    fn generate(&self, gen: &mut G) -> (done: std::io::Result<()>) {
        gen.write_number(&Number::from(*self))
    }
}

impl<G: Generator> ToJson<G> for usize {
    open spec fn model(&self) -> Json {
        Json::Number(*self as int)
    }

    fn generate(&self, gen: &mut G) -> (done: std::io::Result<()>) {
        gen.write_number(&Number::from(*self))
    }
}

impl<G: Generator> ToJson<G> for i8 {
    open spec fn model(&self) -> Json {
        Json::Number(*self as int)
    }

    fn generate(&self, gen: &mut G) -> (done: std::io::Result<()>) {
        gen.write_number(&Number::from(*self))
    }
}

impl<G: Generator> ToJson<G> for i16 {
    open spec fn model(&self) -> Json {
        Json::Number(*self as int)
    }

    fn generate(&self, gen: &mut G) -> (done: std::io::Result<()>) {
        gen.write_number(&Number::from(*self))
    }
}

impl<G: Generator> ToJson<G> for i32 {
    open spec fn model(&self) -> Json {
        Json::Number(*self as int)
    }

    fn generate(&self, gen: &mut G) -> (done: std::io::Result<()>) {
        gen.write_number(&Number::from(*self))
    }
}

impl<G: Generator> ToJson<G> for i64 {
    open spec fn model(&self) -> Json {
        Json::Number(*self as int)
    }

    fn generate(&self, gen: &mut G) -> (done: std::io::Result<()>) {
        gen.write_number(&Number::from(*self))
    }
}

impl<G: Generator> ToJson<G> for isize {
    open spec fn model(&self) -> Json {
        Json::Number(*self as int)
    }

    fn generate(&self, gen: &mut G) -> (done: std::io::Result<()>) {
        gen.write_number(&Number::from(*self))
    }
}

} // verus!
