//! A fluent writer of compact JSON.
//!
//! Every step consumes the writer and returns one of another type, on which
//! only the steps that may follow exist: a key must be followed by a value,
//! and an object or an array can only be closed where one is open. A document
//! that is out of balance does not compile.

use vstd::prelude::*;
use crate::codegen::to_json::ToJson;
use crate::codegen::{DumpGenerator, Generator};
use crate::model::{comma_before, quoted, render, render_items, render_members, Json};

verus! {

/// The writer of a whole document. Its value is the document, and writing it
/// yields the finished text.
pub struct JsonWriter {
    gen: DumpGenerator,
}

impl JsonWriter {
    /// A writer that has written nothing yet.
    pub fn new() -> (writer: Self)
        ensures
            writer.text() == Seq::<char>::empty(),
            JsonWriter::valid(writer.text()),
    {
        JsonWriter { gen: DumpGenerator::new() }
    }
}

/// A writer at a place where a value is due.
pub trait ValueWriter: Sized {
    /// What is handed back once the value has been written.
    type Root;

    /// The text written so far.
    spec fn text(&self) -> Seq<char>;

    /// The text that a value of the type `Root` holds.
    spec fn root_text(root: &Self::Root) -> Seq<char>;

    /// What has to stand between the text written so far and the value.
    spec fn separator() -> Seq<char>;

    /// Whether `text` is what a writer of this type has written when every
    /// step up to it was taken on a writer that `JsonWriter::new` began: the
    /// text of the documents that are open, up to the place of the value.
    spec fn valid(text: Seq<char>) -> bool;

    /// Whether `text` is what a value of the type `Root` holds in that case.
    spec fn root_valid(text: Seq<char>) -> bool;

    /// Writing a document where a value is due leaves what is due next: the
    /// rest of the document around it, or, at the outermost level, nothing.
    proof fn lemma_value_fits(text: Seq<char>, doc: Json)
        requires
            Self::valid(text),
        ensures
            Self::root_valid(text + Self::separator() + render(doc, None, 0)),
    ;

    /// The generator that the text goes to.
    fn gen(&mut self) -> (gen: &mut DumpGenerator)
        ensures
            gen.text() == old(self).text(),
            final(self).text() == final(gen).text(),
    ;

    /// Gives up the place of the value.
    fn pop(self) -> (root: Self::Root)
        ensures
            Self::root_text(&root) == self.text(),
    ;

    /// Writes what has to stand before the value.
    fn before_value(&mut self)
        ensures
            final(self).text() == old(self).text() + Self::separator(),
    ;

    /// Opens an object as the value.
    fn object(self) -> (writer: EmptyObjectWriter<Self>)
        ensures
            writer.inner().text() == self.text() + Self::separator() + seq!['{'],
    {
        let mut this = self;
        this.before_value();
        let _ = this.gen().write_char('{');
        EmptyObjectWriter { root: this }
    }

    /// Opens an array as the value.
    fn array(self) -> (writer: EmptyArrayWriter<Self>)
        ensures
            writer.inner().text() == self.text() + Self::separator() + seq!['['],
    {
        let mut this = self;
        this.before_value();
        let _ = this.gen().write_char('[');
        EmptyArrayWriter { root: this }
    }

    /// Writes `val` as the value.
    fn value<T: ToJson<DumpGenerator>>(self, val: T) -> (root: Self::Root)
        ensures
            Self::root_text(&root) == self.text() + Self::separator() + render(
                val.model(),
                None,
                0,
            ),
            Self::valid(self.text()) ==> Self::root_valid(Self::root_text(&root)),
    {
        proof {
            if Self::valid(self.text()) {
                Self::lemma_value_fits(self.text(), val.model());
            }
        }
        let mut this = self;
        this.before_value();
        let _ = val.generate(this.gen());
        this.pop()
    }
}

impl ValueWriter for JsonWriter {
    type Root = String;

    closed spec fn text(&self) -> Seq<char> {
        self.gen.text()
    }

    open spec fn root_text(root: &String) -> Seq<char> {
        root@
    }

    open spec fn separator() -> Seq<char> {
        Seq::empty()
    }

    open spec fn valid(text: Seq<char>) -> bool {
        text == Seq::<char>::empty()
    }

    open spec fn root_valid(text: Seq<char>) -> bool {
        is_document(text)
    }

    proof fn lemma_value_fits(text: Seq<char>, doc: Json) {
        assert(text + Self::separator() + render(doc, None, 0) =~= render(doc, None, 0));
    }

    fn gen(&mut self) -> (gen: &mut DumpGenerator) {
        &mut self.gen
    }

    fn pop(self) -> (root: String) {
        self.gen.consume()
    }

    fn before_value(&mut self) {
        assert(self.text() =~= self.text() + Seq::empty());
    }
}

/// Whether `text` is the compact text of a document.
pub open spec fn is_document(text: Seq<char>) -> bool {
    exists|doc: Json| text == #[trigger] render(doc, None, 0)
}

/// What has been written when, after `base`, an object was opened at a place
/// of the type `V` and `members` were written into it.
pub open spec fn in_object<V: ValueWriter>(
    base: Seq<char>,
    members: Seq<(Seq<char>, Json)>,
) -> Seq<char> {
    base + V::separator() + seq!['{'] + render_members(members, members.len(), None, 0)
}

/// What has been written when, after that, the name of one more member was
/// written.
pub open spec fn at_member<V: ValueWriter>(
    base: Seq<char>,
    members: Seq<(Seq<char>, Json)>,
    key: Seq<char>,
) -> Seq<char> {
    in_object::<V>(base, members) + comma_before(members.len() as int) + quoted(key) + seq![':']
}

/// What has been written when, after `base`, an array was opened at a place
/// of the type `V` and `items` were written into it.
pub open spec fn in_array<V: ValueWriter>(base: Seq<char>, items: Seq<Json>) -> Seq<char> {
    base + V::separator() + seq!['['] + render_items(items, items.len(), None, 0)
}

/// The text of the first members does not change when one is added.
pub proof fn lemma_render_members_push(
    members: Seq<(Seq<char>, Json)>,
    member: (Seq<char>, Json),
    count: nat,
)
    requires
        count <= members.len(),
    ensures
        render_members(members.push(member), count, None, 0) == render_members(
            members,
            count,
            None,
            0,
        ),
    decreases count,
{
    if count > 0 {
        lemma_render_members_push(members, member, (count - 1) as nat);
        assert(members.push(member)[count - 1] == members[count - 1]);
    }
}

/// The text of the first items does not change when one is added.
pub proof fn lemma_render_items_push(items: Seq<Json>, item: Json, count: nat)
    requires
        count <= items.len(),
    ensures
        render_items(items.push(item), count, None, 0) == render_items(items, count, None, 0),
    decreases count,
{
    if count > 0 {
        lemma_render_items_push(items, item, (count - 1) as nat);
        assert(items.push(item)[count - 1] == items[count - 1]);
    }
}

/// An object with its members written and then closed is the text of the
/// object.
pub proof fn lemma_object_closed(members: Seq<(Seq<char>, Json)>)
    ensures
        seq!['{'] + render_members(members, members.len(), None, 0) + seq!['}'] == render(
            Json::Object(members),
            None,
            0,
        ),
{
    assert(seq!['{'] + render_members(members, members.len(), None, 0) + seq!['}'] =~= render(
        Json::Object(members),
        None,
        0,
    ));
}

/// An array with its items written and then closed is the text of the array.
pub proof fn lemma_array_closed(items: Seq<Json>)
    ensures
        seq!['['] + render_items(items, items.len(), None, 0) + seq![']'] == render(
            Json::Array(items),
            None,
            0,
        ),
{
    assert(seq!['['] + render_items(items, items.len(), None, 0) + seq![']'] =~= render(
        Json::Array(items),
        None,
        0,
    ));
}

/// An object that has been opened and has no member yet.
pub struct EmptyObjectWriter<V> {
    root: V,
}

impl<V> EmptyObjectWriter<V> {
    /// The writer of the place where this one stands.
    pub closed spec fn inner(&self) -> V {
        self.root
    }
}

/// An object that has been opened and has at least one member.
pub struct ObjectWriter<V> {
    root: V,
}

impl<V> ObjectWriter<V> {
    /// The writer of the place where this one stands.
    pub closed spec fn inner(&self) -> V {
        self.root
    }
}

impl<V: ValueWriter> EmptyObjectWriter<V> {
    /// The text written so far.
    pub open spec fn text(&self) -> Seq<char> {
        self.inner().text()
    }

    /// Whether `text` is what such a writer has written when every step up to
    /// it was taken on a writer that `JsonWriter::new` began.
    pub open spec fn valid(text: Seq<char>) -> bool {
        exists|base: Seq<char>|
            V::valid(base) && text == #[trigger] in_object::<V>(base, Seq::empty())
    }

    /// Opening an object where a value is due leaves an open object without
    /// members.
    pub proof fn theorem_opened(text: Seq<char>)
        requires
            V::valid(text),
        ensures
            Self::valid(text + V::separator() + seq!['{']),
    {
        assert(text + V::separator() + seq!['{'] =~= in_object::<V>(text, Seq::empty()));
    }

    /// Closing an open object without members leaves what writing `{}` as the
    /// value leaves.
    pub proof fn theorem_closed(text: Seq<char>)
        requires
            Self::valid(text),
        ensures
            V::root_valid(text + seq!['}']),
    {
        let base = choose|base: Seq<char>|
            V::valid(base) && text == #[trigger] in_object::<V>(base, Seq::empty());
        let doc = Json::Object(Seq::empty());
        V::lemma_value_fits(base, doc);
        lemma_object_closed(Seq::empty());
        assert(text + seq!['}'] =~= base + V::separator() + render(doc, None, 0));
    }

    /// Writing the name of the first member leaves a place where its value is
    /// due.
    pub proof fn theorem_key(text: Seq<char>, key: Seq<char>)
        requires
            Self::valid(text),
        ensures
            ObjectValueWriter::<ObjectWriter<V>>::valid(text + quoted(key) + seq![':']),
    {
        let base = choose|base: Seq<char>|
            V::valid(base) && text == #[trigger] in_object::<V>(base, Seq::empty());
        assert(text + quoted(key) + seq![':'] =~= at_member::<V>(base, Seq::empty(), key));
    }

    /// Closes the object, which stays empty.
    pub fn close(self) -> (root: V::Root)
        ensures
            V::root_text(&root) == self.text() + seq!['}'],
            Self::valid(self.text()) ==> V::root_valid(V::root_text(&root)),
    {
        proof {
            if Self::valid(self.text()) {
                Self::theorem_closed(self.text());
            }
        }
        let mut this = self;
        let _ = this.root.gen().write_char('}');
        this.root.pop()
    }

    /// Writes the name of the first member. Its value is due next.
    pub fn key(self, key: &str) -> (writer: ObjectValueWriter<ObjectWriter<V>>)
        ensures
            writer.text() == self.text() + quoted(key@) + seq![':'],
            Self::valid(self.text()) ==> ObjectValueWriter::<ObjectWriter<V>>::valid(
                writer.text(),
            ),
    {
        proof {
            if Self::valid(self.text()) {
                Self::theorem_key(self.text(), key@);
            }
        }
        let mut this = self;
        let _ = this.root.gen().write_str(key);
        let _ = this.root.gen().write_char(':');
        ObjectValueWriter { root: ObjectWriter { root: this.root } }
    }
}

impl<V: ValueWriter> ObjectWriter<V> {
    /// The text written so far.
    pub open spec fn text(&self) -> Seq<char> {
        self.inner().text()
    }

    /// Whether `text` is what such a writer has written when every step up to
    /// it was taken on a writer that `JsonWriter::new` began.
    pub open spec fn valid(text: Seq<char>) -> bool {
        exists|base: Seq<char>, members: Seq<(Seq<char>, Json)>|
            V::valid(base) && members.len() > 0 && text == #[trigger] in_object::<V>(
                base,
                members,
            )
    }

    /// Closing an open object leaves what writing the whole object as the
    /// value leaves.
    pub proof fn theorem_closed(text: Seq<char>)
        requires
            Self::valid(text),
        ensures
            V::root_valid(text + seq!['}']),
    {
        let (base, members) = choose|base: Seq<char>, members: Seq<(Seq<char>, Json)>|
            V::valid(base) && members.len() > 0 && text == #[trigger] in_object::<V>(
                base,
                members,
            );
        let doc = Json::Object(members);
        V::lemma_value_fits(base, doc);
        lemma_object_closed(members);
        assert(text + seq!['}'] =~= base + V::separator() + render(doc, None, 0));
    }

    /// Writing a comma and the name of one more member leaves a place where
    /// its value is due.
    pub proof fn theorem_key(text: Seq<char>, key: Seq<char>)
        requires
            Self::valid(text),
        ensures
            ObjectValueWriter::<ObjectWriter<V>>::valid(
                text + seq![','] + quoted(key) + seq![':'],
            ),
    {
        let (base, members) = choose|base: Seq<char>, members: Seq<(Seq<char>, Json)>|
            V::valid(base) && members.len() > 0 && text == #[trigger] in_object::<V>(
                base,
                members,
            );
        assert(text + seq![','] + quoted(key) + seq![':'] =~= at_member::<V>(
            base,
            members,
            key,
        ));
    }

    /// Closes the object.
    pub fn close(self) -> (root: V::Root)
        ensures
            V::root_text(&root) == self.text() + seq!['}'],
            Self::valid(self.text()) ==> V::root_valid(V::root_text(&root)),
    {
        proof {
            if Self::valid(self.text()) {
                Self::theorem_closed(self.text());
            }
        }
        let mut this = self;
        let _ = this.root.gen().write_char('}');
        this.root.pop()
    }

    /// Writes a comma and the name of the next member. Its value is due next.
    pub fn key(self, name: &str) -> (writer: ObjectValueWriter<Self>)
        ensures
            writer.text() == self.text() + seq![','] + quoted(name@) + seq![':'],
            Self::valid(self.text()) ==> ObjectValueWriter::<ObjectWriter<V>>::valid(
                writer.text(),
            ),
    {
        proof {
            if Self::valid(self.text()) {
                Self::theorem_key(self.text(), name@);
            }
        }
        let mut this = self;
        let _ = this.root.gen().write_char(',');
        let _ = this.root.gen().write_str(name);
        let _ = this.root.gen().write_char(':');
        ObjectValueWriter { root: this }
    }
}

/// An object in which the name of a member has been written and its value is
/// due.
pub struct ObjectValueWriter<ObjectWriter> {
    root: ObjectWriter,
}

impl<W> ObjectValueWriter<W> {
    /// The object that the value goes to.
    pub closed spec fn inner(&self) -> W {
        self.root
    }
}

impl<V: ValueWriter> ValueWriter for ObjectValueWriter<ObjectWriter<V>> {
    type Root = ObjectWriter<V>;

    open spec fn text(&self) -> Seq<char> {
        self.inner().inner().text()
    }

    open spec fn root_text(root: &ObjectWriter<V>) -> Seq<char> {
        root.text()
    }

    open spec fn separator() -> Seq<char> {
        Seq::empty()
    }

    open spec fn valid(text: Seq<char>) -> bool {
        exists|base: Seq<char>, members: Seq<(Seq<char>, Json)>, key: Seq<char>|
            V::valid(base) && text == #[trigger] at_member::<V>(base, members, key)
    }

    open spec fn root_valid(text: Seq<char>) -> bool {
        ObjectWriter::<V>::valid(text)
    }

    proof fn lemma_value_fits(text: Seq<char>, doc: Json) {
        let (base, members, key) = choose|
            base: Seq<char>,
            members: Seq<(Seq<char>, Json)>,
            key: Seq<char>,
        |
            V::valid(base) && text == #[trigger] at_member::<V>(base, members, key);
        let more = members.push((key, doc));
        lemma_render_members_push(members, (key, doc), members.len());
        assert(text + Self::separator() + render(doc, None, 0) =~= in_object::<V>(base, more));
    }

    fn gen(&mut self) -> (gen: &mut DumpGenerator) {
        self.root.root.gen()
    }

    fn pop(self) -> (root: ObjectWriter<V>) {
        self.root
    }

    fn before_value(&mut self) {
        assert(self.text() =~= self.text() + Seq::empty());
    }
}

/// An array that has been opened and has no item yet.
pub struct EmptyArrayWriter<V> {
    root: V,
}

impl<V> EmptyArrayWriter<V> {
    /// The writer of the place where this one stands.
    pub closed spec fn inner(&self) -> V {
        self.root
    }
}

/// An array that has been opened and has at least one item.
pub struct ArrayWriter<V> {
    root: V,
}

impl<V> ArrayWriter<V> {
    /// The writer of the place where this one stands.
    pub closed spec fn inner(&self) -> V {
        self.root
    }
}

impl<V: ValueWriter> EmptyArrayWriter<V> {
    /// Opening an array where a value is due leaves an open array without
    /// items.
    pub proof fn theorem_opened(text: Seq<char>)
        requires
            V::valid(text),
        ensures
            Self::valid(text + V::separator() + seq!['[']),
    {
        assert(text + V::separator() + seq!['['] =~= in_array::<V>(text, Seq::empty()));
    }

    /// Closing an open array without items leaves what writing `[]` as the
    /// value leaves.
    pub proof fn theorem_closed(text: Seq<char>)
        requires
            Self::valid(text),
        ensures
            V::root_valid(text + seq![']']),
    {
        let base = choose|base: Seq<char>|
            V::valid(base) && text == #[trigger] in_array::<V>(base, Seq::empty());
        let doc = Json::Array(Seq::empty());
        V::lemma_value_fits(base, doc);
        lemma_array_closed(Seq::empty());
        assert(text + seq![']'] =~= base + V::separator() + render(doc, None, 0));
    }

    /// Closes the array, which stays empty.
    pub fn close(self) -> (root: V::Root)
        ensures
            V::root_text(&root) == self.text() + seq![']'],
            Self::valid(self.text()) ==> V::root_valid(V::root_text(&root)),
    {
        proof {
            if Self::valid(self.text()) {
                Self::theorem_closed(self.text());
            }
        }
        let mut this = self;
        let _ = this.root.gen().write_char(']');
        this.root.pop()
    }
}

impl<V: ValueWriter> ValueWriter for EmptyArrayWriter<V> {
    type Root = ArrayWriter<V>;

    open spec fn text(&self) -> Seq<char> {
        self.inner().text()
    }

    open spec fn root_text(root: &ArrayWriter<V>) -> Seq<char> {
        root.text()
    }

    open spec fn separator() -> Seq<char> {
        Seq::empty()
    }

    open spec fn valid(text: Seq<char>) -> bool {
        exists|base: Seq<char>|
            V::valid(base) && text == #[trigger] in_array::<V>(base, Seq::empty())
    }

    open spec fn root_valid(text: Seq<char>) -> bool {
        ArrayWriter::<V>::valid(text)
    }

    proof fn lemma_value_fits(text: Seq<char>, doc: Json) {
        let base = choose|base: Seq<char>|
            V::valid(base) && text == #[trigger] in_array::<V>(base, Seq::empty());
        let items = seq![doc];
        assert(render_items(items, 0, None, 0) =~= Seq::empty());
        assert(text + Self::separator() + render(doc, None, 0) =~= in_array::<V>(base, items));
    }

    fn gen(&mut self) -> (gen: &mut DumpGenerator) {
        self.root.gen()
    }

    fn pop(self) -> (root: ArrayWriter<V>) {
        ArrayWriter { root: self.root }
    }

    fn before_value(&mut self) {
        assert(self.text() =~= self.text() + Seq::empty());
    }
}

impl<V: ValueWriter> ValueWriter for ArrayWriter<V> {
    type Root = ArrayWriter<V>;

    open spec fn text(&self) -> Seq<char> {
        self.inner().text()
    }

    open spec fn root_text(root: &ArrayWriter<V>) -> Seq<char> {
        root.text()
    }

    open spec fn separator() -> Seq<char> {
        seq![',']
    }

    open spec fn valid(text: Seq<char>) -> bool {
        exists|base: Seq<char>, items: Seq<Json>|
            V::valid(base) && items.len() > 0 && text == #[trigger] in_array::<V>(base, items)
    }

    open spec fn root_valid(text: Seq<char>) -> bool {
        Self::valid(text)
    }

    proof fn lemma_value_fits(text: Seq<char>, doc: Json) {
        let (base, items) = choose|base: Seq<char>, items: Seq<Json>|
            V::valid(base) && items.len() > 0 && text == #[trigger] in_array::<V>(base, items);
        let more = items.push(doc);
        lemma_render_items_push(items, doc, items.len());
        assert(text + Self::separator() + render(doc, None, 0) =~= in_array::<V>(base, more));
    }

    fn gen(&mut self) -> (gen: &mut DumpGenerator) {
        self.root.gen()
    }

    fn pop(self) -> (root: ArrayWriter<V>) {
        self
    }

    fn before_value(&mut self) {
        let _ = self.root.gen().write_char(',');
    }
}

impl<V: ValueWriter> ArrayWriter<V> {
    /// Closing an open array leaves what writing the whole array as the value
    /// leaves.
    pub proof fn theorem_closed(text: Seq<char>)
        requires
            Self::valid(text),
        ensures
            V::root_valid(text + seq![']']),
    {
        let (base, items) = choose|base: Seq<char>, items: Seq<Json>|
            V::valid(base) && items.len() > 0 && text == #[trigger] in_array::<V>(base, items);
        let doc = Json::Array(items);
        V::lemma_value_fits(base, doc);
        lemma_array_closed(items);
        assert(text + seq![']'] =~= base + V::separator() + render(doc, None, 0));
    }

    /// Closes the array.
    pub fn close(self) -> (root: V::Root)
        ensures
            V::root_text(&root) == self.text() + seq![']'],
            Self::valid(self.text()) ==> V::root_valid(V::root_text(&root)),
    {
        proof {
            if Self::valid(self.text()) {
                Self::theorem_closed(self.text());
            }
        }
        let mut this = self;
        let _ = this.root.gen().write_char(']');
        this.root.pop()
    }
}

} // verus!
