//! Generators: the sinks that JSON text is written to.
//!
//! A generator collects text, keeps count of the nesting level, and knows
//! whether it lays the text out compactly or with line breaks and indentation.

use vstd::prelude::*;
use vstd::std_specs::iter::IteratorSpec;
use vstd::string::StringExecFns;
use crate::model::{
    digits, escape, escape_char, hex_digit, indented, line_break, number_text, quoted, spaces,
    Layout,
};
use crate::number::Number;
use crate::trusted::string_push;

pub mod to_json;

verus! {

/// What there is to know of a generator.
pub ghost struct Sink {
    /// The text written so far.
    pub text: Seq<char>,
    /// Compact, or indented by so many spaces a level.
    pub layout: Layout,
    /// The current nesting level. It stays 0 in compact layout.
    pub depth: nat,
    /// The deepest nesting level that the generator can count to.
    pub max_depth: nat,
    /// Whether every write succeeds, as it does when the text is collected in
    /// memory.
    pub unfailing: bool,
}

/// What a write of `added` leaves behind. The layout and the limits of a
/// generator never change. A generator that cannot fail reports success, and
/// on success the text has grown by exactly `added` and the nesting level is
/// as it was. After a failure the text is of no use.
pub open spec fn wrote(
    before: Sink,
    after: Sink,
    done: Result<(), std::io::Error>,
    added: Seq<char>,
) -> bool {
    &&& after.layout == before.layout
    &&& after.max_depth == before.max_depth
    &&& after.unfailing == before.unfailing
    &&& before.unfailing ==> done is Ok
    &&& done is Ok ==> after.text == before.text + added && after.depth == before.depth
}

/// A sink for JSON text.
pub trait Generator: Sized {
    /// The state of the generator.
    spec fn sink(&self) -> Sink;

    /// Writes `text` as it is.
    fn write(&mut self, text: &str) -> (done: std::io::Result<()>)
        ensures
            wrote(old(self).sink(), final(self).sink(), done, text@),
    ;

    /// Writes one character as it is.
    fn write_char(&mut self, ch: char) -> (done: std::io::Result<()>)
        ensures
            wrote(old(self).sink(), final(self).sink(), done, seq![ch]),
    ;

    /// Writes `string` as a string literal, quoted and escaped.
    fn write_str(&mut self, string: &str) -> (done: std::io::Result<()>)
        ensures
            wrote(old(self).sink(), final(self).sink(), done, quoted(string@)),
    ;

    /// Writes a number.
    fn write_number(&mut self, number: &Number) -> (done: std::io::Result<()>)
        ensures
            wrote(old(self).sink(), final(self).sink(), done, number_text(number@)),
    ;

    /// Writes `full` in indented layout and only `min` in compact layout.
    fn write_min(&mut self, full: &str, min: char) -> (done: std::io::Result<()>)
        ensures
            wrote(
                old(self).sink(),
                final(self).sink(),
                done,
                if old(self).sink().layout is Some {
                    full@
                } else {
                    seq![min]
                },
            ),
    ;

    /// Starts a new line at the current nesting level. Writes nothing in
    /// compact layout.
    fn new_line(&mut self) -> (done: std::io::Result<()>)
        ensures
            wrote(
                old(self).sink(),
                final(self).sink(),
                done,
                line_break(old(self).sink().layout, old(self).sink().depth),
            ),
    ;

    /// Goes one nesting level deeper.
    fn indent(&mut self)
        requires
            old(self).sink().layout is Some ==> old(self).sink().depth < old(self).sink().max_depth,
        ensures
            final(self).sink() == (Sink {
                depth: indented(old(self).sink().layout, old(self).sink().depth),
                ..old(self).sink()
            }),
    ;

    /// Goes one nesting level back up.
    fn dedent(&mut self)
        requires
            old(self).sink().layout is Some ==> old(self).sink().depth > 0,
        ensures
            old(self).sink() == (Sink {
                depth: indented(final(self).sink().layout, final(self).sink().depth),
                ..final(self).sink()
            }),
    ;
}

/// The character for a digit below 16.
fn digit_char(n: u8) -> (c: char)
    requires
        n < 16,
    ensures
        c == hex_digit(n as nat),
{
    if n < 10 {
        (48u8 + n) as char
    } else {
        (97u8 + (n - 10)) as char
    }
}

/// Appends what stands for `c` inside a string literal.
fn push_escaped_char(code: &mut String, c: char)
    ensures
        final(code)@ == old(code)@ + escape_char(c),
{
    let ghost base = code@;
    if c == '"' {
        string_push(code, '\\');
        string_push(code, '"');
    } else if c == '\\' {
        string_push(code, '\\');
        string_push(code, '\\');
    } else if c == '\u{8}' {
        string_push(code, '\\');
        string_push(code, 'b');
    } else if c == '\u{c}' {
        string_push(code, '\\');
        string_push(code, 'f');
    } else if c == '\n' {
        string_push(code, '\\');
        string_push(code, 'n');
    } else if c == '\r' {
        string_push(code, '\\');
        string_push(code, 'r');
    } else if c == '\t' {
        string_push(code, '\\');
        string_push(code, 't');
    } else if (c as u32) < 0x20 {
        string_push(code, '\\');
        string_push(code, 'u');
        string_push(code, '0');
        string_push(code, '0');
        let n = c as u8;
        string_push(code, digit_char(n / 16));
        string_push(code, digit_char(n % 16));
    } else {
        string_push(code, c);
    }
    assert(code@ =~= base + escape_char(c));
}

/// Appends `string` as a string literal.
fn push_quoted(code: &mut String, string: &str)
    ensures
        final(code)@ == old(code)@ + quoted(string@),
{
    broadcast use vstd::string::group_string_axioms;

    let ghost base = code@;
    string_push(code, '"');
    let mut chars = string.chars();
    let ghost mut done: Seq<char> = Seq::empty();
    assert(code@ =~= base + seq!['"'] + escape(done));
    loop
        invariant
            chars.obeys_prophetic_iter_laws(),
            chars.decrease() is Some,
            done + chars.remaining() == string@,
            code@ == base + seq!['"'] + escape(done),
            base == old(code)@,
        decreases chars.decrease()->0,
    {
        match chars.next() {
            Some(c) => {
                push_escaped_char(code, c);
                proof {
                    let ghost next = done.push(c);
                    assert(next.drop_last() =~= done);
                    assert(next + chars.remaining() =~= string@);
                    assert(code@ =~= base + seq!['"'] + escape(next));
                    done = next;
                }
            },
            None => {
                assert(done =~= string@);
                string_push(code, '"');
                assert(code@ =~= base + quoted(string@));
                return ;
            },
        }
    }
}

/// Appends the decimal digits of `n`.
fn push_digits(code: &mut String, n: u64)
    ensures
        final(code)@ == old(code)@ + digits(n as nat),
    decreases n,
{
    let ghost base = code@;
    if n >= 10 {
        push_digits(code, n / 10);
    }
    string_push(code, digit_char((n % 10) as u8));
    assert(code@ =~= base + digits(n as nat));
}

/// Appends the text of `number`.
fn push_number(code: &mut String, number: &Number)
    ensures
        final(code)@ == old(code)@ + number_text(number@),
{
    let ghost base = code@;
    let (positive, magnitude) = number.as_parts();
    if !positive {
        string_push(code, '-');
    }
    push_digits(code, magnitude);
    assert(code@ =~= base + number_text(number@));
}

/// A generator that writes compact text into memory.
pub struct DumpGenerator {
    code: String,
}

impl DumpGenerator {
    /// The text written so far.
    pub closed spec fn text(&self) -> Seq<char> {
        self.code@
    }

    /// A generator that has written nothing yet.
    pub fn new() -> (gen: Self)
        ensures
            gen.sink() == (Sink {
                text: Seq::empty(),
                layout: None,
                depth: 0,
                max_depth: 0,
                unfailing: true,
            }),
    {
        DumpGenerator { code: String::new() }
    }

    /// Hands over the text written so far and ends the generator.
    pub fn consume(self) -> (text: String)
        ensures
            text@ == self.sink().text,
    {
        self.code
    }
}

impl Generator for DumpGenerator {
    open spec fn sink(&self) -> Sink {
        Sink { text: self.text(), layout: None, depth: 0, max_depth: 0, unfailing: true }
    }

    fn write(&mut self, text: &str) -> (done: std::io::Result<()>) {
        self.code.append(text);
        Ok(())
    }

    fn write_char(&mut self, ch: char) -> (done: std::io::Result<()>) {
        string_push(&mut self.code, ch);
        assert(self.text() =~= old(self).text() + seq![ch]);
        assert(self.sink().layout == old(self).sink().layout);
        Ok(())
    }

    fn write_str(&mut self, string: &str) -> (done: std::io::Result<()>) {
        push_quoted(&mut self.code, string);
        Ok(())
    }

    fn write_number(&mut self, number: &Number) -> (done: std::io::Result<()>) {
        push_number(&mut self.code, number);
        Ok(())
    }

    fn write_min(&mut self, full: &str, min: char) -> (done: std::io::Result<()>) {
        string_push(&mut self.code, min);
        assert(self.text() =~= old(self).text() + seq![min]);
        Ok(())
    }

    fn new_line(&mut self) -> (done: std::io::Result<()>) {
        assert(self.text() =~= self.text() + line_break(None, 0));
        Ok(())
    }

    fn indent(&mut self) {
    }

    fn dedent(&mut self) {
    }
}

/// A generator that writes indented text into memory.
pub struct PrettyGenerator {
    code: String,
    dent: u16,
    spaces_per_indent: u16,
}

impl PrettyGenerator {
    /// The text written so far.
    pub closed spec fn text(&self) -> Seq<char> {
        self.code@
    }

    /// How many spaces a nesting level is indented by.
    pub closed spec fn spaces(&self) -> nat {
        self.spaces_per_indent as nat
    }

    /// The current nesting level.
    pub closed spec fn level(&self) -> nat {
        self.dent as nat
    }

    /// A generator that has written nothing yet and indents by `spaces`
    /// spaces for each nesting level.
    pub fn new(spaces: u16) -> (gen: Self)
        ensures
            gen.sink() == (Sink {
                text: Seq::empty(),
                layout: Some(spaces as nat),
                depth: 0,
                max_depth: u16::MAX as nat,
                unfailing: true,
            }),
    {
        PrettyGenerator { code: String::new(), dent: 0, spaces_per_indent: spaces }
    }

    /// Hands over the text written so far and ends the generator.
    pub fn consume(self) -> (text: String)
        ensures
            text@ == self.sink().text,
    {
        self.code
    }
}

impl Generator for PrettyGenerator {
    open spec fn sink(&self) -> Sink {
        Sink {
            text: self.text(),
            layout: Some(self.spaces()),
            depth: self.level(),
            max_depth: u16::MAX as nat,
            unfailing: true,
        }
    }

    fn write(&mut self, text: &str) -> (done: std::io::Result<()>) {
        self.code.append(text);
        Ok(())
    }

    fn write_char(&mut self, ch: char) -> (done: std::io::Result<()>) {
        string_push(&mut self.code, ch);
        assert(self.text() =~= old(self).text() + seq![ch]);
        Ok(())
    }

    fn write_str(&mut self, string: &str) -> (done: std::io::Result<()>) {
        push_quoted(&mut self.code, string);
        Ok(())
    }

    fn write_number(&mut self, number: &Number) -> (done: std::io::Result<()>) {
        push_number(&mut self.code, number);
        Ok(())
    }

    fn write_min(&mut self, full: &str, min: char) -> (done: std::io::Result<()>) {
        self.code.append(full);
        Ok(())
    }

    fn new_line(&mut self) -> (done: std::io::Result<()>) {
        let ghost base = self.code@;
        string_push(&mut self.code, '\n');
        let dent: u32 = self.dent as u32;
        let unit: u32 = self.spaces_per_indent as u32;
        assert(dent * unit <= 0xffff * 0xffff) by (nonlinear_arith)
            requires
                dent <= 0xffff,
                unit <= 0xffff,
        ;
        let width: u32 = dent * unit;
        assert(width as nat == (unit as nat) * (dent as nat)) by (nonlinear_arith)
            requires
                width == dent * unit,
        ;
        let mut i: u32 = 0;
        while i < width
            invariant
                i <= width,
                self.code@ == base + seq!['\n'] + spaces(i as nat),
                base == old(self).code@,
                self.dent == old(self).dent,
                self.spaces_per_indent == old(self).spaces_per_indent,
            decreases width - i,
        {
            string_push(&mut self.code, ' ');
            assert(self.code@ =~= base + seq!['\n'] + spaces((i + 1) as nat));
            i += 1;
        }
        assert(self.code@ =~= base + line_break(old(self).sink().layout, old(self).sink().depth));
        Ok(())
    }

    fn indent(&mut self) {
        self.dent += 1;
    }

    fn dedent(&mut self) {
        self.dent -= 1;
    }
}

} // verus!
