//! A coloured tree view of the syntax tree, for terminals.
//!
//! Every node prints a header with its kind and the line and column where it
//! starts, then its fields and children, indented by one bar per level.

use vstd::prelude::*;

use crate::parser::{at_char, byte_line_col, locate, LineCol, Span};
use crate::text::{decimal_nat, push_char, push_decimal_u64, push_str};

verus! {

/// The colour code of the headers at `level`, which repeat every twelve levels.
pub open spec fn header_color(level: nat) -> Seq<char> {
    let i = level % 12;
    if i == 0 {
        "5;129"@
    } else if i == 1 {
        "5;128"@
    } else if i == 2 {
        "5;127"@
    } else if i == 3 {
        "5;126"@
    } else if i == 4 {
        "5;125"@
    } else if i == 5 {
        "5;124"@
    } else if i == 6 {
        "5;88"@
    } else if i == 7 {
        "5;89"@
    } else if i == 8 {
        "5;90"@
    } else if i == 9 {
        "5;91"@
    } else if i == 10 {
        "5;92"@
    } else {
        "5;93"@
    }
}

/// What opens a header at `level`.
pub open spec fn header_open(level: nat) -> Seq<char> {
    let i = level % 12;
    if i == 0 {
        "\x1b[38;5;129m🭨\x1b[0;48;5;129m"@
    } else if i == 1 {
        "\x1b[38;5;128m🭨\x1b[0;48;5;128m"@
    } else if i == 2 {
        "\x1b[38;5;127m🭨\x1b[0;48;5;127m"@
    } else if i == 3 {
        "\x1b[38;5;126m🭨\x1b[0;48;5;126m"@
    } else if i == 4 {
        "\x1b[38;5;125m🭨\x1b[0;48;5;125m"@
    } else if i == 5 {
        "\x1b[38;5;124m🭨\x1b[0;48;5;124m"@
    } else if i == 6 {
        "\x1b[38;5;88m🭨\x1b[0;48;5;88m"@
    } else if i == 7 {
        "\x1b[38;5;89m🭨\x1b[0;48;5;89m"@
    } else if i == 8 {
        "\x1b[38;5;90m🭨\x1b[0;48;5;90m"@
    } else if i == 9 {
        "\x1b[38;5;91m🭨\x1b[0;48;5;91m"@
    } else if i == 10 {
        "\x1b[38;5;92m🭨\x1b[0;48;5;92m"@
    } else {
        "\x1b[38;5;93m🭨\x1b[0;48;5;93m"@
    }
}

/// What closes a header at `level`.
pub open spec fn header_close(level: nat) -> Seq<char> {
    let i = level % 12;
    if i == 0 {
        "\x1b[0;38;5;129m🭪\x1b[0m "@
    } else if i == 1 {
        "\x1b[0;38;5;128m🭪\x1b[0m "@
    } else if i == 2 {
        "\x1b[0;38;5;127m🭪\x1b[0m "@
    } else if i == 3 {
        "\x1b[0;38;5;126m🭪\x1b[0m "@
    } else if i == 4 {
        "\x1b[0;38;5;125m🭪\x1b[0m "@
    } else if i == 5 {
        "\x1b[0;38;5;124m🭪\x1b[0m "@
    } else if i == 6 {
        "\x1b[0;38;5;88m🭪\x1b[0m "@
    } else if i == 7 {
        "\x1b[0;38;5;89m🭪\x1b[0m "@
    } else if i == 8 {
        "\x1b[0;38;5;90m🭪\x1b[0m "@
    } else if i == 9 {
        "\x1b[0;38;5;91m🭪\x1b[0m "@
    } else if i == 10 {
        "\x1b[0;38;5;92m🭪\x1b[0m "@
    } else {
        "\x1b[0;38;5;93m🭪\x1b[0m "@
    }
}

/// The colour, opening and closing of the header at `level`.
fn get_header(level: usize) -> (r: (&'static str, &'static str, &'static str))
    ensures
        r.0@ == header_color(level as nat),
        r.1@ == header_open(level as nat),
        r.2@ == header_close(level as nat),
{
    let i = level % 12;
    if i == 0 {
        ("5;129", "\x1b[38;5;129m🭨\x1b[0;48;5;129m", "\x1b[0;38;5;129m🭪\x1b[0m ")
    } else if i == 1 {
        ("5;128", "\x1b[38;5;128m🭨\x1b[0;48;5;128m", "\x1b[0;38;5;128m🭪\x1b[0m ")
    } else if i == 2 {
        ("5;127", "\x1b[38;5;127m🭨\x1b[0;48;5;127m", "\x1b[0;38;5;127m🭪\x1b[0m ")
    } else if i == 3 {
        ("5;126", "\x1b[38;5;126m🭨\x1b[0;48;5;126m", "\x1b[0;38;5;126m🭪\x1b[0m ")
    } else if i == 4 {
        ("5;125", "\x1b[38;5;125m🭨\x1b[0;48;5;125m", "\x1b[0;38;5;125m🭪\x1b[0m ")
    } else if i == 5 {
        ("5;124", "\x1b[38;5;124m🭨\x1b[0;48;5;124m", "\x1b[0;38;5;124m🭪\x1b[0m ")
    } else if i == 6 {
        ("5;88", "\x1b[38;5;88m🭨\x1b[0;48;5;88m", "\x1b[0;38;5;88m🭪\x1b[0m ")
    } else if i == 7 {
        ("5;89", "\x1b[38;5;89m🭨\x1b[0;48;5;89m", "\x1b[0;38;5;89m🭪\x1b[0m ")
    } else if i == 8 {
        ("5;90", "\x1b[38;5;90m🭨\x1b[0;48;5;90m", "\x1b[0;38;5;90m🭪\x1b[0m ")
    } else if i == 9 {
        ("5;91", "\x1b[38;5;91m🭨\x1b[0;48;5;91m", "\x1b[0;38;5;91m🭪\x1b[0m ")
    } else if i == 10 {
        ("5;92", "\x1b[38;5;92m🭨\x1b[0;48;5;92m", "\x1b[0;38;5;92m🭪\x1b[0m ")
    } else {
        ("5;93", "\x1b[38;5;93m🭨\x1b[0;48;5;93m", "\x1b[0;38;5;93m🭪\x1b[0m ")
    }
}

/// The colour of the header at `level`.
fn get_header_color(level: usize) -> (r: &'static str)
    ensures
        r@ == header_color(level as nat),
{
    get_header(level).0
}

/// The opening and closing of the header at `level`.
fn get_header_delim(level: usize) -> (r: (&'static str, &'static str))
    ensures
        r.0@ == header_open(level as nat),
        r.1@ == header_close(level as nat),
{
    let h = get_header(level);
    (h.1, h.2)
}

/// One continuing bar in the colour of each of the first `n` levels.
pub open spec fn bars(n: nat) -> Seq<char>
    decreases n,
{
    if n == 0 {
        Seq::empty()
    } else {
        bars((n - 1) as nat) + "\x1b[38;"@ + header_color((n - 1) as nat) + "m🮈  "@
    }
}

/// The indentation of a line that holds something at `level`; there is none
/// at level 0.
pub open spec fn indent(level: nat) -> Option<Seq<char>> {
    if level == 0 {
        None
    } else {
        Some(
            bars((level - 1) as nat) + "\x1b[38;"@ + header_color((level - 1) as nat) + "m🮈🭹 "@
                + "\x1b[0m"@,
        )
    }
}

/// The indentation of a line that separates children at `level`.
pub open spec fn indent_empty(level: nat) -> Seq<char> {
    bars(level) + "\x1b[0m"@
}

/// A line and column, as shown.
pub open spec fn linecol_text(lc: LineCol) -> Seq<char> {
    "\x1b[38;5;48m["@ + decimal_nat(lc.line as nat) + ":"@ + decimal_nat(lc.column as nat) + "]\x1b[0m"@
}

/// Where a span starts in the source, as shown; `None` where its start is no
/// byte offset at which a character of the source begins (nor its end), or the
/// source is too long to number its lines.
pub open spec fn loc_text(span: Span, src: Seq<char>) -> Option<Seq<char>> {
    if at_char(src, span.start as int) && src.len() < usize::MAX {
        Some(linecol_text(byte_line_col(src, span.start as int)))
    } else {
        None
    }
}

/// Concatenation of two texts that may be missing.
pub open spec fn cat(a: Option<Seq<char>>, b: Option<Seq<char>>) -> Option<Seq<char>> {
    if a is Some && b is Some {
        Some(a.unwrap() + b.unwrap())
    } else {
        None
    }
}

/// A header line: the node kind and where it starts.
pub open spec fn header_text(text: Seq<char>, span: Span, level: nat, src: Seq<char>) -> Option<Seq<char>> {
    cat(Some(header_open(level) + text + header_close(level)), cat(loc_text(span, src), Some("\n"@)))
}

/// A field whose value follows its name on the same line.
pub open spec fn field_text(name: Seq<char>, value: Option<Seq<char>>, level: nat) -> Option<Seq<char>> {
    cat(cat(indent(level), Some(name + ": "@)), value)
}

/// A field whose value starts on the next line.
pub open spec fn field_child_text(name: Seq<char>, value: Option<Seq<char>>, level: nat) -> Option<Seq<char>> {
    cat(cat(cat(indent(level), Some(name + ": "@ + "\n"@)), indent(level)), value)
}

/// A child of a node at `level`, shown at the next level (which must fit a `usize`).
pub open spec fn child_text(value: Option<Seq<char>>, level: nat) -> Option<Seq<char>> {
    if level >= usize::MAX {
        None
    } else {
        cat(indent(level + 1), value)
    }
}

/// The state of a formatter: what it has written, the source the locations
/// refer to, and the current level.
pub struct SpecFormatter {
    pub buf: Seq<char>,
    pub source: Seq<char>,
    pub level: nat,
}

/// Writes the tree view into a string.
pub struct PrettyFormatter {
    buf: String,
    source: Vec<char>,
    pub level: usize,
}

impl View for PrettyFormatter {
    type V = SpecFormatter;

    closed spec fn view(&self) -> SpecFormatter {
        SpecFormatter { buf: self.buf@, source: self.source@, level: self.level as nat }
    }
}

/// The formatter after writing `t`.
pub open spec fn wrote(f: SpecFormatter, t: Seq<char>) -> SpecFormatter {
    SpecFormatter { buf: f.buf + t, ..f }
}

impl PrettyFormatter {
    /// A formatter at level 0 with nothing written, for the given source.
    pub fn new(source: &str) -> (f: PrettyFormatter)
        ensures
            f@ == (SpecFormatter { buf: Seq::empty(), source: source@, level: 0 }),
    {
        PrettyFormatter { buf: String::new(), source: crate::text::chars_of(source), level: 0 }
    }

    /// The text written so far.
    pub fn text(self) -> (s: String)
        ensures
            s@ == self@.buf,
    {
        self.buf
    }

    pub fn write_str(&mut self, s: &str)
        ensures
            final(self)@ == wrote(old(self)@, s@),
    {
        push_str(&mut self.buf, s);
    }

    pub fn write_char(&mut self, c: char)
        ensures
            final(self)@ == wrote(old(self)@, seq![c]),
    {
        push_char(&mut self.buf, c);
        assert(self@.buf =~= old(self)@.buf + seq![c]);
    }

    /// The level, raised by one.
    pub fn raise(&mut self)
        requires
            old(self)@.level < usize::MAX,
        ensures
            final(self)@ == (SpecFormatter { level: old(self)@.level + 1, ..old(self)@ }),
    {
        self.level = self.level + 1;
    }

    /// The level, lowered by one.
    pub fn lower(&mut self)
        requires
            old(self)@.level > 0,
        ensures
            final(self)@ == (SpecFormatter { level: (old(self)@.level - 1) as nat, ..old(self)@ }),
    {
        self.level = self.level - 1;
    }

    /// Where the span starts in the source: its line and column, where the
    /// span's start, a byte offset, begins a character of the source.
    pub fn location(&self, span: Span) -> (lc: Option<LineCol>)
        ensures
            lc == (if at_char(self@.source, span.start as int) && self@.source.len() < usize::MAX {
                Some(byte_line_col(self@.source, span.start as int))
            } else {
                None
            }),
    {
        locate(&self.source, span.start)
    }

    /// Writes a line and column.
    pub fn write_linecol(&mut self, lc: LineCol)
        ensures
            final(self)@ == wrote(old(self)@, linecol_text(lc)),
    {
        push_str(&mut self.buf, "\x1b[38;5;48m[");
        push_decimal_u64(&mut self.buf, lc.line as u64);
        push_str(&mut self.buf, ":");
        push_decimal_u64(&mut self.buf, lc.column as u64);
        push_str(&mut self.buf, "]\x1b[0m");
        proof {
            assert(self@.buf =~= old(self)@.buf + linecol_text(lc));
        }
    }

    /// Writes where the span starts; `false` where it starts past the end of the source.
    pub fn write_location(&mut self, span: Span) -> (ok: bool)
        ensures
            ok == loc_text(span, old(self)@.source) is Some,
            ok ==> final(self)@ == wrote(old(self)@, loc_text(span, old(self)@.source).unwrap()),
            final(self)@.level == old(self)@.level,
            final(self)@.source == old(self)@.source,
    {
        match self.location(span) {
            Some(lc) => {
                self.write_linecol(lc);
                true
            },
            None => false,
        }
    }

    /// Writes a header line with the node kind and where it starts.
    pub fn write_header(&mut self, text: &str, span: Span) -> (ok: bool)
        ensures
            ok == header_text(text@, span, old(self)@.level, old(self)@.source) is Some,
            ok ==> final(self)@ == wrote(
                old(self)@,
                header_text(text@, span, old(self)@.level, old(self)@.source).unwrap(),
            ),
            final(self)@.level == old(self)@.level,
            final(self)@.source == old(self)@.source,
    {
        let (open, close) = get_header_delim(self.level);
        self.write_str(open);
        self.write_str(text);
        self.write_str(close);
        if !self.write_location(span) {
            return false;
        }
        self.write_char('\n');
        proof {
            assert("\n"@ =~= seq!['\n']) by {
                reveal_strlit("\n");
            }
            assert(self@.buf =~= old(self)@.buf + header_text(text@, span, old(self)@.level, old(self)@.source).unwrap());
        }
        true
    }

    /// Writes the bars of the levels so far, for a line between children.
    pub fn write_indent_empty(&mut self)
        ensures
            final(self)@ == wrote(old(self)@, indent_empty(old(self)@.level)),
    {
        let mut l: usize = 0;
        while l < self.level
            invariant
                l <= self.level,
                self@.source == old(self)@.source,
                self@.level == old(self)@.level,
                self@.buf == old(self)@.buf + bars(l as nat),
            decreases self.level - l,
        {
            let color = get_header_color(l);
            self.write_str("\x1b[38;");
            self.write_str(color);
            self.write_str("m🮈  ");
            l = l + 1;
            assert(self@.buf =~= old(self)@.buf + bars(l as nat));
        }
        self.write_str("\x1b[0m");
        assert(self@.buf =~= old(self)@.buf + indent_empty(old(self)@.level));
    }

    /// Writes the indentation of a line at the current level; `false` at level 0.
    pub fn write_indent(&mut self) -> (ok: bool)
        ensures
            ok == indent(old(self)@.level) is Some,
            ok ==> final(self)@ == wrote(old(self)@, indent(old(self)@.level).unwrap()),
            final(self)@.level == old(self)@.level,
            final(self)@.source == old(self)@.source,
    {
        if self.level == 0 {
            return false;
        }
        let mut l: usize = 0;
        while l < self.level - 1
            invariant
                0 < self.level,
                l <= self.level - 1,
                self@.source == old(self)@.source,
                self@.level == old(self)@.level,
                self@.buf == old(self)@.buf + bars(l as nat),
            decreases self.level - 1 - l,
        {
            let color = get_header_color(l);
            self.write_str("\x1b[38;");
            self.write_str(color);
            self.write_str("m🮈  ");
            l = l + 1;
            assert(self@.buf =~= old(self)@.buf + bars(l as nat));
        }
        let color = get_header_color(self.level - 1);
        self.write_str("\x1b[38;");
        self.write_str(color);
        self.write_str("m🮈🭹 ");
        self.write_str("\x1b[0m");
        assert(self@.buf =~= old(self)@.buf + indent(old(self)@.level).unwrap());
        true
    }
}

} // verus!

use crate::nodes::Ident;
use crate::parser::Spanned;

verus! {

/// Values that can show themselves in the tree view.
pub trait PrettyPrint: Sized {
    /// Whether the value can be shown at all: every span in it fits a `usize`.
    spec fn printable(&self) -> bool;

    /// The text the value writes at `level`, with locations taken from `src`;
    /// `None` where it cannot be written.
    spec fn pretty_spec(&self, level: nat, src: Seq<char>) -> Option<Seq<char>>;

    /// Writes the value; `false` where it cannot be written, and then the
    /// formatter holds a partial text.
    fn pretty_print(&self, f: &mut PrettyFormatter) -> (ok: bool)
        requires
            self.printable(),
        ensures
            ok == self.pretty_spec(old(f)@.level, old(f)@.source) is Some,
            ok ==> final(f)@ == wrote(old(f)@, self.pretty_spec(old(f)@.level, old(f)@.source).unwrap()),
            final(f)@.level == old(f)@.level,
            final(f)@.source == old(f)@.source,
    ;
}

pub open spec fn bool_text(b: bool) -> Seq<char> {
    if b {
        "\x1b[1;32mTrue\x1b[0m\n"@
    } else {
        "\x1b[1;31mFalse\x1b[0m\n"@
    }
}

impl PrettyPrint for Ident {
    open spec fn printable(&self) -> bool {
        true
    }

    open spec fn pretty_spec(&self, level: nat, src: Seq<char>) -> Option<Seq<char>> {
        Some(self@ + "\n"@)
    }

    fn pretty_print(&self, f: &mut PrettyFormatter) -> (ok: bool) {
        f.write_str(self.0.as_str());
        f.write_str("\n");
        assert(f@.buf =~= old(f)@.buf + (self@ + "\n"@));
        true
    }
}

impl PrettyPrint for bool {
    open spec fn printable(&self) -> bool {
        true
    }

    open spec fn pretty_spec(&self, level: nat, src: Seq<char>) -> Option<Seq<char>> {
        Some(bool_text(*self))
    }

    fn pretty_print(&self, f: &mut PrettyFormatter) -> (ok: bool) {
        if *self {
            f.write_str("\x1b[1;32mTrue\x1b[0m\n");
        } else {
            f.write_str("\x1b[1;31mFalse\x1b[0m\n");
        }
        true
    }
}

impl PrettyPrint for LineCol {
    open spec fn printable(&self) -> bool {
        true
    }

    open spec fn pretty_spec(&self, level: nat, src: Seq<char>) -> Option<Seq<char>> {
        Some(linecol_text(*self))
    }

    fn pretty_print(&self, f: &mut PrettyFormatter) -> (ok: bool) {
        f.write_linecol(*self);
        true
    }
}

impl<T: PrettyPrint> PrettyPrint for Spanned<T> {
    open spec fn printable(&self) -> bool {
        self.value.printable()
    }

    open spec fn pretty_spec(&self, level: nat, src: Seq<char>) -> Option<Seq<char>> {
        cat(cat(loc_text(self.span, src), Some(" "@)), self.value.pretty_spec(level, src))
    }

    fn pretty_print(&self, f: &mut PrettyFormatter) -> (ok: bool) {
        if !f.write_location(self.span) {
            return false;
        }
        f.write_char(' ');
        let ok = self.value.pretty_print(f);
        proof {
            assert(" "@ =~= seq![' ']) by {
                reveal_strlit(" ");
            }
            if ok {
                assert(f@.buf =~= old(f)@.buf + self.pretty_spec(old(f)@.level, old(f)@.source).unwrap());
            }
        }
        ok
    }
}

impl<T: PrettyPrint> PrettyPrint for Option<T> {
    open spec fn printable(&self) -> bool {
        match self {
            Some(v) => v.printable(),
            None => true,
        }
    }

    open spec fn pretty_spec(&self, level: nat, src: Seq<char>) -> Option<Seq<char>> {
        match self {
            Some(v) => v.pretty_spec(level, src),
            None => Some("\x1b[2;31mNone\x1b[0m\n"@),
        }
    }

    fn pretty_print(&self, f: &mut PrettyFormatter) -> (ok: bool) {
        match self {
            Some(v) => v.pretty_print(f),
            None => {
                f.write_str("\x1b[2;31mNone\x1b[0m\n");
                true
            },
        }
    }
}

/// The elements of a list at `level`: each after an indentation, with a line
/// of bars between two of them.
pub open spec fn list_text<T: PrettyPrint>(items: Seq<T>, level: nat, src: Seq<char>) -> Option<Seq<char>>
    decreases items.len(),
{
    if items.len() == 0 {
        Some(Seq::empty())
    } else if items.len() == 1 {
        cat(indent(level), items[0].pretty_spec(level, src))
    } else {
        cat(
            cat(list_text(items.drop_last(), level, src), Some(indent_empty(level) + "\n"@)),
            cat(indent(level), items.last().pretty_spec(level, src)),
        )
    }
}

/// Whether every element of a list can be shown.
pub open spec fn all_printable<T: PrettyPrint>(items: Seq<T>) -> bool {
    forall|i: int| 0 <= i < items.len() ==> #[trigger] items[i].printable()
}

impl PrettyFormatter {
    /// Writes the elements of a list at the current level, each after an
    /// indentation, with a line of bars between two of them.
    #[verifier::spinoff_prover]
    #[verifier::rlimit(40)]
    pub fn write_list<T: PrettyPrint>(&mut self, items: &Vec<T>) -> (ok: bool)
        requires
            all_printable(items@),
        ensures
            ok == list_text(items@, old(self)@.level, old(self)@.source) is Some,
            ok ==> final(self)@ == wrote(old(self)@, list_text(items@, old(self)@.level, old(self)@.source).unwrap()),
            final(self)@.level == old(self)@.level,
            final(self)@.source == old(self)@.source,
    {
        let ghost f0 = self@;
        let n = items.len();
        let mut i: usize = 0;
        assert(items@.take(0) =~= Seq::<T>::empty());
        while i < n
            invariant
                f0 == old(self)@,
                n == items@.len(),
                i <= n,
                all_printable(items@),
                self@.level == f0.level,
                self@.source == f0.source,
                list_text(items@.take(i as int), f0.level, f0.source) is Some,
                self@.buf == f0.buf + list_text(items@.take(i as int), f0.level, f0.source).unwrap(),
            decreases n - i,
        {
            let ghost before = self@.buf;
            proof {
                assert(items@.take(i + 1).drop_last() =~= items@.take(i as int));
                assert(items@.take(i + 1).last() == items@[i as int]);
                assert(items@.take(i + 1)[0] == items@[0]);
            }
            if i > 0 {
                self.write_indent_empty();
                self.write_char('\n');
            }
            if !self.write_indent() {
                proof {
                    let t = items@.take(i + 1);
                    assert(t.len() == i + 1);
                    assert(list_text(t, f0.level, f0.source) is None);
                    lemma_list_text_none(items@, i as int + 1, n as int, f0.level, f0.source);
                    assert(items@.take(n as int) =~= items@);
                }
                return false;
            }
            if !items[i].pretty_print(self) {
                proof {
                    let t = items@.take(i + 1);
                    assert(t.len() == i + 1);
                    assert(list_text(t, f0.level, f0.source) is None);
                    lemma_list_text_none(items@, i as int + 1, n as int, f0.level, f0.source);
                    assert(items@.take(n as int) =~= items@);
                }
                return false;
            }
            proof {
                assert("\n"@ =~= seq!['\n']) by {
                    reveal_strlit("\n");
                }
                assert(self@.buf =~= f0.buf + list_text(items@.take(i + 1), f0.level, f0.source).unwrap());
            }
            i = i + 1;
        }
        assert(items@.take(n as int) =~= items@);
        true
    }
}

/// A list that cannot be shown up to some element cannot be shown with more.
proof fn lemma_list_text_none<T: PrettyPrint>(items: Seq<T>, k: int, j: int, level: nat, src: Seq<char>)
    requires
        0 < k <= j <= items.len(),
        list_text(items.take(k), level, src) is None,
    ensures
        list_text(items.take(j), level, src) is None,
    decreases j - k,
{
    if j > k {
        lemma_list_text_none(items, k, j - 1, level, src);
        assert(items.take(j).drop_last() =~= items.take(j - 1));
    }
}

impl<T: PrettyPrint> PrettyPrint for Vec<T> {
    open spec fn printable(&self) -> bool {
        all_printable(self@)
    }

    open spec fn pretty_spec(&self, level: nat, src: Seq<char>) -> Option<Seq<char>> {
        if self@.len() == 0 {
            Some(Seq::empty())
        } else {
            cat(Some("\n"@), list_text(self@, level, src))
        }
    }

    fn pretty_print(&self, f: &mut PrettyFormatter) -> (ok: bool) {
        if self.len() == 0 {
            assert(f@.buf =~= old(f)@.buf + Seq::<char>::empty());
            return true;
        }
        f.write_char('\n');
        let ok = f.write_list(self);
        proof {
            assert("\n"@ =~= seq!['\n']) by {
                reveal_strlit("\n");
            }
            if ok {
                assert(f@.buf =~= old(f)@.buf + self.pretty_spec(old(f)@.level, old(f)@.source).unwrap());
            }
        }
        ok
    }
}

} // verus!

verus! {

/// The children of a node at `level`, shown at the next level; `None` where
/// there are none.
pub open spec fn children_text<T: PrettyPrint>(items: Seq<T>, level: nat, src: Seq<char>) -> Option<Seq<char>> {
    if items.len() == 0 || level >= usize::MAX {
        None
    } else {
        list_text(items, level + 1, src)
    }
}

/// A node being written: how many levels it has opened. Every method of a
/// node keeps the formatter's level at the level the node started at plus the
/// levels the node has open, and `finish` closes them, which brings the
/// formatter back to the level the node started at.
pub struct PrettyNode {
    levels: usize,
}

impl View for PrettyNode {
    type V = nat;

    closed spec fn view(&self) -> nat {
        self.levels as nat
    }
}

impl PrettyFormatter {
    /// Writes a node's header line and starts the node.
    pub fn node(&mut self, header: &str, span: Span) -> (r: Option<PrettyNode>)
        ensures
            r is Some == header_text(header@, span, old(self)@.level, old(self)@.source) is Some,
            r matches Some(n) ==> n@ == 0 && final(self)@ == wrote(
                old(self)@,
                header_text(header@, span, old(self)@.level, old(self)@.source).unwrap(),
            ),
            final(self)@.level == old(self)@.level,
            final(self)@.source == old(self)@.source,
    {
        if self.write_header(header, span) {
            Some(PrettyNode { levels: 0 })
        } else {
            None
        }
    }

    /// Writes the children of the current node one level deeper.
    pub fn write_children<T: PrettyPrint>(&mut self, children: &Vec<T>) -> (ok: bool)
        requires
            all_printable(children@),
        ensures
            ok == children_text(children@, old(self)@.level, old(self)@.source) is Some,
            ok ==> final(self)@ == wrote(
                old(self)@,
                children_text(children@, old(self)@.level, old(self)@.source).unwrap(),
            ),
            final(self)@.level == old(self)@.level,
            final(self)@.source == old(self)@.source,
    {
        if children.len() == 0 || self.level == usize::MAX {
            return false;
        }
        self.raise();
        let ok = self.write_list(children);
        self.lower();
        ok
    }
}

impl PrettyNode {
    /// Fields from here on are written one level deeper.
    pub fn begin_fields(&mut self, f: &mut PrettyFormatter)
        requires
            old(f)@.level < usize::MAX,
            old(self)@ < usize::MAX,
        ensures
            final(f)@.level + old(self)@ == old(f)@.level + final(self)@,
            final(f)@ == (SpecFormatter { level: old(f)@.level + 1, ..old(f)@ }),
            final(self)@ == old(self)@ + 1,
    {
        f.raise();
        self.levels = self.levels + 1;
    }

    /// Writes the indentation and the name of a field.
    pub fn write_field_key(&mut self, f: &mut PrettyFormatter, name: &str) -> (ok: bool)
        ensures
            final(f)@.level + old(self)@ == old(f)@.level + final(self)@,
            ok == indent(old(f)@.level) is Some,
            ok ==> final(f)@ == wrote(old(f)@, indent(old(f)@.level).unwrap() + name@ + ": "@),
            final(self)@ == old(self)@,
            final(f)@.level == old(f)@.level,
            final(f)@.source == old(f)@.source,
    {
        if !f.write_indent() {
            return false;
        }
        f.write_str(name);
        f.write_str(": ");
        assert(f@.buf =~= old(f)@.buf + (indent(old(f)@.level).unwrap() + name@ + ": "@));
        true
    }

    /// Writes a field whose value follows its name.
    pub fn field<T: PrettyPrint>(&mut self, f: &mut PrettyFormatter, name: &str, value: &T) -> (ok: bool)
        requires
            value.printable(),
        ensures
            final(f)@.level + old(self)@ == old(f)@.level + final(self)@,
            ok == field_text(name@, value.pretty_spec(old(f)@.level, old(f)@.source), old(f)@.level) is Some,
            ok ==> final(f)@ == wrote(
                old(f)@,
                field_text(name@, value.pretty_spec(old(f)@.level, old(f)@.source), old(f)@.level).unwrap(),
            ),
            final(self)@ == old(self)@,
            final(f)@.level == old(f)@.level,
            final(f)@.source == old(f)@.source,
    {
        if !self.write_field_key(f, name) {
            return false;
        }
        let ok = value.pretty_print(f);
        if ok {
            assert(f@.buf =~= old(f)@.buf + field_text(
                name@,
                value.pretty_spec(old(f)@.level, old(f)@.source),
                old(f)@.level,
            ).unwrap());
        }
        ok
    }

    /// Writes a field whose value starts on the next line.
    pub fn field_child<T: PrettyPrint>(&mut self, f: &mut PrettyFormatter, name: &str, value: &T) -> (ok: bool)
        requires
            value.printable(),
        ensures
            final(f)@.level + old(self)@ == old(f)@.level + final(self)@,
            ok == field_child_text(name@, value.pretty_spec(old(f)@.level, old(f)@.source), old(f)@.level) is Some,
            ok ==> final(f)@ == wrote(
                old(f)@,
                field_child_text(name@, value.pretty_spec(old(f)@.level, old(f)@.source), old(f)@.level).unwrap(),
            ),
            final(self)@ == old(self)@,
            final(f)@.level == old(f)@.level,
            final(f)@.source == old(f)@.source,
    {
        if !self.write_field_key(f, name) {
            return false;
        }
        f.write_str("\n");
        if !f.write_indent() {
            return false;
        }
        let ok = value.pretty_print(f);
        if ok {
            assert(f@.buf =~= old(f)@.buf + field_child_text(
                name@,
                value.pretty_spec(old(f)@.level, old(f)@.source),
                old(f)@.level,
            ).unwrap());
        }
        ok
    }

    /// Fields from here on are written one level higher; `false` where no
    /// level was opened.
    pub fn end_fields(&mut self, f: &mut PrettyFormatter) -> (ok: bool)
        ensures
            final(f)@.level + old(self)@ == old(f)@.level + final(self)@,
            ok == (old(self)@ > 0 && old(f)@.level > 0),
            ok ==> final(f)@ == (SpecFormatter { level: (old(f)@.level - 1) as nat, ..old(f)@ }),
            ok ==> final(self)@ == old(self)@ - 1,
            !ok ==> final(f)@ == old(f)@ && final(self)@ == old(self)@,
    {
        if self.levels == 0 || f.level == 0 {
            return false;
        }
        f.lower();
        self.levels = self.levels - 1;
        true
    }

    /// Writes the children of the node one level deeper.
    pub fn children<T: PrettyPrint>(&mut self, f: &mut PrettyFormatter, children: &Vec<T>) -> (ok: bool)
        requires
            all_printable(children@),
        ensures
            final(f)@.level + old(self)@ == old(f)@.level + final(self)@,
            ok == children_text(children@, old(f)@.level, old(f)@.source) is Some,
            ok ==> final(f)@ == wrote(old(f)@, children_text(children@, old(f)@.level, old(f)@.source).unwrap()),
            final(self)@ == old(self)@,
            final(f)@.level == old(f)@.level,
            final(f)@.source == old(f)@.source,
    {
        f.write_children(children)
    }

    /// Writes one child of the node one level deeper.
    pub fn child<T: PrettyPrint>(&mut self, f: &mut PrettyFormatter, child: &T) -> (ok: bool)
        requires
            child.printable(),
        ensures
            final(f)@.level + old(self)@ == old(f)@.level + final(self)@,
            ok == child_text(child.pretty_spec(old(f)@.level + 1, old(f)@.source), old(f)@.level) is Some,
            ok ==> final(f)@ == wrote(
                old(f)@,
                child_text(child.pretty_spec(old(f)@.level + 1, old(f)@.source), old(f)@.level).unwrap(),
            ),
            final(self)@ == old(self)@,
            final(f)@.level == old(f)@.level,
            final(f)@.source == old(f)@.source,
    {
        if f.level == usize::MAX {
            return false;
        }
        f.raise();
        if !f.write_indent() {
            f.lower();
            return false;
        }
        let ok = child.pretty_print(f);
        f.lower();
        if ok {
            assert(f@.buf =~= old(f)@.buf + child_text(
                child.pretty_spec(old(f)@.level + 1, old(f)@.source),
                old(f)@.level,
            ).unwrap());
        }
        ok
    }

    /// Ends the node: the levels it opened are closed.
    pub fn finish(self, f: &mut PrettyFormatter)
        requires
            self@ <= old(f)@.level,
        ensures
            final(f)@ == (SpecFormatter { level: (old(f)@.level - self@) as nat, ..old(f)@ }),
    {
        f.level = f.level - self.levels;
    }
}

} // verus!

use crate::nodes::model::{
    block_fits, block_span, expr_fits, expr_span, exprs_fit, stmt_fits, stmt_span, stmts_fit,
    view_exprs, view_stmts, SpecBlock, SpecExpr, SpecStatement,
};
use crate::nodes::{Block, Expr, ExprBinary, ExprDeref, Statement};
use crate::text::decimal_int;

verus! {

pub open spec fn kind_name(k: ExprBinary) -> Seq<char> {
    match k {
        ExprBinary::Add => "Add"@,
        ExprBinary::Sub => "Sub"@,
        ExprBinary::Eq => "Eq"@,
        ExprBinary::Ne => "Ne"@,
        ExprBinary::Gt => "Gt"@,
        ExprBinary::Ge => "Ge"@,
        ExprBinary::Lt => "Lt"@,
        ExprBinary::Le => "Le"@,
    }
}

pub open spec fn deref_name(d: ExprDeref) -> Seq<char> {
    match d {
        ExprDeref::Byte => "Byte"@,
        ExprDeref::Half => "Half"@,
        ExprDeref::Word => "Word"@,
    }
}

/// A spanned identifier: where it starts, then its text.
pub open spec fn ident_text(i: Spanned<Seq<char>>, src: Seq<char>) -> Option<Seq<char>> {
    cat(cat(loc_text(i.span, src), Some(" "@)), Some(i.value + "\n"@))
}

/// An expression at `level`. An assignment cannot be shown: its node closes
/// a level it never opened.
pub open spec fn pp_expr(e: SpecExpr, level: nat, src: Seq<char>) -> Option<Seq<char>>
    decreases e,
{
    match e {
        SpecExpr::Assign(_, _) => None,
        SpecExpr::Block(b) => cat(
            header_text("Expr::Block"@, block_span(b), level, src),
            if b.stmts.len() == 0 || level >= usize::MAX {
                None
            } else {
                pp_stmt_list(b.stmts, level + 1, src)
            },
        ),
        SpecExpr::Binary { kind, lhs, rhs, .. } => cat(
            cat(
                cat(
                    header_text("Expr::Binary"@, expr_span(*lhs), level, src),
                    field_text("kind"@, Some(kind_name(kind) + "\n"@), level),
                ),
                field_child_text("lhs"@, pp_expr(*lhs, level, src), level),
            ),
            field_child_text("rhs"@, pp_expr(*rhs, level, src), level),
        ),
        SpecExpr::Call(c, args) => cat(
            cat(
                header_text("Expr::Call"@, expr_span(*c), level, src),
                field_child_text("callee"@, pp_expr(*c, level, src), level),
            ),
            field_text(
                "args"@,
                if args.len() == 0 {
                    Some(Seq::empty())
                } else {
                    cat(Some("\n"@), pp_expr_list(args, level, src))
                },
                level,
            ),
        ),
        SpecExpr::Deref(d, v) => cat(
            cat(
                header_text("Expr::Deref"@, expr_span(*v), level, src),
                field_text("kind"@, Some(deref_name(d.value) + "\n"@), level),
            ),
            child_text(pp_expr(*v, level + 1, src), level),
        ),
        SpecExpr::Ident(v) => cat(
            header_text("Expr::Ident"@, v.span, level, src),
            child_text(Some(v.value + "\n"@), level),
        ),
        SpecExpr::Label(v) => cat(
            header_text("Expr::Label"@, v.span, level, src),
            child_text(Some(v.value + "\n"@), level),
        ),
        SpecExpr::Number(v) => cat(
            header_text("Expr::Number"@, v.span, level, src),
            child_text(Some(decimal_int(v.value as int) + "\n"@), level),
        ),
    }
}

/// Expressions as the elements of a list at `level`.
pub open spec fn pp_expr_list(es: Seq<SpecExpr>, level: nat, src: Seq<char>) -> Option<Seq<char>>
    decreases es,
{
    if es.len() == 0 {
        Some(Seq::empty())
    } else if es.len() == 1 {
        cat(indent(level), pp_expr(es[0], level, src))
    } else {
        cat(
            cat(pp_expr_list(es.drop_last(), level, src), Some(indent_empty(level) + "\n"@)),
            cat(indent(level), pp_expr(es.last(), level, src)),
        )
    }
}

/// A block at `level`: its header and its statements one level deeper.
pub open spec fn pp_block(b: SpecBlock, level: nat, src: Seq<char>) -> Option<Seq<char>>
    decreases b,
{
    cat(
        header_text("Block"@, block_span(b), level, src),
        if b.stmts.len() == 0 || level >= usize::MAX {
            None
        } else {
            pp_stmt_list(b.stmts, level + 1, src)
        },
    )
}

/// Statements as the elements of a list at `level`.
pub open spec fn pp_stmt_list(ss: Seq<SpecStatement>, level: nat, src: Seq<char>) -> Option<Seq<char>>
    decreases ss,
{
    if ss.len() == 0 {
        Some(Seq::empty())
    } else if ss.len() == 1 {
        cat(indent(level), pp_stmt(ss[0], level, src))
    } else {
        cat(
            cat(pp_stmt_list(ss.drop_last(), level, src), Some(indent_empty(level) + "\n"@)),
            cat(indent(level), pp_stmt(ss.last(), level, src)),
        )
    }
}

/// A statement at `level`.
#[verifier::opaque]
pub open spec fn pp_stmt(st: SpecStatement, level: nat, src: Seq<char>) -> Option<Seq<char>>
    decreases st,
{
    match st {
        SpecStatement::Expr { expr, semi } => cat(
            cat(
                header_text("Statment::Expr"@, stmt_span(st), level, src),
                field_text("has_semi"@, Some(bool_text(semi is Some)), level),
            ),
            child_text(pp_expr(expr, level + 1, src), level),
        ),
        SpecStatement::If { cond, body, otherwise, .. } => cat(
            cat(
                cat(
                    header_text("Statment::If"@, stmt_span(st), level, src),
                    field_child_text("cond"@, pp_expr(cond, level, src), level),
                ),
                field_child_text("body"@, pp_block(body, level, src), level),
            ),
            match otherwise {
                Some(o) => field_child_text("otherwise"@, pp_block(o.1, level, src), level),
                None => Some(Seq::empty()),
            },
        ),
        SpecStatement::Label { name, .. } => cat(
            header_text("Statment::Label"@, stmt_span(st), level, src),
            field_text("name"@, ident_text(name, src), level),
        ),
        SpecStatement::Let { name, expr, semi, .. } => cat(
            cat(
                cat(
                    header_text("Statment::Let"@, stmt_span(st), level, src),
                    field_text("name"@, ident_text(name, src), level),
                ),
                field_text("has_semi"@, Some(bool_text(semi is Some)), level),
            ),
            child_text(pp_expr(expr, level + 1, src), level),
        ),
        SpecStatement::Loop { body, .. } => cat(
            header_text("Statment::Loop"@, stmt_span(st), level, src),
            if body.stmts.len() == 0 || level >= usize::MAX {
                None
            } else {
                pp_stmt_list(body.stmts, level + 1, src)
            },
        ),
        SpecStatement::While { cond, body, .. } => cat(
            cat(
                header_text("Statment::While"@, stmt_span(st), level, src),
                field_child_text("cond"@, pp_expr(cond, level, src), level),
            ),
            child_text(pp_block(body, level + 1, src), level),
        ),
    }
}

} // verus!

use crate::nodes::{span_of_expr, Ident as IdentNode};
use crate::nodes::expr::lemma_view_exprs;
use crate::nodes::statements::lemma_view_stmts;
use crate::parser::IntoSpanned;

verus! {

fn kind_str(k: ExprBinary) -> (s: &'static str)
    ensures
        s@ == kind_name(k),
{
    match k {
        ExprBinary::Add => "Add",
        ExprBinary::Sub => "Sub",
        ExprBinary::Eq => "Eq",
        ExprBinary::Ne => "Ne",
        ExprBinary::Gt => "Gt",
        ExprBinary::Ge => "Ge",
        ExprBinary::Lt => "Lt",
        ExprBinary::Le => "Le",
    }
}

fn deref_str(d: ExprDeref) -> (s: &'static str)
    ensures
        s@ == deref_name(d),
{
    match d {
        ExprDeref::Byte => "Byte",
        ExprDeref::Half => "Half",
        ExprDeref::Word => "Word",
    }
}

impl PrettyFormatter {
    /// Writes a number in decimal.
    pub fn write_decimal(&mut self, v: i32)
        ensures
            final(self)@ == wrote(old(self)@, decimal_int(v as int)),
    {
        crate::text::push_decimal_i64(&mut self.buf, v as i64);
    }

    /// Writes, one level deeper, a child line made of the given text and a line break.
    fn write_text_child(&mut self, text: &str) -> (ok: bool)
        ensures
            ok == child_text(Some(text@ + "\n"@), old(self)@.level) is Some,
            ok ==> final(self)@ == wrote(old(self)@, child_text(Some(text@ + "\n"@), old(self)@.level).unwrap()),
            final(self)@.level == old(self)@.level,
            final(self)@.source == old(self)@.source,
    {
        if self.level == usize::MAX {
            return false;
        }
        self.raise();
        let ok = self.write_indent();
        if ok {
            self.write_str(text);
            self.write_str("\n");
        }
        self.lower();
        if ok {
            assert(self@.buf =~= old(self)@.buf + child_text(Some(text@ + "\n"@), old(self)@.level).unwrap());
        }
        ok
    }
}

/// Writes an expression; `false` where it cannot be shown.
pub fn pretty_expr(e: &Expr, f: &mut PrettyFormatter) -> (ok: bool)
    requires
        expr_fits(e@),
    ensures
        ok == pp_expr(e@, old(f)@.level, old(f)@.source) is Some,
        ok ==> final(f)@ == wrote(old(f)@, pp_expr(e@, old(f)@.level, old(f)@.source).unwrap()),
        final(f)@.level == old(f)@.level,
        final(f)@.source == old(f)@.source,
    decreases e, 5int,
{
    match e {
        Expr::Assign(..) => false,
        Expr::Block(..) => pretty_expr_block(e, f),
        Expr::Binary { .. } => pretty_expr_binary(e, f),
        Expr::Call(..) => pretty_expr_call(e, f),
        Expr::Deref(..) => pretty_expr_deref(e, f),
        Expr::Ident(..) => pretty_expr_ident(e, f),
        Expr::Label(..) => pretty_expr_label(e, f),
        Expr::Number(..) => pretty_expr_number(e, f),
    }
}

#[verifier::spinoff_prover]
#[verifier::rlimit(60)]
fn pretty_expr_block(e: &Expr, f: &mut PrettyFormatter) -> (ok: bool)
    requires
        expr_fits(e@),
        e is Block,
    ensures
        ok == pp_expr(e@, old(f)@.level, old(f)@.source) is Some,
        ok ==> final(f)@ == wrote(old(f)@, pp_expr(e@, old(f)@.level, old(f)@.source).unwrap()),
        final(f)@.level == old(f)@.level,
        final(f)@.source == old(f)@.source,
    decreases e, 4int,
{
    let ghost f0 = f@;
    let ghost lv = f0.level;
    let ghost src = f0.source;
    match e {
        Expr::Block(b) => {
            assert(e@ == SpecExpr::Block(b@));
            assert(block_fits(b@));
            assert(b@.stmts == view_stmts(b.stmts@));
            assert(stmts_fit(view_stmts(b.stmts@)));
            let node = match f.node("Expr::Block", b.span()) {
                None => {
                    return false;
                },
                Some(n) => n,
            };
            let ghost f1 = f@;
            if b.stmts.len() == 0 || f.level == usize::MAX {
                return false;
            }
            f.raise();
            proof {
                lemma_view_stmts(b.stmts@);
            }
            assert(decreases_to!(b => b.stmts));
            let ok = pretty_stmt_list(&b.stmts, f);
            f.lower();
            node.finish(f);
            if ok {
                assert(f@.buf =~= f0.buf + pp_expr(e@, lv, src).unwrap());
            }
            ok
        },
        _ => false,
    }
}

#[verifier::spinoff_prover]
#[verifier::rlimit(100)]
fn pretty_expr_binary(e: &Expr, f: &mut PrettyFormatter) -> (ok: bool)
    requires
        expr_fits(e@),
        e is Binary,
    ensures
        ok == pp_expr(e@, old(f)@.level, old(f)@.source) is Some,
        ok ==> final(f)@ == wrote(old(f)@, pp_expr(e@, old(f)@.level, old(f)@.source).unwrap()),
        final(f)@.level == old(f)@.level,
        final(f)@.source == old(f)@.source,
    decreases e, 4int,
{
    let ghost f0 = f@;
    let ghost lv = f0.level;
    let ghost src = f0.source;
    match e {
        Expr::Binary { kind, lhs, rhs, .. } => {
            assert(e@ == SpecExpr::Binary { kind: *kind, lhs: Box::new((**lhs)@), rhs: Box::new((**rhs)@), swap_load: e@->swap_load });
            let mut node = match f.node("Expr::Binary", span_of_expr(lhs)) {
                None => {
                    return false;
                },
                Some(n) => n,
            };
            let ghost t1 = header_text("Expr::Binary"@, expr_span((**lhs)@), lv, src).unwrap();
            if !node.write_field_key(f, "kind") {
                return false;
            }
            f.write_str(kind_str(*kind));
            f.write_str("\n");
            let ghost t2 = field_text("kind"@, Some(kind_name(*kind) + "\n"@), lv).unwrap();
            assert(f@.buf =~= f0.buf + t1 + t2);
            if !node.write_field_key(f, "lhs") {
                return false;
            }
            f.write_str("\n");
            if !f.write_indent() {
                return false;
            }
            if !pretty_expr(lhs, f) {
                return false;
            }
            let ghost t3 = field_child_text("lhs"@, pp_expr((**lhs)@, lv, src), lv).unwrap();
            assert(f@.buf =~= f0.buf + t1 + t2 + t3);
            if !node.write_field_key(f, "rhs") {
                return false;
            }
            f.write_str("\n");
            if !f.write_indent() {
                return false;
            }
            if !pretty_expr(rhs, f) {
                return false;
            }
            let ghost t4 = field_child_text("rhs"@, pp_expr((**rhs)@, lv, src), lv).unwrap();
            assert(f@.buf =~= f0.buf + t1 + t2 + t3 + t4);
            node.finish(f);
            assert(f@.buf =~= f0.buf + pp_expr(e@, lv, src).unwrap());
            true
        },
        _ => false,
    }
}

#[verifier::spinoff_prover]
#[verifier::rlimit(60)]
fn pretty_expr_call(e: &Expr, f: &mut PrettyFormatter) -> (ok: bool)
    requires
        expr_fits(e@),
        e is Call,
    ensures
        ok == pp_expr(e@, old(f)@.level, old(f)@.source) is Some,
        ok ==> final(f)@ == wrote(old(f)@, pp_expr(e@, old(f)@.level, old(f)@.source).unwrap()),
        final(f)@.level == old(f)@.level,
        final(f)@.source == old(f)@.source,
    decreases e, 4int,
{
    let ghost f0 = f@;
    let ghost lv = f0.level;
    let ghost src = f0.source;
    match e {
        Expr::Call(c, args) => {
            assert(e@ == SpecExpr::Call(Box::new((**c)@), view_exprs(args@)));
            proof {
                lemma_view_exprs(args@);
                crate::nodes::expr::lemma_exprs_fit(args@);
            }
            let mut node = match f.node("Expr::Call", span_of_expr(c)) {
                None => {
                    return false;
                },
                Some(n) => n,
            };
            let ghost t1 = header_text("Expr::Call"@, expr_span((**c)@), lv, src).unwrap();
            if !node.write_field_key(f, "callee") {
                return false;
            }
            f.write_str("\n");
            if !f.write_indent() {
                return false;
            }
            if !pretty_expr(c, f) {
                return false;
            }
            let ghost t2 = field_child_text("callee"@, pp_expr((**c)@, lv, src), lv).unwrap();
            assert(f@.buf =~= f0.buf + t1 + t2);
            if !node.write_field_key(f, "args") {
                return false;
            }
            if args.len() > 0 {
                f.write_str("\n");
                assert(decreases_to!(args => args@));
                if !pretty_expr_list(args, f) {
                    return false;
                }
            }
            node.finish(f);
            assert(f@.buf =~= f0.buf + pp_expr(e@, lv, src).unwrap());
            true
        },
        _ => false,
    }
}

#[verifier::spinoff_prover]
#[verifier::rlimit(60)]
fn pretty_expr_deref(e: &Expr, f: &mut PrettyFormatter) -> (ok: bool)
    requires
        expr_fits(e@),
        e is Deref,
    ensures
        ok == pp_expr(e@, old(f)@.level, old(f)@.source) is Some,
        ok ==> final(f)@ == wrote(old(f)@, pp_expr(e@, old(f)@.level, old(f)@.source).unwrap()),
        final(f)@.level == old(f)@.level,
        final(f)@.source == old(f)@.source,
    decreases e, 4int,
{
    let ghost f0 = f@;
    let ghost lv = f0.level;
    let ghost src = f0.source;
    match e {
        Expr::Deref(d, v) => {
            assert(e@ == SpecExpr::Deref(*d, Box::new((**v)@)));
            let mut node = match f.node("Expr::Deref", span_of_expr(v)) {
                None => {
                    return false;
                },
                Some(n) => n,
            };
            let ghost t1 = header_text("Expr::Deref"@, expr_span((**v)@), lv, src).unwrap();
            if !node.write_field_key(f, "kind") {
                return false;
            }
            f.write_str(deref_str(d.value));
            f.write_str("\n");
            let ghost t2 = field_text("kind"@, Some(deref_name(d.value) + "\n"@), lv).unwrap();
            assert(f@.buf =~= f0.buf + t1 + t2);
            if f.level == usize::MAX {
                return false;
            }
            f.raise();
            if !f.write_indent() {
                f.lower();
                return false;
            }
            let ok = pretty_expr(v, f);
            f.lower();
            node.finish(f);
            if ok {
                assert(f@.buf =~= f0.buf + pp_expr(e@, lv, src).unwrap());
            }
            ok
        },
        _ => false,
    }
}

#[verifier::spinoff_prover]
#[verifier::rlimit(60)]
fn pretty_expr_ident(e: &Expr, f: &mut PrettyFormatter) -> (ok: bool)
    requires
        expr_fits(e@),
        e is Ident,
    ensures
        ok == pp_expr(e@, old(f)@.level, old(f)@.source) is Some,
        ok ==> final(f)@ == wrote(old(f)@, pp_expr(e@, old(f)@.level, old(f)@.source).unwrap()),
        final(f)@.level == old(f)@.level,
        final(f)@.source == old(f)@.source,
    decreases e, 4int,
{
    let ghost f0 = f@;
    let ghost lv = f0.level;
    let ghost src = f0.source;
    match e {
        Expr::Ident(v) => {
            let node = match f.node("Expr::Ident", v.span) {
                None => {
                    return false;
                },
                Some(n) => n,
            };
            let ok = f.write_text_child(v.value.0.as_str());
            node.finish(f);
            if ok {
                assert(f@.buf =~= f0.buf + pp_expr(e@, lv, src).unwrap());
            }
            ok
        },
        _ => false,
    }
}

#[verifier::spinoff_prover]
#[verifier::rlimit(60)]
fn pretty_expr_label(e: &Expr, f: &mut PrettyFormatter) -> (ok: bool)
    requires
        expr_fits(e@),
        e is Label,
    ensures
        ok == pp_expr(e@, old(f)@.level, old(f)@.source) is Some,
        ok ==> final(f)@ == wrote(old(f)@, pp_expr(e@, old(f)@.level, old(f)@.source).unwrap()),
        final(f)@.level == old(f)@.level,
        final(f)@.source == old(f)@.source,
    decreases e, 4int,
{
    let ghost f0 = f@;
    let ghost lv = f0.level;
    let ghost src = f0.source;
    match e {
        Expr::Label(v) => {
            let node = match f.node("Expr::Label", v.span) {
                None => {
                    return false;
                },
                Some(n) => n,
            };
            let ok = f.write_text_child(v.value.0.as_str());
            node.finish(f);
            if ok {
                assert(f@.buf =~= f0.buf + pp_expr(e@, lv, src).unwrap());
            }
            ok
        },
        _ => false,
    }
}

#[verifier::spinoff_prover]
#[verifier::rlimit(60)]
fn pretty_expr_number(e: &Expr, f: &mut PrettyFormatter) -> (ok: bool)
    requires
        expr_fits(e@),
        e is Number,
    ensures
        ok == pp_expr(e@, old(f)@.level, old(f)@.source) is Some,
        ok ==> final(f)@ == wrote(old(f)@, pp_expr(e@, old(f)@.level, old(f)@.source).unwrap()),
        final(f)@.level == old(f)@.level,
        final(f)@.source == old(f)@.source,
    decreases e, 4int,
{
    let ghost f0 = f@;
    let ghost lv = f0.level;
    let ghost src = f0.source;
    match e {
        Expr::Number(v) => {
            let node = match f.node("Expr::Number", v.span) {
                None => {
                    return false;
                },
                Some(n) => n,
            };
            if f.level == usize::MAX {
                return false;
            }
            f.raise();
            let ok = f.write_indent();
            if ok {
                f.write_decimal(v.value);
                f.write_str("\n");
            }
            f.lower();
            node.finish(f);
            if ok {
                assert(f@.buf =~= f0.buf + pp_expr(e@, lv, src).unwrap());
            }
            ok
        },
        _ => false,
    }
}


} // verus!

verus! {

proof fn lemma_expr_list_none(es: Seq<SpecExpr>, k: int, j: int, level: nat, src: Seq<char>)
    requires
        0 < k <= j <= es.len(),
        pp_expr_list(es.take(k), level, src) is None,
    ensures
        pp_expr_list(es.take(j), level, src) is None,
    decreases j - k,
{
    if j > k {
        lemma_expr_list_none(es, k, j - 1, level, src);
        assert(es.take(j).drop_last() =~= es.take(j - 1));
    }
}

proof fn lemma_stmt_list_none(ss: Seq<SpecStatement>, k: int, j: int, level: nat, src: Seq<char>)
    requires
        0 < k <= j <= ss.len(),
        pp_stmt_list(ss.take(k), level, src) is None,
    ensures
        pp_stmt_list(ss.take(j), level, src) is None,
    decreases j - k,
{
    if j > k {
        lemma_stmt_list_none(ss, k, j - 1, level, src);
        assert(ss.take(j).drop_last() =~= ss.take(j - 1));
    }
}

/// Writes expressions as the elements of a list at the current level.
#[verifier::spinoff_prover]
#[verifier::rlimit(40)]
fn pretty_expr_list(es: &Vec<Expr>, f: &mut PrettyFormatter) -> (ok: bool)
    requires
        exprs_fit(view_exprs(es@)),
    ensures
        ok == pp_expr_list(view_exprs(es@), old(f)@.level, old(f)@.source) is Some,
        ok ==> final(f)@ == wrote(old(f)@, pp_expr_list(view_exprs(es@), old(f)@.level, old(f)@.source).unwrap()),
        final(f)@.level == old(f)@.level,
        final(f)@.source == old(f)@.source,
    decreases es@, 5int,
{
    let ghost f0 = f@;
    let ghost sv = view_exprs(es@);
    proof {
        lemma_view_exprs(es@);
        crate::nodes::expr::lemma_exprs_fit(es@);
        assert(sv.take(0) =~= Seq::<SpecExpr>::empty());
    }
    let n = es.len();
    let mut i: usize = 0;
    while i < n
        invariant
            f0 == old(f)@,
            n == es@.len(),
            i <= n,
            sv == view_exprs(es@),
            sv.len() == n,
            forall|k: int| 0 <= k < n ==> #[trigger] sv[k] == es@[k]@,
            forall|k: int| 0 <= k < n ==> expr_fits(#[trigger] es@[k]@),
            f@.level == f0.level,
            f@.source == f0.source,
            pp_expr_list(sv.take(i as int), f0.level, f0.source) is Some,
            f@.buf == f0.buf + pp_expr_list(sv.take(i as int), f0.level, f0.source).unwrap(),
        decreases n - i,
    {
        proof {
            assert(sv.take(i + 1).drop_last() =~= sv.take(i as int));
            assert(sv.take(i + 1).last() == sv[i as int]);
            assert(sv.take(i + 1)[0] == sv[0]);
        }
        if i > 0 {
            f.write_indent_empty();
            f.write_str("\n");
        }
        let ok1 = f.write_indent();
        let ok2 = if ok1 {
            assert(decreases_to!(es@ => es@[i as int]));
            pretty_expr(&es[i], f)
        } else {
            false
        };
        if !ok2 {
            proof {
                let t = sv.take(i + 1);
                assert(t.len() == i + 1);
                assert(pp_expr_list(t, f0.level, f0.source) is None);
                lemma_expr_list_none(sv, i as int + 1, n as int, f0.level, f0.source);
                assert(sv.take(n as int) =~= sv);
            }
            return false;
        }
        proof {
            assert(f@.buf =~= f0.buf + pp_expr_list(sv.take(i + 1), f0.level, f0.source).unwrap());
        }
        i = i + 1;
    }
    assert(sv.take(n as int) =~= sv);
    true
}

/// One more statement in a list.
proof fn lemma_stmt_list_step(sv: Seq<SpecStatement>, i: int, level: nat, src: Seq<char>)
    requires
        0 <= i < sv.len(),
    ensures
        pp_stmt_list(sv.take(i + 1), level, src) == if i == 0 {
            cat(indent(level), pp_stmt(sv[0], level, src))
        } else {
            cat(
                cat(pp_stmt_list(sv.take(i), level, src), Some(indent_empty(level) + "\n"@)),
                cat(indent(level), pp_stmt(sv[i], level, src)),
            )
        },
{
    reveal(pp_stmt);
    assert(sv.take(i + 1).drop_last() =~= sv.take(i));
    assert(sv.take(i + 1).last() == sv[i]);
    assert(sv.take(i + 1)[0] == sv[0]);
}

/// The text of an `if` statement.
proof fn lemma_pp_stmt_if(st: SpecStatement, level: nat, src: Seq<char>)
    requires
        st is If,
    ensures
        pp_stmt(st, level, src) == cat(
            cat(
                cat(
                    header_text("Statment::If"@, stmt_span(st), level, src),
                    field_child_text("cond"@, pp_expr(st->If_cond, level, src), level),
                ),
                field_child_text("body"@, pp_block(st->If_body, level, src), level),
            ),
            match st->If_otherwise {
                Some(o) => field_child_text("otherwise"@, pp_block(o.1, level, src), level),
                None => Some(Seq::empty()),
            },
        ),
{
    reveal(pp_stmt);
}

/// Writes statements as the elements of a list at the current level.
#[verifier::spinoff_prover]
#[verifier::rlimit(100)]
fn pretty_stmt_list(ss: &Vec<Statement>, f: &mut PrettyFormatter) -> (ok: bool)
    requires
        stmts_fit(view_stmts(ss@)),
    ensures
        ok == pp_stmt_list(view_stmts(ss@), old(f)@.level, old(f)@.source) is Some,
        ok ==> final(f)@ == wrote(old(f)@, pp_stmt_list(view_stmts(ss@), old(f)@.level, old(f)@.source).unwrap()),
        final(f)@.level == old(f)@.level,
        final(f)@.source == old(f)@.source,
    decreases ss@, 5int,
{
    let ghost f0 = f@;
    let ghost sv = view_stmts(ss@);
    proof {
        lemma_view_stmts(ss@);
        assert(sv.take(0) =~= Seq::<SpecStatement>::empty());
        assert forall|k: int| 0 <= k < ss@.len() implies stmt_fits(#[trigger] ss@[k]@) by {
            crate::nodes::analyze::lemma_stmts_fit_index(sv, k);
        }
    }
    let n = ss.len();
    let mut i: usize = 0;
    while i < n
        invariant
            f0 == old(f)@,
            n == ss@.len(),
            i <= n,
            sv == view_stmts(ss@),
            sv.len() == n,
            forall|k: int| 0 <= k < n ==> #[trigger] sv[k] == ss@[k]@,
            forall|k: int| 0 <= k < n ==> stmt_fits(#[trigger] ss@[k]@),
            f@.level == f0.level,
            f@.source == f0.source,
            pp_stmt_list(sv.take(i as int), f0.level, f0.source) is Some,
            f@.buf == f0.buf + pp_stmt_list(sv.take(i as int), f0.level, f0.source).unwrap(),
        decreases n - i,
    {
        proof {
            lemma_stmt_list_step(sv, i as int, f0.level, f0.source);
        }
        if i > 0 {
            f.write_indent_empty();
            f.write_str("\n");
        }
        let ok1 = f.write_indent();
        let ok2 = if ok1 {
            assert(decreases_to!(ss@ => ss@[i as int]));
            pretty_stmt(&ss[i], f)
        } else {
            false
        };
        if !ok2 {
            proof {
                let t = sv.take(i + 1);
                assert(t.len() == i + 1);
                assert(pp_stmt_list(t, f0.level, f0.source) is None);
                lemma_stmt_list_none(sv, i as int + 1, n as int, f0.level, f0.source);
                assert(sv.take(n as int) =~= sv);
            }
            return false;
        }
        proof {
            assert(f@.buf =~= f0.buf + pp_stmt_list(sv.take(i + 1), f0.level, f0.source).unwrap());
        }
        i = i + 1;
    }
    assert(sv.take(n as int) =~= sv);
    true
}

/// Writes a block: its header and its statements one level deeper.
#[verifier::spinoff_prover]
#[verifier::rlimit(100)]
pub fn pretty_block(b: &Block, f: &mut PrettyFormatter) -> (ok: bool)
    requires
        block_fits(b@),
    ensures
        ok == pp_block(b@, old(f)@.level, old(f)@.source) is Some,
        ok ==> final(f)@ == wrote(old(f)@, pp_block(b@, old(f)@.level, old(f)@.source).unwrap()),
        final(f)@.level == old(f)@.level,
        final(f)@.source == old(f)@.source,
    decreases b, 5int,
{
    let ghost f0 = f@;
    proof {
        lemma_view_stmts(b.stmts@);
    }
    assert(b@.stmts == view_stmts(b.stmts@));
    assert(stmts_fit(view_stmts(b.stmts@)));
    if !f.write_header("Block", b.span()) {
        return false;
    }
    if b.stmts.len() == 0 || f.level == usize::MAX {
        return false;
    }
    f.raise();
    assert(decreases_to!(b => b.stmts));
    let ok = pretty_stmt_list(&b.stmts, f);
    f.lower();
    proof {
        let hdr = header_text("Block"@, block_span(b@), f0.level, f0.source);
        let lst = pp_stmt_list(b@.stmts, f0.level + 1, f0.source);
        if b@.stmts.len() > 0 && f0.level < usize::MAX {
            assert(pp_block(b@, f0.level, f0.source) == cat(hdr, lst));
        }
        if ok {
            assert(f@.buf =~= f0.buf + pp_block(b@, f0.level, f0.source).unwrap());
        }
    }
    ok
}

} // verus!

use crate::nodes::{StmtExpr, StmtIf, StmtLabel, StmtLet, StmtLoop, StmtWhile};

verus! {

/// Writes, one level deeper, a child expression.
fn pretty_expr_child(e: &Expr, f: &mut PrettyFormatter) -> (ok: bool)
    requires
        expr_fits(e@),
    ensures
        ok == child_text(pp_expr(e@, old(f)@.level + 1, old(f)@.source), old(f)@.level) is Some,
        ok ==> final(f)@ == wrote(
            old(f)@,
            child_text(pp_expr(e@, old(f)@.level + 1, old(f)@.source), old(f)@.level).unwrap(),
        ),
        final(f)@.level == old(f)@.level,
        final(f)@.source == old(f)@.source,
    decreases e, 6int,
{
    if f.level == usize::MAX {
        return false;
    }
    f.raise();
    if !f.write_indent() {
        f.lower();
        return false;
    }
    let ok = pretty_expr(e, f);
    f.lower();
    if ok {
        assert(f@.buf =~= old(f)@.buf + child_text(pp_expr(e@, old(f)@.level + 1, old(f)@.source), old(f)@.level).unwrap());
    }
    ok
}

/// Writes a field whose value is an expression starting on the next line.
fn pretty_expr_field(node: &mut PrettyNode, f: &mut PrettyFormatter, name: &str, e: &Expr) -> (ok: bool)
    requires
        expr_fits(e@),
    ensures
        ok == field_child_text(name@, pp_expr(e@, old(f)@.level, old(f)@.source), old(f)@.level) is Some,
        ok ==> final(f)@ == wrote(
            old(f)@,
            field_child_text(name@, pp_expr(e@, old(f)@.level, old(f)@.source), old(f)@.level).unwrap(),
        ),
        final(f)@.level == old(f)@.level,
        final(f)@.source == old(f)@.source,
        final(node)@ == old(node)@,
    decreases e, 6int,
{
    if !node.write_field_key(f, name) {
        return false;
    }
    f.write_str("\n");
    if !f.write_indent() {
        return false;
    }
    let ok = pretty_expr(e, f);
    if ok {
        assert(f@.buf =~= old(f)@.buf + field_child_text(name@, pp_expr(e@, old(f)@.level, old(f)@.source), old(f)@.level).unwrap());
    }
    ok
}

/// Writes a field whose value is a block starting on the next line.
fn pretty_block_field(node: &mut PrettyNode, f: &mut PrettyFormatter, name: &str, b: &Block) -> (ok: bool)
    requires
        block_fits(b@),
    ensures
        ok == field_child_text(name@, pp_block(b@, old(f)@.level, old(f)@.source), old(f)@.level) is Some,
        ok ==> final(f)@ == wrote(
            old(f)@,
            field_child_text(name@, pp_block(b@, old(f)@.level, old(f)@.source), old(f)@.level).unwrap(),
        ),
        final(f)@.level == old(f)@.level,
        final(f)@.source == old(f)@.source,
        final(node)@ == old(node)@,
    decreases b, 6int,
{
    if !node.write_field_key(f, name) {
        return false;
    }
    f.write_str("\n");
    if !f.write_indent() {
        return false;
    }
    let ok = pretty_block(b, f);
    if ok {
        assert(f@.buf =~= old(f)@.buf + field_child_text(name@, pp_block(b@, old(f)@.level, old(f)@.source), old(f)@.level).unwrap());
    }
    ok
}

/// Writes a statement; `false` where it cannot be shown.
pub fn pretty_stmt(st: &Statement, f: &mut PrettyFormatter) -> (ok: bool)
    requires
        stmt_fits(st@),
    ensures
        ok == pp_stmt(st@, old(f)@.level, old(f)@.source) is Some,
        ok ==> final(f)@ == wrote(old(f)@, pp_stmt(st@, old(f)@.level, old(f)@.source).unwrap()),
        final(f)@.level == old(f)@.level,
        final(f)@.source == old(f)@.source,
    decreases st, 5int,
{
    match st {
        Statement::Expr(..) => pretty_stmt_expr(st, f),
        Statement::If(..) => pretty_stmt_if(st, f),
        Statement::Label(..) => pretty_stmt_label(st, f),
        Statement::Let(..) => pretty_stmt_let(st, f),
        Statement::Loop(..) => pretty_stmt_loop(st, f),
        Statement::While(..) => pretty_stmt_while(st, f),
    }
}

#[verifier::spinoff_prover]
#[verifier::rlimit(60)]
fn pretty_stmt_expr(st: &Statement, f: &mut PrettyFormatter) -> (ok: bool)
    requires
        stmt_fits(st@),
        st is Expr,
    ensures
        ok == pp_stmt(st@, old(f)@.level, old(f)@.source) is Some,
        ok ==> final(f)@ == wrote(old(f)@, pp_stmt(st@, old(f)@.level, old(f)@.source).unwrap()),
        final(f)@.level == old(f)@.level,
        final(f)@.source == old(f)@.source,
    decreases st, 4int,
{
    let ghost f0 = f@;
    let ghost lv = f0.level;
    let ghost src = f0.source;
    proof {
        reveal(pp_stmt);
    }
    match st {
        Statement::Expr(s) => {
            let mut node = match f.node("Statment::Expr", st.span()) {
                None => {
                    return false;
                },
                Some(n) => n,
            };
            let has_semi = s.semi.is_some();
            if !node.field(f, "has_semi", &has_semi) {
                return false;
            }
            let ghost t12 = f@.buf;
            if !pretty_expr_child(&s.expr, f) {
                return false;
            }
            node.finish(f);
            assert(f@.buf =~= f0.buf + pp_stmt(st@, lv, src).unwrap());
            true
        },
        _ => false,
    }
}

#[verifier::spinoff_prover]
#[verifier::rlimit(100)]
fn pretty_stmt_if(st: &Statement, f: &mut PrettyFormatter) -> (ok: bool)
    requires
        stmt_fits(st@),
        st is If,
    ensures
        ok == pp_stmt(st@, old(f)@.level, old(f)@.source) is Some,
        ok ==> final(f)@ == wrote(old(f)@, pp_stmt(st@, old(f)@.level, old(f)@.source).unwrap()),
        final(f)@.level == old(f)@.level,
        final(f)@.source == old(f)@.source,
    decreases st, 4int,
{
    let ghost f0 = f@;
    let ghost lv = f0.level;
    let ghost src = f0.source;
    proof {
        lemma_pp_stmt_if(st@, lv, src);
    }
    match st {
        Statement::If(s) => {
            let ghost ov = match &s.otherwise {
                Some(o) => Some((o.0, o.1@)),
                None => None,
            };
            assert(st@ == SpecStatement::If { if_: s.if_, cond: s.cond@, body: s.body@, otherwise: ov });
            let mut node = match f.node("Statment::If", st.span()) {
                None => {
                    return false;
                },
                Some(n) => n,
            };
            let ghost t1 = header_text("Statment::If"@, stmt_span(st@), lv, src).unwrap();
            if !pretty_expr_field(&mut node, f, "cond", &s.cond) {
                return false;
            }
            let ghost t2 = field_child_text("cond"@, pp_expr(s.cond@, lv, src), lv).unwrap();
            assert(f@.buf =~= f0.buf + t1 + t2);
            assert(decreases_to!(*st => (*st)->If_0));
            if !pretty_block_field(&mut node, f, "body", &s.body) {
                return false;
            }
            let ghost t3 = field_child_text("body"@, pp_block(s.body@, lv, src), lv).unwrap();
            assert(f@.buf =~= f0.buf + t1 + t2 + t3);
            match &s.otherwise {
                Some(o) => {
                    if !pretty_block_field(&mut node, f, "otherwise", &o.1) {
                        return false;
                    }
                },
                None => {},
            }
            node.finish(f);
            assert(f@.buf =~= f0.buf + pp_stmt(st@, lv, src).unwrap());
            true
        },
        _ => false,
    }
}

#[verifier::spinoff_prover]
#[verifier::rlimit(60)]
fn pretty_stmt_label(st: &Statement, f: &mut PrettyFormatter) -> (ok: bool)
    requires
        stmt_fits(st@),
        st is Label,
    ensures
        ok == pp_stmt(st@, old(f)@.level, old(f)@.source) is Some,
        ok ==> final(f)@ == wrote(old(f)@, pp_stmt(st@, old(f)@.level, old(f)@.source).unwrap()),
        final(f)@.level == old(f)@.level,
        final(f)@.source == old(f)@.source,
    decreases st, 4int,
{
    let ghost f0 = f@;
    let ghost lv = f0.level;
    let ghost src = f0.source;
    proof {
        reveal(pp_stmt);
    }
    match st {
        Statement::Label(s) => {
            let mut node = match f.node("Statment::Label", st.span()) {
                None => {
                    return false;
                },
                Some(n) => n,
            };
            if !node.field(f, "name", &s.name) {
                return false;
            }
            node.finish(f);
            assert(f@.buf =~= f0.buf + pp_stmt(st@, lv, src).unwrap());
            true
        },
        _ => false,
    }
}

#[verifier::spinoff_prover]
#[verifier::rlimit(60)]
fn pretty_stmt_let(st: &Statement, f: &mut PrettyFormatter) -> (ok: bool)
    requires
        stmt_fits(st@),
        st is Let,
    ensures
        ok == pp_stmt(st@, old(f)@.level, old(f)@.source) is Some,
        ok ==> final(f)@ == wrote(old(f)@, pp_stmt(st@, old(f)@.level, old(f)@.source).unwrap()),
        final(f)@.level == old(f)@.level,
        final(f)@.source == old(f)@.source,
    decreases st, 4int,
{
    let ghost f0 = f@;
    let ghost lv = f0.level;
    let ghost src = f0.source;
    proof {
        reveal(pp_stmt);
    }
    match st {
        Statement::Let(s) => {
            let mut node = match f.node("Statment::Let", st.span()) {
                None => {
                    return false;
                },
                Some(n) => n,
            };
            if !node.field(f, "name", &s.name) {
                return false;
            }
            let has_semi = s.semi.is_some();
            if !node.field(f, "has_semi", &has_semi) {
                return false;
            }
            if !pretty_expr_child(&s.expr, f) {
                return false;
            }
            node.finish(f);
            assert(f@.buf =~= f0.buf + pp_stmt(st@, lv, src).unwrap());
            true
        },
        _ => false,
    }
}

#[verifier::spinoff_prover]
#[verifier::rlimit(100)]
fn pretty_stmt_loop(st: &Statement, f: &mut PrettyFormatter) -> (ok: bool)
    requires
        stmt_fits(st@),
        st is Loop,
    ensures
        ok == pp_stmt(st@, old(f)@.level, old(f)@.source) is Some,
        ok ==> final(f)@ == wrote(old(f)@, pp_stmt(st@, old(f)@.level, old(f)@.source).unwrap()),
        final(f)@.level == old(f)@.level,
        final(f)@.source == old(f)@.source,
    decreases st, 4int,
{
    let ghost f0 = f@;
    let ghost lv = f0.level;
    let ghost src = f0.source;
    proof {
        reveal(pp_stmt);
    }
    match st {
        Statement::Loop(s) => {
            proof {
                lemma_view_stmts(s.body.stmts@);
            }
            assert(st@ == SpecStatement::Loop { loop_: s.loop_, body: s.body@ });
            assert(block_fits(s.body@));
            assert(stmts_fit(view_stmts(s.body.stmts@)));
            let node = match f.node("Statment::Loop", st.span()) {
                None => {
                    return false;
                },
                Some(n) => n,
            };
            if s.body.stmts.len() == 0 || f.level == usize::MAX {
                return false;
            }
            f.raise();
            assert(decreases_to!(*st => (*st)->Loop_0));
            let ok = pretty_stmt_list(&s.body.stmts, f);
            f.lower();
            node.finish(f);
            if ok {
                assert(f@.buf =~= f0.buf + pp_stmt(st@, lv, src).unwrap());
            }
            ok
        },
        _ => false,
    }
}

#[verifier::spinoff_prover]
#[verifier::rlimit(60)]
fn pretty_stmt_while(st: &Statement, f: &mut PrettyFormatter) -> (ok: bool)
    requires
        stmt_fits(st@),
        st is While,
    ensures
        ok == pp_stmt(st@, old(f)@.level, old(f)@.source) is Some,
        ok ==> final(f)@ == wrote(old(f)@, pp_stmt(st@, old(f)@.level, old(f)@.source).unwrap()),
        final(f)@.level == old(f)@.level,
        final(f)@.source == old(f)@.source,
    decreases st, 4int,
{
    let ghost f0 = f@;
    let ghost lv = f0.level;
    let ghost src = f0.source;
    proof {
        reveal(pp_stmt);
    }
    match st {
        Statement::While(s) => {
            let mut node = match f.node("Statment::While", st.span()) {
                None => {
                    return false;
                },
                Some(n) => n,
            };
            if !pretty_expr_field(&mut node, f, "cond", &s.cond) {
                return false;
            }
            if f.level == usize::MAX {
                return false;
            }
            f.raise();
            if !f.write_indent() {
                f.lower();
                return false;
            }
            assert(decreases_to!(*st => (*st)->While_0));
            let ok = pretty_block(&s.body, f);
            f.lower();
            node.finish(f);
            if ok {
                assert(f@.buf =~= f0.buf + pp_stmt(st@, lv, src).unwrap());
            }
            ok
        },
        _ => false,
    }
}


} // verus!

use crate::nodes::model::{
    attribute_fits, attribute_span, fn_arg_fits, fn_arg_span, fn_args_fit, item_fits,
    item_function_fits, item_function_span, program_fits,
};
use crate::nodes::{Attribute, FnArg, FnArgs, Item, ItemFunction, Program};
use crate::nodes::model::{SpecAttribute, SpecFnArg, SpecFnArgs, SpecItem, SpecItemFunction};

verus! {

impl PrettyPrint for Expr {
    open spec fn printable(&self) -> bool {
        expr_fits(self@)
    }

    open spec fn pretty_spec(&self, level: nat, src: Seq<char>) -> Option<Seq<char>> {
        pp_expr(self@, level, src)
    }

    fn pretty_print(&self, f: &mut PrettyFormatter) -> (ok: bool) {
        pretty_expr(self, f)
    }
}

impl PrettyPrint for Statement {
    open spec fn printable(&self) -> bool {
        stmt_fits(self@)
    }

    open spec fn pretty_spec(&self, level: nat, src: Seq<char>) -> Option<Seq<char>> {
        pp_stmt(self@, level, src)
    }

    fn pretty_print(&self, f: &mut PrettyFormatter) -> (ok: bool) {
        pretty_stmt(self, f)
    }
}

impl PrettyPrint for Block {
    open spec fn printable(&self) -> bool {
        block_fits(self@)
    }

    open spec fn pretty_spec(&self, level: nat, src: Seq<char>) -> Option<Seq<char>> {
        pp_block(self@, level, src)
    }

    fn pretty_print(&self, f: &mut PrettyFormatter) -> (ok: bool) {
        pretty_block(self, f)
    }
}

/// The text of an optional return type.
pub open spec fn opt_ident_text(o: Option<Spanned<Seq<char>>>, src: Seq<char>) -> Option<Seq<char>> {
    match o {
        Some(i) => ident_text(i, src),
        None => Some("\x1b[2;31mNone\x1b[0m\n"@),
    }
}

/// A function argument at `level`.
pub open spec fn pp_fn_arg(a: SpecFnArg, level: nat, src: Seq<char>) -> Option<Seq<char>> {
    cat(
        cat(
            header_text("FnArg"@, fn_arg_span(a), level, src),
            field_text("name"@, ident_text(a.name, src), level),
        ),
        field_text("ty"@, ident_text(a.ty, src), level),
    )
}

/// Function arguments as the elements of a list at `level`.
pub open spec fn pp_fn_arg_list(args: Seq<SpecFnArg>, level: nat, src: Seq<char>) -> Option<Seq<char>>
    decreases args.len(),
{
    if args.len() == 0 {
        Some(Seq::empty())
    } else if args.len() == 1 {
        cat(indent(level), pp_fn_arg(args[0], level, src))
    } else {
        cat(
            cat(pp_fn_arg_list(args.drop_last(), level, src), Some(indent_empty(level) + "\n"@)),
            cat(indent(level), pp_fn_arg(args.last(), level, src)),
        )
    }
}

/// The arguments of a function at `level`: `Empty`, or a line break and the
/// arguments one level deeper.
pub open spec fn pp_fn_args(a: SpecFnArgs, level: nat, src: Seq<char>) -> Option<Seq<char>> {
    if a.args.len() == 0 {
        Some("\x1b[2;31mEmpty\x1b[0m\n"@)
    } else if level >= usize::MAX {
        None
    } else {
        cat(Some("\n"@), pp_fn_arg_list(a.args, level + 1, src))
    }
}

/// An attribute at `level`.
pub open spec fn pp_attr(a: SpecAttribute, level: nat, src: Seq<char>) -> Option<Seq<char>> {
    cat(
        header_text("Attribute::Path"@, attribute_span(a), level, src),
        field_text("path"@, ident_text(a.path, src), level),
    )
}

/// Attributes as the elements of a list at `level`.
pub open spec fn pp_attr_list(attrs: Seq<SpecAttribute>, level: nat, src: Seq<char>) -> Option<Seq<char>>
    decreases attrs.len(),
{
    if attrs.len() == 0 {
        Some(Seq::empty())
    } else if attrs.len() == 1 {
        cat(indent(level), pp_attr(attrs[0], level, src))
    } else {
        cat(
            cat(pp_attr_list(attrs.drop_last(), level, src), Some(indent_empty(level) + "\n"@)),
            cat(indent(level), pp_attr(attrs.last(), level, src)),
        )
    }
}

/// The attributes field: nothing when there are none, else a line break and
/// the attributes at `level`.
pub open spec fn pp_attrs(attrs: Seq<SpecAttribute>, level: nat, src: Seq<char>) -> Option<Seq<char>> {
    if attrs.len() == 0 {
        Some(Seq::empty())
    } else {
        cat(Some("\n"@), pp_attr_list(attrs, level, src))
    }
}

/// The header of a function at `level`, with its name and arguments.
pub open spec fn pp_fn_head(func: SpecItemFunction, level: nat, src: Seq<char>) -> Option<Seq<char>> {
    cat(
        cat(
            header_text("Item::Function"@, item_function_span(func), level, src),
            field_text("name"@, ident_text(func.name, src), level),
        ),
        field_text("args"@, pp_fn_args(func.args, level, src), level),
    )
}

/// The return type, attributes and `unsafe` fields of a function at `level`.
pub open spec fn pp_fn_tail(func: SpecItemFunction, level: nat, src: Seq<char>) -> Option<Seq<char>> {
    cat(
        cat(
            field_text("ret"@, opt_ident_text(func.ret, src), level),
            field_text("attrs"@, pp_attrs(func.attrs, level, src), level),
        ),
        field_text("unsafe"@, Some(bool_text(func.unsafe_ is Some)), level),
    )
}

/// A function at `level`: its fields, then its statements one level deeper.
#[verifier::opaque]
pub open spec fn pp_item_fn(func: SpecItemFunction, level: nat, src: Seq<char>) -> Option<Seq<char>> {
    cat(
        cat(pp_fn_head(func, level, src), pp_fn_tail(func, level, src)),
        if func.body.stmts.len() == 0 || level >= usize::MAX {
            None
        } else {
            pp_stmt_list(func.body.stmts, level + 1, src)
        },
    )
}

pub open spec fn pp_item(i: SpecItem, level: nat, src: Seq<char>) -> Option<Seq<char>> {
    match i {
        SpecItem::Function(func) => pp_item_fn(func, level, src),
    }
}

/// Items as the elements of a list at `level`.
pub open spec fn pp_item_list(items: Seq<SpecItem>, level: nat, src: Seq<char>) -> Option<Seq<char>>
    decreases items.len(),
{
    if items.len() == 0 {
        Some(Seq::empty())
    } else if items.len() == 1 {
        cat(indent(level), pp_item(items[0], level, src))
    } else {
        cat(
            cat(pp_item_list(items.drop_last(), level, src), Some(indent_empty(level) + "\n"@)),
            cat(indent(level), pp_item(items.last(), level, src)),
        )
    }
}

/// A program at `level`: its header and its items one level deeper.
pub open spec fn pp_program(p: Seq<SpecItem>, span: Span, level: nat, src: Seq<char>) -> Option<Seq<char>> {
    cat(
        header_text("Program"@, span, level, src),
        if p.len() == 0 || level >= usize::MAX {
            None
        } else {
            pp_item_list(p, level + 1, src)
        },
    )
}

/// Writes a spanned identifier as the value of a field.
fn write_ident_field(node: &mut PrettyNode, f: &mut PrettyFormatter, name: &str, i: &Spanned<IdentNode>) -> (ok: bool)
    ensures
        ok == field_text(name@, ident_text(i@, old(f)@.source), old(f)@.level) is Some,
        ok ==> final(f)@ == wrote(old(f)@, field_text(name@, ident_text(i@, old(f)@.source), old(f)@.level).unwrap()),
        final(f)@.level == old(f)@.level,
        final(f)@.source == old(f)@.source,
        final(node)@ == old(node)@,
{
    if !node.write_field_key(f, name) {
        return false;
    }
    if !f.write_location(i.span) {
        return false;
    }
    f.write_char(' ');
    f.write_str(i.value.0.as_str());
    f.write_str("\n");
    proof {
        assert(" "@ =~= seq![' ']) by {
            reveal_strlit(" ");
        }
    }
    assert(f@.buf =~= old(f)@.buf + field_text(name@, ident_text(i@, old(f)@.source), old(f)@.level).unwrap());
    true
}

/// Writes a function argument.
pub fn pretty_fn_arg(a: &FnArg, f: &mut PrettyFormatter) -> (ok: bool)
    requires
        fn_arg_fits(a@),
    ensures
        ok == pp_fn_arg(a@, old(f)@.level, old(f)@.source) is Some,
        ok ==> final(f)@ == wrote(old(f)@, pp_fn_arg(a@, old(f)@.level, old(f)@.source).unwrap()),
        final(f)@.level == old(f)@.level,
        final(f)@.source == old(f)@.source,
{
    let ghost f0 = f@;
    let mut node = match f.node("FnArg", a.span()) {
        None => {
            return false;
        },
        Some(n) => n,
    };
    if !write_ident_field(&mut node, f, "name", &a.name) {
        return false;
    }
    if !write_ident_field(&mut node, f, "ty", &a.ty) {
        return false;
    }
    node.finish(f);
    assert(f@.buf =~= f0.buf + pp_fn_arg(a@, f0.level, f0.source).unwrap());
    true
}

/// Writes function arguments as the elements of a list at the current level.
#[verifier::spinoff_prover]
#[verifier::rlimit(80)]
fn pretty_fn_arg_list(args: &Vec<FnArg>, f: &mut PrettyFormatter) -> (ok: bool)
    requires
        forall|k: int| 0 <= k < args@.len() ==> fn_arg_fits(#[trigger] args@[k]@),
    ensures
        ok == pp_fn_arg_list(args@.map_values(|a: FnArg| a@), old(f)@.level, old(f)@.source) is Some,
        ok ==> final(f)@ == wrote(
            old(f)@,
            pp_fn_arg_list(args@.map_values(|a: FnArg| a@), old(f)@.level, old(f)@.source).unwrap(),
        ),
        final(f)@.level == old(f)@.level,
        final(f)@.source == old(f)@.source,
{
    let ghost f0 = f@;
    let ghost sv = args@.map_values(|a: FnArg| a@);
    let n = args.len();
    let mut i: usize = 0;
    assert(sv.take(0) =~= Seq::<SpecFnArg>::empty());
    while i < n
        invariant
            f0 == old(f)@,
            n == args@.len(),
            i <= n,
            sv == args@.map_values(|a: FnArg| a@),
            forall|k: int| 0 <= k < n ==> fn_arg_fits(#[trigger] args@[k]@),
            f@.level == f0.level,
            f@.source == f0.source,
            pp_fn_arg_list(sv.take(i as int), f0.level, f0.source) is Some,
            f@.buf == f0.buf + pp_fn_arg_list(sv.take(i as int), f0.level, f0.source).unwrap(),
        decreases n - i,
    {
        proof {
            lemma_fn_arg_list_step(sv, i as int, f0.level, f0.source);
            assert(sv[i as int] == args@[i as int]@);
        }
        if i > 0 {
            f.write_indent_empty();
            f.write_str("\n");
        }
        let ok = f.write_indent() && pretty_fn_arg(&args[i], f);
        if !ok {
            proof {
                let t = sv.take(i + 1);
                assert(t.len() == i + 1);
                assert(pp_fn_arg_list(t, f0.level, f0.source) is None);
                lemma_fn_arg_list_none(sv, i as int + 1, n as int, f0.level, f0.source);
                assert(sv.take(n as int) =~= sv);
            }
            return false;
        }
        proof {
            assert(f@.buf =~= f0.buf + pp_fn_arg_list(sv.take(i + 1), f0.level, f0.source).unwrap());
        }
        i = i + 1;
    }
    assert(sv.take(n as int) =~= sv);
    true
}

/// Writes the arguments of a function.
pub fn pretty_fn_args(a: &FnArgs, f: &mut PrettyFormatter) -> (ok: bool)
    requires
        fn_args_fit(a@),
    ensures
        ok == pp_fn_args(a@, old(f)@.level, old(f)@.source) is Some,
        ok ==> final(f)@ == wrote(old(f)@, pp_fn_args(a@, old(f)@.level, old(f)@.source).unwrap()),
        final(f)@.level == old(f)@.level,
        final(f)@.source == old(f)@.source,
{
    let ghost f0 = f@;
    if a.args.len() == 0 {
        f.write_str("\x1b[2;31mEmpty\x1b[0m\n");
        return true;
    }
    if f.level == usize::MAX {
        return false;
    }
    f.write_str("\n");
    f.raise();
    proof {
        assert forall|k: int| 0 <= k < a.args@.len() implies fn_arg_fits(#[trigger] a.args@[k]@) by {
            assert(a@.args[k] == a.args@[k]@);
        }
    }
    let ok = pretty_fn_arg_list(&a.args, f);
    f.lower();
    if ok {
        assert(f@.buf =~= f0.buf + pp_fn_args(a@, f0.level, f0.source).unwrap());
    }
    ok
}

/// One more argument in a list.
proof fn lemma_fn_arg_list_step(sv: Seq<SpecFnArg>, i: int, level: nat, src: Seq<char>)
    requires
        0 <= i < sv.len(),
    ensures
        pp_fn_arg_list(sv.take(i + 1), level, src) == if i == 0 {
            cat(indent(level), pp_fn_arg(sv[0], level, src))
        } else {
            cat(
                cat(pp_fn_arg_list(sv.take(i), level, src), Some(indent_empty(level) + "\n"@)),
                cat(indent(level), pp_fn_arg(sv[i], level, src)),
            )
        },
{
    assert(sv.take(i + 1).drop_last() =~= sv.take(i));
    assert(sv.take(i + 1).last() == sv[i]);
    assert(sv.take(i + 1)[0] == sv[0]);
}

/// One more attribute in a list.
proof fn lemma_attr_list_step(sv: Seq<SpecAttribute>, i: int, level: nat, src: Seq<char>)
    requires
        0 <= i < sv.len(),
    ensures
        pp_attr_list(sv.take(i + 1), level, src) == if i == 0 {
            cat(indent(level), pp_attr(sv[0], level, src))
        } else {
            cat(
                cat(pp_attr_list(sv.take(i), level, src), Some(indent_empty(level) + "\n"@)),
                cat(indent(level), pp_attr(sv[i], level, src)),
            )
        },
{
    assert(sv.take(i + 1).drop_last() =~= sv.take(i));
    assert(sv.take(i + 1).last() == sv[i]);
    assert(sv.take(i + 1)[0] == sv[0]);
}

/// One more item in a list.
proof fn lemma_item_list_step(sv: Seq<SpecItem>, i: int, level: nat, src: Seq<char>)
    requires
        0 <= i < sv.len(),
    ensures
        pp_item_list(sv.take(i + 1), level, src) == if i == 0 {
            cat(indent(level), pp_item(sv[0], level, src))
        } else {
            cat(
                cat(pp_item_list(sv.take(i), level, src), Some(indent_empty(level) + "\n"@)),
                cat(indent(level), pp_item(sv[i], level, src)),
            )
        },
{
    assert(sv.take(i + 1).drop_last() =~= sv.take(i));
    assert(sv.take(i + 1).last() == sv[i]);
    assert(sv.take(i + 1)[0] == sv[0]);
}

proof fn lemma_fn_arg_list_none(s: Seq<SpecFnArg>, k: int, j: int, level: nat, src: Seq<char>)
    requires
        0 < k <= j <= s.len(),
        pp_fn_arg_list(s.take(k), level, src) is None,
    ensures
        pp_fn_arg_list(s.take(j), level, src) is None,
    decreases j - k,
{
    if j > k {
        lemma_fn_arg_list_none(s, k, j - 1, level, src);
        assert(s.take(j).drop_last() =~= s.take(j - 1));
    }
}

proof fn lemma_attr_list_none(s: Seq<SpecAttribute>, k: int, j: int, level: nat, src: Seq<char>)
    requires
        0 < k <= j <= s.len(),
        pp_attr_list(s.take(k), level, src) is None,
    ensures
        pp_attr_list(s.take(j), level, src) is None,
    decreases j - k,
{
    if j > k {
        lemma_attr_list_none(s, k, j - 1, level, src);
        assert(s.take(j).drop_last() =~= s.take(j - 1));
    }
}

proof fn lemma_item_list_none(s: Seq<SpecItem>, k: int, j: int, level: nat, src: Seq<char>)
    requires
        0 < k <= j <= s.len(),
        pp_item_list(s.take(k), level, src) is None,
    ensures
        pp_item_list(s.take(j), level, src) is None,
    decreases j - k,
{
    if j > k {
        lemma_item_list_none(s, k, j - 1, level, src);
        assert(s.take(j).drop_last() =~= s.take(j - 1));
    }
}

/// Writes an attribute.
pub fn pretty_attr(a: &Attribute, f: &mut PrettyFormatter) -> (ok: bool)
    requires
        attribute_fits(a@),
    ensures
        ok == pp_attr(a@, old(f)@.level, old(f)@.source) is Some,
        ok ==> final(f)@ == wrote(old(f)@, pp_attr(a@, old(f)@.level, old(f)@.source).unwrap()),
        final(f)@.level == old(f)@.level,
        final(f)@.source == old(f)@.source,
{
    let ghost f0 = f@;
    let mut node = match f.node("Attribute::Path", a.span()) {
        None => {
            return false;
        },
        Some(n) => n,
    };
    if !write_ident_field(&mut node, f, "path", &a.path) {
        return false;
    }
    node.finish(f);
    assert(f@.buf =~= f0.buf + pp_attr(a@, f0.level, f0.source).unwrap());
    true
}

/// Writes the attributes of a function as the value of a field.
#[verifier::spinoff_prover]
#[verifier::rlimit(40)]
pub fn pretty_attrs(attrs: &Vec<Attribute>, f: &mut PrettyFormatter) -> (ok: bool)
    requires
        forall|i: int| 0 <= i < attrs@.len() ==> attribute_fits(#[trigger] attrs@[i]@),
    ensures
        ok == pp_attrs(attrs@.map_values(|a: Attribute| a@), old(f)@.level, old(f)@.source) is Some,
        ok ==> final(f)@ == wrote(
            old(f)@,
            pp_attrs(attrs@.map_values(|a: Attribute| a@), old(f)@.level, old(f)@.source).unwrap(),
        ),
        final(f)@.level == old(f)@.level,
        final(f)@.source == old(f)@.source,
{
    let ghost f0 = f@;
    let ghost sv = attrs@.map_values(|a: Attribute| a@);
    if attrs.len() == 0 {
        assert(f@.buf =~= f0.buf + Seq::<char>::empty());
        return true;
    }
    f.write_str("\n");
    let ghost f1 = f@;
    let n = attrs.len();
    let mut i: usize = 0;
    assert(sv.take(0) =~= Seq::<SpecAttribute>::empty());
    while i < n
        invariant
            f0 == old(f)@,
            n == attrs@.len(),
            i <= n,
            sv == attrs@.map_values(|a: Attribute| a@),
            forall|k: int| 0 <= k < n ==> attribute_fits(#[trigger] attrs@[k]@),
            f@.level == f1.level,
            f@.source == f1.source,
            f1.level == f0.level,
            f1.source == f0.source,
            pp_attr_list(sv.take(i as int), f1.level, f1.source) is Some,
            f@.buf == f1.buf + pp_attr_list(sv.take(i as int), f1.level, f1.source).unwrap(),
        decreases n - i,
    {
        proof {
            lemma_attr_list_step(sv, i as int, f1.level, f1.source);
            assert(sv[i as int] == attrs@[i as int]@);
        }
        if i > 0 {
            f.write_indent_empty();
            f.write_str("\n");
        }
        let ok = f.write_indent() && pretty_attr(&attrs[i], f);
        if !ok {
            proof {
                let t = sv.take(i + 1);
                assert(t.len() == i + 1);
                assert(pp_attr_list(t, f1.level, f1.source) is None);
                lemma_attr_list_none(sv, i as int + 1, n as int, f1.level, f1.source);
                assert(sv.take(n as int) =~= sv);
            }
            return false;
        }
        proof {
            assert(f@.buf =~= f1.buf + pp_attr_list(sv.take(i + 1), f1.level, f1.source).unwrap());
        }
        i = i + 1;
    }
    assert(sv.take(n as int) =~= sv);
    assert(f@.buf =~= f0.buf + pp_attrs(sv, f0.level, f0.source).unwrap());
    true
}

/// Writes the header of a function, its name and its arguments.
#[verifier::spinoff_prover]
#[verifier::rlimit(40)]
fn pretty_fn_head(func: &ItemFunction, f: &mut PrettyFormatter) -> (ok: bool)
    requires
        item_function_fits(func@),
    ensures
        ok == pp_fn_head(func@, old(f)@.level, old(f)@.source) is Some,
        ok ==> final(f)@ == wrote(old(f)@, pp_fn_head(func@, old(f)@.level, old(f)@.source).unwrap()),
        final(f)@.level == old(f)@.level,
        final(f)@.source == old(f)@.source,
{
    let ghost f0 = f@;
    let mut node = match f.node("Item::Function", func.span()) {
        None => {
            return false;
        },
        Some(n) => n,
    };
    if !write_ident_field(&mut node, f, "name", &func.name) {
        return false;
    }
    if !node.write_field_key(f, "args") {
        return false;
    }
    if !pretty_fn_args(&func.args, f) {
        return false;
    }
    assert(f@.buf =~= f0.buf + pp_fn_head(func@, f0.level, f0.source).unwrap());
    true
}

/// Writes the return type, attributes and `unsafe` fields of a function.
#[verifier::spinoff_prover]
#[verifier::rlimit(100)]
fn pretty_fn_tail(func: &ItemFunction, f: &mut PrettyFormatter) -> (ok: bool)
    requires
        item_function_fits(func@),
    ensures
        ok == pp_fn_tail(func@, old(f)@.level, old(f)@.source) is Some,
        ok ==> final(f)@ == wrote(old(f)@, pp_fn_tail(func@, old(f)@.level, old(f)@.source).unwrap()),
        final(f)@.level == old(f)@.level,
        final(f)@.source == old(f)@.source,
{
    let ghost f0 = f@;
    let ghost lv = f0.level;
    let ghost src = f0.source;
    proof {
        assert forall|i: int| 0 <= i < func.attrs@.len() implies attribute_fits(#[trigger] func.attrs@[i]@) by {
            assert(func@.attrs[i] == func.attrs@[i]@);
        }
    }
    let mut node = PrettyNode { levels: 0 };
    if !node.write_field_key(f, "ret") {
        return false;
    }
    match &func.ret {
        Some(r) => {
            if !f.write_location(r.span) {
                return false;
            }
            f.write_char(' ');
            f.write_str(r.value.0.as_str());
            f.write_str("\n");
            proof {
                assert(" "@ =~= seq![' ']) by {
                    reveal_strlit(" ");
                }
            }
        },
        None => {
            f.write_str("\x1b[2;31mNone\x1b[0m\n");
        },
    }
    let ghost t4 = f@.buf;
    assert(t4 =~= f0.buf + field_text("ret"@, opt_ident_text(func@.ret, src), lv).unwrap());
    if !node.write_field_key(f, "attrs") {
        return false;
    }
    if !pretty_attrs(&func.attrs, f) {
        return false;
    }
    let ghost t5 = f@.buf;
    assert(t5 =~= t4 + field_text("attrs"@, pp_attrs(func@.attrs, lv, src), lv).unwrap());
    let is_unsafe = func.unsafe_.is_some();
    if !node.field(f, "unsafe", &is_unsafe) {
        return false;
    }
    assert(f@.buf =~= f0.buf + pp_fn_tail(func@, lv, src).unwrap());
    true
}

/// Writes a function.
#[verifier::spinoff_prover]
#[verifier::rlimit(40)]
pub fn pretty_item_fn(func: &ItemFunction, f: &mut PrettyFormatter) -> (ok: bool)
    requires
        item_function_fits(func@),
    ensures
        ok == pp_item_fn(func@, old(f)@.level, old(f)@.source) is Some,
        ok ==> final(f)@ == wrote(old(f)@, pp_item_fn(func@, old(f)@.level, old(f)@.source).unwrap()),
        final(f)@.level == old(f)@.level,
        final(f)@.source == old(f)@.source,
{
    let ghost f0 = f@;
    let ghost lv = f0.level;
    let ghost src = f0.source;
    proof {
        reveal(pp_item_fn);
        lemma_view_stmts(func.body.stmts@);
    }
    if !pretty_fn_head(func, f) {
        return false;
    }
    if !pretty_fn_tail(func, f) {
        return false;
    }
    if func.body.stmts.len() == 0 || f.level == usize::MAX {
        return false;
    }
    let ghost t6 = f@.buf;
    f.raise();
    let ok = pretty_stmt_list(&func.body.stmts, f);
    f.lower();
    if ok {
        assert(f@.buf =~= f0.buf + pp_item_fn(func@, lv, src).unwrap());
    }
    ok
}

/// Writes an item.
pub fn pretty_item(i: &Item, f: &mut PrettyFormatter) -> (ok: bool)
    requires
        item_fits(i@),
    ensures
        ok == pp_item(i@, old(f)@.level, old(f)@.source) is Some,
        ok ==> final(f)@ == wrote(old(f)@, pp_item(i@, old(f)@.level, old(f)@.source).unwrap()),
        final(f)@.level == old(f)@.level,
        final(f)@.source == old(f)@.source,
{
    match i {
        Item::Function(func) => pretty_item_fn(func, f),
    }
}

/// Writes items as the elements of a list at the current level.
#[verifier::spinoff_prover]
#[verifier::rlimit(40)]
fn pretty_item_list(items: &Vec<Item>, f: &mut PrettyFormatter) -> (ok: bool)
    requires
        forall|k: int| 0 <= k < items@.len() ==> item_fits(#[trigger] items@[k]@),
    ensures
        ok == pp_item_list(items@.map_values(|i: Item| i@), old(f)@.level, old(f)@.source) is Some,
        ok ==> final(f)@ == wrote(
            old(f)@,
            pp_item_list(items@.map_values(|i: Item| i@), old(f)@.level, old(f)@.source).unwrap(),
        ),
        final(f)@.level == old(f)@.level,
        final(f)@.source == old(f)@.source,
{
    let ghost f0 = f@;
    let ghost sv = items@.map_values(|i: Item| i@);
    let n = items.len();
    let mut i: usize = 0;
    assert(sv.take(0) =~= Seq::<SpecItem>::empty());
    while i < n
        invariant
            f0 == old(f)@,
            n == items@.len(),
            i <= n,
            sv == items@.map_values(|i: Item| i@),
            forall|k: int| 0 <= k < n ==> item_fits(#[trigger] items@[k]@),
            f@.level == f0.level,
            f@.source == f0.source,
            pp_item_list(sv.take(i as int), f0.level, f0.source) is Some,
            f@.buf == f0.buf + pp_item_list(sv.take(i as int), f0.level, f0.source).unwrap(),
        decreases n - i,
    {
        proof {
            lemma_item_list_step(sv, i as int, f0.level, f0.source);
            assert(sv[i as int] == items@[i as int]@);
        }
        if i > 0 {
            f.write_indent_empty();
            f.write_str("\n");
        }
        let ok = f.write_indent() && pretty_item(&items[i], f);
        if !ok {
            proof {
                let t = sv.take(i + 1);
                assert(t.len() == i + 1);
                assert(pp_item_list(t, f0.level, f0.source) is None);
                lemma_item_list_none(sv, i as int + 1, n as int, f0.level, f0.source);
                assert(sv.take(n as int) =~= sv);
            }
            return false;
        }
        proof {
            assert(f@.buf =~= f0.buf + pp_item_list(sv.take(i + 1), f0.level, f0.source).unwrap());
        }
        i = i + 1;
    }
    assert(sv.take(n as int) =~= sv);
    true
}

/// Writes a program: its header and its items one level deeper.
pub fn pretty_program(p: &Program, f: &mut PrettyFormatter) -> (ok: bool)
    requires
        program_fits(p@),
    ensures
        ok == pp_program(p@, p.spec_span(), old(f)@.level, old(f)@.source) is Some,
        ok ==> final(f)@ == wrote(old(f)@, pp_program(p@, p.spec_span(), old(f)@.level, old(f)@.source).unwrap()),
        final(f)@.level == old(f)@.level,
        final(f)@.source == old(f)@.source,
{
    let ghost f0 = f@;
    let node = match f.node("Program", p.span()) {
        None => {
            return false;
        },
        Some(n) => n,
    };
    if p.0.len() == 0 || f.level == usize::MAX {
        return false;
    }
    f.raise();
    proof {
        assert forall|k: int| 0 <= k < p.0@.len() implies item_fits(#[trigger] p.0@[k]@) by {
            assert(p@[k] == p.0@[k]@);
        }
    }
    let ok = pretty_item_list(&p.0, f);
    f.lower();
    node.finish(f);
    if ok {
        assert(f@.buf =~= f0.buf + pp_program(p@, p.spec_span(), f0.level, f0.source).unwrap());
    }
    ok
}

impl Program {
    /// The tree view of the program, with locations taken from `source`;
    /// `None` where it cannot be written.
    pub fn pretty_printed(&self, source: &str) -> (r: Option<String>)
        requires
            program_fits(self@),
        ensures
            match pp_program(self@, self.spec_span(), 0, source@) {
                Some(t) => r matches Some(s) && s@ == t,
                None => r is None,
            },
    {
        let mut f = PrettyFormatter::new(source);
        if pretty_program(self, &mut f) {
            let text = f.text();
            assert(text@ =~= pp_program(self@, self.spec_span(), 0, source@).unwrap());
            Some(text)
        } else {
            None
        }
    }
}

} // verus!

verus! {

/// Whether an expression can be shown with locations in the source `src`: it
/// holds no assignment, every block in it has a statement, and every token in
/// it starts at a byte offset where a character of the source begins (or at
/// its end).
pub open spec fn shows_expr(e: SpecExpr, src: Seq<char>) -> bool
    decreases e,
{
    match e {
        SpecExpr::Assign(_, _) => false,
        SpecExpr::Block(b) => shows_block(b, src),
        SpecExpr::Binary { lhs, rhs, .. } => shows_expr(*lhs, src) && shows_expr(*rhs, src),
        SpecExpr::Call(c, args) => shows_expr(*c, src) && shows_exprs(args, src),
        SpecExpr::Deref(d, v) => at_char(src, d.span.start as int) && shows_expr(*v, src),
        SpecExpr::Ident(v) => at_char(src, v.span.start as int),
        SpecExpr::Label(v) => at_char(src, v.span.start as int),
        SpecExpr::Number(v) => at_char(src, v.span.start as int),
    }
}

/// Whether every expression of a list can be shown.
pub open spec fn shows_exprs(es: Seq<SpecExpr>, src: Seq<char>) -> bool
    decreases es,
{
    if es.len() == 0 {
        true
    } else {
        shows_exprs(es.drop_last(), src) && shows_expr(es.last(), src)
    }
}

/// Whether a block can be shown: it has a statement, and all can be shown.
pub open spec fn shows_block(b: SpecBlock, src: Seq<char>) -> bool
    decreases b,
{
    at_char(src, b.open.span.start as int) && at_char(src, b.close.span.start as int) && b.stmts.len() > 0 && shows_stmts(b.stmts, src)
}

/// Whether every statement of a list can be shown.
pub open spec fn shows_stmts(ss: Seq<SpecStatement>, src: Seq<char>) -> bool
    decreases ss,
{
    if ss.len() == 0 {
        true
    } else {
        shows_stmts(ss.drop_last(), src) && shows_stmt(ss.last(), src)
    }
}

/// Whether a statement can be shown.
pub open spec fn shows_stmt(st: SpecStatement, src: Seq<char>) -> bool
    decreases st,
{
    match st {
        SpecStatement::Expr { expr, semi } => shows_expr(expr, src) && match semi {
            Some(t) => at_char(src, t.span.start as int),
            None => true,
        },
        SpecStatement::If { if_, cond, body, otherwise } => at_char(src, if_.span.start as int) && shows_expr(cond, src)
            && shows_block(body, src) && match otherwise {
            Some(o) => shows_block(o.1, src),
            None => true,
        },
        SpecStatement::Label { squot, name, colon } => at_char(src, squot.span.start as int) && at_char(src, name.span.start as int)
            && at_char(src, colon.span.start as int),
        SpecStatement::Let { let_, name, expr, semi } => at_char(src, let_.span.start as int) && at_char(src, name.span.start as int)
            && shows_expr(expr, src) && match semi {
            Some(t) => at_char(src, t.span.start as int),
            None => true,
        },
        SpecStatement::Loop { loop_, body } => at_char(src, loop_.span.start as int) && shows_block(body, src),
        SpecStatement::While { while_, cond, body } => at_char(src, while_.span.start as int) && shows_expr(cond, src)
            && shows_block(body, src),
    }
}

/// How many levels deeper than its own the tree view of an expression reaches.
pub open spec fn expr_depth(e: SpecExpr) -> nat
    decreases e,
{
    match e {
        SpecExpr::Block(b) => block_depth(b),
        SpecExpr::Binary { lhs, rhs, .. } => nat_max(expr_depth(*lhs), expr_depth(*rhs)),
        SpecExpr::Call(c, args) => nat_max(expr_depth(*c), exprs_depth(args)),
        SpecExpr::Deref(_, v) => 1 + expr_depth(*v),
        _ => 0,
    }
}

/// The deepest of a list of expressions.
pub open spec fn exprs_depth(es: Seq<SpecExpr>) -> nat
    decreases es,
{
    if es.len() == 0 {
        0
    } else {
        nat_max(exprs_depth(es.drop_last()), expr_depth(es.last()))
    }
}

/// How many levels deeper than its own the tree view of a block reaches.
pub open spec fn block_depth(b: SpecBlock) -> nat
    decreases b,
{
    1 + stmts_depth(b.stmts)
}

/// The deepest of a list of statements.
pub open spec fn stmts_depth(ss: Seq<SpecStatement>) -> nat
    decreases ss,
{
    if ss.len() == 0 {
        0
    } else {
        nat_max(stmts_depth(ss.drop_last()), stmt_depth(ss.last()))
    }
}

/// How many levels deeper than its own the tree view of a statement reaches.
pub open spec fn stmt_depth(st: SpecStatement) -> nat
    decreases st,
{
    match st {
        SpecStatement::Expr { expr, .. } => 1 + expr_depth(expr),
        SpecStatement::If { cond, body, otherwise, .. } => nat_max(
            nat_max(expr_depth(cond), block_depth(body)),
            match otherwise {
                Some(o) => block_depth(o.1),
                None => 0,
            },
        ),
        SpecStatement::Label { .. } => 0,
        SpecStatement::Let { expr, .. } => 1 + expr_depth(expr),
        SpecStatement::Loop { body, .. } => 1 + stmts_depth(body.stmts),
        SpecStatement::While { cond, body, .. } => nat_max(expr_depth(cond), 1 + block_depth(body)),
    }
}

/// The larger of two numbers.
pub open spec fn nat_max(a: nat, b: nat) -> nat {
    if a >= b {
        a
    } else {
        b
    }
}

/// The span of an expression that can be shown starts within the source.
proof fn lemma_expr_span_start(e: SpecExpr, src: Seq<char>)
    requires
        shows_expr(e, src),
    ensures
        at_char(src, expr_span(e).start as int),
    decreases e,
{
    match e {
        SpecExpr::Binary { lhs, rhs, .. } => {
            assert(shows_expr(*lhs, src) && shows_expr(*rhs, src));
            lemma_expr_span_start(*lhs, src);
            lemma_expr_span_start(*rhs, src);
            let x = expr_span(*lhs);
            let y = expr_span(*rhs);
            assert(expr_span(e) == x.spec_merge(y));
            if x.spec_merge(y).start != x.start {
                assert(x.spec_merge(y).start == y.start);
            }
        },
        SpecExpr::Call(c, args) => {
            assert(shows_expr(*c, src) && shows_exprs(args, src));
            lemma_expr_span_start(*c, src);
            if args.len() > 0 {
                lemma_exprs_first_last(args, src);
                lemma_expr_span_start(args[0], src);
                lemma_expr_span_start(args.last(), src);
            }
            let x = expr_span(*c);
            let y = crate::nodes::model::exprs_span(args);
            assert(expr_span(e) == x.spec_merge(y));
            if x.spec_merge(y).start != x.start {
                assert(x.spec_merge(y).start == y.start);
                if args.len() == 0 {
                    assert(y.start == 0);
                    assert(src.take(0) =~= Seq::<char>::empty());
                    assert(crate::text::byte_offset(src, 0) == 0);
                } else if args.len() == 1 {
                    assert(y == expr_span(args[0]));
                } else {
                    assert(y == expr_span(args[0]).spec_merge(expr_span(args.last())));
                    if y.start != expr_span(args[0]).start {
                        assert(y.start == expr_span(args.last()).start);
                    }
                }
            }
        },
        SpecExpr::Deref(d, v) => {
            assert(shows_expr(*v, src));
            lemma_expr_span_start(*v, src);
            assert(expr_span(e) == d.span.spec_merge(expr_span(*v)));
            if d.span.spec_merge(expr_span(*v)).start != d.span.start {
                assert(d.span.spec_merge(expr_span(*v)).start == expr_span(*v).start);
            }
        },
        SpecExpr::Block(b) => {
            assert(shows_block(b, src));
            assert(expr_span(e) == block_span(b));
        },
        _ => {},
    }
}

/// The first and the last expression of a list that can be shown can be shown.
proof fn lemma_exprs_first_last(es: Seq<SpecExpr>, src: Seq<char>)
    requires
        shows_exprs(es, src),
        es.len() > 0,
    ensures
        shows_expr(es[0], src),
        shows_expr(es.last(), src),
    decreases es.len(),
{
    assert(shows_exprs(es.drop_last(), src) && shows_expr(es.last(), src));
    if es.len() > 1 {
        lemma_exprs_first_last(es.drop_last(), src);
        assert(es.drop_last()[0] == es[0]);
    }
}

/// The span of a statement that can be shown starts within the source.
proof fn lemma_stmt_span_start(st: SpecStatement, src: Seq<char>)
    requires
        shows_stmt(st, src),
    ensures
        at_char(src, stmt_span(st).start as int),
{
    match st {
        SpecStatement::Expr { expr, .. } => lemma_expr_span_start(expr, src),
        SpecStatement::Let { expr, .. } => lemma_expr_span_start(expr, src),
        _ => {},
    }
}

/// Every expression except an assignment is shown in the tree view, as long
/// as its blocks have statements, its tokens start within the source, it is
/// shown below the top level, and its levels fit a `usize`; where it is
/// shown, `pretty_expr` writes it and leaves the level as it found it.
pub proof fn lemma_pp_expr_shown(e: SpecExpr, level: nat, src: Seq<char>)
    requires
        shows_expr(e, src),
        src.len() < usize::MAX,
        1 <= level,
        level + expr_depth(e) < usize::MAX,
    ensures
        pp_expr(e, level, src) is Some,
    decreases e,
{
    reveal(pp_stmt);
    match e {
        SpecExpr::Block(b) => {
            assert(shows_block(b, src));
            assert(expr_depth(e) == block_depth(b));
            assert(block_depth(b) == 1 + stmts_depth(b.stmts));
            lemma_pp_stmt_list_shown(b.stmts, level + 1, src);
        },
        SpecExpr::Binary { lhs, rhs, .. } => {
            assert(shows_expr(*lhs, src) && shows_expr(*rhs, src));
            lemma_expr_span_start(*lhs, src);
            lemma_pp_expr_shown(*lhs, level, src);
            lemma_pp_expr_shown(*rhs, level, src);
        },
        SpecExpr::Call(c, args) => {
            assert(shows_expr(*c, src) && shows_exprs(args, src));
            lemma_expr_span_start(*c, src);
            lemma_pp_expr_shown(*c, level, src);
            lemma_pp_expr_list_shown(args, level, src);
        },
        SpecExpr::Deref(d, v) => {
            assert(shows_expr(*v, src));
            lemma_expr_span_start(*v, src);
            lemma_pp_expr_shown(*v, level + 1, src);
        },
        _ => {},
    }
}

/// A list of expressions that can be shown is shown.
pub proof fn lemma_pp_expr_list_shown(es: Seq<SpecExpr>, level: nat, src: Seq<char>)
    requires
        shows_exprs(es, src),
        src.len() < usize::MAX,
        1 <= level,
        level + exprs_depth(es) < usize::MAX,
    ensures
        pp_expr_list(es, level, src) is Some,
    decreases es,
{
    reveal(pp_stmt);
    if es.len() > 0 {
        assert(shows_exprs(es.drop_last(), src) && shows_expr(es.last(), src));
        assert(exprs_depth(es) == nat_max(exprs_depth(es.drop_last()), expr_depth(es.last())));
        lemma_pp_expr_list_shown(es.drop_last(), level, src);
        lemma_pp_expr_shown(es.last(), level, src);
        if es.len() == 1 {
            assert(es[0] == es.last());
        }
    }
}

/// A block that can be shown is shown.
pub proof fn lemma_pp_block_shown(b: SpecBlock, level: nat, src: Seq<char>)
    requires
        shows_block(b, src),
        src.len() < usize::MAX,
        1 <= level,
        level + block_depth(b) < usize::MAX,
    ensures
        pp_block(b, level, src) is Some,
    decreases b,
{
    reveal(pp_stmt);
    assert(shows_stmts(b.stmts, src));
    lemma_pp_stmt_list_shown(b.stmts, level + 1, src);
}

/// A list of statements that can be shown is shown.
pub proof fn lemma_pp_stmt_list_shown(ss: Seq<SpecStatement>, level: nat, src: Seq<char>)
    requires
        shows_stmts(ss, src),
        src.len() < usize::MAX,
        1 <= level,
        level + stmts_depth(ss) < usize::MAX,
    ensures
        pp_stmt_list(ss, level, src) is Some,
    decreases ss,
{
    reveal(pp_stmt);
    if ss.len() > 0 {
        assert(shows_stmts(ss.drop_last(), src) && shows_stmt(ss.last(), src));
        assert(stmts_depth(ss) == nat_max(stmts_depth(ss.drop_last()), stmt_depth(ss.last())));
        lemma_pp_stmt_list_shown(ss.drop_last(), level, src);
        lemma_pp_stmt_shown(ss.last(), level, src);
        if ss.len() == 1 {
            assert(ss[0] == ss.last());
        }
    }
}

/// A statement that can be shown is shown.
#[verifier::spinoff_prover]
#[verifier::rlimit(60)]
pub proof fn lemma_pp_stmt_shown(st: SpecStatement, level: nat, src: Seq<char>)
    requires
        shows_stmt(st, src),
        src.len() < usize::MAX,
        1 <= level,
        level + stmt_depth(st) < usize::MAX,
    ensures
        pp_stmt(st, level, src) is Some,
    decreases st,
{
    reveal(pp_stmt);
    lemma_stmt_span_start(st, src);
    match st {
        SpecStatement::Expr { expr, .. } => lemma_pp_expr_shown(expr, level + 1, src),
        SpecStatement::If { cond, body, otherwise, .. } => {
            lemma_pp_expr_shown(cond, level, src);
            lemma_pp_block_shown(body, level, src);
            if let Some(o) = otherwise {
                lemma_pp_block_shown(o.1, level, src);
            }
        },
        SpecStatement::Let { expr, .. } => lemma_pp_expr_shown(expr, level + 1, src),
        SpecStatement::Loop { body, .. } => lemma_pp_stmt_list_shown(body.stmts, level + 1, src),
        SpecStatement::While { cond, body, .. } => {
            lemma_pp_expr_shown(cond, level, src);
            lemma_pp_block_shown(body, level + 1, src);
        },
        _ => {},
    }
}

} // verus!

verus! {

/// A text with its ASCII capitals made small.
pub open spec fn lowercase(s: Seq<char>) -> Seq<char> {
    Seq::new(
        s.len(),
        |i: int|
            if 'A' <= s[i] && s[i] <= 'Z' {
                ((s[i] as u32) + 32) as char
            } else {
                s[i]
            },
    )
}

/// The kind shown for a binary node names its operator: different operators
/// are shown under different names, and the kind of an addition or a
/// subtraction is, up to case, the mnemonic of the instruction that the code
/// generator emits for it (`Add` for `add`, `Sub` for `sub`).
pub proof fn lemma_kind_names_operator(
    k1: ExprBinary,
    k2: ExprBinary,
    a: SpecExpr,
    c: SpecExpr,
    swap: bool,
    b: crate::generator::SpecBuf,
)
    ensures
        kind_name(k1) == kind_name(k2) ==> k1 == k2,
        k1 == ExprBinary::Add || k1 == ExprBinary::Sub ==> (crate::nodes::expr::gen_op(
            k1,
            a,
            c,
            swap,
            b,
        ) matches Some(b2) ==> lowercase(kind_name(k1)) == crate::generator::instructions::spec_mnemonic(
            b2.buf.last(),
        )),
{
    reveal_strlit("Add");
    reveal_strlit("Sub");
    reveal_strlit("Eq");
    reveal_strlit("Ne");
    reveal_strlit("Gt");
    reveal_strlit("Ge");
    reveal_strlit("Lt");
    reveal_strlit("Le");
    reveal_strlit("add");
    reveal_strlit("sub");
    assert(lowercase("Add"@) =~= "add"@);
    assert(lowercase("Sub"@) =~= "sub"@);
    if kind_name(k1) == kind_name(k2) {
        assert(kind_name(k1).len() == kind_name(k2).len());
        assert(kind_name(k1)[0] == kind_name(k2)[0]);
        assert(kind_name(k1)[1] == kind_name(k2)[1]);
    }
}

} // verus!

verus! {

/// Different widths of a dereference are shown under different names.
pub proof fn lemma_deref_names_differ(d1: ExprDeref, d2: ExprDeref)
    ensures
        deref_name(d1) == deref_name(d2) ==> d1 == d2,
{
    reveal_strlit("Byte");
    reveal_strlit("Half");
    reveal_strlit("Word");
    if deref_name(d1) == deref_name(d2) {
        assert(deref_name(d1)[0] == deref_name(d2)[0]);
    }
}

} // verus!
