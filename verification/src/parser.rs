//! Source positions, tokens, and the entry point of the parser.

pub mod bytes;
pub mod failure;
pub mod grammar;
pub mod lexer;
pub mod pretty;

use vstd::prelude::*;

use crate::nodes::model::program_fits;
use crate::nodes::Program;
use crate::parser::bytes::{items_bytes, items_to_bytes, span_in_bytes, span_to_bytes};
use crate::parser::failure::{expected_message, message, strictly_sorted, Failure};
use crate::parser::grammar::{f_program, p_program, parse_program};
use crate::text::{
    byte_offset, char_starts, chars_of, lemma_byte_offset_strict, lemma_encode_step,
    push_str, text_eq, utf8_width,
};

verus! {

/// A source that does not parse: the source, what was expected, and where.
#[derive(Debug)]
pub struct ParseError {
    pub src: String,
    pub expected: String,
    pub location: Span,
}

/// Parses a whole source into its program, with every span counted in bytes
/// of the source's UTF-8 text. Where it does not parse, the error points at
/// the furthest position at which a rule of the grammar failed, and lists, in
/// order and each once, everything the rules expected there.
pub fn parse(input: &str) -> (r: Result<Program, ParseError>)
    ensures
        match p_program(input@) {
            Ok(items) => r matches Ok(prog) && prog@ == items_bytes(input@, items) && program_fits(
                prog@,
            ),
            Err(_) => r matches Err(e) && e.location == span_in_bytes(
                input@,
                Span { start: f_program(input@).pos as usize, len: 0 },
            ) && e.src@ == input@ && exists|ts: Seq<Seq<char>>|
                strictly_sorted(ts) && ts.to_set() == f_program(input@).expected && e.expected@
                    == expected_message(ts),
        },
{
    let s = chars_of(input);
    let offs = char_starts(input);
    let mut fail = Failure::new();
    match parse_program(&s, &mut fail) {
        Ok(items) => {
            let ghost iv = items@.map_values(|i: crate::nodes::Item| i@);
            proof {
                assert forall|i: int| 0 <= i < items@.len() implies crate::nodes::model::item_fits(
                    #[trigger] items@[i]@,
                ) by {
                    assert(crate::nodes::model::item_fits(iv[i]));
                }
            }
            let out = items_to_bytes(items, &offs, Ghost(input@));
            let prog = Program(out);
            proof {
                let pv = prog@;
                let want = items_bytes(input@, iv);
                assert forall|i: int| 0 <= i < pv.len() implies pv[i] == want[i] by {
                    assert(out@[i]@ == crate::parser::bytes::item_bytes(input@, items@[i]@));
                }
                assert(pv =~= want);
                assert forall|i: int| 0 <= i < pv.len() implies crate::nodes::model::item_fits(
                    #[trigger] pv[i],
                ) by {
                    assert(crate::nodes::model::item_fits(out@[i]@));
                }
            }
            Ok(prog)
        },
        Err(_) => {
            let mut src = String::new();
            push_str(&mut src, input);
            let sorted = fail.sorted_expected();
            let expected = message(&sorted);
            proof {
                assert(src@ =~= input@);
            }
            let location = span_to_bytes(Span::new(fail.pos(), 0), &offs, Ghost(input@));
            Err(ParseError { src, expected, location })
        },
    }
}

/// A region of the source: `len` bytes starting at byte `start` of its UTF-8 text.
#[derive(Clone, Copy, Debug, PartialEq, Eq, Hash, Structural)]
pub struct Span {
    pub start: usize,
    pub len: usize,
}

impl Default for Span {
    fn default() -> (s: Span)
        ensures
            s == (Span { start: 0, len: 0 }),
    {
        Span { start: 0, len: 0 }
    }
}

impl View for Span {
    type V = Span;

    open spec fn view(&self) -> Span {
        *self
    }
}

impl Span {
    /// One past the last position of the span.
    pub open spec fn spec_end(self) -> int {
        self.start + self.len
    }

    /// The end of the span fits in a `usize`.
    pub open spec fn fits(self) -> bool {
        self.start + self.len <= usize::MAX
    }

    /// The span that runs from the earlier start to the later end, as `merge` computes it.
    pub open spec fn spec_merge(self, other: Span) -> Span {
        if other.spec_end() > self.start {
            Span { start: self.start, len: (other.spec_end() - self.start) as usize }
        } else {
            Span { start: other.start, len: (self.spec_end() - other.start) as usize }
        }
    }

    /// The span of `size` characters that ends where this one ends (or starts at
    /// this span's start when `size` exceeds its length).
    pub open spec fn spec_end_span(self, size: usize) -> Span {
        Span {
            start: (self.start + (if self.len >= size { self.len - size } else { 0int })) as usize,
            len: size,
        }
    }

    pub fn new(start: usize, len: usize) -> (s: Span)
        ensures
            s == (Span { start, len }),
    {
        Span { start, len }
    }

    pub fn merge(self, other: Span) -> (s: Span)
        requires
            self.fits(),
            other.fits(),
        ensures
            s == self.spec_merge(other),
            s.fits(),
    {
        let mut this = self;
        let mut other = other;
        if other.end() > this.start {
            this.len = other.end() - this.start;
            this
        } else {
            other.len = this.end() - other.start;
            other
        }
    }

    pub fn of<T>(self, value: T) -> (s: Spanned<T>)
        ensures
            s.span == self,
            s.value == value,
    {
        Spanned { span: self, value }
    }

    pub fn end(&self) -> (e: usize)
        requires
            self.fits(),
        ensures
            e == self.spec_end(),
    {
        self.start + self.len
    }

    /// Creates a padding from the end and sets that area as the span.
    /// If `size` is larger than the span it overflows to the right.
    pub fn end_span(&self, size: usize) -> (s: Span)
        requires
            self.fits(),
        ensures
            s == self.spec_end_span(size),
    {
        let back = if self.len >= size { self.len - size } else { 0 };
        Span::new(self.start + back, size)
    }

    /// Line and column (both counted from 1) of the span's start, a byte
    /// offset that begins a character of `source` (or is its end).
    pub fn location(&self, source: &str) -> (lc: LineCol)
        requires
            at_char(source@, self.start as int),
            source@.len() < usize::MAX,
        ensures
            lc == byte_line_col(source@, self.start as int),
    {
        let chars = chars_of(source);
        match locate(&chars, self.start) {
            Some(lc) => lc,
            None => {
                assert(false);
                LineCol { line: 1, column: 1, offset: self.start }
            },
        }
    }
}

/// Line and column of the byte offset `b` of the text `s`; `None` where no
/// character of `s` begins there (and it is not the end of `s`), or where `s`
/// is too long to number its lines.
pub fn locate(s: &Vec<char>, b: usize) -> (r: Option<LineCol>)
    ensures
        r == (if at_char(s@, b as int) && s@.len() < usize::MAX {
            Some(byte_line_col(s@, b as int))
        } else {
            None
        }),
{
    let n = s.len();
    if n == usize::MAX {
        return None;
    }
    let mut line: usize = 1;
    let mut column: usize = 1;
    let mut bytes: usize = 0;
    let mut i: usize = 0;
    assert(s@.take(0) =~= Seq::<char>::empty());
    while i < n && bytes < b
        invariant
            n == s@.len(),
            n < usize::MAX,
            i <= n,
            bytes == byte_offset(s@, i as int),
            forall|k: int| 0 <= k < i ==> byte_offset(s@, k) < b,
            line == lines_before(s@, i as int),
            column == column_at(s@, i as int),
            line <= i + 1,
            column <= i + 1,
        decreases n - i,
    {
        proof {
            lemma_encode_step(s@, i as int);
        }
        let w = utf8_width(s[i]);
        if s[i] == '\n' {
            line = line + 1;
            column = 1;
        } else {
            column = column + 1;
        }
        if w > b - bytes {
            proof {
                assert forall|k: int| 0 <= k <= s@.len() implies byte_offset(s@, k) != b by {
                    if k > i {
                        if k > i + 1 {
                            lemma_byte_offset_strict(s@, i as int + 1, k);
                        }
                    }
                }
            }
            return None;
        }
        bytes = bytes + w;
        i = i + 1;
    }
    if bytes == b {
        proof {
            assert forall|k: int| 0 <= k <= s@.len() && byte_offset(s@, k) == b implies k == i by {
                if k > i {
                    lemma_byte_offset_strict(s@, i as int, k);
                }
            }
        }
        Some(LineCol { line, column, offset: b })
    } else {
        proof {
            assert forall|k: int| 0 <= k <= s@.len() implies byte_offset(s@, k) != b by {
                if k > i {
                    lemma_byte_offset_strict(s@, i as int, k);
                }
            }
        }
        None
    }
}

/// The position among the characters of `s` at which the byte offset `b` begins.
pub open spec fn char_at(s: Seq<char>, b: int) -> int {
    choose|k: int| 0 <= k <= s.len() && byte_offset(s, k) == b
}

/// Line and column of the byte offset `b`, with `b` as the offset.
pub open spec fn byte_line_col(s: Seq<char>, b: int) -> LineCol {
    LineCol {
        line: lines_before(s, char_at(s, b)) as usize,
        column: column_at(s, char_at(s, b)) as usize,
        offset: b as usize,
    }
}

/// Whether the byte offset `b` is where a character of `s` begins, or the end of `s`.
pub open spec fn at_char(s: Seq<char>, b: int) -> bool {
    exists|k: int| 0 <= k <= s.len() && byte_offset(s, k) == b
}

/// Merging a span with itself gives that span back.
pub proof fn lemma_merge_self(a: Span)
    requires
        a.fits(),
    ensures
        a.spec_merge(a) == a,
{
}

/// Merging a span with one that starts and ends no earlier gives the span that
/// runs from the first one's start to the second one's end, and so covers both.
pub proof fn lemma_merge_covers(a: Span, b: Span)
    requires
        a.fits(),
        b.fits(),
        a.start <= b.start,
        a.spec_end() <= b.spec_end(),
    ensures
        a.spec_merge(b).start == a.start,
        a.spec_merge(b).spec_end() == b.spec_end(),
        a.spec_merge(b).fits(),
{
}

/// The span cut from the end of a span has the asked size; when it is no longer
/// than the span it ends where the span ends and lies inside it, and when it is
/// longer it starts at the span's start and runs past its end.
pub proof fn lemma_end_span(a: Span, size: usize)
    requires
        a.fits(),
    ensures
        a.spec_end_span(size).len == size,
        size <= a.len ==> a.spec_end_span(size).spec_end() == a.spec_end() && a.start
            <= a.spec_end_span(size).start,
        size > a.len ==> a.spec_end_span(size).start == a.start && a.spec_end_span(size).spec_end()
            > a.spec_end(),
{
}

/// A position in the source as a reader sees it.
#[derive(Clone, Copy, Debug, PartialEq, Eq, Structural)]
pub struct LineCol {
    /// Line, counted from 1.
    pub line: usize,
    /// Column, counted from 1.
    pub column: usize,
    /// Byte offset from the start of the source.
    pub offset: usize,
}

/// One more than the number of newlines among the first `pos` characters.
pub open spec fn lines_before(s: Seq<char>, pos: int) -> int
    decreases pos,
{
    if pos <= 0 {
        1
    } else if s[pos - 1] == '\n' {
        lines_before(s, pos - 1) + 1
    } else {
        lines_before(s, pos - 1)
    }
}

/// One more than the number of characters between the last newline before `pos` and `pos`.
pub open spec fn column_at(s: Seq<char>, pos: int) -> int
    decreases pos,
{
    if pos <= 0 {
        1
    } else if s[pos - 1] == '\n' {
        1
    } else {
        column_at(s, pos - 1) + 1
    }
}

/// A value together with the region of the source it came from.
#[derive(Debug, Clone, Copy)]
pub struct Spanned<T> {
    pub span: Span,
    pub value: T,
}

impl<T: View> View for Spanned<T> {
    type V = Spanned<T::V>;

    open spec fn view(&self) -> Spanned<T::V> {
        Spanned { span: self.span, value: self.value@ }
    }
}

/// Values that know which region of the source they cover.
pub trait IntoSpanned: Sized {
    spec fn spec_span(&self) -> Span;

    /// Whether every span inside the value fits in a `usize`.
    spec fn spans_fit(&self) -> bool;

    fn span(&self) -> (s: Span)
        requires
            self.spans_fit(),
        ensures
            s == self.spec_span(),
            s.fits(),
    ;
}

impl<T> IntoSpanned for Spanned<T> {
    open spec fn spec_span(&self) -> Span {
        self.span
    }

    open spec fn spans_fit(&self) -> bool {
        self.span.fits()
    }

    fn span(&self) -> (s: Span) {
        self.span
    }
}

/// Keywords and punctuation of the language.
#[derive(Clone, Copy, Debug, PartialEq, Eq, Structural)]
pub enum Token {
    Fn,
    Let,
    Loop,
    Unsafe,
    While,
    SQuot,
    Arrow,
    BraceO,
    BraceC,
    Colon,
    Equal,
    ParenO,
    ParenC,
    Semi,
}

impl View for Token {
    type V = Token;

    open spec fn view(&self) -> Token {
        *self
    }
}

/// The text of each token.
pub open spec fn token_text(t: Token) -> Seq<char> {
    match t {
        Token::Fn => seq!['f', 'n'],
        Token::Let => seq!['l', 'e', 't'],
        Token::Loop => seq!['l', 'o', 'o', 'p'],
        Token::Unsafe => seq!['u', 'n', 's', 'a', 'f', 'e'],
        Token::While => seq!['w', 'h', 'i', 'l', 'e'],
        Token::SQuot => seq!['\''],
        Token::Arrow => seq!['-', '>'],
        Token::BraceO => seq!['{'],
        Token::BraceC => seq!['}'],
        Token::Colon => seq![':'],
        Token::Equal => seq!['='],
        Token::ParenO => seq!['('],
        Token::ParenC => seq![')'],
        Token::Semi => seq![';'],
    }
}

pub open spec fn spec_is_punctuation(t: Token) -> bool {
    match t {
        Token::Fn | Token::Let | Token::Loop | Token::Unsafe | Token::While => false,
        _ => true,
    }
}

/// Whether a word is one of the keywords, and so cannot name anything.
pub open spec fn is_keyword(s: Seq<char>) -> bool {
    ||| s == token_text(Token::Fn)
    ||| s == token_text(Token::Let)
    ||| s == token_text(Token::Loop)
    ||| s == token_text(Token::Unsafe)
    ||| s == token_text(Token::While)
}

impl Token {
    pub fn is_reverved(ident: &str) -> (r: bool)
        ensures
            r == is_keyword(ident@),
    {
        text_eq(ident, Token::Fn.as_str()) || text_eq(ident, Token::Let.as_str()) || text_eq(
            ident,
            Token::Loop.as_str(),
        ) || text_eq(ident, Token::Unsafe.as_str()) || text_eq(ident, Token::While.as_str())
    }

    pub fn as_str(self) -> (s: &'static str)
        ensures
            s@ == token_text(self),
    {
        proof {
            reveal_strlit("fn");
            reveal_strlit("let");
            reveal_strlit("loop");
            reveal_strlit("unsafe");
            reveal_strlit("while");
            reveal_strlit("'");
            reveal_strlit("->");
            reveal_strlit("{");
            reveal_strlit("}");
            reveal_strlit(":");
            reveal_strlit("=");
            reveal_strlit("(");
            reveal_strlit(")");
            reveal_strlit(";");
        }
        match self {
            Token::Fn => "fn",
            Token::Let => "let",
            Token::Loop => "loop",
            Token::Unsafe => "unsafe",
            Token::While => "while",
            Token::SQuot => "'",
            Token::Arrow => "->",
            Token::BraceO => "{",
            Token::BraceC => "}",
            Token::Colon => ":",
            Token::Equal => "=",
            Token::ParenO => "(",
            Token::ParenC => ")",
            Token::Semi => ";",
        }
    }

    pub fn is_punctuation(self) -> (r: bool)
        ensures
            r == spec_is_punctuation(self),
    {
        match self {
            Token::Fn | Token::Let | Token::Loop | Token::Unsafe | Token::While => false,
            _ => true,
        }
    }
}

} // verus!
