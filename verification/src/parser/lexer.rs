//! The lexical layer of the grammar: characters, whitespace, tokens,
//! identifiers and numbers, over the characters of the source.

use vstd::prelude::*;

use crate::parser::{is_keyword, spec_is_punctuation, token_text, Span, Spanned, Token};

verus! {

pub open spec fn is_ascii_alpha(c: char) -> bool {
    ('a' <= c && c <= 'z') || ('A' <= c && c <= 'Z')
}

pub open spec fn is_ascii_digit(c: char) -> bool {
    '0' <= c && c <= '9'
}

pub open spec fn is_ascii_alnum(c: char) -> bool {
    is_ascii_alpha(c) || is_ascii_digit(c)
}

/// Whether `char::is_alphanumeric` holds of the character.
pub uninterp spec fn char_is_alphanumeric(c: char) -> bool;

/// `char::is_alphanumeric`, whose documentation says it holds of the
/// characters with the Unicode property Alphabetic or Numeric. Trusted to
/// depend on the character alone and, among ASCII characters, to hold exactly
/// of the letters and digits; which other characters it holds of is not stated.
#[verifier::external_body]
fn is_alphanumeric(c: char) -> (r: bool)
    ensures
        r == char_is_alphanumeric(c),
        (c as u32) < 128 ==> (r == is_ascii_alnum(c)),
{
    c.is_alphanumeric()
}

/// A character that may continue an identifier.
pub open spec fn is_ident_char(c: char) -> bool {
    char_is_alphanumeric(c) || c == '_'
}

/// Whether the text `t` stands in `s` at `pos`.
pub open spec fn lit_at(s: Seq<char>, pos: int, t: Seq<char>) -> bool {
    0 <= pos && pos + t.len() <= s.len() && s.subrange(pos, pos + t.len()) == t
}

// ------------------------------------------------------------ whitespace

/// The position of the first line break at or after `pos`, or the end.
pub open spec fn line_end(s: Seq<char>, pos: int) -> int
    decreases s.len() - pos,
{
    if pos >= s.len() || s[pos] == '\n' {
        pos
    } else {
        line_end(s, pos + 1)
    }
}

/// One blank, line break or tab, or one comment from `//` to the end of its line.
pub open spec fn ws_item(s: Seq<char>, pos: int) -> Option<int> {
    if 0 <= pos < s.len() && (s[pos] == ' ' || s[pos] == '\n' || s[pos] == '\t') {
        Some(pos + 1)
    } else if 0 <= pos && pos + 1 < s.len() && s[pos] == '/' && s[pos + 1] == '/' {
        Some(line_end(s, pos + 2))
    } else {
        None
    }
}

pub proof fn lemma_line_end(s: Seq<char>, pos: int)
    requires
        0 <= pos <= s.len(),
    ensures
        pos <= line_end(s, pos) <= s.len(),
    decreases s.len() - pos,
{
    if pos < s.len() && s[pos] != '\n' {
        lemma_line_end(s, pos + 1);
    }
}

/// Optional whitespace: the end of the longest run of whitespace and comments.
pub open spec fn skip_ws(s: Seq<char>, pos: int) -> int
    decreases s.len() - pos,
{
    match ws_item(s, pos) {
        Some(p) => {
            proof {
                if !(0 <= pos < s.len() && (s[pos] == ' ' || s[pos] == '\n' || s[pos] == '\t')) {
                    lemma_line_end(s, pos + 2);
                }
            }
            skip_ws(s, p)
        },
        None => pos,
    }
}

/// Required whitespace: at least one item of it.
pub open spec fn ws_req(s: Seq<char>, pos: int) -> Option<int> {
    if ws_item(s, pos) is Some {
        Some(skip_ws(s, pos))
    } else {
        None
    }
}

/// The end of the run of blanks and tabs from `pos`.
pub open spec fn skip_blanks(s: Seq<char>, pos: int) -> int
    decreases s.len() - pos,
{
    if 0 <= pos < s.len() && (s[pos] == ' ' || s[pos] == '\t') {
        skip_blanks(s, pos + 1)
    } else {
        pos
    }
}

pub broadcast proof fn lemma_skip_ws(s: Seq<char>, pos: int)
    requires
        0 <= pos <= s.len(),
    ensures
        pos <= #[trigger] skip_ws(s, pos) <= s.len(),
    decreases s.len() - pos,
{
    if let Some(p) = ws_item(s, pos) {
        if !(0 <= pos < s.len() && (s[pos] == ' ' || s[pos] == '\n' || s[pos] == '\t')) {
            lemma_line_end(s, pos + 2);
        }
        lemma_skip_ws(s, p);
    }
}

pub broadcast proof fn lemma_skip_blanks(s: Seq<char>, pos: int)
    requires
        0 <= pos <= s.len(),
    ensures
        pos <= #[trigger] skip_blanks(s, pos) <= s.len(),
    decreases s.len() - pos,
{
    if 0 <= pos < s.len() && (s[pos] == ' ' || s[pos] == '\t') {
        lemma_skip_blanks(s, pos + 1);
    }
}

// ------------------------------------------------------------ tokens

/// A keyword or punctuation token at `pos`; a keyword may not run on into a
/// letter or digit.
pub open spec fn token_at(s: Seq<char>, pos: int, tk: Token) -> Option<Spanned<Token>> {
    let t = token_text(tk);
    let end = pos + t.len();
    if lit_at(s, pos, t) && (spec_is_punctuation(tk) || end >= s.len() || !is_ascii_alnum(s[end])) {
        Some(Spanned { span: Span { start: pos as usize, len: t.len() as usize }, value: tk })
    } else {
        None
    }
}

/// The position after a token that starts at `pos`.
pub open spec fn token_end(pos: int, tk: Token) -> int {
    pos + token_text(tk).len()
}

/// An optional token, and the position after it.
pub open spec fn opt_token(s: Seq<char>, pos: int, tk: Token) -> (Option<Spanned<Token>>, int) {
    match token_at(s, pos, tk) {
        Some(t) => (Some(t), token_end(pos, tk)),
        None => (None, pos),
    }
}

/// The length of the run of identifier characters from `pos`.
pub open spec fn ident_run(s: Seq<char>, pos: int) -> int
    decreases s.len() - pos,
{
    if 0 <= pos < s.len() && is_ident_char(s[pos]) {
        1 + ident_run(s, pos + 1)
    } else {
        0
    }
}

/// An identifier: a run of identifier characters that starts with an ASCII
/// letter and is not a keyword.
pub open spec fn ident_at(s: Seq<char>, pos: int) -> Option<Spanned<Seq<char>>> {
    let n = ident_run(s, pos);
    if n == 0 || !is_ascii_alpha(s[pos]) || is_keyword(s.subrange(pos, pos + n)) {
        None
    } else {
        Some(Spanned { span: Span { start: pos as usize, len: n as usize }, value: s.subrange(pos, pos + n) })
    }
}

/// The length of the run of decimal digits from `pos`.
pub open spec fn digit_run(s: Seq<char>, pos: int) -> int
    decreases s.len() - pos,
{
    if 0 <= pos < s.len() && is_ascii_digit(s[pos]) {
        1 + digit_run(s, pos + 1)
    } else {
        0
    }
}

/// The value of a string of decimal digits.
pub open spec fn digits_value(d: Seq<char>) -> int
    decreases d.len(),
{
    if d.len() == 0 {
        0
    } else {
        digits_value(d.drop_last()) * 10 + (d.last() as int - '0' as int)
    }
}

/// A number: an optional `-` and digits, whose value fits an `i32`.
pub open spec fn number_at(s: Seq<char>, pos: int) -> Option<(Spanned<i32>, int)> {
    let neg = 0 <= pos < s.len() && s[pos] == '-';
    let ds = if neg { pos + 1 } else { pos };
    let n = digit_run(s, ds);
    let mag = digits_value(s.subrange(ds, ds + n));
    let v = if neg { -mag } else { mag };
    if n == 0 || !(i32::MIN <= v <= i32::MAX) {
        None
    } else {
        Some((Spanned { span: Span { start: pos as usize, len: (ds + n - pos) as usize }, value: v as i32 }, ds + n))
    }
}

pub broadcast proof fn lemma_ident_run(s: Seq<char>, pos: int)
    requires
        0 <= pos <= s.len(),
    ensures
        0 <= #[trigger] ident_run(s, pos) <= s.len() - pos,
    decreases s.len() - pos,
{
    if 0 <= pos < s.len() && is_ident_char(s[pos]) {
        lemma_ident_run(s, pos + 1);
    }
}

pub broadcast proof fn lemma_digit_run(s: Seq<char>, pos: int)
    requires
        0 <= pos <= s.len(),
    ensures
        0 <= #[trigger] digit_run(s, pos) <= s.len() - pos,
    decreases s.len() - pos,
{
    if 0 <= pos < s.len() && is_ascii_digit(s[pos]) {
        lemma_digit_run(s, pos + 1);
    }
}

/// The end of a line for a statement: a `;` after blanks and then optional
/// whitespace, or else blanks and a line break.
pub open spec fn eol(s: Seq<char>, pos: int) -> Option<(Option<Spanned<Token>>, int)> {
    let p1 = skip_blanks(s, pos);
    match token_at(s, p1, Token::Semi) {
        Some(t) => Some((Some(t), skip_ws(s, p1 + 1))),
        None => if lit_at(s, p1, seq!['\n']) {
            Some((None, p1 + 1))
        } else {
            None
        },
    }
}

} // verus!


use crate::nodes::Ident;
use crate::text::{decimal_int, decimal_nat, digit_char};
use vstd::string::StrSliceExecFns;

verus! {

/// The length of a vector of characters fits a `usize`.
pub proof fn lemma_len_fits(s: &Vec<char>)
    ensures
        s@.len() <= usize::MAX,
{
    assert(s@.len() == s.len());
}

/// Whether the text `t` stands in `s` at `pos`.
pub fn lit_match(s: &Vec<char>, pos: usize, t: &str) -> (r: bool)
    requires
        pos <= s@.len(),
    ensures
        r == lit_at(s@, pos as int, t@),
{
    let n = t.unicode_len();
    if n > s.len() - pos {
        return false;
    }
    let mut i: usize = 0;
    while i < n
        invariant
            n == t@.len(),
            pos + n <= s@.len(),
            s@.len() <= usize::MAX,
            i <= n,
            forall|j: int| 0 <= j < i ==> s@[pos + j] == t@[j],
        decreases n - i,
    {
        if s[pos + i] != t.get_char(i) {
            assert(s@.subrange(pos as int, pos + n)[i as int] != t@[i as int]);
            return false;
        }
        i = i + 1;
    }
    assert(s@.subrange(pos as int, pos + n) =~= t@);
    true
}

/// Skips optional whitespace and comments.
pub fn skip_whitespace(s: &Vec<char>, pos: usize) -> (r: usize)
    requires
        pos <= s@.len(),
    ensures
        r == skip_ws(s@, pos as int),
        pos <= r <= s@.len(),
{
    let mut p = pos;
    while p < s.len()
        invariant
            pos <= p <= s@.len(),
            skip_ws(s@, pos as int) == skip_ws(s@, p as int),
        ensures
            pos <= p <= s@.len(),
            skip_ws(s@, pos as int) == p,
        decreases s@.len() - p,
    {
        let c = s[p];
        if c == ' ' || c == '\n' || c == '\t' {
            p = p + 1;
        } else if p + 1 < s.len() && c == '/' && s[p + 1] == '/' {
            let mut q = p + 2;
            while q < s.len() && s[q] != '\n'
                invariant
                    p + 2 <= q <= s@.len(),
                    line_end(s@, p + 2) == line_end(s@, q as int),
                decreases s@.len() - q,
            {
                q = q + 1;
            }
            p = q;
        } else {
            assert(ws_item(s@, p as int) is None);
            break;
        }
    }
    p
}

/// Required whitespace: `None` unless at least one item of it stands at `pos`.
pub fn whitespace(s: &Vec<char>, pos: usize) -> (r: Option<usize>)
    requires
        pos <= s@.len(),
    ensures
        r == match ws_req(s@, pos as int) {
            Some(p) => Some(p as usize),
            None => None::<usize>,
        },
        r matches Some(p) ==> pos <= p <= s@.len(),
{
    let p = skip_whitespace(s, pos);
    if p == pos {
        assert(ws_item(s@, pos as int) is None) by {
            if let Some(q) = ws_item(s@, pos as int) {
                if !(0 <= pos < s@.len() && (s@[pos as int] == ' ' || s@[pos as int] == '\n' || s@[pos as int] == '\t')) {
                    lemma_line_end(s@, pos + 2);
                }
                lemma_skip_ws(s@, q);
            }
        }
        None
    } else {
        Some(p)
    }
}

/// Skips blanks and tabs.
pub fn skip_blank_chars(s: &Vec<char>, pos: usize) -> (r: usize)
    requires
        pos <= s@.len(),
    ensures
        r == skip_blanks(s@, pos as int),
        pos <= r <= s@.len(),
{
    let mut p = pos;
    while p < s.len() && (s[p] == ' ' || s[p] == '\t')
        invariant
            pos <= p <= s@.len(),
            skip_blanks(s@, pos as int) == skip_blanks(s@, p as int),
        decreases s@.len() - p,
    {
        p = p + 1;
    }
    p
}

/// Whether a character is an ASCII letter or digit.
pub fn ascii_alnum(c: char) -> (r: bool)
    ensures
        r == is_ascii_alnum(c),
{
    ('a' <= c && c <= 'z') || ('A' <= c && c <= 'Z') || ('0' <= c && c <= '9')
}

/// A keyword or punctuation token at `pos`.
pub fn token(s: &Vec<char>, pos: usize, tk: Token) -> (r: Option<Spanned<Token>>)
    requires
        pos <= s@.len(),
    ensures
        r == token_at(s@, pos as int, tk),
        r is Some ==> token_end(pos as int, tk) <= s@.len(),
        r matches Some(t) ==> t.span.fits(),
{
    let len = s.len();
    proof {
        lemma_len_fits(s);
    }
    let t = tk.as_str();
    if !lit_match(s, pos, t) {
        return None;
    }
    let n = t.unicode_len();
    let end = pos + n;
    if !tk.is_punctuation() && end < s.len() && ascii_alnum(s[end]) {
        return None;
    }
    Some(Spanned { span: Span { start: pos, len: n }, value: tk })
}

/// The characters of `s` from `from` up to `to`, as a string.
pub fn substring(s: &Vec<char>, from: usize, to: usize) -> (r: String)
    requires
        from <= to <= s@.len(),
    ensures
        r@ == s@.subrange(from as int, to as int),
{
    let mut r = String::new();
    let mut i = from;
    while i < to
        invariant
            from <= i <= to,
            to <= s@.len(),
            r@ == s@.subrange(from as int, i as int),
        decreases to - i,
    {
        crate::text::push_char(&mut r, s[i]);
        i = i + 1;
        assert(r@ =~= s@.subrange(from as int, i as int));
    }
    r
}

/// An identifier at `pos`.
pub fn ident(s: &Vec<char>, pos: usize) -> (r: Option<Spanned<Ident>>)
    requires
        pos <= s@.len(),
    ensures
        match ident_at(s@, pos as int) {
            Some(i) => r matches Some(x) && x@ == i && pos + i.value.len() <= s@.len()
                && x.span.fits(),
            None => r is None,
        },
        // The characters that decide the identifier, up to the one that ends
        // it: among them an ASCII character continues an identifier exactly
        // when it is a letter, a digit or `_`.
        forall|j: int|
            pos <= j < s@.len() && j <= pos + ident_run(s@, pos as int) ==> ((#[trigger] s@[j]
                as u32) < 128 ==> (is_ident_char(s@[j]) == (is_ascii_alnum(s@[j]) || s@[j] == '_'))),
{
    proof {
        lemma_len_fits(s);
    }
    let mut q = pos;
    while q < s.len() && (is_alphanumeric(s[q]) || s[q] == '_')
        invariant
            pos <= q <= s@.len(),
            ident_run(s@, pos as int) == (q - pos) + ident_run(s@, q as int),
            forall|j: int|
                pos <= j < q ==> ((#[trigger] s@[j] as u32) < 128 ==> (char_is_alphanumeric(s@[j])
                    == is_ascii_alnum(s@[j]))),
        decreases s@.len() - q,
    {
        q = q + 1;
    }
    let n = q - pos;
    assert(ident_run(s@, pos as int) == n);
    if n == 0 {
        return None;
    }
    let c = s[pos];
    if !(('a' <= c && c <= 'z') || ('A' <= c && c <= 'Z')) {
        return None;
    }
    let name = substring(s, pos, q);
    if Token::is_reverved(name.as_str()) {
        return None;
    }
    Some(Spanned { span: Span { start: pos, len: n }, value: Ident(name) })
}

/// Digits are worth at least as much as any prefix of them.
proof fn lemma_digits_value_prefix(d: Seq<char>, k: int)
    requires
        0 <= k <= d.len(),
        forall|i: int| 0 <= i < d.len() ==> is_ascii_digit(#[trigger] d[i]),
    ensures
        0 <= digits_value(d.take(k)) <= digits_value(d),
    decreases d.len() - k,
{
    if k < d.len() {
        lemma_digits_value_prefix(d, k + 1);
        assert(d.take(k + 1).drop_last() =~= d.take(k));
        assert(d.take(k + 1).last() == d[k]);
    } else {
        assert(d.take(k) =~= d);
    }
    lemma_digits_value_nonneg(d.take(k));
}

proof fn lemma_digits_value_nonneg(d: Seq<char>)
    requires
        forall|i: int| 0 <= i < d.len() ==> is_ascii_digit(#[trigger] d[i]),
    ensures
        0 <= digits_value(d),
    decreases d.len(),
{
    if d.len() > 0 {
        assert forall|i: int| 0 <= i < d.drop_last().len() implies is_ascii_digit(#[trigger] d.drop_last()[i]) by {
            assert(d.drop_last()[i] == d[i]);
        }
        lemma_digits_value_nonneg(d.drop_last());
    }
}

/// A number at `pos`, and the position after it.
pub fn number_match(s: &Vec<char>, pos: usize) -> (r: Option<(Spanned<i32>, usize)>)
    requires
        pos <= s@.len(),
    ensures
        match number_at(s@, pos as int) {
            Some((n, p)) => r == Some((n, p as usize)) && p <= s@.len() && n.span.fits(),
            None => r is None,
        },
{
    proof {
        lemma_len_fits(s);
    }
    let neg = pos < s.len() && s[pos] == '-';
    let ds = if neg { pos + 1 } else { pos };
    let ghost sv = s@;
    let mut q = ds;
    let mut mag: u64 = 0;
    let mut big = false;
    while q < s.len() && '0' <= s[q] && s[q] <= '9'
        invariant
            ds <= q <= s@.len(),
            sv == s@,
            digit_run(sv, ds as int) == (q - ds) + digit_run(sv, q as int),
            forall|i: int| ds <= i < q ==> is_ascii_digit(#[trigger] sv[i]),
            !big ==> mag == digits_value(sv.subrange(ds as int, q as int)),
            !big ==> mag <= 2147483648,
            big ==> digits_value(sv.subrange(ds as int, q as int)) > 2147483648,
        decreases s@.len() - q,
    {
        let d = (s[q] as u32 - '0' as u32) as u64;
        proof {
            let sub = sv.subrange(ds as int, q + 1);
            assert(sub.drop_last() =~= sv.subrange(ds as int, q as int));
            assert(sub.last() == sv[q as int]);
            if big {
                assert forall|i: int| 0 <= i < sub.drop_last().len() implies is_ascii_digit(#[trigger] sub.drop_last()[i]) by {
                    assert(sub.drop_last()[i] == sv[ds + i]);
                }
                lemma_digits_value_nonneg(sub.drop_last());
            }
        }
        if !big {
            if mag > 214748364 {
                big = true;
            } else {
                mag = mag * 10 + d;
                if mag > 2147483648 {
                    big = true;
                }
            }
        }
        q = q + 1;
    }
    let n = q - ds;
    assert(digit_run(sv, ds as int) == n);
    if n == 0 {
        return None;
    }
    if big {
        return None;
    }
    let v: i64 = if neg { -(mag as i64) } else { mag as i64 };
    if v < -2147483648 || v > 2147483647 {
        return None;
    }
    Some((Spanned { span: Span { start: pos, len: q - pos }, value: v as i32 }, q))
}

/// The end of a statement's line: `;` or a line break after blanks.
pub fn eol_match(s: &Vec<char>, pos: usize) -> (r: Option<(Option<Spanned<Token>>, usize)>)
    requires
        pos <= s@.len(),
    ensures
        match eol(s@, pos as int) {
            Some((t, p)) => r == Some((t, p as usize)) && pos <= p <= s@.len(),
            None => r is None,
        },
{
    let len = s.len();
    let p1 = skip_blank_chars(s, pos);
    match token(s, p1, Token::Semi) {
        Some(t) => {
            assert(token_text(Token::Semi).len() == 1);
            Some((Some(t), skip_whitespace(s, p1 + 1)))
        },
        None => {
            if p1 < s.len() && s[p1] == '\n' {
                assert(s@.subrange(p1 as int, p1 + 1) =~= seq!['\n']);
                Some((None, p1 + 1))
            } else {
                assert(!lit_at(s@, p1 as int, seq!['\n'])) by {
                    if p1 + 1 <= s@.len() {
                        assert(s@.subrange(p1 as int, p1 + 1)[0] == s@[p1 as int]);
                    }
                }
                None
            }
        },
    }
}

/// A token's own text is read as that token, spanning all of it.
pub proof fn lemma_token_text_read(tk: Token)
    ensures
        token_at(token_text(tk), 0, tk) == Some(
            Spanned { span: Span { start: 0, len: token_text(tk).len() as usize }, value: tk },
        ),
{
    assert(token_text(tk).subrange(0, token_text(tk).len() as int) =~= token_text(tk));
}

/// A keyword followed by a letter or a digit is the start of a longer word and
/// is not read as the keyword.
pub proof fn lemma_keyword_in_word(tk: Token, s: Seq<char>, pos: int)
    requires
        !spec_is_punctuation(tk),
        lit_at(s, pos, token_text(tk)),
        pos + token_text(tk).len() < s.len(),
        is_ascii_alnum(s[pos + token_text(tk).len()]),
    ensures
        token_at(s, pos, tk) is None,
{
}

/// A word spelled as a keyword is never read as an identifier.
pub proof fn lemma_keyword_not_ident(tk: Token, s: Seq<char>, pos: int)
    requires
        !spec_is_punctuation(tk),
        lit_at(s, pos, token_text(tk)),
        ident_run(s, pos) == token_text(tk).len(),
    ensures
        ident_at(s, pos) is None,
{
    assert(is_keyword(s.subrange(pos, pos + ident_run(s, pos))));
}

/// The digits of a natural number are decimal digits, and read back as it.
proof fn lemma_decimal_digits(n: nat)
    ensures
        decimal_nat(n).len() >= 1,
        forall|i: int| 0 <= i < decimal_nat(n).len() ==> is_ascii_digit(#[trigger] decimal_nat(n)[i]),
        digits_value(decimal_nat(n)) == n,
    decreases n,
{
    if n < 10 {
        assert(decimal_nat(n).drop_last() =~= Seq::<char>::empty());
        assert(digit_char(n as int) as int == 48 + n);
        assert('0' as int == 48);
        assert(decimal_nat(n).last() == digit_char(n as int));
        assert(digits_value(decimal_nat(n)) == digits_value(decimal_nat(n).drop_last()) * 10 + (
        decimal_nat(n).last() as int - '0' as int));
    } else {
        lemma_decimal_digits(n / 10);
        let d = decimal_nat(n);
        assert(d.drop_last() =~= decimal_nat(n / 10));
        assert(digit_char((n % 10) as int) as int == 48 + n % 10);
        assert((n / 10) * 10 + n % 10 == n);
        assert('0' as int == 48);
        assert(d.last() == digit_char((n % 10) as int));
        assert(digits_value(d) == digits_value(d.drop_last()) * 10 + (d.last() as int - '0' as int));
        assert forall|i: int| 0 <= i < d.len() implies is_ascii_digit(#[trigger] d[i]) by {
            if i < d.len() - 1 {
                assert(d[i] == decimal_nat(n / 10)[i]);
            }
        }
    }
}

/// A run of digits reaches the end of a text made of digits only.
proof fn lemma_digit_run_all(s: Seq<char>, k: int)
    requires
        0 <= k <= s.len(),
        forall|i: int| k <= i < s.len() ==> is_ascii_digit(#[trigger] s[i]),
    ensures
        digit_run(s, k) == s.len() - k,
    decreases s.len() - k,
{
    if k < s.len() {
        lemma_digit_run_all(s, k + 1);
    }
}

/// Every `i32` written in decimal is read back as a number with that value,
/// spanning the whole text.
pub proof fn lemma_number_roundtrip(v: i32)
    ensures
        number_at(decimal_int(v as int), 0) == Some(
            (
                Spanned { span: Span { start: 0, len: decimal_int(v as int).len() as usize }, value: v },
                decimal_int(v as int).len() as int,
            ),
        ),
{
    let s = decimal_int(v as int);
    if v < 0 {
        let m: nat = (-v) as nat;
        lemma_decimal_digits(m);
        let d = decimal_nat(m);
        assert(s == seq!['-'] + d);
        assert forall|i: int| 1 <= i < s.len() implies is_ascii_digit(#[trigger] s[i]) by {
            assert(s[i] == d[i - 1]);
        }
        lemma_digit_run_all(s, 1);
        assert(s.subrange(1, s.len() as int) =~= d);
    } else {
        lemma_decimal_digits(v as nat);
        let d = decimal_nat(v as nat);
        assert(s == d);
        lemma_digit_run_all(s, 0);
        assert(s.subrange(0, s.len() as int) =~= d);
        assert(is_ascii_digit(s[0]));
    }
}

} // verus!
