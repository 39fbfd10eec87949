//! The grammar of the language, over the characters of the source.
//!
//! Each rule is a function from a position to what it matched there and the
//! position after it, or `None` where it does not match. Choices take the
//! first alternative that matches and repetitions are greedy, as in a
//! parsing expression grammar; a repetition also ends at an element that
//! would not advance.
//!
//! Beside each rule `p_x` stands `f_x`: what the rule records as expected,
//! and where, on its way, about every part of it that did not match (see
//! `failure.rs`). A token, an identifier, a number and a name given to a rule
//! (`Block`, `Expression`, `Function`, `Label`, `Let`) record their text; an
//! operator or punctuation read directly records its text in quotes; nothing
//! is recorded for whitespace, for the tokens that are only tried, nor for the
//! `(` that opens a parenthesised expression.

use vstd::prelude::*;

use crate::nodes::model::{
    SpecBlock, SpecExpr, SpecFnArg, SpecFnArgs, SpecItem, SpecItemFunction, SpecStatement,
};
use crate::nodes::ExprBinary;
use crate::parser::failure::{mark, no_failure, SpecFailure};
use crate::parser::lexer::{
    digit_run, eol, ident_at, lit_at, number_at, opt_token, skip_blanks, skip_ws, token_at, token_end,
    ws_req,
};
use crate::parser::{token_text, Span, Spanned, Token};

verus! {

broadcast use crate::parser::lexer::lemma_skip_ws, crate::parser::lexer::lemma_skip_blanks,
    crate::parser::lexer::lemma_ident_run, crate::parser::lexer::lemma_digit_run;

/// Whether a rule that started at `pos` and ended at `p` advanced within the source.
pub open spec fn advances(s: Seq<char>, pos: int, p: int) -> bool {
    pos < p <= s.len()
}

/// The operators of binary expressions, in the order they are tried: text,
/// kind and binding level.
pub open spec fn binary_op(i: int) -> (Seq<char>, ExprBinary, int) {
    if i == 0 {
        (seq!['=', '='], ExprBinary::Eq, 1)
    } else if i == 1 {
        (seq!['!', '='], ExprBinary::Ne, 1)
    } else if i == 2 {
        (seq!['<', '='], ExprBinary::Le, 1)
    } else if i == 3 {
        (seq!['>', '='], ExprBinary::Ge, 1)
    } else if i == 4 {
        (seq!['>'], ExprBinary::Lt, 1)
    } else if i == 5 {
        (seq!['<'], ExprBinary::Gt, 1)
    } else if i == 6 {
        (seq!['+'], ExprBinary::Add, 3)
    } else {
        (seq!['-'], ExprBinary::Sub, 3)
    }
}

/// The number of binary operators.
pub open spec fn binary_op_count() -> int {
    8
}

/// The first operator from index `i` on that follows at `pos`, is allowed at
/// binding level `min`, and whose right operand parses: its kind, the operand,
/// and the position after it.
pub open spec fn p_infix(s: Seq<char>, pos: int, min: int, i: int) -> Option<(ExprBinary, SpecExpr, int)>
    decreases s.len() - pos, 0int, binary_op_count() - i,
{
    if i < 0 || i >= binary_op_count() || pos < 0 || pos > s.len() {
        None
    } else {
        let (text, kind, level) = binary_op(i);
        let q1 = skip_ws(s, pos);
        let attempt = if level >= min && lit_at(s, q1, text) {
            p_prec(s, skip_ws(s, q1 + text.len()), level + 1)
        } else {
            None
        };
        match attempt {
            Some((rhs, p)) => Some((kind, rhs, p)),
            None => p_infix(s, pos, min, i + 1),
        }
    }
}

/// The operators that follow a left operand, applied from left to right.
pub open spec fn p_levels(s: Seq<char>, pos: int, min: int, lhs: SpecExpr) -> (SpecExpr, int)
    decreases s.len() - pos, 1int, 0int,
{
    match p_infix(s, pos, min, 0) {
        Some((kind, rhs, p)) => if advances(s, pos, p) {
            p_levels(
                s,
                p,
                min,
                SpecExpr::Binary { kind, lhs: Box::new(lhs), rhs: Box::new(rhs), swap_load: false },
            )
        } else {
            (lhs, pos)
        },
        None => (lhs, pos),
    }
}

/// A block: `{`, statements, `}`, each followed by optional whitespace.
pub open spec fn p_block(s: Seq<char>, pos: int) -> Option<(SpecBlock, int)>
    decreases s.len() - pos, 2int, 0int,
{
    if pos < 0 || pos > s.len() {
        None
    } else {
        match token_at(s, pos, Token::BraceO) {
            None => None,
            Some(open) => {
                let (stmts, p1) = p_stmts(s, skip_ws(s, pos + 1));
                let p2 = skip_ws(s, p1);
                match token_at(s, p2, Token::BraceC) {
                    None => None,
                    Some(close) => Some((SpecBlock { open, stmts, close }, skip_ws(s, p2 + 1))),
                }
            },
        }
    }
}

/// A simple expression: a number, a variable, a block, a label, or an
/// expression in parentheses.
pub open spec fn p_stom(s: Seq<char>, pos: int) -> Option<(SpecExpr, int)>
    decreases s.len() - pos, 3int, 0int,
{
    if pos < 0 || pos > s.len() {
        None
    } else if let Some((n, p)) = number_at(s, pos) {
        Some((SpecExpr::Number(n), p))
    } else if let Some(i) = ident_at(s, pos) {
        Some((SpecExpr::Ident(i), pos + i.value.len()))
    } else if let Some((b, p)) = p_block(s, pos) {
        Some((SpecExpr::Block(b), p))
    } else if token_at(s, pos, Token::SQuot) is Some && ident_at(s, skip_ws(s, pos + 1)) is Some {
        let i = ident_at(s, skip_ws(s, pos + 1)).unwrap();
        Some((SpecExpr::Label(i), skip_ws(s, pos + 1) + i.value.len()))
    } else if lit_at(s, pos, seq!['(']) {
        match p_expr(s, skip_ws(s, pos + 1)) {
            None => None,
            Some((e, p1)) => {
                let p2 = skip_ws(s, p1);
                if lit_at(s, p2, seq![')']) {
                    Some((e, p2 + 1))
                } else {
                    None
                }
            },
        }
    } else {
        None
    }
}

/// What stands first in an expression: an assignment to a variable, a call,
/// or a simple expression.
pub open spec fn p_prefix(s: Seq<char>, pos: int) -> Option<(SpecExpr, int)>
    decreases s.len() - pos, 4int, 0int,
{
    if pos < 0 || pos > s.len() {
        None
    } else {
        let assign = match ident_at(s, pos) {
            Some(name) => {
                let p1 = skip_ws(s, pos + name.value.len());
                if lit_at(s, p1, seq!['=']) {
                    match p_prec(s, skip_ws(s, p1 + 1), 1) {
                        Some((y, p2)) => Some(
                            (SpecExpr::Assign(Box::new(SpecExpr::Ident(name)), Box::new(y)), p2),
                        ),
                        None => None,
                    }
                } else {
                    None
                }
            },
            None => None,
        };
        let call = match p_stom(s, pos) {
            Some((c, p1)) => {
                let p2 = if pos <= p1 <= s.len() { skip_ws(s, p1) } else { p1 };
                if lit_at(s, p2, seq!['(']) && advances(s, pos, p2 + 1) {
                    let (args, p3) = p_args(s, p2 + 1);
                    if lit_at(s, p3, seq![')']) {
                        Some((SpecExpr::Call(Box::new(c), args), p3 + 1))
                    } else {
                        None
                    }
                } else {
                    None
                }
            },
            None => None,
        };
        if assign is Some {
            assign
        } else if call is Some {
            call
        } else {
            p_stom(s, pos)
        }
    }
}

/// An expression whose operators bind at level `min` or tighter.
pub open spec fn p_prec(s: Seq<char>, pos: int, min: int) -> Option<(SpecExpr, int)>
    decreases s.len() - pos, 5int, 0int,
{
    match p_prefix(s, pos) {
        None => None,
        Some((lhs, p1)) => if advances(s, pos, p1) {
            Some(p_levels(s, p1, min, lhs))
        } else {
            None
        },
    }
}

/// An expression.
pub open spec fn p_expr(s: Seq<char>, pos: int) -> Option<(SpecExpr, int)>
    decreases s.len() - pos, 6int, 0int,
{
    p_prec(s, pos, 0)
}

/// The arguments of a call: expressions separated by commas, each comma with
/// optional whitespace around it.
pub open spec fn p_args(s: Seq<char>, pos: int) -> (Seq<SpecExpr>, int)
    decreases s.len() - pos, 10int, 0int,
{
    match p_expr(s, pos) {
        Some((e, p1)) => if advances(s, pos, p1) {
            p_args_rest(s, p1, seq![e])
        } else {
            (Seq::empty(), pos)
        },
        None => (Seq::empty(), pos),
    }
}

/// The arguments after the first, appended to `acc`.
pub open spec fn p_args_rest(s: Seq<char>, pos: int, acc: Seq<SpecExpr>) -> (Seq<SpecExpr>, int)
    decreases s.len() - pos, 10int, 0int,
{
    if pos < 0 || pos > s.len() {
        (acc, pos)
    } else {
        let q1 = skip_ws(s, pos);
        if lit_at(s, q1, seq![',']) {
            match p_expr(s, skip_ws(s, q1 + 1)) {
                Some((e, p)) => if advances(s, pos, p) {
                    p_args_rest(s, p, acc.push(e))
                } else {
                    (acc, pos)
                },
                None => (acc, pos),
            }
        } else {
            (acc, pos)
        }
    }
}

/// `let name = expr;`, the `;` optional.
pub open spec fn p_stmt_let(s: Seq<char>, pos: int) -> Option<(SpecStatement, int)>
    decreases s.len() - pos, 7int, 0int,
{
    if pos < 0 || pos > s.len() {
        None
    } else {
        match token_at(s, pos, Token::Let) {
            None => None,
            Some(let_) => match ws_req(s, token_end(pos, Token::Let)) {
                None => None,
                Some(p1) => match ident_at(s, p1) {
                    None => None,
                    Some(name) => {
                        let p2 = skip_ws(s, p1 + name.value.len());
                        if token_at(s, p2, Token::Equal) is None {
                            None
                        } else {
                            match p_expr(s, skip_ws(s, p2 + 1)) {
                                None => None,
                                Some((expr, p3)) => {
                                    let (semi, p4) = opt_token(s, skip_ws(s, p3), Token::Semi);
                                    Some((SpecStatement::Let { let_, name, expr, semi }, skip_ws(s, p4)))
                                },
                            }
                        }
                    },
                },
            },
        }
    }
}

/// `loop { ... }`.
pub open spec fn p_stmt_loop(s: Seq<char>, pos: int) -> Option<(SpecStatement, int)>
    decreases s.len() - pos, 7int, 0int,
{
    if pos < 0 || pos > s.len() {
        None
    } else {
        match token_at(s, pos, Token::Loop) {
            None => None,
            Some(loop_) => match p_block(s, skip_ws(s, token_end(pos, Token::Loop))) {
                None => None,
                Some((body, p1)) => Some((SpecStatement::Loop { loop_, body }, skip_ws(s, p1))),
            },
        }
    }
}

/// `while cond { ... }`.
pub open spec fn p_stmt_while(s: Seq<char>, pos: int) -> Option<(SpecStatement, int)>
    decreases s.len() - pos, 7int, 0int,
{
    if pos < 0 || pos > s.len() {
        None
    } else {
        match token_at(s, pos, Token::While) {
            None => None,
            Some(while_) => match p_expr(s, skip_ws(s, token_end(pos, Token::While))) {
                None => None,
                Some((cond, p1)) => {
                    let p2 = if pos <= p1 <= s.len() { skip_ws(s, p1) } else { p1 };
                    if advances(s, pos, p2) {
                        match p_block(s, p2) {
                            None => None,
                            Some((body, p3)) => Some(
                                (SpecStatement::While { while_, cond, body }, skip_ws(s, p3)),
                            ),
                        }
                    } else {
                        None
                    }
                },
            },
        }
    }
}

/// `'name:`.
pub open spec fn p_stmt_label(s: Seq<char>, pos: int) -> Option<(SpecStatement, int)> {
    match token_at(s, pos, Token::SQuot) {
        None => None,
        Some(squot) => match ident_at(s, skip_ws(s, pos + 1)) {
            None => None,
            Some(name) => {
                let p1 = skip_ws(s, skip_ws(s, pos + 1) + name.value.len());
                match token_at(s, p1, Token::Colon) {
                    None => None,
                    Some(colon) => Some(
                        (SpecStatement::Label { squot, name, colon }, skip_ws(s, p1 + 1)),
                    ),
                }
            },
        }
    }
}

/// An expression statement: a block with an optional `;`, or an expression
/// that ends its line.
pub open spec fn p_stmt_expr(s: Seq<char>, pos: int) -> Option<(SpecStatement, int)>
    decreases s.len() - pos, 7int, 0int,
{
    if pos < 0 || pos > s.len() {
        None
    } else {
        match p_block(s, pos) {
            Some((b, p1)) => {
                let p2 = if pos <= p1 <= s.len() { skip_ws(s, p1) } else { p1 };
                let (semi, p3) = opt_token(s, p2, Token::Semi);
                Some(
                    (
                        SpecStatement::Expr { expr: SpecExpr::Block(b), semi },
                        if pos <= p3 <= s.len() { skip_ws(s, p3) } else { p3 },
                    ),
                )
            },
            None => match p_expr(s, pos) {
                None => None,
                Some((e, p1)) => match eol(s, p1) {
                    None => None,
                    Some((semi, p2)) => Some((SpecStatement::Expr { expr: e, semi }, p2)),
                },
            },
        }
    }
}

/// A statement: the first of `let`, `loop`, `while`, a label and an
/// expression statement that matches.
pub open spec fn p_stmt(s: Seq<char>, pos: int) -> Option<(SpecStatement, int)>
    decreases s.len() - pos, 8int, 0int,
{
    if let Some(r) = p_stmt_let(s, pos) {
        Some(r)
    } else if let Some(r) = p_stmt_loop(s, pos) {
        Some(r)
    } else if let Some(r) = p_stmt_while(s, pos) {
        Some(r)
    } else if let Some(r) = p_stmt_label(s, pos) {
        Some(r)
    } else {
        p_stmt_expr(s, pos)
    }
}

/// Statements, as many as match one after the other.
pub open spec fn p_stmts(s: Seq<char>, pos: int) -> (Seq<SpecStatement>, int)
    decreases s.len() - pos, 9int, 0int,
{
    match p_stmt(s, pos) {
        Some((st, p1)) => if advances(s, pos, p1) {
            let (rest, p2) = p_stmts(s, p1);
            (seq![st] + rest, p2)
        } else {
            (Seq::empty(), pos)
        },
        None => (Seq::empty(), pos),
    }
}

} // verus!

verus! {

/// A function argument: `name: type`.
pub open spec fn p_fn_arg(s: Seq<char>, pos: int) -> Option<(SpecFnArg, int)> {
    match ident_at(s, pos) {
        None => None,
        Some(name) => {
            let p1 = skip_ws(s, pos + name.value.len());
            if token_at(s, p1, Token::Colon) is None {
                None
            } else {
                let p2 = skip_ws(s, p1 + 1);
                match ident_at(s, p2) {
                    None => None,
                    Some(ty) => Some((SpecFnArg { name, ty }, p2 + ty.value.len())),
                }
            }
        },
    }
}

/// The function arguments after the first, appended to `acc`.
pub open spec fn p_fn_arg_rest(s: Seq<char>, pos: int, acc: Seq<SpecFnArg>) -> (Seq<SpecFnArg>, int)
    decreases s.len() - pos,
{
    if pos < 0 || pos > s.len() {
        (acc, pos)
    } else {
        let q1 = skip_ws(s, pos);
        if lit_at(s, q1, seq![',']) {
            match p_fn_arg(s, skip_ws(s, q1 + 1)) {
                Some((a, p)) => if advances(s, pos, p) {
                    p_fn_arg_rest(s, p, acc.push(a))
                } else {
                    (acc, pos)
                },
                None => (acc, pos),
            }
        } else {
            (acc, pos)
        }
    }
}

/// The arguments of a function declaration: `(`, arguments separated by
/// commas, `)`.
pub open spec fn p_fn_args(s: Seq<char>, pos: int) -> Option<(SpecFnArgs, int)> {
    match token_at(s, pos, Token::ParenO) {
        None => None,
        Some(open) => {
            let p1 = skip_ws(s, pos + 1);
            let (args, p2) = match p_fn_arg(s, p1) {
                Some((a, p)) => if advances(s, p1, p) {
                    p_fn_arg_rest(s, p, seq![a])
                } else {
                    (Seq::empty(), p1)
                },
                None => (Seq::empty(), p1),
            };
            let p3 = skip_ws(s, p2);
            match token_at(s, p3, Token::ParenC) {
                None => None,
                Some(close) => Some((SpecFnArgs { open, args, close }, p3 + 1)),
            }
        },
    }
}

/// The return type of a function: `-> type`.
pub open spec fn p_fn_ret(s: Seq<char>, pos: int) -> Option<(Spanned<Seq<char>>, int)> {
    if token_at(s, pos, Token::Arrow) is None {
        None
    } else {
        let p1 = skip_ws(s, pos + 2);
        match ident_at(s, p1) {
            None => None,
            Some(ty) => Some((ty, p1 + ty.value.len())),
        }
    }
}

/// A function: optionally `unsafe`, then `fn`, its name, arguments, optional
/// return type and body.
pub open spec fn p_item_fn(s: Seq<char>, pos: int) -> Option<(SpecItemFunction, int)> {
    let (unsafe_, p1) = match token_at(s, pos, Token::Unsafe) {
        Some(u) => match ws_req(s, token_end(pos, Token::Unsafe)) {
            Some(p) => (Some(u), p),
            None => (None, pos),
        },
        None => (None, pos),
    };
    match token_at(s, p1, Token::Fn) {
        None => None,
        Some(fn_) => match ws_req(s, token_end(p1, Token::Fn)) {
            None => None,
            Some(p2) => match ident_at(s, p2) {
                None => None,
                Some(name) => match p_fn_args(s, skip_ws(s, p2 + name.value.len())) {
                    None => None,
                    Some((args, p3)) => {
                        let p4 = skip_ws(s, p3);
                        let (ret, p5) = match p_fn_ret(s, p4) {
                            Some((r, p)) => (Some(r), p),
                            None => (None, p4),
                        };
                        match p_block(s, skip_ws(s, p5)) {
                            None => None,
                            Some((body, p6)) => Some(
                                (
                                    SpecItemFunction {
                                        attrs: Seq::empty(),
                                        unsafe_,
                                        fn_,
                                        name,
                                        args,
                                        ret,
                                        body,
                                    },
                                    if 0 <= p6 <= s.len() { skip_ws(s, p6) } else { p6 },
                                ),
                            ),
                        }
                    },
                },
            },
        },
    }
}

/// Items, as many as match one after the other.
pub open spec fn p_items(s: Seq<char>, pos: int) -> (Seq<SpecItem>, int)
    decreases s.len() - pos,
{
    if pos < 0 || pos > s.len() {
        (Seq::empty(), pos)
    } else {
        match p_item_fn(s, pos) {
            Some((f, p)) => if advances(s, pos, p) {
                let (rest, p2) = p_items(s, p);
                (seq![SpecItem::Function(f)] + rest, p2)
            } else {
                (Seq::empty(), pos)
            },
            None => (Seq::empty(), pos),
        }
    }
}

/// A whole source: optional whitespace, then items up to the end; `Err` with
/// the position where the items stop short of the end.
pub open spec fn p_program(s: Seq<char>) -> Result<Seq<SpecItem>, int> {
    let (items, p) = p_items(s, skip_ws(s, 0));
    if p == s.len() {
        Ok(items)
    } else {
        Err(p)
    }
}

} // verus!

verus! {

/// The text of a binary operator as a parse error quotes it.
pub open spec fn binary_op_quoted(i: int) -> Seq<char> {
    if i == 0 {
        "\"==\""@
    } else if i == 1 {
        "\"!=\""@
    } else if i == 2 {
        "\"<=\""@
    } else if i == 3 {
        "\">=\""@
    } else if i == 4 {
        "\">\""@
    } else if i == 5 {
        "\"<\""@
    } else if i == 6 {
        "\"+\""@
    } else {
        "\"-\""@
    }
}

/// What a number records at `pos` where it does not match: digits whose value
/// does not fit an `i32` at their end, and a number at `pos`.
pub open spec fn f_number(s: Seq<char>, pos: int, f: SpecFailure) -> SpecFailure {
    let neg = 0 <= pos < s.len() && s[pos] == '-';
    let ds = if neg { pos + 1 } else { pos };
    let n = digit_run(s, ds);
    if number_at(s, pos) is Some {
        f
    } else if n > 0 {
        mark(mark(f, ds + n, "i32"@), pos, "Number"@)
    } else {
        mark(f, pos, "Number"@)
    }
}

/// What an identifier records at `pos` where none stands there.
pub open spec fn f_ident(s: Seq<char>, pos: int, f: SpecFailure) -> SpecFailure {
    if ident_at(s, pos) is Some {
        f
    } else {
        mark(f, pos, "Identifier"@)
    }
}

/// What an expected token records at `pos` where it does not stand there.
pub open spec fn f_token(s: Seq<char>, pos: int, tk: Token, f: SpecFailure) -> SpecFailure {
    if token_at(s, pos, tk) is Some {
        f
    } else {
        mark(f, pos, token_text(tk))
    }
}

/// What the end of a statement's line records where neither `;` nor a line
/// break follows.
pub open spec fn f_eol(s: Seq<char>, pos: int, f: SpecFailure) -> SpecFailure {
    if eol(s, pos) is Some {
        f
    } else {
        mark(f, skip_blanks(s, pos), "\"\\n\""@)
    }
}

/// What `p_infix` records where it, or a part of it, does not match.
pub open spec fn f_infix(s: Seq<char>, pos: int, min: int, i: int, f: SpecFailure) -> SpecFailure
    decreases s.len() - pos, 0int, binary_op_count() - i,
{
    if i < 0 || i >= binary_op_count() || pos < 0 || pos > s.len() {
        f
    } else {
        let (text, kind, level) = binary_op(i);
        let q1 = skip_ws(s, pos);
        if level >= min {
            if lit_at(s, q1, text) {
                let q2 = skip_ws(s, q1 + text.len());
                let f1 = f_prec(s, q2, level + 1, f);
                if p_prec(s, q2, level + 1) is Some {
                    f1
                } else {
                    f_infix(s, pos, min, i + 1, f1)
                }
            } else {
                f_infix(s, pos, min, i + 1, mark(f, q1, binary_op_quoted(i)))
            }
        } else {
            f_infix(s, pos, min, i + 1, f)
        }
    }
}

/// What `p_levels` records where it, or a part of it, does not match.
pub open spec fn f_levels(s: Seq<char>, pos: int, min: int, f: SpecFailure) -> SpecFailure
    decreases s.len() - pos, 1int, 0int,
{
    let f1 = f_infix(s, pos, min, 0, f);
    match p_infix(s, pos, min, 0) {
        Some((kind, rhs, p)) => if advances(s, pos, p) {
            f_levels(s, p, min, f1)
        } else {
            f1
        },
        None => f1,
    }
}

/// What `p_block` records where it, or a part of it, does not match.
pub open spec fn f_block(s: Seq<char>, pos: int, f: SpecFailure) -> SpecFailure
    decreases s.len() - pos, 2int, 0int,
{
    if pos < 0 || pos > s.len() {
        f
    } else {
        match token_at(s, pos, Token::BraceO) {
            None => mark(f, pos, "Block"@),
            Some(open) => {
                let f1 = f_stmts(s, skip_ws(s, pos + 1), f);
                let (stmts, p1) = p_stmts(s, skip_ws(s, pos + 1));
                let p2 = skip_ws(s, p1);
                match token_at(s, p2, Token::BraceC) {
                    None => mark(mark(f1, p2, token_text(Token::BraceC)), pos, "Block"@),
                    Some(close) => f1,
                }
            },
        }
    }
}

/// What `p_stom` records where it, or a part of it, does not match.
pub open spec fn f_stom(s: Seq<char>, pos: int, f: SpecFailure) -> SpecFailure
    decreases s.len() - pos, 3int, 0int,
{
    if pos < 0 || pos > s.len() {
        f
    } else {
        let f1 = f_number(s, pos, f);
        if number_at(s, pos) is Some {
            f1
        } else {
            let f2 = f_ident(s, pos, f1);
            if ident_at(s, pos) is Some {
                f2
            } else {
                let f3 = f_block(s, pos, f2);
                if p_block(s, pos) is Some {
                    f3
                } else {
                    let f4 = if token_at(s, pos, Token::SQuot) is Some {
                        f_ident(s, skip_ws(s, pos + 1), f3)
                    } else {
                        f3
                    };
                    if token_at(s, pos, Token::SQuot) is Some && ident_at(s, skip_ws(s, pos + 1)) is Some {
                        f4
                    } else if lit_at(s, pos, seq!['(']) {
                        let f5 = f_expr(s, skip_ws(s, pos + 1), f4);
                        match p_expr(s, skip_ws(s, pos + 1)) {
                            None => f5,
                            Some((e, p1)) => {
                                let p2 = skip_ws(s, p1);
                                if lit_at(s, p2, seq![')']) {
                                    f5
                                } else {
                                    mark(f5, p2, "\")\""@)
                                }
                            },
                        }
                    } else {
                        f4
                    }
                }
            }
        }
    }
}

/// What `p_prefix` records where it, or a part of it, does not match.
pub open spec fn f_prefix(s: Seq<char>, pos: int, f: SpecFailure) -> SpecFailure
    decreases s.len() - pos, 4int, 0int,
{
    if pos < 0 || pos > s.len() {
        f
    } else {
        let fa = match ident_at(s, pos) {
            None => mark(f, pos, "Identifier"@),
            Some(name) => {
                let p1 = skip_ws(s, pos + name.value.len());
                if lit_at(s, p1, seq!['=']) {
                    f_prec(s, skip_ws(s, p1 + 1), 1, f)
                } else {
                    mark(f, p1, "\"=\""@)
                }
            },
        };
        let assign = match ident_at(s, pos) {
            Some(name) => {
                let p1 = skip_ws(s, pos + name.value.len());
                lit_at(s, p1, seq!['=']) && p_prec(s, skip_ws(s, p1 + 1), 1) is Some
            },
            None => false,
        };
        if assign {
            fa
        } else {
            let fc = f_stom(s, pos, fa);
            let (fcall, call) = match p_stom(s, pos) {
                Some((c, p1)) => {
                    let p2 = if pos <= p1 <= s.len() { skip_ws(s, p1) } else { p1 };
                    if lit_at(s, p2, seq!['(']) && advances(s, pos, p2 + 1) {
                        let fc2 = f_args(s, p2 + 1, fc);
                        let (args, p3) = p_args(s, p2 + 1);
                        if lit_at(s, p3, seq![')']) {
                            (fc2, true)
                        } else {
                            (mark(fc2, p3, "\")\""@), false)
                        }
                    } else if lit_at(s, p2, seq!['(']) {
                        (fc, false)
                    } else {
                        (mark(fc, p2, "\"(\""@), false)
                    }
                },
                None => (fc, false),
            };
            if call {
                fcall
            } else {
                f_stom(s, pos, fcall)
            }
        }
    }
}

/// What `p_prec` records where it, or a part of it, does not match.
pub open spec fn f_prec(s: Seq<char>, pos: int, min: int, f: SpecFailure) -> SpecFailure
    decreases s.len() - pos, 5int, 0int,
{
    let f1 = f_prefix(s, pos, f);
    match p_prefix(s, pos) {
        None => f1,
        Some((lhs, p1)) => if advances(s, pos, p1) {
            f_levels(s, p1, min, f1)
        } else {
            f1
        },
    }
}

/// What `p_expr` records where it, or a part of it, does not match.
pub open spec fn f_expr(s: Seq<char>, pos: int, f: SpecFailure) -> SpecFailure
    decreases s.len() - pos, 6int, 0int,
{
    let f1 = f_prec(s, pos, 0, f);
    if p_expr(s, pos) is Some {
        f1
    } else {
        mark(f1, pos, "Expression"@)
    }
}

/// What `p_args` records where it, or a part of it, does not match.
pub open spec fn f_args(s: Seq<char>, pos: int, f: SpecFailure) -> SpecFailure
    decreases s.len() - pos, 10int, 0int,
{
    let f1 = f_expr(s, pos, f);
    match p_expr(s, pos) {
        Some((e, p1)) => if advances(s, pos, p1) {
            f_args_rest(s, p1, f1)
        } else {
            f1
        },
        None => f1,
    }
}

/// What `p_args_rest` records where it, or a part of it, does not match.
pub open spec fn f_args_rest(s: Seq<char>, pos: int, f: SpecFailure) -> SpecFailure
    decreases s.len() - pos, 10int, 0int,
{
    if pos < 0 || pos > s.len() {
        f
    } else {
        let q1 = skip_ws(s, pos);
        if lit_at(s, q1, seq![',']) {
            let f1 = f_expr(s, skip_ws(s, q1 + 1), f);
            match p_expr(s, skip_ws(s, q1 + 1)) {
                Some((e, p)) => if advances(s, pos, p) {
                    f_args_rest(s, p, f1)
                } else {
                    f1
                },
                None => f1,
            }
        } else {
            mark(f, q1, "\",\""@)
        }
    }
}

/// What `p_stmt_let` records where it, or a part of it, does not match.
pub open spec fn f_stmt_let(s: Seq<char>, pos: int, f: SpecFailure) -> SpecFailure
    decreases s.len() - pos, 7int, 0int,
{
    if pos < 0 || pos > s.len() {
        f
    } else {
        match token_at(s, pos, Token::Let) {
            None => mark(mark(f, pos, token_text(Token::Let)), pos, "Let"@),
            Some(let_) => match ws_req(s, token_end(pos, Token::Let)) {
                None => mark(f, pos, "Let"@),
                Some(p1) => match ident_at(s, p1) {
                    None => mark(mark(f, p1, "Identifier"@), pos, "Let"@),
                    Some(name) => {
                        let p2 = skip_ws(s, p1 + name.value.len());
                        if token_at(s, p2, Token::Equal) is None {
                            mark(f, pos, "Let"@)
                        } else {
                            let f1 = f_expr(s, skip_ws(s, p2 + 1), f);
                            match p_expr(s, skip_ws(s, p2 + 1)) {
                                None => mark(f1, pos, "Let"@),
                                Some((expr, p3)) => f_token(s, skip_ws(s, p3), Token::Semi, f1),
                            }
                        }
                    },
                },
            },
        }
    }
}

/// What `p_stmt_loop` records where it, or a part of it, does not match.
pub open spec fn f_stmt_loop(s: Seq<char>, pos: int, f: SpecFailure) -> SpecFailure
    decreases s.len() - pos, 7int, 0int,
{
    if pos < 0 || pos > s.len() {
        f
    } else {
        match token_at(s, pos, Token::Loop) {
            None => mark(f, pos, token_text(Token::Loop)),
            Some(loop_) => f_block(s, skip_ws(s, token_end(pos, Token::Loop)), f),
        }
    }
}

/// What `p_stmt_while` records where it, or a part of it, does not match.
pub open spec fn f_stmt_while(s: Seq<char>, pos: int, f: SpecFailure) -> SpecFailure
    decreases s.len() - pos, 7int, 0int,
{
    if pos < 0 || pos > s.len() {
        f
    } else {
        match token_at(s, pos, Token::While) {
            None => mark(f, pos, token_text(Token::While)),
            Some(while_) => {
                let q = skip_ws(s, token_end(pos, Token::While));
                let f1 = f_expr(s, q, f);
                match p_expr(s, q) {
                    None => f1,
                    Some((cond, p1)) => {
                        let p2 = if pos <= p1 <= s.len() { skip_ws(s, p1) } else { p1 };
                        if advances(s, pos, p2) {
                            f_block(s, p2, f1)
                        } else {
                            f1
                        }
                    },
                }
            },
        }
    }
}

/// What `p_stmt_label` records where it, or a part of it, does not match.
pub open spec fn f_stmt_label(s: Seq<char>, pos: int, f: SpecFailure) -> SpecFailure {
    match token_at(s, pos, Token::SQuot) {
        None => mark(f, pos, "Label"@),
        Some(squot) => match ident_at(s, skip_ws(s, pos + 1)) {
            None => mark(mark(f, skip_ws(s, pos + 1), "Identifier"@), pos, "Label"@),
            Some(name) => {
                let p1 = skip_ws(s, skip_ws(s, pos + 1) + name.value.len());
                match token_at(s, p1, Token::Colon) {
                    None => mark(mark(f, p1, token_text(Token::Colon)), pos, "Label"@),
                    Some(colon) => f,
                }
            },
        },
    }
}

/// What `p_stmt_expr` records where it, or a part of it, does not match.
pub open spec fn f_stmt_expr(s: Seq<char>, pos: int, f: SpecFailure) -> SpecFailure
    decreases s.len() - pos, 7int, 0int,
{
    if pos < 0 || pos > s.len() {
        f
    } else {
        let f1 = f_block(s, pos, f);
        match p_block(s, pos) {
            Some((b, p1)) => {
                let p2 = if pos <= p1 <= s.len() { skip_ws(s, p1) } else { p1 };
                f_token(s, p2, Token::Semi, f1)
            },
            None => {
                let f2 = f_expr(s, pos, f1);
                match p_expr(s, pos) {
                    None => f2,
                    Some((e, p1)) => f_eol(s, p1, f2),
                }
            },
        }
    }
}

/// What `p_stmt` records where it, or a part of it, does not match.
pub open spec fn f_stmt(s: Seq<char>, pos: int, f: SpecFailure) -> SpecFailure
    decreases s.len() - pos, 8int, 0int,
{
    let f1 = f_stmt_let(s, pos, f);
    if p_stmt_let(s, pos) is Some {
        f1
    } else {
        let f2 = f_stmt_loop(s, pos, f1);
        if p_stmt_loop(s, pos) is Some {
            f2
        } else {
            let f3 = f_stmt_while(s, pos, f2);
            if p_stmt_while(s, pos) is Some {
                f3
            } else {
                let f4 = f_stmt_label(s, pos, f3);
                if p_stmt_label(s, pos) is Some {
                    f4
                } else {
                    f_stmt_expr(s, pos, f4)
                }
            }
        }
    }
}

/// What `p_stmts` records where it, or a part of it, does not match.
pub open spec fn f_stmts(s: Seq<char>, pos: int, f: SpecFailure) -> SpecFailure
    decreases s.len() - pos, 9int, 0int,
{
    let f1 = f_stmt(s, pos, f);
    match p_stmt(s, pos) {
        Some((st, p1)) => if advances(s, pos, p1) {
            f_stmts(s, p1, f1)
        } else {
            f1
        },
        None => f1,
    }
}

/// What `p_fn_arg` records where it, or a part of it, does not match.
pub open spec fn f_fn_arg(s: Seq<char>, pos: int, f: SpecFailure) -> SpecFailure {
    match ident_at(s, pos) {
        None => mark(f, pos, "Identifier"@),
        Some(name) => {
            let p1 = skip_ws(s, pos + name.value.len());
            if token_at(s, p1, Token::Colon) is None {
                mark(f, p1, token_text(Token::Colon))
            } else {
                f_ident(s, skip_ws(s, p1 + 1), f)
            }
        },
    }
}

/// What `p_fn_arg_rest` records where it, or a part of it, does not match.
pub open spec fn f_fn_arg_rest(s: Seq<char>, pos: int, f: SpecFailure) -> SpecFailure
    decreases s.len() - pos,
{
    if pos < 0 || pos > s.len() {
        f
    } else {
        let q1 = skip_ws(s, pos);
        if lit_at(s, q1, seq![',']) {
            let f1 = f_fn_arg(s, skip_ws(s, q1 + 1), f);
            match p_fn_arg(s, skip_ws(s, q1 + 1)) {
                Some((a, p)) => if advances(s, pos, p) {
                    f_fn_arg_rest(s, p, f1)
                } else {
                    f1
                },
                None => f1,
            }
        } else {
            mark(f, q1, "\",\""@)
        }
    }
}

/// What `p_fn_args` records where it, or a part of it, does not match.
pub open spec fn f_fn_args(s: Seq<char>, pos: int, f: SpecFailure) -> SpecFailure {
    match token_at(s, pos, Token::ParenO) {
        None => mark(f, pos, token_text(Token::ParenO)),
        Some(open) => {
            let p1 = skip_ws(s, pos + 1);
            let f1 = f_fn_arg(s, p1, f);
            let (f2, p2) = match p_fn_arg(s, p1) {
                Some((a, p)) => if advances(s, p1, p) {
                    (f_fn_arg_rest(s, p, f1), p_fn_arg_rest(s, p, seq![a]).1)
                } else {
                    (f1, p1)
                },
                None => (f1, p1),
            };
            f_token(s, skip_ws(s, p2), Token::ParenC, f2)
        },
    }
}

/// What `p_fn_ret` records where it, or a part of it, does not match.
pub open spec fn f_fn_ret(s: Seq<char>, pos: int, f: SpecFailure) -> SpecFailure {
    if token_at(s, pos, Token::Arrow) is None {
        mark(f, pos, token_text(Token::Arrow))
    } else {
        f_ident(s, skip_ws(s, pos + 2), f)
    }
}

/// What `p_item_fn` records where it, or a part of it, does not match.
pub open spec fn f_item_fn(s: Seq<char>, pos: int, f: SpecFailure) -> SpecFailure {
    let p1 = match token_at(s, pos, Token::Unsafe) {
        Some(u) => match ws_req(s, token_end(pos, Token::Unsafe)) {
            Some(p) => p,
            None => pos,
        },
        None => pos,
    };
    match token_at(s, p1, Token::Fn) {
        None => mark(f, pos, "Function"@),
        Some(fn_) => match ws_req(s, token_end(p1, Token::Fn)) {
            None => mark(f, pos, "Function"@),
            Some(p2) => match ident_at(s, p2) {
                None => mark(mark(f, p2, "Identifier"@), pos, "Function"@),
                Some(name) => {
                    let q = skip_ws(s, p2 + name.value.len());
                    let f1 = f_fn_args(s, q, f);
                    match p_fn_args(s, q) {
                        None => mark(f1, pos, "Function"@),
                        Some((args, p3)) => {
                            let p4 = skip_ws(s, p3);
                            let f2 = f_fn_ret(s, p4, f1);
                            let p5 = match p_fn_ret(s, p4) {
                                Some((r, p)) => p,
                                None => p4,
                            };
                            let f3 = f_block(s, skip_ws(s, p5), f2);
                            if p_block(s, skip_ws(s, p5)) is Some {
                                f3
                            } else {
                                mark(f3, pos, "Function"@)
                            }
                        },
                    }
                },
            },
        },
    }
}

/// What `p_items` records where it, or a part of it, does not match.
pub open spec fn f_items(s: Seq<char>, pos: int, f: SpecFailure) -> SpecFailure
    decreases s.len() - pos,
{
    if pos < 0 || pos > s.len() {
        f
    } else {
        let f1 = f_item_fn(s, pos, f);
        match p_item_fn(s, pos) {
            Some((it, p)) => if advances(s, pos, p) {
                f_items(s, p, f1)
            } else {
                f1
            },
            None => f1,
        }
    }
}

/// The furthest failure of a parse of the whole source: every rule that did
/// not match records what it expected, and where the items stop short of the
/// end the end of the source was expected there.
pub open spec fn f_program(s: Seq<char>) -> SpecFailure {
    let f1 = f_items(s, skip_ws(s, 0), no_failure());
    let (items, p) = p_items(s, skip_ws(s, 0));
    if p == s.len() {
        f1
    } else {
        mark(f1, p, "EOF"@)
    }
}

} // verus!

verus! {

/// Where a source does not parse, its furthest failure lies no earlier than
/// where the items stop, and where it lies there the end of the source is
/// among what was expected.
pub proof fn lemma_failure_past_items(s: Seq<char>)
    requires
        p_program(s) is Err,
    ensures
        f_program(s).pos >= p_items(s, skip_ws(s, 0)).1,
        f_program(s).pos == p_items(s, skip_ws(s, 0)).1 ==> f_program(s).expected.contains("EOF"@),
{
}

} // verus!

// ---------------------------------------------------------------- parsing

use crate::nodes::{Block, Expr, Statement, StmtExpr, StmtLabel, StmtLet, StmtLoop, StmtWhile};
use crate::nodes::model::{
    block_fits, expr_fits, exprs_fit, fn_arg_fits, fn_args_fit, item_function_fits, program_fits,
    stmt_fits, stmts_fit, view_exprs, view_stmts,
};
use vstd::string::StrSliceExecFns;
use crate::nodes::expr::lemma_view_exprs;
use crate::nodes::statements::lemma_view_stmts;
use crate::parser::failure::Failure;
use crate::parser::lexer::{
    eol_match, ident, lemma_len_fits, lit_match, number_match, skip_blank_chars, skip_whitespace, token,
    whitespace,
};

verus! {

/// The binary operator at index `i` of the table: text, kind and binding level.
fn binary_op_at(i: usize) -> (r: (&'static str, ExprBinary, usize))
    requires
        i < 8,
    ensures
        r.0@ == binary_op(i as int).0,
        r.1 == binary_op(i as int).1,
        r.2 == binary_op(i as int).2,
{
    proof {
        reveal_strlit("==");
        reveal_strlit("!=");
        reveal_strlit("<=");
        reveal_strlit(">=");
        reveal_strlit(">");
        reveal_strlit("<");
        reveal_strlit("+");
        reveal_strlit("-");
    }
    if i == 0 {
        ("==", ExprBinary::Eq, 1)
    } else if i == 1 {
        ("!=", ExprBinary::Ne, 1)
    } else if i == 2 {
        ("<=", ExprBinary::Le, 1)
    } else if i == 3 {
        (">=", ExprBinary::Ge, 1)
    } else if i == 4 {
        (">", ExprBinary::Lt, 1)
    } else if i == 5 {
        ("<", ExprBinary::Gt, 1)
    } else if i == 6 {
        ("+", ExprBinary::Add, 3)
    } else {
        ("-", ExprBinary::Sub, 3)
    }
}

/// The quoted text of the binary operator at index `i`.
fn binary_op_quote(i: usize) -> (r: &'static str)
    requires
        i < 8,
    ensures
        r@ == binary_op_quoted(i as int),
{
    if i == 0 {
        "\"==\""
    } else if i == 1 {
        "\"!=\""
    } else if i == 2 {
        "\"<=\""
    } else if i == 3 {
        "\">=\""
    } else if i == 4 {
        "\">\""
    } else if i == 5 {
        "\"<\""
    } else if i == 6 {
        "\"+\""
    } else {
        "\"-\""
    }
}

/// Records what a number that does not match at `pos` expected.
fn fail_number(s: &Vec<char>, pos: usize, fail: &mut Failure)
    requires
        pos <= s@.len(),
        number_at(s@, pos as int) is None,
    ensures
        final(fail)@ == f_number(s@, pos as int, old(fail)@),
{
    let neg = pos < s.len() && s[pos] == '-';
    let ds = if neg {
        pos + 1
    } else {
        pos
    };
    let mut k = ds;
    while k < s.len() && s[k] >= '0' && s[k] <= '9'
        invariant
            ds <= k <= s@.len(),
            digit_run(s@, ds as int) == (k - ds) + digit_run(s@, k as int),
        decreases s@.len() - k,
    {
        k = k + 1;
    }
    if k > ds {
        fail.mark(k, "i32");
    }
    fail.mark(pos, "Number");
}

fn parse_infix(s: &Vec<char>, pos: usize, min: usize, i: usize, fail: &mut Failure) -> (r: Option<(ExprBinary, Expr, usize)>)
    requires
        pos <= s@.len(),
        min <= 4,
    ensures
        final(fail)@ == f_infix(s@, pos as int, min as int, i as int, old(fail)@),
        match p_infix(s@, pos as int, min as int, i as int) {
            Some((k, e, p)) => r matches Some((k2, x, q)) && k2 == k && x@ == e && q == p && q <= s@.len()
                && expr_fits(e),
            None => r is None,
        },
    decreases s@.len() - pos, 0int, 8 - i,
{
    proof {
        lemma_len_fits(s);
    }
    if i >= 8 {
        return None;
    }
    let (text, kind, level) = binary_op_at(i);
    let q1 = skip_whitespace(s, pos);
    let mut attempt: Option<(Expr, usize)> = None;
    if level >= min {
        if lit_match(s, q1, text) {
            let n = text.unicode_len();
            let q2 = skip_whitespace(s, q1 + n);
            attempt = parse_prec(s, q2, level + 1, fail);
        } else {
            fail.mark(q1, binary_op_quote(i));
        }
    }
    match attempt {
        Some((rhs, p)) => Some((kind, rhs, p)),
        None => parse_infix(s, pos, min, i + 1, fail),
    }
}

fn parse_levels(s: &Vec<char>, pos: usize, min: usize, lhs: Expr, fail: &mut Failure) -> (r: (Expr, usize))
    requires
        pos <= s@.len(),
        min <= 4,
        expr_fits(lhs@),
    ensures
        final(fail)@ == f_levels(s@, pos as int, min as int, old(fail)@),
        expr_fits(r.0@),
        r.0@ == p_levels(s@, pos as int, min as int, lhs@).0,
        r.1 == p_levels(s@, pos as int, min as int, lhs@).1,
        r.1 <= s@.len(),
    decreases s@.len() - pos, 1int, 0int,
{
    proof {
        lemma_len_fits(s);
    }
    match parse_infix(s, pos, min, 0, fail) {
        Some((kind, rhs, p)) => {
            if pos < p {
                parse_levels(
                    s,
                    p,
                    min,
                    Expr::Binary { kind, lhs: Box::new(lhs), rhs: Box::new(rhs), swap_load: false },
                    fail,
                )
            } else {
                (lhs, pos)
            }
        },
        None => (lhs, pos),
    }
}

fn parse_block(s: &Vec<char>, pos: usize, fail: &mut Failure) -> (r: Option<(Block, usize)>)
    requires
        pos <= s@.len(),
    ensures
        final(fail)@ == f_block(s@, pos as int, old(fail)@),
        match p_block(s@, pos as int) {
            Some((b, p)) => r matches Some((x, q)) && x@ == b && q == p && q <= s@.len() && block_fits(b),
            None => r is None,
        },
    decreases s@.len() - pos, 2int, 0int,
{
    proof {
        lemma_len_fits(s);
    }
    match token(s, pos, Token::BraceO) {
        None => {
            fail.mark(pos, "Block");
            None
        },
        Some(open) => {
            let p0 = skip_whitespace(s, pos + 1);
            let (stmts, p1) = parse_stmts(s, p0, fail);
            let p2 = skip_whitespace(s, p1);
            match token(s, p2, Token::BraceC) {
                None => {
                    fail.mark(p2, Token::BraceC.as_str());
                    fail.mark(pos, "Block");
                    None
                },
                Some(close) => {
                    let b = Block { open, stmts, close };
                    Some((b, skip_whitespace(s, p2 + 1)))
                },
            }
        },
    }
}

fn parse_stom(s: &Vec<char>, pos: usize, fail: &mut Failure) -> (r: Option<(Expr, usize)>)
    requires
        pos <= s@.len(),
    ensures
        final(fail)@ == f_stom(s@, pos as int, old(fail)@),
        match p_stom(s@, pos as int) {
            Some((e, p)) => r matches Some((x, q)) && x@ == e && q == p && q <= s@.len() && expr_fits(e),
            None => r is None,
        },
    decreases s@.len() - pos, 3int, 0int,
{
    proof {
        lemma_len_fits(s);
    }
    if let Some((n, p)) = number_match(s, pos) {
        return Some((Expr::Number(n), p));
    }
    fail_number(s, pos, fail);
    if let Some(i) = ident(s, pos) {
        let end = pos + i.span.len;
        return Some((Expr::Ident(i), end));
    }
    fail.mark(pos, "Identifier");
    if let Some((b, p)) = parse_block(s, pos, fail) {
        return Some((Expr::Block(b), p));
    }
    if token(s, pos, Token::SQuot).is_some() {
        let p1 = skip_whitespace(s, pos + 1);
        if let Some(i) = ident(s, p1) {
            let end = p1 + i.span.len;
            return Some((Expr::Label(i), end));
        }
        fail.mark(p1, "Identifier");
    }
    if lit_match(s, pos, "(") {
        proof {
            reveal_strlit("(");
        assert("("@ =~= seq!['(']);
            reveal_strlit(")");
        assert(")"@ =~= seq![')']);
        }
        let p1 = skip_whitespace(s, pos + 1);
        match parse_expr(s, p1, fail) {
            None => None,
            Some((e, p2)) => {
                let p3 = skip_whitespace(s, p2);
                if lit_match(s, p3, ")") {
                    Some((e, p3 + 1))
                } else {
                    fail.mark(p3, "\")\"");
                    None
                }
            },
        }
    } else {
        proof {
            reveal_strlit("(");
        assert("("@ =~= seq!['(']);
        }
        None
    }
}

} // verus!

verus! {

#[verifier::spinoff_prover]
#[verifier::rlimit(60)]
fn parse_prefix(s: &Vec<char>, pos: usize, fail: &mut Failure) -> (r: Option<(Expr, usize)>)
    requires
        pos <= s@.len(),
    ensures
        final(fail)@ == f_prefix(s@, pos as int, old(fail)@),
        match p_prefix(s@, pos as int) {
            Some((e, p)) => r matches Some((x, q)) && x@ == e && q == p && q <= s@.len() && expr_fits(e),
            None => r is None,
        },
    decreases s@.len() - pos, 4int, 0int,
{
    proof {
        lemma_len_fits(s);
    }
    proof {
        reveal_strlit("=");
        assert("="@ =~= seq!['=']);
        reveal_strlit("(");
        assert("("@ =~= seq!['(']);
        reveal_strlit(")");
        assert(")"@ =~= seq![')']);
    }
    if let Some(name) = ident(s, pos) {
        let p1 = skip_whitespace(s, pos + name.span.len);
        if !lit_match(s, p1, "=") {
            fail.mark(p1, "\"=\"");
        } else {
            let p2 = skip_whitespace(s, p1 + 1);
            if let Some((y, p3)) = parse_prec(s, p2, 1, fail) {
                let ghost nv = name@;
                let target = Expr::Ident(name);
                assert(target@ == SpecExpr::Ident(nv));
                let e = Expr::Assign(Box::new(target), Box::new(y));
                assert(e@ == SpecExpr::Assign(Box::new(SpecExpr::Ident(nv)), Box::new(y@)));
                assert(expr_fits(SpecExpr::Ident(nv)));
                return Some((e, p3));
            }
        }
    } else {
        fail.mark(pos, "Identifier");
    }
    if let Some((c, p1)) = parse_stom(s, pos, fail) {
        let p2 = if pos <= p1 { skip_whitespace(s, p1) } else { p1 };
        let open = lit_match(s, p2, "(");
        if !open {
            fail.mark(p2, "\"(\"");
        }
        if open && pos < p2 + 1 {
            let (args, p3) = parse_args(s, p2 + 1, fail);
            if !lit_match(s, p3, ")") {
                fail.mark(p3, "\")\"");
            } else {
                let ghost cv = c@;
                let ghost av = view_exprs(args@);
                let e = Expr::Call(Box::new(c), args);
                assert(e@ == SpecExpr::Call(Box::new(cv), av));
                return Some((e, p3 + 1));
            }
        }
    }
    parse_stom(s, pos, fail)
}

fn parse_prec(s: &Vec<char>, pos: usize, min: usize, fail: &mut Failure) -> (r: Option<(Expr, usize)>)
    requires
        pos <= s@.len(),
        min <= 4,
    ensures
        final(fail)@ == f_prec(s@, pos as int, min as int, old(fail)@),
        match p_prec(s@, pos as int, min as int) {
            Some((e, p)) => r matches Some((x, q)) && x@ == e && q == p && q <= s@.len() && expr_fits(e),
            None => r is None,
        },
    decreases s@.len() - pos, 5int, 0int,
{
    proof {
        lemma_len_fits(s);
    }
    match parse_prefix(s, pos, fail) {
        None => None,
        Some((lhs, p1)) => {
            if pos < p1 {
                Some(parse_levels(s, p1, min, lhs, fail))
            } else {
                None
            }
        },
    }
}

/// An expression at `pos`, and the position after it.
pub fn parse_expr(s: &Vec<char>, pos: usize, fail: &mut Failure) -> (r: Option<(Expr, usize)>)
    requires
        pos <= s@.len(),
    ensures
        final(fail)@ == f_expr(s@, pos as int, old(fail)@),
        match p_expr(s@, pos as int) {
            Some((e, p)) => r matches Some((x, q)) && x@ == e && q == p && q <= s@.len() && expr_fits(e),
            None => r is None,
        },
    decreases s@.len() - pos, 6int, 0int,
{
    proof {
        lemma_len_fits(s);
    }
    let r = parse_prec(s, pos, 0, fail);
    if r.is_none() {
        fail.mark(pos, "Expression");
    }
    r
}

fn parse_args(s: &Vec<char>, pos: usize, fail: &mut Failure) -> (r: (Vec<Expr>, usize))
    requires
        pos <= s@.len(),
    ensures
        final(fail)@ == f_args(s@, pos as int, old(fail)@),
        view_exprs(r.0@) == p_args(s@, pos as int).0,
        exprs_fit(view_exprs(r.0@)),
        r.1 == p_args(s@, pos as int).1,
        r.1 <= s@.len(),
    decreases s@.len() - pos, 10int, 0int,
{
    proof {
        lemma_len_fits(s);
    }
    match parse_expr(s, pos, fail) {
        Some((e, p1)) => {
            if pos < p1 {
                let mut acc: Vec<Expr> = Vec::new();
                acc.push(e);
                proof {
                    assert(acc@.drop_last() =~= Seq::<Expr>::empty());
                    assert(view_exprs(Seq::<Expr>::empty()) =~= Seq::<SpecExpr>::empty());
                    assert(acc@.last() == e);
                    assert(view_exprs(acc@) == view_exprs(acc@.drop_last()).push(acc@.last()@));
                    assert(view_exprs(acc@) =~= seq![e@]);
                    assert(seq![e@].drop_last() =~= Seq::<SpecExpr>::empty());
                    assert(seq![e@].last() == e@);
                    assert(exprs_fit(Seq::<SpecExpr>::empty()));
                    assert(exprs_fit(seq![e@]));
                }
                parse_args_rest(s, p1, acc, fail)
            } else {
                let v: Vec<Expr> = Vec::new();
                assert(view_exprs(v@) =~= Seq::<SpecExpr>::empty());
                (v, pos)
            }
        },
        None => {
            let v: Vec<Expr> = Vec::new();
            assert(view_exprs(v@) =~= Seq::<SpecExpr>::empty());
            (v, pos)
        },
    }
}

#[verifier::spinoff_prover]
#[verifier::rlimit(80)]
fn parse_args_rest(s: &Vec<char>, pos: usize, acc: Vec<Expr>, fail: &mut Failure) -> (r: (Vec<Expr>, usize))
    requires
        pos <= s@.len(),
        exprs_fit(view_exprs(acc@)),
    ensures
        final(fail)@ == f_args_rest(s@, pos as int, old(fail)@),
        exprs_fit(view_exprs(r.0@)),
        view_exprs(r.0@) == p_args_rest(s@, pos as int, view_exprs(acc@)).0,
        r.1 == p_args_rest(s@, pos as int, view_exprs(acc@)).1,
        r.1 <= s@.len(),
    decreases s@.len() - pos, 10int, 0int,
{
    proof {
        lemma_len_fits(s);
    }
    proof {
        reveal_strlit(",");
        assert(","@ =~= seq![',']);
    }
    let q1 = skip_whitespace(s, pos);
    if lit_match(s, q1, ",") {
        let q2 = skip_whitespace(s, q1 + 1);
        match parse_expr(s, q2, fail) {
            Some((e, p)) => {
                if pos < p {
                    let mut acc = acc;
                    let ghost before = acc@;
                    acc.push(e);
                    proof {
                        assert(acc@.drop_last() =~= before);
                        assert(view_exprs(acc@) == view_exprs(before).push(e@));
                        assert(view_exprs(acc@).drop_last() =~= view_exprs(before));
                    }
                    parse_args_rest(s, p, acc, fail)
                } else {
                    (acc, pos)
                }
            },
            None => (acc, pos),
        }
    } else {
        fail.mark(q1, "\",\"");
        (acc, pos)
    }
}

} // verus!

verus! {

#[verifier::spinoff_prover]
#[verifier::rlimit(60)]
fn parse_stmt_let(s: &Vec<char>, pos: usize, fail: &mut Failure) -> (r: Option<(Statement, usize)>)
    requires
        pos <= s@.len(),
    ensures
        final(fail)@ == f_stmt_let(s@, pos as int, old(fail)@),
        match p_stmt_let(s@, pos as int) {
            Some((st, p)) => r matches Some((x, q)) && x@ == st && q == p && q <= s@.len() && stmt_fits(st),
            None => r is None,
        },
    decreases s@.len() - pos, 7int, 0int,
{
    proof {
        lemma_len_fits(s);
    }
    let let_ = match token(s, pos, Token::Let) {
        None => {
            fail.mark(pos, Token::Let.as_str());
            fail.mark(pos, "Let");
            return None;
        },
        Some(t) => t,
    };
    let p1 = match whitespace(s, pos + 3) {
        None => {
            fail.mark(pos, "Let");
            return None;
        },
        Some(p) => p,
    };
    let name = match ident(s, p1) {
        None => {
            fail.mark(p1, "Identifier");
            fail.mark(pos, "Let");
            return None;
        },
        Some(i) => i,
    };
    let p2 = skip_whitespace(s, p1 + name.span.len);
    if token(s, p2, Token::Equal).is_none() {
        fail.mark(pos, "Let");
        return None;
    }
    let p3 = skip_whitespace(s, p2 + 1);
    let (expr, p4) = match parse_expr(s, p3, fail) {
        None => {
            fail.mark(pos, "Let");
            return None;
        },
        Some(r) => r,
    };
    let p5 = skip_whitespace(s, p4);
    let (semi, p6) = match token(s, p5, Token::Semi) {
        Some(t) => (Some(t), p5 + 1),
        None => {
            fail.mark(p5, Token::Semi.as_str());
            (None, p5)
        },
    };
    let p7 = skip_whitespace(s, p6);
    Some((Statement::Let(StmtLet { let_, name, expr, semi }), p7))
}

fn parse_stmt_loop(s: &Vec<char>, pos: usize, fail: &mut Failure) -> (r: Option<(Statement, usize)>)
    requires
        pos <= s@.len(),
    ensures
        final(fail)@ == f_stmt_loop(s@, pos as int, old(fail)@),
        match p_stmt_loop(s@, pos as int) {
            Some((st, p)) => r matches Some((x, q)) && x@ == st && q == p && q <= s@.len() && stmt_fits(st),
            None => r is None,
        },
    decreases s@.len() - pos, 7int, 0int,
{
    proof {
        lemma_len_fits(s);
    }
    let loop_ = match token(s, pos, Token::Loop) {
        None => {
            fail.mark(pos, Token::Loop.as_str());
            return None;
        },
        Some(t) => t,
    };
    let p1 = skip_whitespace(s, pos + 4);
    match parse_block(s, p1, fail) {
        None => None,
        Some((body, p2)) => Some((Statement::Loop(StmtLoop { loop_, body }), skip_whitespace(s, p2))),
    }
}

#[verifier::spinoff_prover]
#[verifier::rlimit(80)]
fn parse_stmt_while(s: &Vec<char>, pos: usize, fail: &mut Failure) -> (r: Option<(Statement, usize)>)
    requires
        pos <= s@.len(),
    ensures
        final(fail)@ == f_stmt_while(s@, pos as int, old(fail)@),
        match p_stmt_while(s@, pos as int) {
            Some((st, p)) => r matches Some((x, q)) && x@ == st && q == p && q <= s@.len() && stmt_fits(st),
            None => r is None,
        },
    decreases s@.len() - pos, 7int, 0int,
{
    proof {
        lemma_len_fits(s);
    }
    let while_ = match token(s, pos, Token::While) {
        None => {
            fail.mark(pos, Token::While.as_str());
            return None;
        },
        Some(t) => t,
    };
    let p1 = skip_whitespace(s, pos + 5);
    let (cond, p2) = match parse_expr(s, p1, fail) {
        None => {
            return None;
        },
        Some(r) => r,
    };
    let p3 = if pos <= p2 { skip_whitespace(s, p2) } else { p2 };
    if !(pos < p3) {
        return None;
    }
    match parse_block(s, p3, fail) {
        None => None,
        Some((body, p4)) => Some(
            (Statement::While(StmtWhile { while_, cond, body }), skip_whitespace(s, p4)),
        ),
    }
}

fn parse_stmt_label(s: &Vec<char>, pos: usize, fail: &mut Failure) -> (r: Option<(Statement, usize)>)
    requires
        pos <= s@.len(),
    ensures
        final(fail)@ == f_stmt_label(s@, pos as int, old(fail)@),
        match p_stmt_label(s@, pos as int) {
            Some((st, p)) => r matches Some((x, q)) && x@ == st && q == p && q <= s@.len() && stmt_fits(st),
            None => r is None,
        },
{
    proof {
        lemma_len_fits(s);
    }
    let squot = match token(s, pos, Token::SQuot) {
        None => {
            fail.mark(pos, "Label");
            return None;
        },
        Some(t) => t,
    };
    let p1 = skip_whitespace(s, pos + 1);
    let name = match ident(s, p1) {
        None => {
            fail.mark(p1, "Identifier");
            fail.mark(pos, "Label");
            return None;
        },
        Some(i) => i,
    };
    let p2 = skip_whitespace(s, p1 + name.span.len);
    match token(s, p2, Token::Colon) {
        None => {
            fail.mark(p2, Token::Colon.as_str());
            fail.mark(pos, "Label");
            None
        },
        Some(colon) => Some(
            (Statement::Label(StmtLabel { squot, name, colon }), skip_whitespace(s, p2 + 1)),
        ),
    }
}

#[verifier::spinoff_prover]
#[verifier::rlimit(80)]
fn parse_stmt_expr(s: &Vec<char>, pos: usize, fail: &mut Failure) -> (r: Option<(Statement, usize)>)
    requires
        pos <= s@.len(),
    ensures
        final(fail)@ == f_stmt_expr(s@, pos as int, old(fail)@),
        match p_stmt_expr(s@, pos as int) {
            Some((st, p)) => r matches Some((x, q)) && x@ == st && q == p && q <= s@.len() && stmt_fits(st),
            None => r is None,
        },
    decreases s@.len() - pos, 7int, 0int,
{
    proof {
        lemma_len_fits(s);
    }
    match parse_block(s, pos, fail) {
        Some((b, p1)) => {
            let p2 = if pos <= p1 { skip_whitespace(s, p1) } else { p1 };
            let (semi, p3) = match token(s, p2, Token::Semi) {
                Some(t) => (Some(t), p2 + 1),
                None => {
                    fail.mark(p2, Token::Semi.as_str());
                    (None, p2)
                },
            };
            let p4 = if pos <= p3 { skip_whitespace(s, p3) } else { p3 };
            Some((Statement::Expr(StmtExpr { expr: Expr::Block(b), semi }), p4))
        },
        None => match parse_expr(s, pos, fail) {
            None => None,
            Some((e, p1)) => match eol_match(s, p1) {
                None => {
                    let q = skip_blank_chars(s, p1);
                    fail.mark(q, "\"\\n\"");
                    None
                },
                Some((semi, p2)) => Some((Statement::Expr(StmtExpr { expr: e, semi }), p2)),
            },
        },
    }
}

fn parse_stmt(s: &Vec<char>, pos: usize, fail: &mut Failure) -> (r: Option<(Statement, usize)>)
    requires
        pos <= s@.len(),
    ensures
        final(fail)@ == f_stmt(s@, pos as int, old(fail)@),
        match p_stmt(s@, pos as int) {
            Some((st, p)) => r matches Some((x, q)) && x@ == st && q == p && q <= s@.len() && stmt_fits(st),
            None => r is None,
        },
    decreases s@.len() - pos, 8int, 0int,
{
    proof {
        lemma_len_fits(s);
    }
    if let Some(r) = parse_stmt_let(s, pos, fail) {
        return Some(r);
    }
    if let Some(r) = parse_stmt_loop(s, pos, fail) {
        return Some(r);
    }
    if let Some(r) = parse_stmt_while(s, pos, fail) {
        return Some(r);
    }
    if let Some(r) = parse_stmt_label(s, pos, fail) {
        return Some(r);
    }
    parse_stmt_expr(s, pos, fail)
}

/// A list of statements fits when both of its parts do.
proof fn lemma_stmts_fit_concat(a: Seq<SpecStatement>, b: Seq<SpecStatement>)
    ensures
        stmts_fit(a + b) == (stmts_fit(a) && stmts_fit(b)),
    decreases b.len(),
{
    if b.len() > 0 {
        lemma_stmts_fit_concat(a, b.drop_last());
        assert((a + b).drop_last() =~= a + b.drop_last());
        assert((a + b).last() == b.last());
    } else {
        assert(a + b =~= a);
    }
}

fn parse_stmts(s: &Vec<char>, pos: usize, fail: &mut Failure) -> (r: (Vec<Statement>, usize))
    requires
        pos <= s@.len(),
    ensures
        final(fail)@ == f_stmts(s@, pos as int, old(fail)@),
        view_stmts(r.0@) == p_stmts(s@, pos as int).0,
        stmts_fit(view_stmts(r.0@)),
        r.1 == p_stmts(s@, pos as int).1,
        r.1 <= s@.len(),
    decreases s@.len() - pos, 9int, 0int,
{
    proof {
        lemma_len_fits(s);
    }
    match parse_stmt(s, pos, fail) {
        Some((st, p1)) => {
            if pos < p1 {
                let (rest, p2) = parse_stmts(s, p1, fail);
                let mut v: Vec<Statement> = Vec::new();
                v.push(st);
                let mut rest = rest;
                let ghost rv = rest@;
                v.append(&mut rest);
                proof {
                    lemma_view_stmts(v@);
                    lemma_view_stmts(rv);
                    assert(view_stmts(v@) =~= seq![st@] + view_stmts(rv));
                    assert(seq![st@].drop_last() =~= Seq::<SpecStatement>::empty());
                    lemma_stmts_fit_concat(seq![st@], view_stmts(rv));
                    assert(stmts_fit(Seq::<SpecStatement>::empty()));
                    assert(stmts_fit(seq![st@]));
                }
                (v, p2)
            } else {
                let v: Vec<Statement> = Vec::new();
                assert(view_stmts(v@) =~= Seq::<SpecStatement>::empty());
                (v, pos)
            }
        },
        None => {
            let v: Vec<Statement> = Vec::new();
            assert(view_stmts(v@) =~= Seq::<SpecStatement>::empty());
            (v, pos)
        },
    }
}

} // verus!

use crate::nodes::{FnArg, FnArgs, Ident, Item, ItemFunction};

verus! {

fn parse_fn_arg(s: &Vec<char>, pos: usize, fail: &mut Failure) -> (r: Option<(FnArg, usize)>)
    requires
        pos <= s@.len(),
    ensures
        final(fail)@ == f_fn_arg(s@, pos as int, old(fail)@),
        match p_fn_arg(s@, pos as int) {
            Some((a, p)) => r matches Some((x, q)) && x@ == a && q == p && q <= s@.len() && fn_arg_fits(a),
            None => r is None,
        },
{
    proof {
        lemma_len_fits(s);
    }
    let name = match ident(s, pos) {
        None => {
            fail.mark(pos, "Identifier");
            return None;
        },
        Some(i) => i,
    };
    let p1 = skip_whitespace(s, pos + name.span.len);
    if token(s, p1, Token::Colon).is_none() {
        fail.mark(p1, Token::Colon.as_str());
        return None;
    }
    let p2 = skip_whitespace(s, p1 + 1);
    match ident(s, p2) {
        None => {
            fail.mark(p2, "Identifier");
            None
        },
        Some(ty) => {
            let end = p2 + ty.span.len;
            Some((FnArg { name, ty }, end))
        },
    }
}

fn parse_fn_arg_rest(s: &Vec<char>, pos: usize, acc: Vec<FnArg>, fail: &mut Failure) -> (r: (Vec<FnArg>, usize))
    requires
        pos <= s@.len(),
        forall|i: int| 0 <= i < acc@.len() ==> fn_arg_fits(#[trigger] acc@[i]@),
    ensures
        final(fail)@ == f_fn_arg_rest(s@, pos as int, old(fail)@),
        forall|i: int| 0 <= i < r.0@.len() ==> fn_arg_fits(#[trigger] r.0@[i]@),
        r.0@.map_values(|a: FnArg| a@) == p_fn_arg_rest(s@, pos as int, acc@.map_values(|a: FnArg| a@)).0,
        r.1 == p_fn_arg_rest(s@, pos as int, acc@.map_values(|a: FnArg| a@)).1,
        r.1 <= s@.len(),
    decreases s@.len() - pos,
{
    proof {
        lemma_len_fits(s);
        reveal_strlit(",");
        assert(","@ =~= seq![',']);
    }
    let q1 = skip_whitespace(s, pos);
    if lit_match(s, q1, ",") {
        let q2 = skip_whitespace(s, q1 + 1);
        match parse_fn_arg(s, q2, fail) {
            Some((a, p)) => {
                if pos < p {
                    let mut acc = acc;
                    let ghost before = acc@;
                    acc.push(a);
                    proof {
                        assert(acc@.map_values(|a: FnArg| a@) =~= before.map_values(|a: FnArg| a@).push(a@));
                    }
                    parse_fn_arg_rest(s, p, acc, fail)
                } else {
                    (acc, pos)
                }
            },
            None => (acc, pos),
        }
    } else {
        fail.mark(q1, "\",\"");
        (acc, pos)
    }
}

fn parse_fn_args(s: &Vec<char>, pos: usize, fail: &mut Failure) -> (r: Option<(FnArgs, usize)>)
    requires
        pos <= s@.len(),
    ensures
        final(fail)@ == f_fn_args(s@, pos as int, old(fail)@),
        match p_fn_args(s@, pos as int) {
            Some((a, p)) => r matches Some((x, q)) && x@ == a && q == p && q <= s@.len() && fn_args_fit(a),
            None => r is None,
        },
{
    proof {
        lemma_len_fits(s);
    }
    let open = match token(s, pos, Token::ParenO) {
        None => {
            fail.mark(pos, Token::ParenO.as_str());
            return None;
        },
        Some(t) => t,
    };
    let p1 = skip_whitespace(s, pos + 1);
    let (args, p2) = match parse_fn_arg(s, p1, fail) {
        Some((a, p)) => {
            if p1 < p {
                let mut acc: Vec<FnArg> = Vec::new();
                acc.push(a);
                assert(acc@.map_values(|a: FnArg| a@) =~= seq![a@]);
                parse_fn_arg_rest(s, p, acc, fail)
            } else {
                let v: Vec<FnArg> = Vec::new();
                assert(v@.map_values(|a: FnArg| a@) =~= Seq::<SpecFnArg>::empty());
                (v, p1)
            }
        },
        None => {
            let v: Vec<FnArg> = Vec::new();
            assert(v@.map_values(|a: FnArg| a@) =~= Seq::<SpecFnArg>::empty());
            (v, p1)
        },
    };
    let p3 = skip_whitespace(s, p2);
    match token(s, p3, Token::ParenC) {
        None => {
            fail.mark(p3, Token::ParenC.as_str());
            None
        },
        Some(close) => Some((FnArgs { open, args, close }, p3 + 1)),
    }
}

fn parse_fn_ret(s: &Vec<char>, pos: usize, fail: &mut Failure) -> (r: Option<(Spanned<Ident>, usize)>)
    requires
        pos <= s@.len(),
    ensures
        final(fail)@ == f_fn_ret(s@, pos as int, old(fail)@),
        match p_fn_ret(s@, pos as int) {
            Some((t, p)) => r matches Some((x, q)) && x@ == t && q == p && q <= s@.len() && t.span.fits(),
            None => r is None,
        },
{
    proof {
        lemma_len_fits(s);
    }
    if token(s, pos, Token::Arrow).is_none() {
        fail.mark(pos, Token::Arrow.as_str());
        return None;
    }
    let p1 = skip_whitespace(s, pos + 2);
    match ident(s, p1) {
        None => {
            fail.mark(p1, "Identifier");
            None
        },
        Some(ty) => {
            let end = p1 + ty.span.len;
            Some((ty, end))
        },
    }
}

#[verifier::spinoff_prover]
#[verifier::rlimit(100)]
fn parse_item_fn(s: &Vec<char>, pos: usize, fail: &mut Failure) -> (r: Option<(ItemFunction, usize)>)
    requires
        pos <= s@.len(),
    ensures
        final(fail)@ == f_item_fn(s@, pos as int, old(fail)@),
        match p_item_fn(s@, pos as int) {
            Some((f, p)) => r matches Some((x, q)) && x@ == f && q == p && q <= s@.len()
                && item_function_fits(f),
            None => r is None,
        },
{
    proof {
        lemma_len_fits(s);
    }
    let (unsafe_, p1) = match token(s, pos, Token::Unsafe) {
        Some(u) => match whitespace(s, pos + 6) {
            Some(p) => (Some(u), p),
            None => (None, pos),
        },
        None => (None, pos),
    };
    let fn_ = match token(s, p1, Token::Fn) {
        None => {
            fail.mark(pos, "Function");
            return None;
        },
        Some(t) => t,
    };
    let p2 = match whitespace(s, p1 + 2) {
        None => {
            fail.mark(pos, "Function");
            return None;
        },
        Some(p) => p,
    };
    let name = match ident(s, p2) {
        None => {
            fail.mark(p2, "Identifier");
            fail.mark(pos, "Function");
            return None;
        },
        Some(i) => i,
    };
    let p3 = skip_whitespace(s, p2 + name.span.len);
    let (args, p4) = match parse_fn_args(s, p3, fail) {
        None => {
            fail.mark(pos, "Function");
            return None;
        },
        Some(r) => r,
    };
    let p5 = skip_whitespace(s, p4);
    let (ret, p6) = match parse_fn_ret(s, p5, fail) {
        Some((t, p)) => (Some(t), p),
        None => (None, p5),
    };
    let p7 = skip_whitespace(s, p6);
    let (body, p8) = match parse_block(s, p7, fail) {
        None => {
            fail.mark(pos, "Function");
            return None;
        },
        Some(r) => r,
    };
    let attrs: Vec<crate::nodes::Attribute> = Vec::new();
    let f = ItemFunction { attrs, unsafe_, fn_, name, args, ret, body };
    proof {
        assert(f@.attrs =~= Seq::<crate::nodes::model::SpecAttribute>::empty());
    }
    Some((f, skip_whitespace(s, p8)))
}

fn parse_items(s: &Vec<char>, pos: usize, fail: &mut Failure) -> (r: (Vec<Item>, usize))
    requires
        pos <= s@.len(),
    ensures
        final(fail)@ == f_items(s@, pos as int, old(fail)@),
        r.0@.map_values(|i: Item| i@) == p_items(s@, pos as int).0,
        program_fits(p_items(s@, pos as int).0),
        r.1 == p_items(s@, pos as int).1,
        r.1 <= s@.len(),
    decreases s@.len() - pos,
{
    match parse_item_fn(s, pos, fail) {
        Some((f, p)) => {
            if pos < p {
                let (rest, p2) = parse_items(s, p, fail);
                let mut v: Vec<Item> = Vec::new();
                v.push(Item::Function(f));
                let mut rest = rest;
                let ghost rv = rest@;
                v.append(&mut rest);
                proof {
                    assert(v@.map_values(|i: Item| i@) =~= seq![SpecItem::Function(f@)] + rv.map_values(
                        |i: Item| i@,
                    ));
                    let all = v@.map_values(|i: Item| i@);
                    let tail = rv.map_values(|i: Item| i@);
                    assert forall|k: int| 0 <= k < all.len() implies crate::nodes::model::item_fits(#[trigger] all[k]) by {
                        if k > 0 {
                            assert(all[k] == tail[k - 1]);
                        }
                    }
                }
                (v, p2)
            } else {
                let v: Vec<Item> = Vec::new();
                assert(v@.map_values(|i: Item| i@) =~= Seq::<SpecItem>::empty());
                (v, pos)
            }
        },
        None => {
            let v: Vec<Item> = Vec::new();
            assert(v@.map_values(|i: Item| i@) =~= Seq::<SpecItem>::empty());
            (v, pos)
        },
    }
}

/// A whole source: its items, or the position where they stop short of the end.
pub fn parse_program(s: &Vec<char>, fail: &mut Failure) -> (r: Result<Vec<Item>, usize>)
    requires
        old(fail)@ == no_failure(),
    ensures
        final(fail)@ == f_program(s@),
        match p_program(s@) {
            Ok(items) => r matches Ok(v) && v@.map_values(|i: Item| i@) == items && program_fits(items),
            Err(p) => r == Err::<Vec<Item>, usize>(p as usize),
        },
{
    let p0 = skip_whitespace(s, 0);
    let (items, p) = parse_items(s, p0, fail);
    if p == s.len() {
        Ok(items)
    } else {
        fail.mark(p, "EOF");
        Err(p)
    }
}

} // verus!
