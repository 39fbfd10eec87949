//! Expressions.

use vstd::prelude::*;

use crate::nodes::model::{SpecExpr, view_spanned_ident, view_exprs, expr_span, exprs_span, expr_fits, exprs_fit};
use crate::nodes::{Block, Ident};
use crate::parser::{IntoSpanned, Span, Spanned};

verus! {

#[derive(Debug)]
pub enum Expr {
    Assign(Box<Expr>, Box<Expr>),
    Block(Block),
    Binary { kind: ExprBinary, lhs: Box<Expr>, rhs: Box<Expr>, swap_load: bool },
    Call(Box<Expr>, Vec<Expr>),
    Deref(Spanned<ExprDeref>, Box<Expr>),
    Ident(Spanned<Ident>),
    Label(Spanned<Ident>),
    Number(Spanned<i32>),
}

#[derive(Clone, Copy, Debug, PartialEq, Eq, Structural)]
pub enum ExprBinary {
    Add,
    Sub,
    // Conditions
    Eq,
    Ne,
    Gt,
    Ge,
    Lt,
    Le,
}

/// The width of a memory access, in bytes.
#[derive(Clone, Copy, Debug, PartialEq, Eq, Structural)]
pub enum ExprDeref {
    Byte,
    Half,
    Word,
}

/// The number of bytes a memory access of this width covers.
pub open spec fn deref_size(d: ExprDeref) -> nat {
    match d {
        ExprDeref::Byte => 1,
        ExprDeref::Half => 2,
        ExprDeref::Word => 4,
    }
}

impl ExprDeref {
    pub fn size(self) -> (n: usize)
        ensures
            n == deref_size(self),
    {
        match self {
            ExprDeref::Byte => 1,
            ExprDeref::Half => 2,
            ExprDeref::Word => 4,
        }
    }
}

/// The span of an expression.
pub fn span_of_expr(e: &Expr) -> (s: Span)
    requires
        expr_fits(e@),
    ensures
        s == expr_span(e@),
        s.fits(),
    decreases e,
{
    match e {
        Expr::Assign(a, b) => {
            let r = span_of_expr(a).merge(span_of_expr(b));
            assert(r == expr_span(e@));
            r
        },
        Expr::Block(b) => {
            let r = b.span();
            assert(r == expr_span(e@));
            r
        },
        Expr::Binary { lhs, rhs, .. } => {
            let r = span_of_expr(lhs).merge(span_of_expr(rhs));
            assert(r == expr_span(e@));
            r
        },
        Expr::Call(c, args) => {
            let cs = span_of_expr(c);
            let n = args.len();
            proof {
                lemma_view_exprs(args@);
                lemma_exprs_fit(args@);
            }
            assert(decreases_to!(*e => (*e)->Call_1));
            assert(decreases_to!(args => args@));
            let r = if n == 0 {
                cs.merge(Span::new(0, 0))
            } else if n == 1 {
                cs.merge(span_of_expr(&args[0]))
            } else {
                let first = span_of_expr(&args[0]);
                let last = span_of_expr(&args[n - 1]);
                assert(view_exprs(args@)[n - 1] == args@[n - 1]@);
                cs.merge(first.merge(last))
            };
            assert(n > 0 ==> view_exprs(args@)[0] == args@[0]@);
            assert(e@ == SpecExpr::Call(Box::new(c@), view_exprs(args@)));
            assert(expr_span(e@) == cs.spec_merge(exprs_span(view_exprs(args@))));
            assert(n >= 2 ==> exprs_span(view_exprs(args@)) == expr_span(args@[0]@).spec_merge(expr_span(args@[n-1]@)));
            assert(r == expr_span(e@));
            r
        },
        Expr::Deref(d, v) => {
            let r = d.span.merge(span_of_expr(v));
            assert(r == expr_span(e@));
            r
        },
        Expr::Ident(v) => v.span,
        Expr::Label(v) => v.span,
        Expr::Number(v) => v.span,
    }
}

/// The span of a list of expressions.
pub fn span_of_exprs(args: &Vec<Expr>) -> (s: Span)
    requires
        exprs_fit(view_exprs(args@)),
    ensures
        s == exprs_span(view_exprs(args@)),
        s.fits(),
{
    proof {
        lemma_view_exprs(args@);
        lemma_exprs_fit(args@);
    }
    let n = args.len();
    if n == 0 {
        Span::new(0, 0)
    } else if n == 1 {
        span_of_expr(&args[0])
    } else {
        span_of_expr(&args[0]).merge(span_of_expr(&args[n - 1]))
    }
}

impl IntoSpanned for Expr {
    open spec fn spec_span(&self) -> Span {
        expr_span(self@)
    }

    open spec fn spans_fit(&self) -> bool {
        expr_fits(self@)
    }

    fn span(&self) -> (s: Span) {
        span_of_expr(self)
    }
}

/// The view of a list of expressions has one element per expression.
pub proof fn lemma_view_exprs(s: Seq<Expr>)
    ensures
        view_exprs(s).len() == s.len(),
        forall|i: int| 0 <= i < s.len() ==> #[trigger] view_exprs(s)[i] == s[i]@,
    decreases s.len(),
{
    if s.len() > 0 {
        lemma_view_exprs(s.drop_last());
        assert(view_exprs(s) == view_exprs(s.drop_last()).push(s.last()@));
        assert forall|i: int| 0 <= i < s.len() implies #[trigger] view_exprs(s)[i] == s[i]@ by {
            if i < s.len() - 1 {
                assert(s.drop_last()[i] == s[i]);
            }
        }
    }
}

/// Every element of a list of fitting expressions fits.
pub proof fn lemma_exprs_fit(s: Seq<Expr>)
    ensures
        exprs_fit(view_exprs(s)) <==> forall|i: int| 0 <= i < s.len() ==> expr_fits(#[trigger] s[i]@),
    decreases s.len(),
{
    lemma_view_exprs(s);
    if s.len() > 0 {
        lemma_exprs_fit(s.drop_last());
        lemma_view_exprs(s.drop_last());
        assert(view_exprs(s).drop_last() =~= view_exprs(s.drop_last()));
        if exprs_fit(view_exprs(s)) {
            assert forall|i: int| 0 <= i < s.len() implies expr_fits(#[trigger] s[i]@) by {
                if i < s.len() - 1 {
                    assert(s.drop_last()[i] == s[i]);
                }
            }
        }
        if forall|i: int| 0 <= i < s.len() ==> expr_fits(#[trigger] s[i]@) {
            assert forall|i: int| 0 <= i < s.drop_last().len() implies expr_fits(
                #[trigger] s.drop_last()[i]@,
            ) by {
                assert(s.drop_last()[i] == s[i]);
            }
        }
    }
}

/// An expression on the left of `=` that is neither a variable nor a dereference.
#[derive(Clone, Copy, Debug, PartialEq, Eq, Hash, Structural)]
pub struct AnalyzeExprNotAssignable {
    pub location: Span,
}

/// A call whose callee is not a function name.
#[derive(Clone, Copy, Debug, PartialEq, Eq, Hash, Structural)]
pub struct AnalyzeCalleeIsNotIdent {
    pub location: Span,
}

/// A variable used before any `let` or argument declares it.
#[derive(Clone, Copy, Debug, PartialEq, Eq, Hash, Structural)]
pub struct AnalyzeVariableNotExistsError {
    pub location: Span,
}

/// A call of a function that is not (yet) declared.
#[derive(Clone, Copy, Debug, PartialEq, Eq, Hash, Structural)]
pub struct AnalyzeFunctionNotExistsError {
    pub location: Span,
}

/// Marks the errors that a later declaration of the missing function can withdraw.
#[derive(Clone, Copy, Debug, PartialEq, Eq, Hash, Structural)]
pub struct AnalyzeFunctionNotExistsMarker;

/// A call with another number of arguments than the function declares.
#[derive(Clone, Copy, Debug, PartialEq, Eq, Hash, Structural)]
pub struct AnalyzeFunctionMismatchArgsCountError {
    pub location: Span,
    pub provided: usize,
    pub original: Span,
    pub expected: usize,
}

/// The analyzer's per-expression scratch state.
#[derive(Clone, Copy, Debug, PartialEq, Eq, Structural)]
pub struct ExprAnalyzeStore {
    pub binary_cost: usize,
}

} // verus!

// ---------------------------------------------------------------- generation

use crate::generator::{
    can_next_result, can_prev_result,
    fresh_buf, spec_get_stack, spec_next_result, spec_prev_result, stack_total, Generate,
    GenerateBuf, Imm, Instruction, InstructionOf, Offset, Register, SpecBuf, SpecInstruction,
    SpecOffset,
};

verus! {

/// The number of nodes of an expression, not counting inside blocks.
pub open spec fn expr_size(e: SpecExpr) -> nat
    decreases e,
{
    match e {
        SpecExpr::Assign(a, b) => 1 + expr_size(*a) + expr_size(*b),
        SpecExpr::Binary { lhs, rhs, .. } => 1 + expr_size(*lhs) + expr_size(*rhs),
        SpecExpr::Call(c, args) => 1 + expr_size(*c) + exprs_size(args),
        SpecExpr::Deref(_, v) => 1 + expr_size(*v),
        _ => 1,
    }
}

pub open spec fn exprs_size(s: Seq<SpecExpr>) -> nat
    decreases s,
{
    if s.len() == 0 {
        0
    } else {
        exprs_size(s.drop_last()) + expr_size(s.last())
    }
}

/// The buffer with one more instruction.
pub open spec fn spec_push(b: SpecBuf, ins: SpecInstruction) -> SpecBuf {
    SpecBuf { buf: b.buf.push(ins), ..b }
}

pub open spec fn with_result(b: SpecBuf, r: Register) -> SpecBuf {
    SpecBuf { result: r, ..b }
}

/// The buffer with a label at its current position.
pub open spec fn spec_label_here(b: SpecBuf, name: Seq<char>) -> SpecBuf {
    SpecBuf { labels: b.labels.push((name, b.buf.len() as usize)), ..b }
}

/// The store of `reg` into memory of the given width.
pub open spec fn spec_store(size: ExprDeref, reg: Register, offset: SpecOffset) -> SpecInstruction {
    match size {
        ExprDeref::Byte => InstructionOf::Sb(reg, offset, Register::Stack),
        ExprDeref::Half => InstructionOf::Sh(reg, offset, Register::Stack),
        ExprDeref::Word => InstructionOf::Sw(reg, offset, Register::Stack),
    }
}

/// The load into `reg` from memory of the given width.
pub open spec fn spec_load(size: ExprDeref, reg: Register, offset: SpecOffset) -> SpecInstruction {
    match size {
        ExprDeref::Byte => InstructionOf::Lb(reg, offset, Register::Stack),
        ExprDeref::Half => InstructionOf::Lh(reg, offset, Register::Stack),
        ExprDeref::Word => InstructionOf::Lw(reg, offset, Register::Stack),
    }
}

/// The buffer after an expression's instructions, or `None` where the
/// generator cannot handle the expression.
pub open spec fn gen_expr(e: SpecExpr, b: SpecBuf) -> Option<SpecBuf>
    decreases expr_size(e), 1int,
{
    match e {
        SpecExpr::Assign(var, expr) => match *var {
            SpecExpr::Ident(v) => if stack_total(b.stack) > usize::MAX {
                None
            } else {
                match spec_get_stack(b.stack, v.value) {
                    None => None,
                    Some((offset, size)) => match gen_expr(*expr, b) {
                        None => None,
                        Some(b1) => Some(
                            spec_push(b1, spec_store(size, b1.result, SpecOffset::Imm(offset as i32))),
                        ),
                    },
                }
            },
            SpecExpr::Deref(size, value) => match {
                proof {
                    assert(expr_size(*var) == 1 + expr_size(*value));
                }
                gen_expr(*value, b)
            } {
                None => None,
                Some(b1) => match spec_next_result(b1.result) {
                    None => None,
                    Some(next) => match gen_expr(*expr, with_result(b1, next)) {
                        None => None,
                        Some(b2) => match spec_prev_result(b2.result) {
                            None => None,
                            Some(prev) => Some(
                                spec_push(
                                    with_result(b2, prev),
                                    spec_store(size.value, b2.result, SpecOffset::Relative(0, b1.result)),
                                ),
                            ),
                        },
                    },
                },
            },
            _ => None,
        },
        SpecExpr::Block(_) => None,
        SpecExpr::Binary { kind, lhs, rhs, swap_load } => {
            if kind == ExprBinary::Add && (*rhs) is Number {
                gen_add_imm(*lhs, (*rhs)->Number_0.value as int, b)
            } else if kind == ExprBinary::Add && (*lhs) is Number {
                gen_add_imm(*rhs, (*lhs)->Number_0.value as int, b)
            } else if kind == ExprBinary::Sub && (*rhs) is Number {
                gen_add_imm(*lhs, -((*rhs)->Number_0.value as int), b)
            } else if kind == ExprBinary::Add && (*lhs) is Ident {
                gen_op(kind, *lhs, *rhs, swap_load, b)
            } else if kind == ExprBinary::Add && (*rhs) is Ident {
                gen_op(kind, *rhs, *lhs, swap_load, b)
            } else if kind == ExprBinary::Sub {
                gen_op(kind, *lhs, *rhs, swap_load, b)
            } else {
                None
            }
        },
        SpecExpr::Call(callee, args) => match *callee {
            SpecExpr::Ident(name) => if b.stores.functions.contains_key(name.value) {
                match gen_args(args, b) {
                    None => None,
                    Some(b1) => Some(
                        spec_push(
                            with_result(b1, Register::Result),
                            InstructionOf::Call(
                                SpecOffset::Label(b.stores.functions[name.value].name.value),
                            ),
                        ),
                    ),
                }
            } else {
                None
            },
            _ => None,
        },
        SpecExpr::Deref(size, expr) => match gen_expr(*expr, b) {
            None => None,
            Some(b1) => Some(
                spec_push(b1, spec_load(size.value, b1.result, SpecOffset::Relative(0, b1.result))),
            ),
        },
        SpecExpr::Ident(var) => if stack_total(b.stack) > usize::MAX {
            None
        } else {
            match spec_get_stack(b.stack, var.value) {
                None => None,
                Some((offset, size)) => Some(
                    spec_push(b, spec_load(size, b.result, SpecOffset::Imm(offset as i32))),
                ),
            }
        },
        SpecExpr::Label(l) => Some(spec_label_here(b, l.value)),
        SpecExpr::Number(n) => Some(spec_push(b, InstructionOf::Li(b.result, Imm(n.value)))),
    }
}

/// `expr + value`: the expression, then an immediate addition to its register.
pub open spec fn gen_add_imm(expr: SpecExpr, value: int, b: SpecBuf) -> Option<SpecBuf>
    decreases expr_size(expr), 2int,
{
    if value < i32::MIN || value > i32::MAX {
        None
    } else {
        match gen_expr(expr, b) {
            None => None,
            Some(b1) => Some(
                spec_push(b1, InstructionOf::Addi(b1.result, b1.result, Imm(value as i32))),
            ),
        }
    }
}

/// `a + b` or `a - b` through two registers.
pub open spec fn gen_op(kind: ExprBinary, a: SpecExpr, c: SpecExpr, swap: bool, b: SpecBuf) -> Option<SpecBuf>
    decreases expr_size(a) + expr_size(c), 1int,
{
    match gen_binary(a, c, swap, b) {
        None => None,
        Some((ra, rc, b1)) => Some(
            spec_push(
                b1,
                if kind == ExprBinary::Add {
                    InstructionOf::Add(b.result, ra, rc)
                } else {
                    InstructionOf::Sub(b.result, ra, rc)
                },
            ),
        ),
    }
}

/// Both operands of a binary operation, each in its own register; `swap`
/// evaluates the right operand first. Returns the two registers.
pub open spec fn gen_binary(lhs: SpecExpr, rhs: SpecExpr, swap: bool, b: SpecBuf) -> Option<
    (Register, Register, SpecBuf),
>
    decreases expr_size(lhs) + expr_size(rhs), 0int,
{
    let first = if swap { rhs } else { lhs };
    let second = if swap { lhs } else { rhs };
    match gen_expr(first, b) {
        None => None,
        Some(b1) => match spec_next_result(b1.result) {
            None => None,
            Some(next) => match gen_expr(second, with_result(b1, next)) {
                None => None,
                Some(b2) => match spec_prev_result(b2.result) {
                    None => None,
                    Some(prev) => if swap {
                        Some((b2.result, b.result, with_result(b2, prev)))
                    } else {
                        Some((b.result, b2.result, with_result(b2, prev)))
                    },
                },
            },
        },
    }
}

/// The arguments of a call, each generated into its argument register.
pub open spec fn gen_args(args: Seq<SpecExpr>, b: SpecBuf) -> Option<SpecBuf>
    decreases exprs_size(args), 2int,
{
    if args.len() == 0 {
        Some(b)
    } else {
        proof {
            assert(expr_size(args.last()) >= 1);
        }
        match gen_args(args.drop_last(), b) {
            None => None,
            Some(b1) => gen_expr(
                args.last(),
                with_result(b1, Register::Argument((args.len() - 1) as u8)),
            ),
        }
    }
}

} // verus!

verus! {

/// Every element of a list of expressions is at most as large as the list.
proof fn lemma_exprs_size_elem(s: Seq<SpecExpr>, i: int)
    requires
        0 <= i < s.len(),
    ensures
        expr_size(s[i]) <= exprs_size(s),
    decreases s.len(),
{
    if i < s.len() - 1 {
        lemma_exprs_size_elem(s.drop_last(), i);
    }
}

/// The store instruction for a memory access of the given width.
pub fn store_ins(size: ExprDeref, reg: Register, offset: Offset) -> (ins: Instruction)
    ensures
        ins@ == spec_store(size, reg, offset@),
{
    match size {
        ExprDeref::Byte => InstructionOf::Sb(reg, offset, Register::Stack),
        ExprDeref::Half => InstructionOf::Sh(reg, offset, Register::Stack),
        ExprDeref::Word => InstructionOf::Sw(reg, offset, Register::Stack),
    }
}

/// The load instruction for a memory access of the given width.
pub fn load_ins(size: ExprDeref, reg: Register, offset: Offset) -> (ins: Instruction)
    ensures
        ins@ == spec_load(size, reg, offset@),
{
    match size {
        ExprDeref::Byte => InstructionOf::Lb(reg, offset, Register::Stack),
        ExprDeref::Half => InstructionOf::Lh(reg, offset, Register::Stack),
        ExprDeref::Word => InstructionOf::Lw(reg, offset, Register::Stack),
    }
}

/// Emits an expression; tells whether the generator could handle it.
pub fn try_generate_expr(e: &Expr, buf: &mut GenerateBuf) -> (ok: bool)
    ensures
        ok == gen_expr(e@, old(buf)@) is Some,
        ok ==> final(buf)@ == gen_expr(e@, old(buf)@).unwrap(),
    decreases expr_size(e@), 1int,
{
    match e {
        Expr::Assign(var, expr) => match &**var {
            Expr::Ident(v) => {
                assert((**var)@ == SpecExpr::Ident(view_spanned_ident(*v)));
                assert(e@ == SpecExpr::Assign(Box::new(SpecExpr::Ident(view_spanned_ident(*v))), Box::new((**expr)@)));
                if buf.checked_stack_size().is_none() {
                    return false;
                }
                match buf.get_stack(&v.value.0) {
                    None => false,
                    Some((offset, size)) => {
                        if !try_generate_expr(expr, buf) {
                            return false;
                        }
                        let res = buf.current_result();
                        let imm = to_i32_truncating(offset);
                        buf.push(store_ins(size, res, Offset::Imm(imm)));
                        true
                    },
                }
            },
            Expr::Deref(size, value) => {
                assert((**var)@ == SpecExpr::Deref(*size, Box::new((**value)@)));
                assert(e@ == SpecExpr::Assign(Box::new(SpecExpr::Deref(*size, Box::new((**value)@))), Box::new((**expr)@)));
                proof {
                    assert(expr_size((**var)@) == 1 + expr_size((**value)@));
                }
                if !try_generate_expr(value, buf) {
                    return false;
                }
                let reg = buf.current_result();
                if !can_next_result(reg) {
                    return false;
                }
                buf.next_result();
                if !try_generate_expr(expr, buf) {
                    return false;
                }
                if !can_prev_result(buf.current_result()) {
                    return false;
                }
                let res = buf.prev_result();
                buf.push(store_ins(size.value, res, Offset::Relative(0, reg)));
                true
            },
            _ => false,
        },
        Expr::Block(_) => false,
        Expr::Binary { kind, lhs, rhs, swap_load } => {
            assert(e@ == SpecExpr::Binary { kind: *kind, lhs: Box::new((**lhs)@), rhs: Box::new((**rhs)@), swap_load: *swap_load });
            if *kind == ExprBinary::Add && rhs.is_number() {
                try_generate_add_imm(lhs, rhs.number_value() as i64, buf)
            } else if *kind == ExprBinary::Add && lhs.is_number() {
                try_generate_add_imm(rhs, lhs.number_value() as i64, buf)
            } else if *kind == ExprBinary::Sub && rhs.is_number() {
                try_generate_add_imm(lhs, -(rhs.number_value() as i64), buf)
            } else if *kind == ExprBinary::Add && lhs.is_ident() {
                try_generate_op(*kind, lhs, rhs, *swap_load, buf)
            } else if *kind == ExprBinary::Add && rhs.is_ident() {
                try_generate_op(*kind, rhs, lhs, *swap_load, buf)
            } else if *kind == ExprBinary::Sub {
                try_generate_op(*kind, lhs, rhs, *swap_load, buf)
            } else {
                false
            }
        },
        Expr::Call(callee, args) => match &**callee {
            Expr::Ident(name) => {
                assert((**callee)@ == SpecExpr::Ident(view_spanned_ident(*name)));
                assert(e@ == SpecExpr::Call(Box::new(SpecExpr::Ident(view_spanned_ident(*name))), view_exprs(args@)));
                match buf.function_label(&name.value.0) {
                    None => false,
                    Some(func) => {
                        proof {
                            lemma_view_exprs(args@);
                        }
                        if !try_generate_args(args, buf) {
                            return false;
                        }
                        buf.set_result(Register::Result);
                        buf.push(InstructionOf::Call(Offset::Label(func)));
                        true
                    },
                }
            },
            _ => false,
        },
        Expr::Deref(size, expr) => {
            assert(e@ == SpecExpr::Deref(*size, Box::new((**expr)@)));
            if !try_generate_expr(expr, buf) {
                return false;
            }
            let r = buf.current_result();
            buf.push(load_ins(size.value, r, Offset::Relative(0, r)));
            true
        },
        Expr::Ident(var) => {
            assert(e@ == SpecExpr::Ident(view_spanned_ident(*var)));
            if buf.checked_stack_size().is_none() {
                return false;
            }
            match buf.get_stack(&var.value.0) {
                None => false,
                Some((offset, size)) => {
                    let r = buf.current_result();
                    let imm = to_i32_truncating(offset);
                    buf.push(load_ins(size, r, Offset::Imm(imm)));
                    true
                },
            }
        },
        Expr::Label(l) => {
            buf.label_here(l.value.0.clone());
            true
        },
        Expr::Number(n) => {
            let r = buf.current_result();
            buf.push(InstructionOf::Li(r, Imm(n.value)));
            true
        },
    }
}

/// The low 32 bits of a stack offset, read as a signed number.
pub fn to_i32_truncating(x: usize) -> (r: i32)
    ensures
        r == x as i32,
{
    #[verifier::truncate]
    (x as i32)
}

impl Expr {
    pub fn is_number(&self) -> (r: bool)
        ensures
            r == (self@ is Number),
    {
        match self {
            Expr::Number(_) => true,
            _ => false,
        }
    }

    pub fn is_ident(&self) -> (r: bool)
        ensures
            r == (self@ is Ident),
    {
        match self {
            Expr::Ident(_) => true,
            _ => false,
        }
    }

    pub fn number_value(&self) -> (v: i32)
        requires
            self@ is Number,
        ensures
            v == self@->Number_0.value,
    {
        match self {
            Expr::Number(n) => n.value,
            _ => 0,
        }
    }
}

fn try_generate_add_imm(expr: &Expr, value: i64, buf: &mut GenerateBuf) -> (ok: bool)
    ensures
        ok == gen_add_imm(expr@, value as int, old(buf)@) is Some,
        ok ==> final(buf)@ == gen_add_imm(expr@, value as int, old(buf)@).unwrap(),
    decreases expr_size(expr@), 2int,
{
    if value < i32::MIN as i64 || value > i32::MAX as i64 {
        return false;
    }
    if !try_generate_expr(expr, buf) {
        return false;
    }
    let r = buf.current_result();
    buf.push(InstructionOf::Addi(r, r, Imm(value as i32)));
    true
}

fn try_generate_op(kind: ExprBinary, a: &Expr, c: &Expr, swap: bool, buf: &mut GenerateBuf) -> (ok: bool)
    ensures
        ok == gen_op(kind, a@, c@, swap, old(buf)@) is Some,
        ok ==> final(buf)@ == gen_op(kind, a@, c@, swap, old(buf)@).unwrap(),
    decreases expr_size(a@) + expr_size(c@), 1int,
{
    let base = buf.current_result();
    match try_generate_binary(a, c, swap, buf) {
        None => false,
        Some((ra, rc)) => {
            if kind == ExprBinary::Add {
                buf.push(InstructionOf::Add(base, ra, rc));
            } else {
                buf.push(InstructionOf::Sub(base, ra, rc));
            }
            true
        },
    }
}

pub fn try_generate_binary(lhs: &Expr, rhs: &Expr, swap: bool, buf: &mut GenerateBuf) -> (r: Option<
    (Register, Register),
>)
    ensures
        r is Some == gen_binary(lhs@, rhs@, swap, old(buf)@) is Some,
        r matches Some((a, c)) ==> (a, c, final(buf)@) == gen_binary(lhs@, rhs@, swap, old(buf)@).unwrap(),
    decreases expr_size(lhs@) + expr_size(rhs@), 0int,
{
    let base = buf.current_result();
    let first = if swap { rhs } else { lhs };
    let second = if swap { lhs } else { rhs };
    proof {
        assert(expr_size(lhs@) >= 1 && expr_size(rhs@) >= 1);
    }
    if !try_generate_expr(first, buf) {
        return None;
    }
    if !can_next_result(buf.current_result()) {
        return None;
    }
    buf.next_result();
    if !try_generate_expr(second, buf) {
        return None;
    }
    if !can_prev_result(buf.current_result()) {
        return None;
    }
    let last = buf.prev_result();
    if swap {
        Some((last, base))
    } else {
        Some((base, last))
    }
}

/// Evaluates both operands of a binary operation, each into its own register,
/// and returns the two registers; `swap_load` evaluates the right operand first.
pub fn generate_binary(buf: &mut GenerateBuf, lhs: &Expr, rhs: &Expr, swap_load: bool) -> (r: (
    Register,
    Register,
))
    requires
        gen_binary(lhs@, rhs@, swap_load, old(buf)@) is Some,
    ensures
        (r.0, r.1, final(buf)@) == gen_binary(lhs@, rhs@, swap_load, old(buf)@).unwrap(),
{
    match try_generate_binary(lhs, rhs, swap_load, buf) {
        Some(r) => r,
        None => (Register::Zero, Register::Zero),
    }
}

fn try_generate_args(args: &Vec<Expr>, buf: &mut GenerateBuf) -> (ok: bool)
    ensures
        ok == gen_args(view_exprs(args@), old(buf)@) is Some,
        ok ==> final(buf)@ == gen_args(view_exprs(args@), old(buf)@).unwrap(),
    decreases exprs_size(view_exprs(args@)), 2int,
{
    let ghost sargs = view_exprs(args@);
    proof {
        lemma_view_exprs(args@);
        assert(sargs.subrange(0, 0) =~= Seq::<SpecExpr>::empty());
    }
    let mut idx: usize = 0;
    while idx < args.len()
        invariant
            idx <= args@.len(),
            sargs == view_exprs(args@),
            sargs.len() == args@.len(),
            forall|i: int| 0 <= i < args@.len() ==> #[trigger] sargs[i] == args@[i]@,
            gen_args(sargs.subrange(0, idx as int), old(buf)@) is Some,
            buf@ == gen_args(sargs.subrange(0, idx as int), old(buf)@).unwrap(),
            gen_args(sargs, old(buf)@) is Some ==> gen_args(sargs.subrange(0, idx as int), old(buf)@) is Some,
        decreases args.len() - idx,
    {
        proof {
            let sub = sargs.subrange(0, idx + 1);
            assert(sub.drop_last() =~= sargs.subrange(0, idx as int));
            assert(sub.last() == args@[idx as int]@);
            lemma_exprs_size_elem(sargs, idx as int);
            lemma_gen_args_prefix(sargs, idx as int + 1, old(buf)@);
        }
        buf.set_result(Register::Argument(#[verifier::truncate] (idx as u8)));
        if !try_generate_expr(&args[idx], buf) {
            return false;
        }
        idx = idx + 1;
    }
    assert(sargs.subrange(0, idx as int) =~= sargs);
    true
}

/// Generation of a prefix of the arguments succeeds when generation of all of them does.
proof fn lemma_gen_args_prefix(args: Seq<SpecExpr>, k: int, b: SpecBuf)
    requires
        0 <= k <= args.len(),
    ensures
        gen_args(args, b) is Some ==> gen_args(args.subrange(0, k), b) is Some,
    decreases args.len() - k,
{
    if k < args.len() {
        lemma_gen_args_prefix(args, k + 1, b);
        assert(args.subrange(0, k + 1).drop_last() =~= args.subrange(0, k));
    } else {
        assert(args.subrange(0, k) =~= args);
    }
}

impl Generate for Expr {
    open spec fn spec_generate(&self, b: SpecBuf) -> Option<SpecBuf> {
        gen_expr(self@, b)
    }

    fn try_generate(&self, buf: &mut GenerateBuf) -> (ok: bool) {
        try_generate_expr(self, buf)
    }
}

} // verus!

use crate::generator::buf_renders;
use crate::generator::instructions::{
    instruction_renders, lemma_renders1, lemma_renders2, lemma_renders3, SpecOperand,
};
use crate::generator::registers::{offset_renders, register_renders};

verus! {

/// A buffer whose instructions can all be written out keeps that property when
/// an instruction that can be written out is appended.
pub proof fn lemma_push_renders(b: SpecBuf, ins: SpecInstruction)
    requires
        buf_renders(b),
        instruction_renders(ins),
    ensures
        buf_renders(spec_push(b, ins)),
{
    let b2 = spec_push(b, ins);
    assert forall|i: int| 0 <= i < b2.buf.len() implies instruction_renders(#[trigger] b2.buf[i]) by {
        if i < b.buf.len() {
            assert(b2.buf[i] == b.buf[i]);
        }
    }
}

/// A load into a register that has a name, from an offset that can be written
/// out, can be written out.
pub proof fn lemma_load_renders(size: ExprDeref, reg: Register, offset: SpecOffset)
    requires
        register_renders(reg),
        offset_renders(offset),
    ensures
        instruction_renders(spec_load(size, reg, offset)),
{
    lemma_renders3(
        spec_load(size, reg, offset),
        SpecOperand::Reg(reg),
        SpecOperand::Off(offset),
        SpecOperand::Reg(Register::Stack),
    );
}

/// A store from a register that has a name, to an offset that can be written
/// out, can be written out.
pub proof fn lemma_store_renders(size: ExprDeref, reg: Register, offset: SpecOffset)
    requires
        register_renders(reg),
        offset_renders(offset),
    ensures
        instruction_renders(spec_store(size, reg, offset)),
{
    lemma_renders3(
        spec_store(size, reg, offset),
        SpecOperand::Reg(reg),
        SpecOperand::Off(offset),
        SpecOperand::Reg(Register::Stack),
    );
}

/// The generator only writes registers that have a name: generating an
/// expression into a buffer that can be written out, with a result register
/// that has a name, gives a buffer that can be written out, with a result
/// register that has a name.
pub proof fn lemma_gen_expr_renders(e: SpecExpr, b: SpecBuf)
    requires
        buf_renders(b),
        register_renders(b.result),
    ensures
        gen_expr(e, b) matches Some(b2) ==> buf_renders(b2) && register_renders(b2.result),
    decreases expr_size(e), 1int,
{
    match e {
        SpecExpr::Assign(var, expr) => match *var {
            SpecExpr::Ident(v) => {
                if stack_total(b.stack) <= usize::MAX {
                    if let Some((offset, size)) = spec_get_stack(b.stack, v.value) {
                        lemma_gen_expr_renders(*expr, b);
                        if let Some(b1) = gen_expr(*expr, b) {
                            let ins = spec_store(size, b1.result, SpecOffset::Imm(offset as i32));
                            lemma_store_renders(size, b1.result, SpecOffset::Imm(offset as i32));
                            lemma_push_renders(b1, ins);
                        }
                    }
                }
            },
            SpecExpr::Deref(size, value) => {
                assert(expr_size(*var) == 1 + expr_size(*value));
                lemma_gen_expr_renders(*value, b);
                if let Some(b1) = gen_expr(*value, b) {
                    if let Some(next) = spec_next_result(b1.result) {
                        lemma_gen_expr_renders(*expr, with_result(b1, next));
                        if let Some(b2) = gen_expr(*expr, with_result(b1, next)) {
                            if let Some(prev) = spec_prev_result(b2.result) {
                                let off = SpecOffset::Relative(0, b1.result);
                                lemma_store_renders(size.value, b2.result, off);
                                lemma_push_renders(with_result(b2, prev), spec_store(size.value, b2.result, off));
                            }
                        }
                    }
                }
            },
            _ => {},
        },
        SpecExpr::Block(_) => {},
        SpecExpr::Binary { kind, lhs, rhs, swap_load } => {
            if kind == ExprBinary::Add && (*rhs) is Number {
                lemma_gen_add_imm_renders(*lhs, (*rhs)->Number_0.value as int, b);
            } else if kind == ExprBinary::Add && (*lhs) is Number {
                lemma_gen_add_imm_renders(*rhs, (*lhs)->Number_0.value as int, b);
            } else if kind == ExprBinary::Sub && (*rhs) is Number {
                lemma_gen_add_imm_renders(*lhs, -((*rhs)->Number_0.value as int), b);
            } else if kind == ExprBinary::Add && (*lhs) is Ident {
                lemma_gen_op_renders(kind, *lhs, *rhs, swap_load, b);
            } else if kind == ExprBinary::Add && (*rhs) is Ident {
                lemma_gen_op_renders(kind, *rhs, *lhs, swap_load, b);
            } else if kind == ExprBinary::Sub {
                lemma_gen_op_renders(kind, *lhs, *rhs, swap_load, b);
            }
        },
        SpecExpr::Call(callee, args) => {
            if let SpecExpr::Ident(name) = *callee {
                if b.stores.functions.contains_key(name.value) {
                    lemma_gen_args_renders(args, b);
                    if let Some(b1) = gen_args(args, b) {
                        let ins = InstructionOf::Call(
                            SpecOffset::Label(b.stores.functions[name.value].name.value),
                        );
                        lemma_renders1(ins, SpecOperand::Off(SpecOffset::Label(b.stores.functions[name.value].name.value)));
                        lemma_push_renders(with_result(b1, Register::Result), ins);
                    }
                }
            }
        },
        SpecExpr::Deref(size, expr) => {
            lemma_gen_expr_renders(*expr, b);
            if let Some(b1) = gen_expr(*expr, b) {
                let off = SpecOffset::Relative(0, b1.result);
                lemma_load_renders(size.value, b1.result, off);
                lemma_push_renders(b1, spec_load(size.value, b1.result, off));
            }
        },
        SpecExpr::Ident(var) => {
            if stack_total(b.stack) <= usize::MAX {
                if let Some((offset, size)) = spec_get_stack(b.stack, var.value) {
                    lemma_load_renders(size, b.result, SpecOffset::Imm(offset as i32));
                    lemma_push_renders(b, spec_load(size, b.result, SpecOffset::Imm(offset as i32)));
                }
            }
        },
        SpecExpr::Label(l) => {},
        SpecExpr::Number(n) => {
            let ins = InstructionOf::Li(b.result, Imm(n.value));
            lemma_renders2(ins, SpecOperand::Reg(b.result), SpecOperand::Imm(Imm(n.value)));
            lemma_push_renders(b, ins);
        },
    }
}

/// `expr + value` writes only registers that have a name.
pub proof fn lemma_gen_add_imm_renders(expr: SpecExpr, value: int, b: SpecBuf)
    requires
        buf_renders(b),
        register_renders(b.result),
    ensures
        gen_add_imm(expr, value, b) matches Some(b2) ==> buf_renders(b2) && register_renders(b2.result),
    decreases expr_size(expr), 2int,
{
    if i32::MIN <= value <= i32::MAX {
        lemma_gen_expr_renders(expr, b);
        if let Some(b1) = gen_expr(expr, b) {
            let ins = InstructionOf::Addi(b1.result, b1.result, Imm(value as i32));
            lemma_renders3(ins, SpecOperand::Reg(b1.result), SpecOperand::Reg(b1.result), SpecOperand::Imm(Imm(value as i32)));
            lemma_push_renders(b1, ins);
        }
    }
}

/// `a + b` or `a - b` through two registers writes only registers that have a name.
pub proof fn lemma_gen_op_renders(kind: ExprBinary, a: SpecExpr, c: SpecExpr, swap: bool, b: SpecBuf)
    requires
        buf_renders(b),
        register_renders(b.result),
    ensures
        gen_op(kind, a, c, swap, b) matches Some(b2) ==> buf_renders(b2) && register_renders(b2.result),
    decreases expr_size(a) + expr_size(c), 1int,
{
    lemma_gen_binary_renders(a, c, swap, b);
    if let Some((ra, rc, b1)) = gen_binary(a, c, swap, b) {
        let ins = if kind == ExprBinary::Add {
            InstructionOf::Add(b.result, ra, rc)
        } else {
            InstructionOf::Sub(b.result, ra, rc)
        };
        lemma_renders3(ins, SpecOperand::Reg(b.result), SpecOperand::Reg(ra), SpecOperand::Reg(rc));
        lemma_push_renders(b1, ins);
    }
}

/// Both operands of a binary operation go to registers that have a name.
pub proof fn lemma_gen_binary_renders(lhs: SpecExpr, rhs: SpecExpr, swap: bool, b: SpecBuf)
    requires
        buf_renders(b),
        register_renders(b.result),
    ensures
        gen_binary(lhs, rhs, swap, b) matches Some((ra, rc, b2)) ==> buf_renders(b2) && register_renders(
            b2.result,
        ) && register_renders(ra) && register_renders(rc),
    decreases expr_size(lhs) + expr_size(rhs), 0int,
{
    let first = if swap { rhs } else { lhs };
    let second = if swap { lhs } else { rhs };
    assert(expr_size(first) >= 1 && expr_size(second) >= 1);
    lemma_gen_expr_renders(first, b);
    if let Some(b1) = gen_expr(first, b) {
        if let Some(next) = spec_next_result(b1.result) {
            lemma_gen_expr_renders(second, with_result(b1, next));
        }
    }
}

/// The arguments of a call go to registers that have a name.
pub proof fn lemma_gen_args_renders(args: Seq<SpecExpr>, b: SpecBuf)
    requires
        buf_renders(b),
        register_renders(b.result),
    ensures
        gen_args(args, b) matches Some(b2) ==> buf_renders(b2) && register_renders(b2.result),
    decreases exprs_size(args), 2int,
{
    if args.len() > 0 {
        assert(expr_size(args.last()) >= 1);
        lemma_gen_args_renders(args.drop_last(), b);
        if let Some(b1) = gen_args(args.drop_last(), b) {
            lemma_gen_expr_renders(args.last(), with_result(b1, Register::Argument((args.len() - 1) as u8)));
        }
    }
}

} // verus!

verus! {

/// The code for `x - n` is the code for `x` followed by adding `-n` to the
/// register that holds `x`, and it is the same code as for `x + (-n)`: the
/// emitted instructions compute the left operand minus the right one.
pub proof fn lemma_sub_number_adds_negation(lhs: SpecExpr, n: Spanned<i32>, swap: bool, b: SpecBuf)
    requires
        n.value != i32::MIN,
    ensures
        gen_expr(
            SpecExpr::Binary {
                kind: ExprBinary::Sub,
                lhs: Box::new(lhs),
                rhs: Box::new(SpecExpr::Number(n)),
                swap_load: swap,
            },
            b,
        ) == gen_expr(
            SpecExpr::Binary {
                kind: ExprBinary::Add,
                lhs: Box::new(lhs),
                rhs: Box::new(SpecExpr::Number(Spanned { span: n.span, value: (-n.value) as i32 })),
                swap_load: swap,
            },
            b,
        ),
        gen_expr(lhs, b) matches Some(b1) ==> gen_expr(
            SpecExpr::Binary {
                kind: ExprBinary::Sub,
                lhs: Box::new(lhs),
                rhs: Box::new(SpecExpr::Number(n)),
                swap_load: swap,
            },
            b,
        ) == Some(
            spec_push(b1, InstructionOf::Addi(b1.result, b1.result, Imm((-n.value) as i32))),
        ),
{
    let e = SpecExpr::Binary {
        kind: ExprBinary::Sub,
        lhs: Box::new(lhs),
        rhs: Box::new(SpecExpr::Number(n)),
        swap_load: swap,
    };
    assert(gen_expr(e, b) == gen_add_imm(lhs, -(n.value as int), b));
}

} // verus!

verus! {

/// The code for `x + n` is the code for `x` followed by adding `n` to the
/// register that holds `x`, and a number on the left of `+` is added the
/// same way as on the right: `n + x` gives the code of `x + n`.
pub proof fn lemma_add_number_adds_it(x: SpecExpr, n: Spanned<i32>, swap: bool, b: SpecBuf)
    ensures
        gen_expr(x, b) matches Some(b1) ==> gen_expr(
            SpecExpr::Binary {
                kind: ExprBinary::Add,
                lhs: Box::new(x),
                rhs: Box::new(SpecExpr::Number(n)),
                swap_load: swap,
            },
            b,
        ) == Some(spec_push(b1, InstructionOf::Addi(b1.result, b1.result, Imm(n.value)))),
        !(x is Number) ==> gen_expr(
            SpecExpr::Binary {
                kind: ExprBinary::Add,
                lhs: Box::new(SpecExpr::Number(n)),
                rhs: Box::new(x),
                swap_load: swap,
            },
            b,
        ) == gen_expr(
            SpecExpr::Binary {
                kind: ExprBinary::Add,
                lhs: Box::new(x),
                rhs: Box::new(SpecExpr::Number(n)),
                swap_load: swap,
            },
            b,
        ),
{
    let e = SpecExpr::Binary {
        kind: ExprBinary::Add,
        lhs: Box::new(x),
        rhs: Box::new(SpecExpr::Number(n)),
        swap_load: swap,
    };
    assert(gen_expr(e, b) == gen_add_imm(x, n.value as int, b));
}

/// An addition and a subtraction of the same operands through registers give
/// the same code but for the last instruction, which adds the two registers
/// for `+` and subtracts the second from the first for `-`, into the register
/// the expression's value is wanted in.
pub proof fn lemma_add_sub_differ_in_last(a: SpecExpr, c: SpecExpr, swap: bool, b: SpecBuf)
    ensures
        gen_op(ExprBinary::Add, a, c, swap, b) is Some <==> gen_op(ExprBinary::Sub, a, c, swap, b) is Some,
        gen_op(ExprBinary::Add, a, c, swap, b) matches Some(ba) ==> ({
            let bs = gen_op(ExprBinary::Sub, a, c, swap, b).unwrap();
            &&& ba.buf.drop_last() == bs.buf.drop_last()
            &&& ba.buf.last() matches InstructionOf::Add(rd, ra, rc)
            &&& bs.buf.last() == InstructionOf::<SpecOffset>::Sub(rd, ra, rc)
            &&& rd == b.result
        }),
{
    if let Some((ra, rc, b1)) = gen_binary(a, c, swap, b) {
        let ba = gen_op(ExprBinary::Add, a, c, swap, b).unwrap();
        let bs = gen_op(ExprBinary::Sub, a, c, swap, b).unwrap();
        assert(ba.buf.drop_last() =~= b1.buf);
        assert(bs.buf.drop_last() =~= b1.buf);
    }
}

} // verus!
