//! Statements.

use vstd::prelude::*;

use crate::nodes::model::{SpecExpr, SpecStatement, expr_span, stmt_span, expr_fits, stmt_fits};
use crate::nodes::{span_of_expr, Block, Expr, ExprBinary, Ident};
use crate::parser::{IntoSpanned, Span, Spanned, Token};
use crate::shared_store::NameMap;

verus! {

#[derive(Debug)]
pub enum Statement {
    Expr(StmtExpr),
    If(StmtIf),
    Label(StmtLabel),
    Let(StmtLet),
    Loop(StmtLoop),
    While(StmtWhile),
}

/// Whether the statement ends with a `;`, for the statements that may.
pub open spec fn spec_has_semi(s: SpecStatement) -> Option<bool> {
    match s {
        SpecStatement::Expr { semi, .. } => Some(semi is Some),
        SpecStatement::Let { semi, .. } => Some(semi is Some),
        _ => None,
    }
}

impl Statement {
    pub fn has_semi(&self) -> (r: Option<bool>)
        ensures
            r == spec_has_semi(self@),
    {
        match self {
            Statement::Expr(stmt_expr) => Some(stmt_expr.semi.is_some()),
            Statement::Let(stmt_let) => Some(stmt_let.semi.is_some()),
            _ => None,
        }
    }
}

impl IntoSpanned for Statement {
    open spec fn spec_span(&self) -> Span {
        stmt_span(self@)
    }

    open spec fn spans_fit(&self) -> bool {
        stmt_fits(self@)
    }

    fn span(&self) -> (s: Span) {
        match self {
            Statement::Expr(s) => match &s.semi {
                Some(semi) => span_of_expr(&s.expr).merge(semi.span),
                None => span_of_expr(&s.expr),
            },
            Statement::If(s) => match &s.otherwise {
                Some(o) => s.if_.span.merge(o.1.span()),
                None => s.if_.span.merge(s.body.span()),
            },
            Statement::Label(s) => s.squot.span.merge(s.colon.span),
            Statement::Let(s) => match &s.semi {
                Some(semi) => s.let_.span.merge(semi.span),
                None => s.let_.span.merge(span_of_expr(&s.expr)),
            },
            Statement::Loop(s) => s.loop_.span.merge(s.body.span()),
            Statement::While(s) => s.while_.span.merge(s.body.span()),
        }
    }
}

////////////////////
//////////////////// EXPRESSION
////////////////////

#[derive(Debug)]
pub struct StmtExpr {
    pub expr: Expr,
    pub semi: Option<Spanned<Token>>,
}

////////////////////
//////////////////// IF
////////////////////

/// Which statement asked for a comparison.
#[derive(Clone, Copy, Debug, PartialEq, Eq, Hash, Structural)]
pub enum ConditionStatement {
    If,
    While,
}

impl ConditionStatement {
    /// The statement's name as a diagnostic shows it.
    pub fn describe(self) -> (s: &'static str)
        ensures
            s@ == spec_describe(self),
    {
        match self {
            ConditionStatement::If => "If conditional",
            ConditionStatement::While => "While loop",
        }
    }
}

pub open spec fn spec_describe(c: ConditionStatement) -> Seq<char> {
    match c {
        ConditionStatement::If => "If conditional"@,
        ConditionStatement::While => "While loop"@,
    }
}

/// A condition that is not a comparison.
#[derive(Clone, Copy, Debug, PartialEq, Eq, Hash, Structural)]
pub struct AnalyzeExpectedCondition {
    pub location: Span,
    pub statement: ConditionStatement,
}

/// Whether an expression is a comparison, the only expressions a condition may be.
pub open spec fn is_comparison(e: SpecExpr) -> bool {
    match e {
        SpecExpr::Binary { kind, .. } => kind != ExprBinary::Add && kind != ExprBinary::Sub,
        _ => false,
    }
}

impl AnalyzeExpectedCondition {
    pub fn analyze(cond: &Expr, statement: ConditionStatement) -> (r: Option<Self>)
        requires
            expr_fits(cond@),
        ensures
            is_comparison(cond@) ==> r is None,
            !is_comparison(cond@) ==> r == Some(
                AnalyzeExpectedCondition { location: expr_span(cond@), statement },
            ),
    {
        match cond {
            Expr::Binary {
                kind: ExprBinary::Eq | ExprBinary::Ne | ExprBinary::Gt | ExprBinary::Ge
                | ExprBinary::Lt | ExprBinary::Le,
                ..
            } => None,
            _ => Some(AnalyzeExpectedCondition { location: span_of_expr(cond), statement }),
        }
    }
}

#[derive(Debug)]
pub struct StmtIf {
    pub if_: Spanned<Token>,
    pub cond: Expr,
    pub body: Block,
    pub otherwise: Option<(Spanned<Token>, Block)>,
}

/// The generator's count of `if` statements, which numbers their labels.
#[derive(Clone, Copy, Debug, PartialEq, Eq, Structural)]
pub struct StmtIfStore {
    pub count: usize,
}

////////////////////
//////////////////// LABEL
////////////////////

#[derive(Debug)]
pub struct StmtLabel {
    pub squot: Spanned<Token>,
    pub name: Spanned<Ident>,
    pub colon: Spanned<Token>,
}

////////////////////
//////////////////// LET
////////////////////

#[derive(Debug)]
pub struct StmtLet {
    pub let_: Spanned<Token>,
    pub name: Spanned<Ident>,
    pub expr: Expr,
    pub semi: Option<Spanned<Token>>,
}

/// The variables declared so far in the function being analyzed.
#[derive(Debug)]
pub struct StmtLetStore {
    pub local_vars: NameMap<Span>,
}

////////////////////
//////////////////// LOOP
////////////////////

#[derive(Debug)]
pub struct StmtLoop {
    pub loop_: Spanned<Token>,
    pub body: Block,
}

////////////////////
//////////////////// WHILE
////////////////////

#[derive(Debug)]
pub struct StmtWhile {
    pub while_: Spanned<Token>,
    pub cond: Expr,
    pub body: Block,
}

} // verus!

// ---------------------------------------------------------------- generation

use crate::generator::{
    can_next_result, Generate, GenerateBuf, InstructionOf, Offset, Register, SpecBuf,
    SpecInstruction, SpecOffset, stack_total,
};
use crate::nodes::expr::{gen_binary, gen_expr, spec_label_here, spec_push, to_i32_truncating, with_result};
use crate::nodes::model::{view_stmts, SpecBlock};
use crate::nodes::expr::{try_generate_binary, try_generate_expr};
use crate::nodes::ExprDeref;
use crate::shared_store::SpecStores;
use crate::text::{decimal_nat, push_decimal_u64, push_str};

verus! {

/// The buffer with the `if` counter set to `n`.
pub open spec fn with_if_count(b: SpecBuf, n: usize) -> SpecBuf {
    SpecBuf { stores: SpecStores { if_count: n, ..b.stores }, ..b }
}

/// The branch that skips a block when the comparison `kind` fails.
pub open spec fn spec_branch(kind: ExprBinary, a: Register, c: Register, target: SpecOffset) -> Option<SpecInstruction> {
    match kind {
        ExprBinary::Eq => Some(InstructionOf::Bne(a, c, target)),
        ExprBinary::Ne => Some(InstructionOf::Beq(a, c, target)),
        ExprBinary::Gt => Some(InstructionOf::Ble(a, c, target)),
        ExprBinary::Ge => Some(InstructionOf::Blt(a, c, target)),
        ExprBinary::Lt => Some(InstructionOf::Bge(a, c, target)),
        ExprBinary::Le => Some(InstructionOf::Bgt(a, c, target)),
        _ => None,
    }
}

/// The label that ends the `if` statement numbered `id`.
pub open spec fn if_end_label(id: usize) -> Seq<char> {
    "if.end."@ + decimal_nat(id as nat)
}

/// The label of the `else` block of the `if` statement numbered `id`.
pub open spec fn if_otherwise_label(id: usize) -> Seq<char> {
    "if.otherwise."@ + decimal_nat(id as nat)
}

/// The buffer after a statement's instructions, or `None` where the generator
/// cannot handle the statement.
pub open spec fn gen_stmt(s: SpecStatement, b: SpecBuf) -> Option<SpecBuf>
    decreases s,
{
    match s {
        SpecStatement::Expr { expr, semi } => gen_expr(
            expr,
            if semi is None {
                with_result(b, Register::Result)
            } else {
                b
            },
        ),
        SpecStatement::If { cond, body, otherwise, .. } => {
            let id = b.stores.if_count;
            if id == usize::MAX {
                None
            } else {
                let b1 = with_if_count(b, (id + 1) as usize);
                match cond {
                    SpecExpr::Binary { kind, lhs, rhs, swap_load } => match gen_binary(
                        *lhs,
                        *rhs,
                        swap_load,
                        b1,
                    ) {
                        None => None,
                        Some((ra, rc, b2)) => match spec_branch(
                            kind,
                            ra,
                            rc,
                            SpecOffset::Label(if_otherwise_label(id)),
                        ) {
                            None => None,
                            Some(branch) => match gen_block(body, spec_push(b2, branch)) {
                                None => None,
                                Some(b3) => match otherwise {
                                    Some(o) => match gen_block(
                                        o.1,
                                        spec_label_here(
                                            spec_push(
                                                b3,
                                                InstructionOf::J(SpecOffset::Label(if_end_label(id))),
                                            ),
                                            if_otherwise_label(id),
                                        ),
                                    ) {
                                        None => None,
                                        Some(b4) => Some(spec_label_here(b4, if_end_label(id))),
                                    },
                                    None => Some(spec_label_here(b3, if_otherwise_label(id))),
                                },
                            },
                        },
                    },
                    _ => None,
                }
            }
        },
        SpecStatement::Label { name, .. } => Some(spec_label_here(b, name.value)),
        SpecStatement::Let { name, expr, .. } => match gen_expr(expr, b) {
            None => None,
            Some(b1) => if stack_total(b1.stack) > usize::MAX {
                None
            } else {
                let off = stack_total(b1.stack);
                let b2 = SpecBuf { stack: b1.stack.push((name.value, ExprDeref::Word)), ..b1 };
                Some(
                    spec_push(
                        b2,
                        InstructionOf::Sw(b2.result, SpecOffset::Imm(off as i32), Register::Stack),
                    ),
                )
            },
        },
        SpecStatement::Loop { .. } => None,
        SpecStatement::While { .. } => None,
    }
}

/// The statements generated one after the other.
pub open spec fn gen_stmts(s: Seq<SpecStatement>, b: SpecBuf) -> Option<SpecBuf>
    decreases s,
{
    if s.len() == 0 {
        Some(b)
    } else {
        match gen_stmts(s.drop_last(), b) {
            None => None,
            Some(b1) => gen_stmt(s.last(), b1),
        }
    }
}

pub open spec fn gen_block(blk: SpecBlock, b: SpecBuf) -> Option<SpecBuf>
    decreases blk,
{
    gen_stmts(blk.stmts, b)
}

} // verus!

verus! {

/// The branch instruction for a comparison.
fn branch_ins(kind: ExprBinary, a: Register, c: Register, target: Offset) -> (r: Option<crate::generator::Instruction>)
    ensures
        match spec_branch(kind, a, c, target@) {
            Some(i) => r matches Some(x) && x@ == i,
            None => r is None,
        },
{
    match kind {
        ExprBinary::Eq => Some(InstructionOf::Bne(a, c, target)),
        ExprBinary::Ne => Some(InstructionOf::Beq(a, c, target)),
        ExprBinary::Gt => Some(InstructionOf::Ble(a, c, target)),
        ExprBinary::Ge => Some(InstructionOf::Blt(a, c, target)),
        ExprBinary::Lt => Some(InstructionOf::Bge(a, c, target)),
        ExprBinary::Le => Some(InstructionOf::Bgt(a, c, target)),
        _ => None,
    }
}

/// A label text made of a prefix and a number.
fn numbered_label(prefix: &str, id: usize) -> (s: String)
    ensures
        s@ == prefix@ + decimal_nat(id as nat),
{
    let mut s = String::new();
    push_str(&mut s, prefix);
    push_decimal_u64(&mut s, id as u64);
    s
}

/// Emits a statement; tells whether the generator could handle it.
pub fn try_generate_stmt(s: &Statement, buf: &mut GenerateBuf) -> (ok: bool)
    ensures
        ok == gen_stmt(s@, old(buf)@) is Some,
        ok ==> final(buf)@ == gen_stmt(s@, old(buf)@).unwrap(),
    decreases s,
{
    match s {
        Statement::Expr(st) => {
            if st.semi.is_none() {
                buf.set_result(Register::Result);
            }
            try_generate_expr(&st.expr, buf)
        },
        Statement::If(st) => {
            let id = buf.if_count();
            if id == usize::MAX {
                return false;
            }
            buf.set_if_count(id + 1);
            let label_end = numbered_label("if.end.", id);
            let label_otherwise = numbered_label("if.otherwise.", id);
            match &st.cond {
                Expr::Binary { kind, lhs, rhs, swap_load } => {
                    assert(st.cond@ == SpecExpr::Binary { kind: *kind, lhs: Box::new((**lhs)@), rhs: Box::new((**rhs)@), swap_load: *swap_load });
                    match try_generate_binary(lhs, rhs, *swap_load, buf) {
                        None => false,
                        Some((ra, rc)) => match branch_ins(*kind, ra, rc, Offset::Label(label_otherwise.clone())) {
                            None => false,
                            Some(branch) => {
                                buf.push(branch);
                                assert(decreases_to!(*s => (*s)->If_0));
                                if !try_generate_block(&st.body, buf) {
                                    return false;
                                }
                                match &st.otherwise {
                                    Some(o) => {
                                        buf.push(InstructionOf::J(Offset::Label(label_end.clone())));
                                        buf.label_here(label_otherwise);
                                        if !try_generate_block(&o.1, buf) {
                                            return false;
                                        }
                                        buf.label_here(label_end);
                                        true
                                    },
                                    None => {
                                        buf.label_here(label_otherwise);
                                        true
                                    },
                                }
                            },
                        },
                    }
                },
                _ => false,
            }
        },
        Statement::Label(st) => {
            buf.label_here(st.name.value.0.clone());
            true
        },
        Statement::Let(st) => {
            if !try_generate_expr(&st.expr, buf) {
                return false;
            }
            match buf.checked_stack_size() {
                None => false,
                Some(_) => {
                    let offset = buf.push_stack(st.name.value.0.clone(), ExprDeref::Word);
                    let r = buf.current_result();
                    buf.push(InstructionOf::Sw(r, Offset::Imm(to_i32_truncating(offset)), Register::Stack));
                    true
                },
            }
        },
        Statement::Loop(_) => false,
        Statement::While(_) => false,
    }
}

/// Emits the statements of a block in order; tells whether the generator could handle them.
pub fn try_generate_block(blk: &Block, buf: &mut GenerateBuf) -> (ok: bool)
    ensures
        ok == gen_block(blk@, old(buf)@) is Some,
        ok ==> final(buf)@ == gen_block(blk@, old(buf)@).unwrap(),
    decreases blk,
{
    let ghost ss = view_stmts(blk.stmts@);
    proof {
        lemma_view_stmts(blk.stmts@);
        assert(ss.subrange(0, 0) =~= Seq::<SpecStatement>::empty());
    }
    let mut i: usize = 0;
    while i < blk.stmts.len()
        invariant
            i <= blk.stmts@.len(),
            ss == view_stmts(blk.stmts@),
            ss.len() == blk.stmts@.len(),
            forall|k: int| 0 <= k < blk.stmts@.len() ==> #[trigger] ss[k] == blk.stmts@[k]@,
            gen_stmts(ss.subrange(0, i as int), old(buf)@) is Some,
            buf@ == gen_stmts(ss.subrange(0, i as int), old(buf)@).unwrap(),
            gen_stmts(ss, old(buf)@) is Some ==> gen_stmts(ss.subrange(0, i as int), old(buf)@) is Some,
        decreases blk.stmts.len() - i,
    {
        proof {
            let sub = ss.subrange(0, i + 1);
            assert(sub.drop_last() =~= ss.subrange(0, i as int));
            assert(sub.last() == blk.stmts@[i as int]@);
            lemma_gen_stmts_prefix(ss, i as int + 1, old(buf)@);
        }
        assert(decreases_to!(*blk => blk.stmts));
        assert(decreases_to!(blk.stmts => blk.stmts@));
        if !try_generate_stmt(&blk.stmts[i], buf) {
            return false;
        }
        i = i + 1;
    }
    assert(ss.subrange(0, i as int) =~= ss);
    true
}

/// Generation of a prefix of the statements succeeds when generation of all of them does.
proof fn lemma_gen_stmts_prefix(s: Seq<SpecStatement>, k: int, b: SpecBuf)
    requires
        0 <= k <= s.len(),
    ensures
        gen_stmts(s, b) is Some ==> gen_stmts(s.subrange(0, k), b) is Some,
    decreases s.len() - k,
{
    if k < s.len() {
        lemma_gen_stmts_prefix(s, k + 1, b);
        assert(s.subrange(0, k + 1).drop_last() =~= s.subrange(0, k));
    } else {
        assert(s.subrange(0, k) =~= s);
    }
}

/// The view of a list of statements has one element per statement.
pub proof fn lemma_view_stmts(s: Seq<Statement>)
    ensures
        view_stmts(s).len() == s.len(),
        forall|i: int| 0 <= i < s.len() ==> #[trigger] view_stmts(s)[i] == s[i]@,
    decreases s.len(),
{
    if s.len() > 0 {
        lemma_view_stmts(s.drop_last());
        assert(view_stmts(s) == view_stmts(s.drop_last()).push(s.last()@));
        assert forall|i: int| 0 <= i < s.len() implies #[trigger] view_stmts(s)[i] == s[i]@ by {
            if i < s.len() - 1 {
                assert(s.drop_last()[i] == s[i]);
            }
        }
    }
}

impl Generate for Statement {
    open spec fn spec_generate(&self, b: SpecBuf) -> Option<SpecBuf> {
        gen_stmt(self@, b)
    }

    fn try_generate(&self, buf: &mut GenerateBuf) -> (ok: bool) {
        try_generate_stmt(self, buf)
    }
}

impl Generate for Block {
    open spec fn spec_generate(&self, b: SpecBuf) -> Option<SpecBuf> {
        gen_block(self@, b)
    }

    fn try_generate(&self, buf: &mut GenerateBuf) -> (ok: bool) {
        try_generate_block(self, buf)
    }
}

} // verus!

use crate::generator::buf_renders;
use crate::generator::instructions::{instruction_renders, lemma_renders1, lemma_renders3, SpecOperand};
use crate::generator::registers::register_renders;
use crate::nodes::expr::{
    lemma_gen_binary_renders, lemma_gen_expr_renders, lemma_push_renders,
};

verus! {

/// The generator only writes registers that have a name: generating a
/// statement into a buffer that can be written out, with a result register
/// that has a name, gives a buffer that can be written out, with a result
/// register that has a name.
pub proof fn lemma_gen_stmt_renders(s: SpecStatement, b: SpecBuf)
    requires
        buf_renders(b),
        register_renders(b.result),
    ensures
        gen_stmt(s, b) matches Some(b2) ==> buf_renders(b2) && register_renders(b2.result),
    decreases s,
{
    match s {
        SpecStatement::Expr { expr, semi } => {
            lemma_gen_expr_renders(expr, if semi is None { with_result(b, Register::Result) } else { b });
        },
        SpecStatement::If { cond, body, otherwise, .. } => {
            let id = b.stores.if_count;
            if id != usize::MAX {
                let b1 = with_if_count(b, (id + 1) as usize);
                if let SpecExpr::Binary { kind, lhs, rhs, swap_load } = cond {
                    lemma_gen_binary_renders(*lhs, *rhs, swap_load, b1);
                    if let Some((ra, rc, b2)) = gen_binary(*lhs, *rhs, swap_load, b1) {
                        let target = SpecOffset::Label(if_otherwise_label(id));
                        if let Some(branch) = spec_branch(kind, ra, rc, target) {
                            lemma_renders3(branch, SpecOperand::Reg(ra), SpecOperand::Reg(rc), SpecOperand::Off(target));
                            lemma_push_renders(b2, branch);
                            lemma_gen_block_renders(body, spec_push(b2, branch));
                            if let Some(b3) = gen_block(body, spec_push(b2, branch)) {
                                if let Some(o) = otherwise {
                                    let j = InstructionOf::J(SpecOffset::Label(if_end_label(id)));
                                    lemma_renders1(j, SpecOperand::Off(SpecOffset::Label(if_end_label(id))));
                                    lemma_push_renders(b3, j);
                                    lemma_gen_block_renders(
                                        o.1,
                                        spec_label_here(spec_push(b3, j), if_otherwise_label(id)),
                                    );
                                }
                            }
                        }
                    }
                }
            }
        },
        SpecStatement::Label { .. } => {},
        SpecStatement::Let { name, expr, .. } => {
            lemma_gen_expr_renders(expr, b);
            if let Some(b1) = gen_expr(expr, b) {
                if stack_total(b1.stack) <= usize::MAX {
                    let off = stack_total(b1.stack);
                    let b2 = SpecBuf { stack: b1.stack.push((name.value, ExprDeref::Word)), ..b1 };
                    let ins = InstructionOf::Sw(b2.result, SpecOffset::Imm(off as i32), Register::Stack);
                    lemma_renders3(
                        ins,
                        SpecOperand::Reg(b2.result),
                        SpecOperand::Off(SpecOffset::Imm(off as i32)),
                        SpecOperand::Reg(Register::Stack),
                    );
                    lemma_push_renders(b2, ins);
                }
            }
        },
        SpecStatement::Loop { .. } => {},
        SpecStatement::While { .. } => {},
    }
}

/// Statements generated one after the other write only registers that have a name.
pub proof fn lemma_gen_stmts_renders(s: Seq<SpecStatement>, b: SpecBuf)
    requires
        buf_renders(b),
        register_renders(b.result),
    ensures
        gen_stmts(s, b) matches Some(b2) ==> buf_renders(b2) && register_renders(b2.result),
    decreases s,
{
    if s.len() > 0 {
        lemma_gen_stmts_renders(s.drop_last(), b);
        if let Some(b1) = gen_stmts(s.drop_last(), b) {
            lemma_gen_stmt_renders(s.last(), b1);
        }
    }
}

/// A block writes only registers that have a name.
pub proof fn lemma_gen_block_renders(blk: SpecBlock, b: SpecBuf)
    requires
        buf_renders(b),
        register_renders(b.result),
    ensures
        gen_block(blk, b) matches Some(b2) ==> buf_renders(b2) && register_renders(b2.result),
    decreases blk,
{
    lemma_gen_stmts_renders(blk.stmts, b);
}

} // verus!
