//! The mathematical model of the syntax tree: one spec datatype per node,
//! the view of each executable node, and the spans that nodes cover.

use vstd::prelude::*;

use crate::nodes::{Attribute, AttributeStyle, Block, Expr, ExprBinary, ExprDeref, FnArg, FnArgs, FunctionDefinition, Ident, Item, ItemFunction, Program, Statement};
use crate::parser::{Span, Spanned, Token};

verus! {

/// The model of an expression.
pub enum SpecExpr {
    Assign(Box<SpecExpr>, Box<SpecExpr>),
    Block(SpecBlock),
    Binary { kind: ExprBinary, lhs: Box<SpecExpr>, rhs: Box<SpecExpr>, swap_load: bool },
    Call(Box<SpecExpr>, Seq<SpecExpr>),
    Deref(Spanned<ExprDeref>, Box<SpecExpr>),
    Ident(Spanned<Seq<char>>),
    Label(Spanned<Seq<char>>),
    Number(Spanned<i32>),
}

/// The model of a block.
pub struct SpecBlock {
    pub open: Spanned<Token>,
    pub stmts: Seq<SpecStatement>,
    pub close: Spanned<Token>,
}

/// The model of a statement.
pub enum SpecStatement {
    Expr { expr: SpecExpr, semi: Option<Spanned<Token>> },
    If {
        if_: Spanned<Token>,
        cond: SpecExpr,
        body: SpecBlock,
        otherwise: Option<(Spanned<Token>, SpecBlock)>,
    },
    Label { squot: Spanned<Token>, name: Spanned<Seq<char>>, colon: Spanned<Token> },
    Let { let_: Spanned<Token>, name: Spanned<Seq<char>>, expr: SpecExpr, semi: Option<Spanned<Token>> },
    Loop { loop_: Spanned<Token>, body: SpecBlock },
    While { while_: Spanned<Token>, cond: SpecExpr, body: SpecBlock },
}

/// The model of an attribute.
pub struct SpecAttribute {
    pub pound: Spanned<Token>,
    pub open: Spanned<Token>,
    pub path: Spanned<Seq<char>>,
    pub style: AttributeStyle,
    pub close: Spanned<Token>,
}

/// The model of a function argument declaration.
pub struct SpecFnArg {
    pub name: Spanned<Seq<char>>,
    pub ty: Spanned<Seq<char>>,
}

/// The model of a parenthesised argument list.
pub struct SpecFnArgs {
    pub open: Spanned<Token>,
    pub args: Seq<SpecFnArg>,
    pub close: Spanned<Token>,
}

/// The model of a function declaration.
pub struct SpecItemFunction {
    pub attrs: Seq<SpecAttribute>,
    pub unsafe_: Option<Spanned<Token>>,
    pub fn_: Spanned<Token>,
    pub name: Spanned<Seq<char>>,
    pub args: SpecFnArgs,
    pub ret: Option<Spanned<Seq<char>>>,
    pub body: SpecBlock,
}

/// The model of a top-level item.
pub enum SpecItem {
    Function(SpecItemFunction),
}

/// The model of a function signature as the analyzer records it.
pub struct SpecFunctionDefinition {
    pub name: Spanned<Seq<char>>,
    pub args: SpecFnArgs,
    pub ret: Option<Spanned<Seq<char>>>,
}

// ---------------------------------------------------------------- views

pub open spec fn view_exprs(s: Seq<Expr>) -> Seq<SpecExpr>
    decreases s,
{
    if s.len() == 0 {
        Seq::empty()
    } else {
        view_exprs(s.drop_last()).push(s.last()@)
    }
}

pub open spec fn view_stmts(s: Seq<Statement>) -> Seq<SpecStatement>
    decreases s,
{
    if s.len() == 0 {
        Seq::empty()
    } else {
        view_stmts(s.drop_last()).push(s.last()@)
    }
}

pub open spec fn view_spanned_ident(s: Spanned<Ident>) -> Spanned<Seq<char>> {
    Spanned { span: s.span, value: s.value@ }
}

pub open spec fn view_opt_ident(s: Option<Spanned<Ident>>) -> Option<Spanned<Seq<char>>> {
    match s {
        Some(v) => Some(view_spanned_ident(v)),
        None => None,
    }
}

impl View for Ident {
    type V = Seq<char>;

    open spec fn view(&self) -> Seq<char> {
        self.0@
    }
}

impl View for Expr {
    type V = SpecExpr;

    open spec fn view(&self) -> SpecExpr
        decreases self,
    {
        match self {
            Expr::Assign(a, b) => SpecExpr::Assign(Box::new((**a)@), Box::new((**b)@)),
            Expr::Block(b) => SpecExpr::Block(b@),
            Expr::Binary { kind, lhs, rhs, swap_load } => SpecExpr::Binary {
                kind: *kind,
                lhs: Box::new((**lhs)@),
                rhs: Box::new((**rhs)@),
                swap_load: *swap_load,
            },
            Expr::Call(c, args) => SpecExpr::Call(Box::new((**c)@), view_exprs(args@)),
            Expr::Deref(d, e) => SpecExpr::Deref(*d, Box::new((**e)@)),
            Expr::Ident(i) => SpecExpr::Ident(view_spanned_ident(*i)),
            Expr::Label(i) => SpecExpr::Label(view_spanned_ident(*i)),
            Expr::Number(n) => SpecExpr::Number(*n),
        }
    }
}

impl View for Block {
    type V = SpecBlock;

    open spec fn view(&self) -> SpecBlock
        decreases self,
    {
        SpecBlock { open: self.open, stmts: view_stmts(self.stmts@), close: self.close }
    }
}

impl View for Statement {
    type V = SpecStatement;

    open spec fn view(&self) -> SpecStatement
        decreases self,
    {
        match self {
            Statement::Expr(s) => SpecStatement::Expr { expr: s.expr@, semi: s.semi },
            Statement::If(s) => SpecStatement::If {
                if_: s.if_,
                cond: s.cond@,
                body: s.body@,
                otherwise: match &s.otherwise {
                    Some(o) => Some((o.0, o.1@)),
                    None => None,
                },
            },
            Statement::Label(s) => SpecStatement::Label {
                squot: s.squot,
                name: view_spanned_ident(s.name),
                colon: s.colon,
            },
            Statement::Let(s) => SpecStatement::Let {
                let_: s.let_,
                name: view_spanned_ident(s.name),
                expr: s.expr@,
                semi: s.semi,
            },
            Statement::Loop(s) => SpecStatement::Loop { loop_: s.loop_, body: s.body@ },
            Statement::While(s) => SpecStatement::While {
                while_: s.while_,
                cond: s.cond@,
                body: s.body@,
            },
        }
    }
}

impl View for Attribute {
    type V = SpecAttribute;

    open spec fn view(&self) -> SpecAttribute {
        SpecAttribute {
            pound: self.pound,
            open: self.open,
            path: view_spanned_ident(self.path),
            style: self.style,
            close: self.close,
        }
    }
}

impl View for FnArg {
    type V = SpecFnArg;

    open spec fn view(&self) -> SpecFnArg {
        SpecFnArg { name: view_spanned_ident(self.name), ty: view_spanned_ident(self.ty) }
    }
}

impl View for FnArgs {
    type V = SpecFnArgs;

    open spec fn view(&self) -> SpecFnArgs {
        SpecFnArgs { open: self.open, args: self.args@.map_values(|a: FnArg| a@), close: self.close }
    }
}

impl View for ItemFunction {
    type V = SpecItemFunction;

    open spec fn view(&self) -> SpecItemFunction {
        SpecItemFunction {
            attrs: self.attrs@.map_values(|a: Attribute| a@),
            unsafe_: self.unsafe_,
            fn_: self.fn_,
            name: view_spanned_ident(self.name),
            args: self.args@,
            ret: view_opt_ident(self.ret),
            body: self.body@,
        }
    }
}

impl View for Item {
    type V = SpecItem;

    open spec fn view(&self) -> SpecItem {
        match self {
            Item::Function(f) => SpecItem::Function(f@),
        }
    }
}

impl View for Program {
    type V = Seq<SpecItem>;

    open spec fn view(&self) -> Seq<SpecItem> {
        self.0@.map_values(|i: Item| i@)
    }
}

impl View for FunctionDefinition {
    type V = SpecFunctionDefinition;

    open spec fn view(&self) -> SpecFunctionDefinition {
        SpecFunctionDefinition {
            name: view_spanned_ident(self.name),
            args: self.args@,
            ret: view_opt_ident(self.ret),
        }
    }
}

// ---------------------------------------------------------------- spans

/// The span of a sequence of nodes: empty for none, the first node's span for
/// one, else the first merged with the last.
pub open spec fn seq_span(spans: Seq<Span>) -> Span {
    if spans.len() == 0 {
        Span { start: 0, len: 0 }
    } else if spans.len() == 1 {
        spans[0]
    } else {
        spans[0].spec_merge(spans.last())
    }
}

pub open spec fn expr_span(e: SpecExpr) -> Span
    decreases e,
{
    match e {
        SpecExpr::Assign(a, b) => expr_span(*a).spec_merge(expr_span(*b)),
        SpecExpr::Block(b) => block_span(b),
        SpecExpr::Binary { lhs, rhs, .. } => expr_span(*lhs).spec_merge(expr_span(*rhs)),
        SpecExpr::Call(c, args) => expr_span(*c).spec_merge(exprs_span(args)),
        SpecExpr::Deref(d, v) => d.span.spec_merge(expr_span(*v)),
        SpecExpr::Ident(v) => v.span,
        SpecExpr::Label(v) => v.span,
        SpecExpr::Number(v) => v.span,
    }
}

pub open spec fn exprs_span(s: Seq<SpecExpr>) -> Span
    decreases s,
{
    if s.len() == 0 {
        Span { start: 0, len: 0 }
    } else if s.len() == 1 {
        expr_span(s[0])
    } else {
        expr_span(s[0]).spec_merge(expr_span(s.last()))
    }
}

pub open spec fn block_span(b: SpecBlock) -> Span {
    b.open.span.spec_merge(b.close.span)
}

pub open spec fn stmt_span(s: SpecStatement) -> Span {
    match s {
        SpecStatement::Expr { expr, semi } => match semi {
            Some(t) => expr_span(expr).spec_merge(t.span),
            None => expr_span(expr),
        },
        SpecStatement::If { if_, body, otherwise, .. } => match otherwise {
            Some(o) => if_.span.spec_merge(block_span(o.1)),
            None => if_.span.spec_merge(block_span(body)),
        },
        SpecStatement::Label { squot, colon, .. } => squot.span.spec_merge(colon.span),
        SpecStatement::Let { let_, expr, semi, .. } => match semi {
            Some(t) => let_.span.spec_merge(t.span),
            None => let_.span.spec_merge(expr_span(expr)),
        },
        SpecStatement::Loop { loop_, body } => loop_.span.spec_merge(block_span(body)),
        SpecStatement::While { while_, body, .. } => while_.span.spec_merge(block_span(body)),
    }
}

pub open spec fn fn_args_span(a: SpecFnArgs) -> Span {
    a.open.span.spec_merge(a.close.span)
}

pub open spec fn fn_arg_span(a: SpecFnArg) -> Span {
    a.name.span.spec_merge(a.ty.span)
}

pub open spec fn attribute_span(a: SpecAttribute) -> Span {
    a.pound.span.spec_merge(a.close.span)
}

pub open spec fn item_function_span(f: SpecItemFunction) -> Span {
    match f.unsafe_ {
        Some(u) => u.span.spec_merge(block_span(f.body)),
        None => f.fn_.span.spec_merge(block_span(f.body)),
    }
}

// ------------------------------------------------- every span fits a usize

pub open spec fn expr_fits(e: SpecExpr) -> bool
    decreases e,
{
    match e {
        SpecExpr::Assign(a, b) => expr_fits(*a) && expr_fits(*b),
        SpecExpr::Block(b) => block_fits(b),
        SpecExpr::Binary { lhs, rhs, .. } => expr_fits(*lhs) && expr_fits(*rhs),
        SpecExpr::Call(c, args) => expr_fits(*c) && exprs_fit(args),
        SpecExpr::Deref(d, v) => d.span.fits() && expr_fits(*v),
        SpecExpr::Ident(v) => v.span.fits(),
        SpecExpr::Label(v) => v.span.fits(),
        SpecExpr::Number(v) => v.span.fits(),
    }
}

pub open spec fn exprs_fit(s: Seq<SpecExpr>) -> bool
    decreases s,
{
    if s.len() == 0 {
        true
    } else {
        exprs_fit(s.drop_last()) && expr_fits(s.last())
    }
}

pub open spec fn block_fits(b: SpecBlock) -> bool
    decreases b,
{
    b.open.span.fits() && b.close.span.fits() && stmts_fit(b.stmts)
}

pub open spec fn stmts_fit(s: Seq<SpecStatement>) -> bool
    decreases s,
{
    if s.len() == 0 {
        true
    } else {
        stmts_fit(s.drop_last()) && stmt_fits(s.last())
    }
}

pub open spec fn opt_token_fits(t: Option<Spanned<Token>>) -> bool {
    match t {
        Some(t) => t.span.fits(),
        None => true,
    }
}

pub open spec fn stmt_fits(s: SpecStatement) -> bool
    decreases s,
{
    match s {
        SpecStatement::Expr { expr, semi } => expr_fits(expr) && opt_token_fits(semi),
        SpecStatement::If { if_, cond, body, otherwise } => {
            &&& if_.span.fits()
            &&& expr_fits(cond)
            &&& block_fits(body)
            &&& match otherwise {
                Some(o) => o.0.span.fits() && block_fits(o.1),
                None => true,
            }
        },
        SpecStatement::Label { squot, name, colon } => squot.span.fits() && name.span.fits()
            && colon.span.fits(),
        SpecStatement::Let { let_, name, expr, semi } => let_.span.fits() && name.span.fits()
            && expr_fits(expr) && opt_token_fits(semi),
        SpecStatement::Loop { loop_, body } => loop_.span.fits() && block_fits(body),
        SpecStatement::While { while_, cond, body } => while_.span.fits() && expr_fits(cond)
            && block_fits(body),
    }
}

pub open spec fn fn_arg_fits(a: SpecFnArg) -> bool {
    a.name.span.fits() && a.ty.span.fits()
}

pub open spec fn fn_args_fit(a: SpecFnArgs) -> bool {
    &&& a.open.span.fits()
    &&& a.close.span.fits()
    &&& forall|i: int| 0 <= i < a.args.len() ==> fn_arg_fits(#[trigger] a.args[i])
}

pub open spec fn attribute_fits(a: SpecAttribute) -> bool {
    a.pound.span.fits() && a.open.span.fits() && a.path.span.fits() && a.close.span.fits()
}

pub open spec fn item_function_fits(f: SpecItemFunction) -> bool {
    &&& forall|i: int| 0 <= i < f.attrs.len() ==> attribute_fits(#[trigger] f.attrs[i])
    &&& opt_token_fits(f.unsafe_)
    &&& f.fn_.span.fits()
    &&& f.name.span.fits()
    &&& fn_args_fit(f.args)
    &&& match f.ret {
        Some(r) => r.span.fits(),
        None => true,
    }
    &&& block_fits(f.body)
}

pub open spec fn item_fits(i: SpecItem) -> bool {
    match i {
        SpecItem::Function(f) => item_function_fits(f),
    }
}

pub open spec fn program_fits(p: Seq<SpecItem>) -> bool {
    forall|i: int| 0 <= i < p.len() ==> item_fits(#[trigger] p[i])
}

} // verus!
