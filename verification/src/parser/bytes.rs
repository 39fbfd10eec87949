//! The spans of a parsed tree, moved from positions among the characters of
//! the source to offsets into its UTF-8 bytes.

use vstd::prelude::*;

use crate::nodes::model::{
    attribute_fits, block_fits, expr_fits, exprs_fit, fn_arg_fits, item_fits, stmt_fits, stmts_fit,
    view_exprs, view_stmts,
    SpecAttribute, SpecBlock, SpecExpr, SpecFnArg, SpecFnArgs, SpecItem, SpecItemFunction,
    SpecStatement,
};
use crate::nodes::{
    Attribute, Block, Expr, FnArg, FnArgs, Item, ItemFunction, Statement, StmtExpr, StmtIf,
    StmtLabel, StmtLet, StmtLoop, StmtWhile,
};
use crate::parser::{Span, Spanned};
use crate::text::{byte_offset, lemma_byte_offset_mono, starts_of};

verus! {

/// The region of `sp`, counted in bytes of the UTF-8 encoding of `s`.
pub open spec fn span_in_bytes(s: Seq<char>, sp: Span) -> Span {
    Span {
        start: byte_offset(s, sp.start as int) as usize,
        len: (byte_offset(s, sp.spec_end()) - byte_offset(s, sp.start as int)) as usize,
    }
}

/// A spanned value with its span in bytes.
pub open spec fn sp_bytes<T>(s: Seq<char>, x: Spanned<T>) -> Spanned<T> {
    Spanned { span: span_in_bytes(s, x.span), value: x.value }
}

/// An optional spanned value with its span in bytes.
pub open spec fn opt_sp_bytes<T>(s: Seq<char>, x: Option<Spanned<T>>) -> Option<Spanned<T>> {
    match x {
        Some(v) => Some(sp_bytes(s, v)),
        None => None,
    }
}

/// An expression with every span in it counted in bytes of `s`.
pub open spec fn expr_bytes(s: Seq<char>, e: SpecExpr) -> SpecExpr
    decreases e,
{
    match e {
        SpecExpr::Assign(a, b) => SpecExpr::Assign(
            Box::new(expr_bytes(s, *a)),
            Box::new(expr_bytes(s, *b)),
        ),
        SpecExpr::Block(b) => SpecExpr::Block(block_bytes(s, b)),
        SpecExpr::Binary { kind, lhs, rhs, swap_load } => SpecExpr::Binary {
            kind,
            lhs: Box::new(expr_bytes(s, *lhs)),
            rhs: Box::new(expr_bytes(s, *rhs)),
            swap_load,
        },
        SpecExpr::Call(c, args) => SpecExpr::Call(Box::new(expr_bytes(s, *c)), exprs_bytes(s, args)),
        SpecExpr::Deref(d, v) => SpecExpr::Deref(sp_bytes(s, d), Box::new(expr_bytes(s, *v))),
        SpecExpr::Ident(v) => SpecExpr::Ident(sp_bytes(s, v)),
        SpecExpr::Label(v) => SpecExpr::Label(sp_bytes(s, v)),
        SpecExpr::Number(v) => SpecExpr::Number(sp_bytes(s, v)),
    }
}

/// Expressions with every span in them counted in bytes of `s`.
pub open spec fn exprs_bytes(s: Seq<char>, es: Seq<SpecExpr>) -> Seq<SpecExpr>
    decreases es,
{
    if es.len() == 0 {
        Seq::empty()
    } else {
        exprs_bytes(s, es.drop_last()).push(expr_bytes(s, es.last()))
    }
}

/// A block with every span in it counted in bytes of `s`.
pub open spec fn block_bytes(s: Seq<char>, b: SpecBlock) -> SpecBlock
    decreases b,
{
    SpecBlock {
        open: sp_bytes(s, b.open),
        stmts: stmts_bytes(s, b.stmts),
        close: sp_bytes(s, b.close),
    }
}

/// Statements with every span in them counted in bytes of `s`.
pub open spec fn stmts_bytes(s: Seq<char>, st: Seq<SpecStatement>) -> Seq<SpecStatement>
    decreases st,
{
    if st.len() == 0 {
        Seq::empty()
    } else {
        stmts_bytes(s, st.drop_last()).push(stmt_bytes(s, st.last()))
    }
}

/// A statement with every span in it counted in bytes of `s`.
pub open spec fn stmt_bytes(s: Seq<char>, st: SpecStatement) -> SpecStatement
    decreases st,
{
    match st {
        SpecStatement::Expr { expr, semi } => SpecStatement::Expr {
            expr: expr_bytes(s, expr),
            semi: opt_sp_bytes(s, semi),
        },
        SpecStatement::If { if_, cond, body, otherwise } => SpecStatement::If {
            if_: sp_bytes(s, if_),
            cond: expr_bytes(s, cond),
            body: block_bytes(s, body),
            otherwise: match otherwise {
                Some(o) => Some((sp_bytes(s, o.0), block_bytes(s, o.1))),
                None => None,
            },
        },
        SpecStatement::Label { squot, name, colon } => SpecStatement::Label {
            squot: sp_bytes(s, squot),
            name: sp_bytes(s, name),
            colon: sp_bytes(s, colon),
        },
        SpecStatement::Let { let_, name, expr, semi } => SpecStatement::Let {
            let_: sp_bytes(s, let_),
            name: sp_bytes(s, name),
            expr: expr_bytes(s, expr),
            semi: opt_sp_bytes(s, semi),
        },
        SpecStatement::Loop { loop_, body } => SpecStatement::Loop {
            loop_: sp_bytes(s, loop_),
            body: block_bytes(s, body),
        },
        SpecStatement::While { while_, cond, body } => SpecStatement::While {
            while_: sp_bytes(s, while_),
            cond: expr_bytes(s, cond),
            body: block_bytes(s, body),
        },
    }
}

/// An attribute with its spans counted in bytes of `s`.
pub open spec fn attribute_bytes(s: Seq<char>, a: SpecAttribute) -> SpecAttribute {
    SpecAttribute {
        pound: sp_bytes(s, a.pound),
        open: sp_bytes(s, a.open),
        path: sp_bytes(s, a.path),
        style: a.style,
        close: sp_bytes(s, a.close),
    }
}

/// A function argument with its spans counted in bytes of `s`.
pub open spec fn fn_arg_bytes(s: Seq<char>, a: SpecFnArg) -> SpecFnArg {
    SpecFnArg { name: sp_bytes(s, a.name), ty: sp_bytes(s, a.ty) }
}

/// Function arguments with their spans counted in bytes of `s`.
pub open spec fn fn_args_bytes(s: Seq<char>, a: SpecFnArgs) -> SpecFnArgs {
    SpecFnArgs {
        open: sp_bytes(s, a.open),
        args: a.args.map_values(|x: SpecFnArg| fn_arg_bytes(s, x)),
        close: sp_bytes(s, a.close),
    }
}

/// A function with every span in it counted in bytes of `s`.
pub open spec fn item_function_bytes(s: Seq<char>, f: SpecItemFunction) -> SpecItemFunction {
    SpecItemFunction {
        attrs: f.attrs.map_values(|x: SpecAttribute| attribute_bytes(s, x)),
        unsafe_: opt_sp_bytes(s, f.unsafe_),
        fn_: sp_bytes(s, f.fn_),
        name: sp_bytes(s, f.name),
        args: fn_args_bytes(s, f.args),
        ret: opt_sp_bytes(s, f.ret),
        body: block_bytes(s, f.body),
    }
}

/// An item with every span in it counted in bytes of `s`.
pub open spec fn item_bytes(s: Seq<char>, i: SpecItem) -> SpecItem {
    match i {
        SpecItem::Function(f) => SpecItem::Function(item_function_bytes(s, f)),
    }
}

/// The items of a program with every span counted in bytes of `s`.
pub open spec fn items_bytes(s: Seq<char>, items: Seq<SpecItem>) -> Seq<SpecItem> {
    items.map_values(|i: SpecItem| item_bytes(s, i))
}

/// The region of `sp` in bytes, read from the starts of the characters.
pub fn span_to_bytes(sp: Span, offs: &Vec<usize>, Ghost(s): Ghost<Seq<char>>) -> (r: Span)
    requires
        starts_of(s, offs@),
        sp.fits(),
    ensures
        r == span_in_bytes(s, sp),
        r.fits(),
{
    let n = offs.len() - 1;
    let a = if sp.start < n {
        sp.start
    } else {
        n
    };
    let end = sp.start + sp.len;
    let b = if end < n {
        end
    } else {
        n
    };
    proof {
        lemma_byte_offset_mono(s, a as int, b as int);
        lemma_byte_offset_mono(s, b as int, n as int);
        assert(s.take(n as int) =~= s);
        assert(offs@[a as int] == byte_offset(s, a as int));
        assert(offs@[b as int] == byte_offset(s, b as int));
        assert(byte_offset(s, sp.start as int) == byte_offset(s, a as int));
        assert(byte_offset(s, sp.spec_end()) == byte_offset(s, b as int));
    }
    Span { start: offs[a], len: offs[b] - offs[a] }
}

fn sp_to_bytes<T>(x: Spanned<T>, offs: &Vec<usize>, Ghost(s): Ghost<Seq<char>>) -> (r: Spanned<T>)
    requires
        starts_of(s, offs@),
        x.span.fits(),
    ensures
        r == sp_bytes(s, x),
        r.span.fits(),
{
    Spanned { span: span_to_bytes(x.span, offs, Ghost(s)), value: x.value }
}

fn opt_sp_to_bytes<T>(x: Option<Spanned<T>>, offs: &Vec<usize>, Ghost(s): Ghost<Seq<char>>) -> (r:
    Option<Spanned<T>>)
    requires
        starts_of(s, offs@),
        x matches Some(v) ==> v.span.fits(),
    ensures
        r == opt_sp_bytes(s, x),
        r matches Some(v) ==> v.span.fits(),
{
    match x {
        Some(v) => Some(sp_to_bytes(v, offs, Ghost(s))),
        None => None,
    }
}

fn expr_to_bytes(e: Expr, offs: &Vec<usize>, Ghost(s): Ghost<Seq<char>>) -> (r: Expr)
    requires
        starts_of(s, offs@),
        expr_fits(e@),
    ensures
        r@ == expr_bytes(s, e@),
        expr_fits(r@),
    decreases e,
{
    match e {
        Expr::Assign(a, b) => {
            let a2 = expr_to_bytes(*a, offs, Ghost(s));
            let b2 = expr_to_bytes(*b, offs, Ghost(s));
            Expr::Assign(Box::new(a2), Box::new(b2))
        },
        Expr::Block(b) => Expr::Block(block_to_bytes(b, offs, Ghost(s))),
        Expr::Binary { kind, lhs, rhs, swap_load } => {
            let l2 = expr_to_bytes(*lhs, offs, Ghost(s));
            let r2 = expr_to_bytes(*rhs, offs, Ghost(s));
            Expr::Binary { kind, lhs: Box::new(l2), rhs: Box::new(r2), swap_load }
        },
        Expr::Call(c, args) => {
            let c2 = expr_to_bytes(*c, offs, Ghost(s));
            let args2 = exprs_to_bytes(args, offs, Ghost(s));
            Expr::Call(Box::new(c2), args2)
        },
        Expr::Deref(d, v) => {
            let d2 = sp_to_bytes(d, offs, Ghost(s));
            let v2 = expr_to_bytes(*v, offs, Ghost(s));
            Expr::Deref(d2, Box::new(v2))
        },
        Expr::Ident(i) => Expr::Ident(sp_to_bytes(i, offs, Ghost(s))),
        Expr::Label(i) => Expr::Label(sp_to_bytes(i, offs, Ghost(s))),
        Expr::Number(n) => Expr::Number(sp_to_bytes(n, offs, Ghost(s))),
    }
}

fn exprs_to_bytes(es: Vec<Expr>, offs: &Vec<usize>, Ghost(s): Ghost<Seq<char>>) -> (r: Vec<Expr>)
    requires
        starts_of(s, offs@),
        exprs_fit(view_exprs(es@)),
    ensures
        view_exprs(r@) == exprs_bytes(s, view_exprs(es@)),
        exprs_fit(view_exprs(r@)),
    decreases es@,
{
    let ghost esv = es@;
    let ghost ev = view_exprs(es@);
    let mut init = es;
    match init.pop() {
        None => {
            assert(view_exprs(init@) =~= ev);
            init
        },
        Some(last) => {
            assert(init@ =~= esv.drop_last());
            assert(last == esv.last());
            assert(ev == view_exprs(esv.drop_last()).push(esv.last()@));
            assert(view_exprs(init@) =~= ev.drop_last());
            assert(last@ == ev.last());
            let mut out = exprs_to_bytes(init, offs, Ghost(s));
            let last2 = expr_to_bytes(last, offs, Ghost(s));
            let ghost ov = out@;
            out.push(last2);
            assert(out@.drop_last() =~= ov);
            assert(view_exprs(out@) == view_exprs(ov).push(last2@));
            assert(view_exprs(out@).drop_last() =~= view_exprs(ov));
            out
        },
    }
}

fn block_to_bytes(b: Block, offs: &Vec<usize>, Ghost(s): Ghost<Seq<char>>) -> (r: Block)
    requires
        starts_of(s, offs@),
        block_fits(b@),
    ensures
        r@ == block_bytes(s, b@),
        block_fits(r@),
    decreases b,
{
    let Block { open, stmts, close } = b;
    let open2 = sp_to_bytes(open, offs, Ghost(s));
    let stmts2 = stmts_to_bytes(stmts, offs, Ghost(s));
    let close2 = sp_to_bytes(close, offs, Ghost(s));
    Block { open: open2, stmts: stmts2, close: close2 }
}

#[verifier::rlimit(30)]
fn stmts_to_bytes(st: Vec<Statement>, offs: &Vec<usize>, Ghost(s): Ghost<Seq<char>>) -> (r: Vec<
    Statement,
>)
    requires
        starts_of(s, offs@),
        stmts_fit(view_stmts(st@)),
    ensures
        view_stmts(r@) == stmts_bytes(s, view_stmts(st@)),
        stmts_fit(view_stmts(r@)),
    decreases st@,
{
    let ghost stv = st@;
    let ghost sv = view_stmts(st@);
    let mut init = st;
    match init.pop() {
        None => {
            assert(view_stmts(init@) =~= sv);
            init
        },
        Some(last) => {
            assert(init@ =~= stv.drop_last());
            assert(last == stv.last());
            assert(sv == view_stmts(stv.drop_last()).push(stv.last()@));
            assert(view_stmts(init@) =~= sv.drop_last());
            assert(last@ == sv.last());
            let mut out = stmts_to_bytes(init, offs, Ghost(s));
            let last2 = stmt_to_bytes(last, offs, Ghost(s));
            let ghost ov = out@;
            out.push(last2);
            assert(out@.drop_last() =~= ov);
            assert(view_stmts(out@) == view_stmts(ov).push(last2@));
            assert(view_stmts(out@).drop_last() =~= view_stmts(ov));
            out
        },
    }
}

fn stmt_to_bytes(st: Statement, offs: &Vec<usize>, Ghost(s): Ghost<Seq<char>>) -> (r: Statement)
    requires
        starts_of(s, offs@),
        stmt_fits(st@),
    ensures
        r@ == stmt_bytes(s, st@),
        stmt_fits(r@),
    decreases st,
{
    match st {
        Statement::Expr(x) => {
            let StmtExpr { expr, semi } = x;
            let expr2 = expr_to_bytes(expr, offs, Ghost(s));
            let semi2 = opt_sp_to_bytes(semi, offs, Ghost(s));
            Statement::Expr(StmtExpr { expr: expr2, semi: semi2 })
        },
        Statement::If(x) => {
            let StmtIf { if_, cond, body, otherwise } = x;
            let if2 = sp_to_bytes(if_, offs, Ghost(s));
            let cond2 = expr_to_bytes(cond, offs, Ghost(s));
            let body2 = block_to_bytes(body, offs, Ghost(s));
            let other2 = match otherwise {
                Some(o) => {
                    let (tk, blk) = o;
                    let tk2 = sp_to_bytes(tk, offs, Ghost(s));
                    let blk2 = block_to_bytes(blk, offs, Ghost(s));
                    Some((tk2, blk2))
                },
                None => None,
            };
            Statement::If(StmtIf { if_: if2, cond: cond2, body: body2, otherwise: other2 })
        },
        Statement::Label(x) => {
            let StmtLabel { squot, name, colon } = x;
            let squot2 = sp_to_bytes(squot, offs, Ghost(s));
            let name2 = sp_to_bytes(name, offs, Ghost(s));
            let colon2 = sp_to_bytes(colon, offs, Ghost(s));
            Statement::Label(StmtLabel { squot: squot2, name: name2, colon: colon2 })
        },
        Statement::Let(x) => {
            let StmtLet { let_, name, expr, semi } = x;
            let let2 = sp_to_bytes(let_, offs, Ghost(s));
            let name2 = sp_to_bytes(name, offs, Ghost(s));
            let expr2 = expr_to_bytes(expr, offs, Ghost(s));
            let semi2 = opt_sp_to_bytes(semi, offs, Ghost(s));
            Statement::Let(StmtLet { let_: let2, name: name2, expr: expr2, semi: semi2 })
        },
        Statement::Loop(x) => {
            let StmtLoop { loop_, body } = x;
            let loop2 = sp_to_bytes(loop_, offs, Ghost(s));
            let body2 = block_to_bytes(body, offs, Ghost(s));
            Statement::Loop(StmtLoop { loop_: loop2, body: body2 })
        },
        Statement::While(x) => {
            let StmtWhile { while_, cond, body } = x;
            let while2 = sp_to_bytes(while_, offs, Ghost(s));
            let cond2 = expr_to_bytes(cond, offs, Ghost(s));
            let body2 = block_to_bytes(body, offs, Ghost(s));
            Statement::While(StmtWhile { while_: while2, cond: cond2, body: body2 })
        },
    }
}

fn attrs_to_bytes(v: Vec<Attribute>, offs: &Vec<usize>, Ghost(s): Ghost<Seq<char>>) -> (r: Vec<
    Attribute,
>)
    requires
        starts_of(s, offs@),
        forall|i: int| 0 <= i < v@.len() ==> attribute_fits(#[trigger] v@[i]@),
    ensures
        r@.len() == v@.len(),
        forall|i: int| 0 <= i < r@.len() ==> #[trigger] r@[i]@ == attribute_bytes(s, v@[i]@),
        forall|i: int| 0 <= i < r@.len() ==> attribute_fits(#[trigger] r@[i]@),
    decreases v@.len(),
{
    let ghost vv = v@;
    let mut init = v;
    match init.pop() {
        None => init,
        Some(last) => {
            assert(init@ =~= vv.drop_last());
            assert(last == vv[vv.len() - 1]);
            assert(attribute_fits(vv[vv.len() - 1]@));
            let mut out = attrs_to_bytes(init, offs, Ghost(s));
            let a = Attribute {
                pound: sp_to_bytes(last.pound, offs, Ghost(s)),
                open: sp_to_bytes(last.open, offs, Ghost(s)),
                path: sp_to_bytes(last.path, offs, Ghost(s)),
                style: last.style,
                close: sp_to_bytes(last.close, offs, Ghost(s)),
            };
            let ghost ov = out@;
            out.push(a);
            proof {
                assert forall|i: int| 0 <= i < out@.len() implies #[trigger] out@[i]@ == attribute_bytes(
                    s,
                    vv[i]@,
                ) && attribute_fits(out@[i]@) by {
                    if i < ov.len() {
                        assert(out@[i] == ov[i]);
                    }
                }
            }
            out
        },
    }
}

fn args_to_bytes(v: Vec<FnArg>, offs: &Vec<usize>, Ghost(s): Ghost<Seq<char>>) -> (r: Vec<FnArg>)
    requires
        starts_of(s, offs@),
        forall|i: int| 0 <= i < v@.len() ==> fn_arg_fits(#[trigger] v@[i]@),
    ensures
        r@.len() == v@.len(),
        forall|i: int| 0 <= i < r@.len() ==> #[trigger] r@[i]@ == fn_arg_bytes(s, v@[i]@),
        forall|i: int| 0 <= i < r@.len() ==> fn_arg_fits(#[trigger] r@[i]@),
    decreases v@.len(),
{
    let ghost vv = v@;
    let mut init = v;
    match init.pop() {
        None => init,
        Some(last) => {
            assert(init@ =~= vv.drop_last());
            assert(last == vv[vv.len() - 1]);
            assert(fn_arg_fits(vv[vv.len() - 1]@));
            let mut out = args_to_bytes(init, offs, Ghost(s));
            let FnArg { name, ty } = last;
            let a = FnArg { name: sp_to_bytes(name, offs, Ghost(s)), ty: sp_to_bytes(ty, offs, Ghost(s)) };
            let ghost ov = out@;
            out.push(a);
            proof {
                assert forall|i: int| 0 <= i < out@.len() implies #[trigger] out@[i]@ == fn_arg_bytes(
                    s,
                    vv[i]@,
                ) && fn_arg_fits(out@[i]@) by {
                    if i < ov.len() {
                        assert(out@[i] == ov[i]);
                    }
                }
            }
            out
        },
    }
}

fn item_to_bytes(it: Item, offs: &Vec<usize>, Ghost(s): Ghost<Seq<char>>) -> (r: Item)
    requires
        starts_of(s, offs@),
        item_fits(it@),
    ensures
        r@ == item_bytes(s, it@),
        item_fits(r@),
{
    match it {
        Item::Function(f) => {
            let ItemFunction { attrs, unsafe_, fn_, name, args, ret, body } = f;
            proof {
                assert forall|i: int| 0 <= i < attrs@.len() implies attribute_fits(#[trigger] attrs@[i]@) by {
                    assert(attribute_fits(attrs@.map_values(|a: Attribute| a@)[i]));
                }
            }
            let attrs2 = attrs_to_bytes(attrs, offs, Ghost(s));
            let unsafe2 = opt_sp_to_bytes(unsafe_, offs, Ghost(s));
            let fn2 = sp_to_bytes(fn_, offs, Ghost(s));
            let name2 = sp_to_bytes(name, offs, Ghost(s));
            let FnArgs { open, args: list, close } = args;
            proof {
                assert forall|i: int| 0 <= i < list@.len() implies fn_arg_fits(#[trigger] list@[i]@) by {
                    assert(fn_arg_fits(list@.map_values(|a: FnArg| a@)[i]));
                }
            }
            let open2 = sp_to_bytes(open, offs, Ghost(s));
            let list2 = args_to_bytes(list, offs, Ghost(s));
            let close2 = sp_to_bytes(close, offs, Ghost(s));
            let ret2 = match ret {
                Some(r) => Some(sp_to_bytes(r, offs, Ghost(s))),
                None => None,
            };
            let body2 = block_to_bytes(body, offs, Ghost(s));
            let f2 = ItemFunction {
                attrs: attrs2,
                unsafe_: unsafe2,
                fn_: fn2,
                name: name2,
                args: FnArgs { open: open2, args: list2, close: close2 },
                ret: ret2,
                body: body2,
            };
            proof {
                assert(f2@.args.args =~= fn_args_bytes(s, f@.args).args) by {
                    assert forall|i: int| 0 <= i < f2@.args.args.len() implies #[trigger] f2@.args.args[i]
                        == fn_args_bytes(s, f@.args).args[i] by {
                        assert(list2@[i]@ == fn_arg_bytes(s, list@[i]@));
                    }
                }
                assert(f2@.attrs =~= item_function_bytes(s, f@).attrs) by {
                    assert forall|i: int| 0 <= i < f2@.attrs.len() implies #[trigger] f2@.attrs[i]
                        == item_function_bytes(s, f@).attrs[i] by {
                        assert(attrs2@[i]@ == attribute_bytes(s, attrs@[i]@));
                    }
                }
                assert forall|i: int| 0 <= i < f2@.args.args.len() implies fn_arg_fits(
                    #[trigger] f2@.args.args[i],
                ) by {
                    assert(fn_arg_fits(list2@[i]@));
                }
                assert forall|i: int| 0 <= i < f2@.attrs.len() implies attribute_fits(
                    #[trigger] f2@.attrs[i],
                ) by {
                    assert(attribute_fits(attrs2@[i]@));
                }
                assert(f2@ =~= item_function_bytes(s, f@));
            }
            Item::Function(f2)
        },
    }
}

/// The items with every span moved to bytes of `s`.
pub fn items_to_bytes(items: Vec<Item>, offs: &Vec<usize>, Ghost(s): Ghost<Seq<char>>) -> (r: Vec<Item>)
    requires
        starts_of(s, offs@),
        forall|i: int| 0 <= i < items@.len() ==> item_fits(#[trigger] items@[i]@),
    ensures
        r@.len() == items@.len(),
        forall|i: int| 0 <= i < r@.len() ==> #[trigger] r@[i]@ == item_bytes(s, items@[i]@),
        forall|i: int| 0 <= i < r@.len() ==> item_fits(#[trigger] r@[i]@),
    decreases items@.len(),
{
    let ghost vv = items@;
    let mut init = items;
    match init.pop() {
        None => init,
        Some(last) => {
            assert(init@ =~= vv.drop_last());
            assert(last == vv[vv.len() - 1]);
            let mut out = items_to_bytes(init, offs, Ghost(s));
            let a = item_to_bytes(last, offs, Ghost(s));
            let ghost ov = out@;
            out.push(a);
            proof {
                assert forall|i: int| 0 <= i < out@.len() implies #[trigger] out@[i]@ == item_bytes(
                    s,
                    vv[i]@,
                ) && item_fits(out@[i]@) by {
                    if i < ov.len() {
                        assert(out@[i] == ov[i]);
                    }
                }
            }
            out
        },
    }
}

} // verus!
