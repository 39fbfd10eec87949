//! What the analyzer checks and rewrites in each node.
//!
//! Each analysis is stated as a function from a node and the summary before
//! it to the rewritten node and the summary after it; `None` stands for an
//! analysis that cannot finish because an `i32` or a counter overflows.

use vstd::prelude::*;

use crate::analysis::{
    spec_error, spec_error_marked, with_cost, with_entry, with_functions, with_locals,
    without_marked, AnalyzeError, AnalyzeResult, ErrorMarker, SpecSummary,
};
use crate::nodes::attribute::spec_builtin_of;
use crate::nodes::model::{
    expr_span, exprs_span, fn_args_span, stmt_span, SpecAttribute, SpecBlock, SpecExpr,
    SpecFnArg, SpecFunctionDefinition, SpecItem, SpecItemFunction, SpecStatement,
};
use crate::nodes::statements::{is_comparison, spec_has_semi};
use crate::nodes::{
    AnalyzeCalleeIsNotIdent, AnalyzeExpectedCondition, AnalyzeExprNotAssignable,
    AnalyzeFunctionExistsError, AnalyzeFunctionMismatchArgsCountError,
    AnalyzeFunctionNotExistsError, AnalyzeFunctionUniqueEntry, AnalyzeMissingSemicolon,
    AnalyzeUnknownAttribute, AnalyzeVariableNotExistsError, ConditionStatement, ExprBinary,
};
use crate::parser::{Span, Spanned};

verus! {

/// Whether an expression may stand on the left of `=`.
pub open spec fn is_assignable(e: SpecExpr) -> bool {
    e is Deref || e is Ident
}

/// Whether a value fits an `i32`.
pub open spec fn fits_i32(v: int) -> bool {
    i32::MIN <= v <= i32::MAX
}

/// The last statement before the final one that lacks its `;`, if any.
pub open spec fn last_unterminated(stmts: Seq<SpecStatement>) -> Option<SpecStatement>
    decreases stmts.len(),
{
    if stmts.len() <= 1 {
        None
    } else {
        let cand = stmts[stmts.len() - 2];
        if spec_has_semi(cand) == Some(false) {
            Some(cand)
        } else {
            last_unterminated(stmts.drop_last())
        }
    }
}

/// The summary after the condition of an `if` or `while` is checked.
pub open spec fn check_condition(cond: SpecExpr, statement: ConditionStatement, s: SpecSummary) -> SpecSummary {
    if is_comparison(cond) {
        s
    } else {
        spec_error(
            s,
            AnalyzeError::ExpectedCondition(
                AnalyzeExpectedCondition { location: expr_span(cond), statement },
            ),
        )
    }
}

/// Analysis of an expression: variables and callees must be declared, the
/// target of `=` assignable, the arguments as many as the callee declares;
/// additions and subtractions of two numbers are folded into one number, and
/// a binary expression loads its costlier operand first.
pub open spec fn an_expr(e: SpecExpr, s: SpecSummary) -> Option<(SpecExpr, SpecSummary)>
    decreases e,
{
    match e {
        SpecExpr::Assign(var, val) => match an_expr(*var, s) {
            None => None,
            Some((v2, s1)) => {
                let s2 = if is_assignable(v2) {
                    s1
                } else {
                    spec_error(
                        s1,
                        AnalyzeError::ExprNotAssignable(
                            AnalyzeExprNotAssignable { location: expr_span(v2) },
                        ),
                    )
                };
                match an_expr(*val, s2) {
                    None => None,
                    Some((e2, s3)) => Some((SpecExpr::Assign(Box::new(v2), Box::new(e2)), s3)),
                }
            },
        },
        SpecExpr::Block(b) => match an_block(b, s) {
            None => None,
            Some((b2, s1)) => Some((SpecExpr::Block(b2), s1)),
        },
        SpecExpr::Binary { kind, lhs, rhs, swap_load } => {
            let base = s.stores.binary_cost;
            match an_expr(*lhs, s) {
                None => None,
                Some((l2, s1)) => match an_expr(*rhs, with_cost(s1, base)) {
                    None => None,
                    Some((r2, s2)) => {
                        let s3 = with_cost(s2, base);
                        if l2 is Number && r2 is Number {
                            let a = l2->Number_0;
                            let b = r2->Number_0;
                            let span = a.span.spec_merge(b.span);
                            match kind {
                                ExprBinary::Add => if fits_i32(a.value + b.value) {
                                    Some(
                                        (
                                            SpecExpr::Number(
                                                Spanned { span, value: (a.value + b.value) as i32 },
                                            ),
                                            s3,
                                        ),
                                    )
                                } else {
                                    None
                                },
                                ExprBinary::Sub => if fits_i32(a.value - b.value) {
                                    Some(
                                        (
                                            SpecExpr::Number(
                                                Spanned { span, value: (a.value - b.value) as i32 },
                                            ),
                                            s3,
                                        ),
                                    )
                                } else {
                                    None
                                },
                                _ => Some(
                                    (
                                        SpecExpr::Binary {
                                            kind,
                                            lhs: Box::new(l2),
                                            rhs: Box::new(r2),
                                            swap_load,
                                        },
                                        s3,
                                    ),
                                ),
                            }
                        } else if base + 1 > usize::MAX {
                            None
                        } else {
                            Some(
                                (
                                    SpecExpr::Binary {
                                        kind,
                                        lhs: Box::new(l2),
                                        rhs: Box::new(r2),
                                        swap_load: swap_load || s2.stores.binary_cost
                                            > s1.stores.binary_cost,
                                    },
                                    with_cost(s3, (base + 1) as usize),
                                ),
                            )
                        }
                    },
                },
            }
        },
        SpecExpr::Call(c, args) => match *c {
            SpecExpr::Ident(i) => if !s.stores.functions.contains_key(i.value) {
                Some(
                    (
                        e,
                        spec_error_marked(
                            s,
                            AnalyzeError::FunctionNotExistsError(
                                AnalyzeFunctionNotExistsError { location: i.span },
                            ),
                            ErrorMarker::FunctionNotExists,
                        ),
                    ),
                )
            } else {
                let def = s.stores.functions[i.value];
                let s1 = if def.args.args.len() != args.len() {
                    spec_error(
                        s,
                        AnalyzeError::FunctionMismatchArgsCountError(
                            AnalyzeFunctionMismatchArgsCountError {
                                location: exprs_span(args),
                                provided: args.len() as usize,
                                original: fn_args_span(def.args),
                                expected: def.args.args.len() as usize,
                            },
                        ),
                    )
                } else {
                    s
                };
                match an_exprs(args, s1) {
                    None => None,
                    Some((a2, s2)) => Some((SpecExpr::Call(c, a2), s2)),
                }
            },
            _ => Some(
                (
                    e,
                    spec_error(
                        s,
                        AnalyzeError::CalleeIsNotIdent(
                            AnalyzeCalleeIsNotIdent { location: expr_span(*c) },
                        ),
                    ),
                ),
            ),
        },
        SpecExpr::Deref(d, v) => match an_expr(*v, s) {
            None => None,
            Some((v2, s1)) => Some((SpecExpr::Deref(d, Box::new(v2)), s1)),
        },
        SpecExpr::Ident(var) => if s.stores.local_vars.contains_key(var.value) {
            Some((e, s))
        } else {
            Some(
                (
                    e,
                    spec_error(
                        s,
                        AnalyzeError::VariableNotExistsError(
                            AnalyzeVariableNotExistsError { location: var.span },
                        ),
                    ),
                ),
            )
        },
        SpecExpr::Label(_) => Some((e, s)),
        SpecExpr::Number(_) => Some((e, s)),
    }
}

/// Analysis of expressions one after the other.
pub open spec fn an_exprs(es: Seq<SpecExpr>, s: SpecSummary) -> Option<(Seq<SpecExpr>, SpecSummary)>
    decreases es,
{
    if es.len() == 0 {
        Some((es, s))
    } else {
        match an_exprs(es.drop_last(), s) {
            None => None,
            Some((p, s1)) => match an_expr(es.last(), s1) {
                None => None,
                Some((e2, s2)) => Some((p.push(e2), s2)),
            },
        }
    }
}

/// Analysis of a block: every statement but the last that may end with `;`
/// must; then its statements in order.
pub open spec fn an_block(b: SpecBlock, s: SpecSummary) -> Option<(SpecBlock, SpecSummary)>
    decreases b,
{
    let s1 = match last_unterminated(b.stmts) {
        Some(st) => spec_error(
            s,
            AnalyzeError::MissingSemicolon(
                AnalyzeMissingSemicolon { location: stmt_span(st).spec_end_span(0) },
            ),
        ),
        None => s,
    };
    match an_stmts(b.stmts, s1) {
        None => None,
        Some((ss, s2)) => Some((SpecBlock { stmts: ss, ..b }, s2)),
    }
}

/// Analysis of statements one after the other.
pub open spec fn an_stmts(ss: Seq<SpecStatement>, s: SpecSummary) -> Option<(Seq<SpecStatement>, SpecSummary)>
    decreases ss,
{
    if ss.len() == 0 {
        Some((ss, s))
    } else {
        match an_stmts(ss.drop_last(), s) {
            None => None,
            Some((p, s1)) => match an_stmt(ss.last(), s1) {
                None => None,
                Some((st2, s2)) => Some((p.push(st2), s2)),
            },
        }
    }
}

/// Analysis of a statement: conditions must be comparisons, `let` declares
/// its variable before its value is analyzed; the bodies of loops are not
/// analyzed.
pub open spec fn an_stmt(st: SpecStatement, s: SpecSummary) -> Option<(SpecStatement, SpecSummary)>
    decreases st,
{
    match st {
        SpecStatement::Expr { expr, semi } => match an_expr(expr, s) {
            None => None,
            Some((e2, s1)) => Some((SpecStatement::Expr { expr: e2, semi }, s1)),
        },
        SpecStatement::If { if_, cond, body, otherwise } => match an_expr(cond, s) {
            None => None,
            Some((c2, s1)) => match an_block(body, check_condition(c2, ConditionStatement::If, s1)) {
                None => None,
                Some((b2, s2)) => match otherwise {
                    None => Some((SpecStatement::If { if_, cond: c2, body: b2, otherwise: None }, s2)),
                    Some(o) => match an_block(o.1, s2) {
                        None => None,
                        Some((o2, s3)) => Some(
                            (
                                SpecStatement::If {
                                    if_,
                                    cond: c2,
                                    body: b2,
                                    otherwise: Some((o.0, o2)),
                                },
                                s3,
                            ),
                        ),
                    },
                },
            },
        },
        SpecStatement::Label { .. } => Some((st, s)),
        SpecStatement::Let { let_, name, expr, semi } => match an_expr(
            expr,
            with_locals(s, s.stores.local_vars.insert(name.value, name.span)),
        ) {
            None => None,
            Some((e2, s1)) => Some((SpecStatement::Let { let_, name, expr: e2, semi }, s1)),
        },
        SpecStatement::Loop { .. } => Some((st, s)),
        SpecStatement::While { while_, cond, body } => match an_expr(cond, s) {
            None => None,
            Some((c2, s1)) => Some(
                (
                    SpecStatement::While { while_, cond: c2, body },
                    check_condition(c2, ConditionStatement::While, s1),
                ),
            ),
        },
    }
}

} // verus!

verus! {

/// The later list of diagnostics starts with the earlier one: none was removed
/// or changed.
pub open spec fn keeps_errors(a: Seq<(AnalyzeError, ErrorMarker)>, b: Seq<(AnalyzeError, ErrorMarker)>) -> bool {
    &&& a.len() <= b.len()
    &&& forall|i: int| 0 <= i < a.len() ==> #[trigger] b[i] == a[i]
}

/// Every report of an unknown function added after the first `n` diagnostics
/// carries the mark that a later declaration withdraws.
pub open spec fn marked_after(errors: Seq<(AnalyzeError, ErrorMarker)>, n: int) -> bool {
    forall|i: int|
        n <= i < errors.len() && (#[trigger] errors[i]).0 is FunctionNotExistsError ==> errors[i].1
            == ErrorMarker::FunctionNotExists
}

/// The analysis of code inside a function leaves the declared functions, the
/// entry function and the `if` counter as they were, keeps every diagnostic
/// reported before, and marks every report of an unknown function it adds.
pub open spec fn keeps_shared(s: SpecSummary, s2: SpecSummary) -> bool {
    &&& s2.stores.functions == s.stores.functions
    &&& s2.stores.entry_fn == s.stores.entry_fn
    &&& s2.stores.if_count == s.stores.if_count
    &&& keeps_errors(s.errors, s2.errors)
    &&& marked_after(s2.errors, s.errors.len() as int)
}

/// Analyzing an expression leaves the declared functions, the entry function
/// and the `if` counter as they were, and never removes a diagnostic.
pub proof fn lemma_expr_frame(e: SpecExpr, s: SpecSummary)
    ensures
        an_expr(e, s) matches Some((_, s2)) ==> keeps_shared(s, s2),
    decreases e,
{
    match e {
        SpecExpr::Assign(var, val) => {
            lemma_expr_frame(*var, s);
            if let Some((v2, s1)) = an_expr(*var, s) {
                let s2 = if is_assignable(v2) {
                    s1
                } else {
                    spec_error(
                        s1,
                        AnalyzeError::ExprNotAssignable(
                            AnalyzeExprNotAssignable { location: expr_span(v2) },
                        ),
                    )
                };
                lemma_expr_frame(*val, s2);
            }
        },
        SpecExpr::Block(b) => lemma_block_frame(b, s),
        SpecExpr::Binary { kind, lhs, rhs, swap_load } => {
            lemma_expr_frame(*lhs, s);
            if let Some((l2, s1)) = an_expr(*lhs, s) {
                lemma_expr_frame(*rhs, with_cost(s1, s.stores.binary_cost));
            }
        },
        SpecExpr::Call(c, args) => {
            if let SpecExpr::Ident(i) = *c {
                if s.stores.functions.contains_key(i.value) {
                    let def = s.stores.functions[i.value];
                    let s1 = if def.args.args.len() != args.len() {
                        spec_error(
                            s,
                            AnalyzeError::FunctionMismatchArgsCountError(
                                AnalyzeFunctionMismatchArgsCountError {
                                    location: exprs_span(args),
                                    provided: args.len() as usize,
                                    original: fn_args_span(def.args),
                                    expected: def.args.args.len() as usize,
                                },
                            ),
                        )
                    } else {
                        s
                    };
                    lemma_exprs_frame(args, s1);
                }
            }
        },
        SpecExpr::Deref(d, v) => lemma_expr_frame(*v, s),
        _ => {},
    }
}

/// Analyzing a list of expressions leaves the declared functions, the entry
/// function and the `if` counter as they were, and never removes a diagnostic.
pub proof fn lemma_exprs_frame(es: Seq<SpecExpr>, s: SpecSummary)
    ensures
        an_exprs(es, s) matches Some((_, s2)) ==> keeps_shared(s, s2),
    decreases es,
{
    if es.len() > 0 {
        lemma_exprs_frame(es.drop_last(), s);
        if let Some((p, s1)) = an_exprs(es.drop_last(), s) {
            lemma_expr_frame(es.last(), s1);
        }
    }
}

/// Analyzing a block leaves the declared functions, the entry function and the
/// `if` counter as they were, and never removes a diagnostic.
pub proof fn lemma_block_frame(b: SpecBlock, s: SpecSummary)
    ensures
        an_block(b, s) matches Some((_, s2)) ==> keeps_shared(s, s2),
    decreases b,
{
    let s1 = match last_unterminated(b.stmts) {
        Some(st) => spec_error(
            s,
            AnalyzeError::MissingSemicolon(
                AnalyzeMissingSemicolon { location: stmt_span(st).spec_end_span(0) },
            ),
        ),
        None => s,
    };
    lemma_stmts_frame(b.stmts, s1);
}

/// Analyzing a list of statements leaves the declared functions, the entry
/// function and the `if` counter as they were, and never removes a diagnostic.
pub proof fn lemma_stmts_frame(ss: Seq<SpecStatement>, s: SpecSummary)
    ensures
        an_stmts(ss, s) matches Some((_, s2)) ==> keeps_shared(s, s2),
    decreases ss,
{
    if ss.len() > 0 {
        lemma_stmts_frame(ss.drop_last(), s);
        if let Some((p, s1)) = an_stmts(ss.drop_last(), s) {
            lemma_stmt_frame(ss.last(), s1);
        }
    }
}

/// Analyzing a statement leaves the declared functions, the entry function and
/// the `if` counter as they were, and never removes a diagnostic.
#[verifier::spinoff_prover]
#[verifier::rlimit(40)]
pub proof fn lemma_stmt_frame(st: SpecStatement, s: SpecSummary)
    ensures
        an_stmt(st, s) matches Some((_, s2)) ==> keeps_shared(s, s2),
    decreases st,
{
    match st {
        SpecStatement::Expr { expr, .. } => lemma_expr_frame(expr, s),
        SpecStatement::If { cond, body, otherwise, .. } => {
            lemma_expr_frame(cond, s);
            if let Some((c2, s1)) = an_expr(cond, s) {
                let sc = check_condition(c2, ConditionStatement::If, s1);
                lemma_block_frame(body, sc);
                if let Some((b2, s2)) = an_block(body, sc) {
                    if let Some(o) = otherwise {
                        lemma_block_frame(o.1, s2);
                    }
                }
            }
        },
        SpecStatement::Let { name, expr, .. } => lemma_expr_frame(
            expr,
            with_locals(s, s.stores.local_vars.insert(name.value, name.span)),
        ),
        SpecStatement::While { cond, .. } => lemma_expr_frame(cond, s),
        _ => {},
    }
}

} // verus!

verus! {

/// The summary after each attribute naming no builtin is reported.
pub open spec fn an_attrs(attrs: Seq<SpecAttribute>, s: SpecSummary) -> SpecSummary
    decreases attrs.len(),
{
    if attrs.len() == 0 {
        s
    } else {
        let s1 = an_attrs(attrs.drop_last(), s);
        let a = attrs.last();
        if spec_builtin_of(a.path.value) is None {
            spec_error(
                s1,
                AnalyzeError::UnknownAttribute(AnalyzeUnknownAttribute { location: a.path.span }),
            )
        } else {
            s1
        }
    }
}

/// The summary after each `#[entry]` attribute claims the entry for the
/// function whose name lies at `name`; a second entry function is reported.
pub open spec fn an_entries(attrs: Seq<SpecAttribute>, name: Span, s: SpecSummary) -> SpecSummary
    decreases attrs.len(),
{
    if attrs.len() == 0 {
        s
    } else {
        let s1 = an_entries(attrs.drop_last(), name, s);
        if spec_builtin_of(attrs.last().path.value) is Some {
            match s1.stores.entry_fn {
                Some(p) => if p != name {
                    spec_error(
                        s1,
                        AnalyzeError::FunctionUniqueEntry(
                            AnalyzeFunctionUniqueEntry { location: name, original: p },
                        ),
                    )
                } else {
                    with_entry(s1, Some(name))
                },
                None => with_entry(s1, Some(name)),
            }
        } else {
            s1
        }
    }
}

/// The local variables after the arguments are declared in order.
pub open spec fn declare_args(args: Seq<SpecFnArg>, m: Map<Seq<char>, Span>) -> Map<Seq<char>, Span>
    decreases args.len(),
{
    if args.len() == 0 {
        m
    } else {
        declare_args(args.drop_last(), m).insert(args.last().name.value, args.last().name.span)
    }
}

/// What the analyzer records of a function.
pub open spec fn definition_of(f: SpecItemFunction) -> SpecFunctionDefinition {
    SpecFunctionDefinition { name: f.name, args: f.args, ret: f.ret }
}

/// Analysis of a function. Its definition is recorded first. A second function
/// of the same name stops the analysis. A function met for the first time
/// withdraws the reports of calls to undeclared functions, and if there were
/// any, the analysis stops to start again. Otherwise the attributes are
/// checked, `#[entry]` claims the entry, the arguments become local
/// variables, and the body is analyzed.
pub open spec fn an_fn(f: SpecItemFunction, s: SpecSummary) -> Option<
    (SpecItemFunction, SpecSummary, AnalyzeResult),
> {
    let key = f.name.value;
    let s0 = with_locals(s, Map::empty());
    let fs = s0.stores.functions;
    let s1 = with_functions(s0, fs.insert(key, definition_of(f)));
    if fs.contains_key(key) && fs[key].name.span != f.name.span {
        Some(
            (
                f,
                spec_error(
                    s1,
                    AnalyzeError::FunctionExistsError(
                        AnalyzeFunctionExistsError {
                            location: f.name.span,
                            original: fs[key].name.span,
                        },
                    ),
                ),
                AnalyzeResult::Break(false),
            ),
        )
    } else {
        let s2 = if fs.contains_key(key) {
            s1
        } else {
            SpecSummary {
                errors: without_marked(s1.errors, ErrorMarker::FunctionNotExists),
                ..s1
            }
        };
        if s2.errors.len() != s1.errors.len() {
            Some((f, s2, AnalyzeResult::Break(true)))
        } else {
            let s3 = an_entries(f.attrs, f.name.span, an_attrs(f.attrs, s2));
            let s4 = with_locals(s3, declare_args(f.args.args, s3.stores.local_vars));
            match an_block(f.body, s4) {
                None => None,
                Some((b2, s5)) => Some(
                    (SpecItemFunction { body: b2, ..f }, s5, AnalyzeResult::Continue),
                ),
            }
        }
    }
}

pub open spec fn an_item(i: SpecItem, s: SpecSummary) -> Option<(SpecItem, SpecSummary, AnalyzeResult)> {
    match i {
        SpecItem::Function(f) => match an_fn(f, s) {
            None => None,
            Some((f2, s2, r)) => Some((SpecItem::Function(f2), s2, r)),
        },
    }
}

/// Analysis of items in order, until one stops the analysis; the items after
/// it stay as they are.
pub open spec fn an_items(items: Seq<SpecItem>, s: SpecSummary) -> Option<
    (Seq<SpecItem>, SpecSummary, AnalyzeResult),
>
    decreases items.len(),
{
    if items.len() == 0 {
        Some((items, s, AnalyzeResult::Continue))
    } else {
        match an_items(items.drop_last(), s) {
            None => None,
            Some((p, s1, r)) => match r {
                AnalyzeResult::Break(_) => Some((p.push(items.last()), s1, r)),
                AnalyzeResult::Continue => match an_item(items.last(), s1) {
                    None => None,
                    Some((i2, s2, r2)) => Some((p.push(i2), s2, r2)),
                },
            },
        }
    }
}

pub open spec fn item_name(i: SpecItem) -> Seq<char> {
    match i {
        SpecItem::Function(f) => f.name.value,
    }
}

/// The number of items whose name is not among the recorded functions.
pub open spec fn pending(items: Seq<SpecItem>, fs: Map<Seq<char>, SpecFunctionDefinition>) -> nat
    decreases items.len(),
{
    if items.len() == 0 {
        0
    } else {
        pending(items.drop_last(), fs) + if fs.contains_key(item_name(items.last())) {
            0nat
        } else {
            1nat
        }
    }
}

/// Two lists of items with the same names, in order.
pub open spec fn same_names(a: Seq<SpecItem>, b: Seq<SpecItem>) -> bool {
    &&& a.len() == b.len()
    &&& forall|i: int| 0 <= i < a.len() ==> item_name(#[trigger] a[i]) == item_name(b[i])
}

/// Analyzing a function keeps its name, keeps every function declared before,
/// declares this one, and asks for another round only when this one was new.
pub proof fn lemma_an_fn_progress(f: SpecItemFunction, s: SpecSummary)
    ensures
        an_fn(f, s) matches Some((f2, s2, r)) ==> {
            &&& f2.name == f.name
            &&& s.stores.functions.dom().subset_of(s2.stores.functions.dom())
            &&& s2.stores.functions.contains_key(f.name.value)
            &&& (r == AnalyzeResult::Break(true) ==> !s.stores.functions.contains_key(f.name.value))
        },
{
    let key = f.name.value;
    let s0 = with_locals(s, Map::empty());
    let fs = s0.stores.functions;
    let s1 = with_functions(s0, fs.insert(key, definition_of(f)));
    if !(fs.contains_key(key) && fs[key].name.span != f.name.span) {
        let s2 = if fs.contains_key(key) {
            s1
        } else {
            SpecSummary {
                errors: without_marked(s1.errors, ErrorMarker::FunctionNotExists),
                ..s1
            }
        };
        if s2.errors.len() == s1.errors.len() {
            let s3 = an_entries(f.attrs, f.name.span, an_attrs(f.attrs, s2));
            let s4 = with_locals(s3, declare_args(f.args.args, s3.stores.local_vars));
            lemma_attrs_frame(f.attrs, s2);
            lemma_entries_frame(f.attrs, f.name.span, an_attrs(f.attrs, s2));
            lemma_block_frame(f.body, s4);
        }
    }
}

/// Checking attributes changes no store.
pub proof fn lemma_attrs_frame(attrs: Seq<SpecAttribute>, s: SpecSummary)
    ensures
        an_attrs(attrs, s).stores == s.stores,
    decreases attrs.len(),
{
    if attrs.len() > 0 {
        lemma_attrs_frame(attrs.drop_last(), s);
    }
}

/// Recording the entry function leaves the declared functions as they were.
pub proof fn lemma_entries_frame(attrs: Seq<SpecAttribute>, name: Span, s: SpecSummary)
    ensures
        an_entries(attrs, name, s).stores.functions == s.stores.functions,
    decreases attrs.len(),
{
    if attrs.len() > 0 {
        lemma_entries_frame(attrs.drop_last(), name, s);
    }
}

/// Analyzing items keeps their names and order and every function declared
/// before, and asks for another round only when some item declared a function
/// that was not declared before.
pub proof fn lemma_an_items_progress(items: Seq<SpecItem>, s: SpecSummary)
    ensures
        an_items(items, s) matches Some((items2, s2, r)) ==> {
            &&& same_names(items, items2)
            &&& s.stores.functions.dom().subset_of(s2.stores.functions.dom())
            &&& (r == AnalyzeResult::Break(true) ==> exists|i: int|
                0 <= i < items.len() && !s.stores.functions.contains_key(item_name(#[trigger] items[i]))
                    && s2.stores.functions.contains_key(item_name(items[i])))
        },
    decreases items.len(),
{
    if items.len() > 0 {
        let init = items.drop_last();
        lemma_an_items_progress(init, s);
        if let Some((p, s1, r)) = an_items(init, s) {
            assert forall|i: int| 0 <= i < init.len() implies #[trigger] items[i] == init[i] by {}
            match r {
                AnalyzeResult::Break(_) => {
                    if r == AnalyzeResult::Break(true) {
                        let i = choose|i: int|
                            0 <= i < init.len() && !s.stores.functions.contains_key(item_name(#[trigger] init[i]))
                                && s1.stores.functions.contains_key(item_name(init[i]));
                        assert(items[i] == init[i]);
                    }
                    assert forall|i: int| 0 <= i < items.len() implies item_name(#[trigger] items[i])
                        == item_name(p.push(items.last())[i]) by {
                        if i < init.len() {
                            assert(items[i] == init[i]);
                        }
                    }
                },
                AnalyzeResult::Continue => {
                    match items.last() {
                        SpecItem::Function(f) => lemma_an_fn_progress(f, s1),
                    }
                    if let Some((i2, s2, r2)) = an_item(items.last(), s1) {
                        assert forall|i: int| 0 <= i < items.len() implies item_name(#[trigger] items[i])
                            == item_name(p.push(i2)[i]) by {
                            if i < init.len() {
                                assert(items[i] == init[i]);
                            }
                        }
                        if r2 == AnalyzeResult::Break(true) {
                            assert(items[items.len() - 1] == items.last());
                        }
                    }
                },
            }
        }
    }
}

/// More recorded functions leave no more items pending, and recording the
/// name of a pending item leaves fewer.
pub proof fn lemma_pending_decreases(
    items: Seq<SpecItem>,
    items2: Seq<SpecItem>,
    fs: Map<Seq<char>, SpecFunctionDefinition>,
    fs2: Map<Seq<char>, SpecFunctionDefinition>,
)
    requires
        same_names(items, items2),
        fs.dom().subset_of(fs2.dom()),
    ensures
        pending(items2, fs2) <= pending(items, fs),
        (exists|i: int|
            0 <= i < items.len() && !fs.contains_key(item_name(#[trigger] items[i]))
                && fs2.contains_key(item_name(items[i]))) ==> pending(items2, fs2) < pending(items, fs),
    decreases items.len(),
{
    if items.len() > 0 {
        let a = items.drop_last();
        let b = items2.drop_last();
        assert forall|i: int| 0 <= i < a.len() implies item_name(#[trigger] a[i]) == item_name(b[i]) by {
            assert(items[i] == a[i]);
            assert(items2[i] == b[i]);
        }
        lemma_pending_decreases(a, b, fs, fs2);
        assert(item_name(items.last()) == item_name(items2.last()));
        if exists|i: int|
            0 <= i < items.len() && !fs.contains_key(item_name(#[trigger] items[i]))
                && fs2.contains_key(item_name(items[i])) {
            let i = choose|i: int|
                0 <= i < items.len() && !fs.contains_key(item_name(#[trigger] items[i]))
                    && fs2.contains_key(item_name(items[i]));
            if i < a.len() {
                assert(items[i] == a[i]);
            }
        }
    }
}

/// Analysis run again for as long as it asks to be: the items and the summary
/// at the end, or `None` where a run overflows.
pub open spec fn analyzed_from(items: Seq<SpecItem>, s: SpecSummary) -> Option<(Seq<SpecItem>, SpecSummary)>
    decreases pending(items, s.stores.functions),
{
    match an_items(items, s) {
        None => None,
        Some((items2, s2, r)) => if r == AnalyzeResult::Break(true) {
            proof {
                lemma_an_items_progress(items, s);
                lemma_pending_decreases(items, items2, s.stores.functions, s2.stores.functions);
            }
            analyzed_from(items2, s2)
        } else {
            Some((items2, s2))
        },
    }
}

/// A program whose functions have distinct names and call only each other,
/// possibly before they are declared, is analyzed to the end with no report of
/// an unknown function left: each round that meets such a call before the
/// declaration withdraws the report when it reaches the declaration and starts
/// again, and the last round meets every function declared.
pub proof fn lemma_forward_calls_resolved(items: Seq<SpecItem>, s: SpecSummary)
    requires
        distinct_names(items),
        calls_within(items),
        none_unresolved(s.errors),
        defs_match(items, s.stores.functions),
    ensures
        analyzed_from(items, s) matches Some((_, s2)) ==> none_unresolved(s2.errors),
    decreases pending(items, s.stores.functions),
{
    lemma_round_resolved(items, items.len() as int, s);
    assert(items.take(items.len() as int) =~= items);
    if let Some((items2, s2, r)) = an_items(items, s) {
        if r == AnalyzeResult::Break(true) {
            lemma_an_items_progress(items, s);
            lemma_pending_decreases(items, items2, s.stores.functions, s2.stores.functions);
            assert forall|i: int| 0 <= i < items2.len() implies item_name(#[trigger] items2[i]) == item_name(
                items[i],
            ) by {
                assert(item_ident(items2[i]) == item_ident(items[i]));
            }
            assert(names_of(items2) =~= names_of(items)) by {
                assert forall|c: Seq<char>| names_of(items).contains(c) implies names_of(items2).contains(c) by {
                    let j = choose|j: int| 0 <= j < items.len() && item_name(#[trigger] items[j]) == c;
                    assert(item_name(items2[j]) == c);
                }
                assert forall|c: Seq<char>| names_of(items2).contains(c) implies names_of(items).contains(c) by {
                    let j = choose|j: int| 0 <= j < items2.len() && item_name(#[trigger] items2[j]) == c;
                    assert(item_name(items[j]) == c);
                }
            }
            assert forall|i: int, j: int| 0 <= i < j < items2.len() implies item_name(#[trigger] items2[i])
                != item_name(#[trigger] items2[j]) by {
                assert(item_name(items2[i]) == item_name(items[i]));
                assert(item_name(items2[j]) == item_name(items[j]));
            }
            assert forall|i: int| 0 <= i < items2.len() implies item_callees(#[trigger] items2[i]).subset_of(
                names_of(items2),
            ) by {
                assert(item_callees(items[i]).subset_of(names_of(items)));
            }
            assert forall|i: int|
                0 <= i < items2.len() && s2.stores.functions.contains_key(item_name(#[trigger] items2[i])) implies s2.stores.functions[item_name(
                items2[i],
            )].name == item_ident(items2[i]) by {
                assert(item_name(items2[i]) == item_name(items[i]));
                assert(item_ident(items2[i]) == item_ident(items[i]));
            }
            lemma_forward_calls_resolved(items2, s2);
        }
    }
}

/// Checking attributes and recording the entry function add no report of an
/// unknown function.
proof fn lemma_attrs_marked(attrs: Seq<SpecAttribute>, name: Span, s: SpecSummary)
    ensures
        marked_after(s.errors, 0) ==> marked_after(an_attrs(attrs, s).errors, 0),
        marked_after(s.errors, 0) ==> marked_after(an_entries(attrs, name, s).errors, 0),
    decreases attrs.len(),
{
    if attrs.len() > 0 {
        lemma_attrs_marked(attrs.drop_last(), name, s);
    }
}

/// Analyzing a function marks every report of an unknown function.
proof fn lemma_fn_marked(f: SpecItemFunction, s: SpecSummary)
    requires
        marked_after(s.errors, 0),
    ensures
        an_fn(f, s) matches Some((_, s2, _)) ==> marked_after(s2.errors, 0),
{
    let key = f.name.value;
    let s0 = with_locals(s, Map::empty());
    let fs = s0.stores.functions;
    let s1 = with_functions(s0, fs.insert(key, definition_of(f)));
    if !(fs.contains_key(key) && fs[key].name.span != f.name.span) {
        let s2 = if fs.contains_key(key) {
            s1
        } else {
            SpecSummary { errors: without_marked(s1.errors, ErrorMarker::FunctionNotExists), ..s1 }
        };
        crate::analysis::lemma_withdrawn(s1.errors, ErrorMarker::FunctionNotExists);
        assert(marked_after(s2.errors, 0)) by {
            assert forall|i: int|
                0 <= i < s2.errors.len() && (#[trigger] s2.errors[i]).0 is FunctionNotExistsError implies s2.errors[i].1
                == ErrorMarker::FunctionNotExists by {
                if !fs.contains_key(key) {
                    let e = s2.errors[i];
                    assert(s2.errors.contains(e));
                    assert(s1.errors.contains(e));
                    let j = choose|j: int| 0 <= j < s1.errors.len() && s1.errors[j] == e;
                    assert(s1.errors[j].1 == ErrorMarker::FunctionNotExists);
                }
            }
        }
        if s2.errors.len() == s1.errors.len() {
            let s3 = an_entries(f.attrs, f.name.span, an_attrs(f.attrs, s2));
            let s4 = with_locals(s3, declare_args(f.args.args, s3.stores.local_vars));
            lemma_attrs_marked(f.attrs, f.name.span, s2);
            lemma_attrs_marked(f.attrs, f.name.span, an_attrs(f.attrs, s2));
            lemma_block_frame(f.body, s4);
            if let Some((b2, s5)) = an_block(f.body, s4) {
                assert forall|i: int|
                    0 <= i < s5.errors.len() && (#[trigger] s5.errors[i]).0 is FunctionNotExistsError implies s5.errors[i].1
                    == ErrorMarker::FunctionNotExists by {
                    if i < s4.errors.len() {
                        assert(s5.errors[i] == s4.errors[i]);
                    }
                }
            }
        }
    }
}

/// Analyzing items marks every report of an unknown function.
proof fn lemma_items_marked(items: Seq<SpecItem>, s: SpecSummary)
    requires
        marked_after(s.errors, 0),
    ensures
        an_items(items, s) matches Some((_, s2, _)) ==> marked_after(s2.errors, 0),
    decreases items.len(),
{
    if items.len() > 0 {
        lemma_items_marked(items.drop_last(), s);
        if let Some((p, s1, r)) = an_items(items.drop_last(), s) {
            match items.last() {
                SpecItem::Function(f) => lemma_fn_marked(f, s1),
            }
        }
    }
}

/// Every round of the analysis marks every report of an unknown function.
proof fn lemma_analyzed_marked(items: Seq<SpecItem>, s: SpecSummary)
    requires
        marked_after(s.errors, 0),
    ensures
        analyzed_from(items, s) matches Some((_, s2)) ==> marked_after(s2.errors, 0),
    decreases pending(items, s.stores.functions),
{
    lemma_items_marked(items, s);
    if let Some((items2, s2, r)) = an_items(items, s) {
        if r == AnalyzeResult::Break(true) {
            lemma_an_items_progress(items, s);
            lemma_pending_decreases(items, items2, s.stores.functions, s2.stores.functions);
            lemma_analyzed_marked(items2, s2);
        }
    }
}

/// A program whose functions have distinct names and call only each other,
/// possibly before they are declared, is analyzed with no report of a function
/// that does not exist.
pub proof fn lemma_program_calls_resolved(items: Seq<SpecItem>)
    requires
        distinct_names(items),
        calls_within(items),
    ensures
        analyzed_from(items, fresh_summary()) matches Some((_, s)) ==> forall|i: int|
            0 <= i < s.errors.len() ==> !((#[trigger] s.errors[i]).0 is FunctionNotExistsError),
{
    let s0 = fresh_summary();
    assert(defs_match(items, s0.stores.functions));
    lemma_forward_calls_resolved(items, s0);
    lemma_analyzed_marked(items, s0);
}

/// How many rounds `analyzed_from` runs: one, and one more each time a round
/// asks for another.
pub open spec fn analysis_rounds(items: Seq<SpecItem>, s: SpecSummary) -> nat
    decreases pending(items, s.stores.functions),
{
    match an_items(items, s) {
        None => 1,
        Some((items2, s2, r)) => if r == AnalyzeResult::Break(true) {
            proof {
                lemma_an_items_progress(items, s);
                lemma_pending_decreases(items, items2, s.stores.functions, s2.stores.functions);
            }
            1 + analysis_rounds(items2, s2)
        } else {
            1
        },
    }
}

/// No more items are pending than there are items.
proof fn lemma_pending_bound(items: Seq<SpecItem>, fs: Map<Seq<char>, SpecFunctionDefinition>)
    ensures
        pending(items, fs) <= items.len(),
    decreases items.len(),
{
    if items.len() > 0 {
        lemma_pending_bound(items.drop_last(), fs);
    }
}

/// The analysis of a program ends within one round more than there are
/// functions whose names are not declared yet, and so within one round more
/// than there are functions.
pub proof fn lemma_analysis_rounds(items: Seq<SpecItem>, s: SpecSummary)
    ensures
        analysis_rounds(items, s) <= pending(items, s.stores.functions) + 1,
        analysis_rounds(items, s) <= items.len() + 1,
    decreases pending(items, s.stores.functions),
{
    lemma_pending_bound(items, s.stores.functions);
    if let Some((items2, s2, r)) = an_items(items, s) {
        if r == AnalyzeResult::Break(true) {
            lemma_an_items_progress(items, s);
            lemma_pending_decreases(items, items2, s.stores.functions, s2.stores.functions);
            lemma_analysis_rounds(items2, s2);
        }
    }
}

/// Adding or subtracting two number literals folds into one literal that holds
/// the result and spans both, when the result fits an `i32`; the summary stays
/// as it was.
pub proof fn lemma_fold_numbers(
    kind: ExprBinary,
    a: Spanned<i32>,
    b: Spanned<i32>,
    swap_load: bool,
    s: SpecSummary,
)
    requires
        kind is Add || kind is Sub,
        fits_i32(if kind is Add { a.value + b.value } else { a.value - b.value }),
    ensures
        an_expr(
            SpecExpr::Binary {
                kind,
                lhs: Box::new(SpecExpr::Number(a)),
                rhs: Box::new(SpecExpr::Number(b)),
                swap_load,
            },
            s,
        ) == Some(
            (
                SpecExpr::Number(
                    Spanned {
                        span: a.span.spec_merge(b.span),
                        value: (if kind is Add { a.value + b.value } else { a.value - b.value }) as i32,
                    },
                ),
                s,
            ),
        ),
{
    assert(with_cost(s, s.stores.binary_cost) == s);
    assert(an_expr(SpecExpr::Number(a), s) == Some((SpecExpr::Number(a), s)));
    assert(an_expr(SpecExpr::Number(b), s) == Some((SpecExpr::Number(b), s)));
}

} // verus!

// ---------------------------------------------------------------- execution

verus! {

/// The names called in an expression, in blocks inside it too.
pub open spec fn expr_callees(e: SpecExpr) -> Set<Seq<char>>
    decreases e,
{
    match e {
        SpecExpr::Assign(a, b) => expr_callees(*a).union(expr_callees(*b)),
        SpecExpr::Block(b) => block_callees(b),
        SpecExpr::Binary { lhs, rhs, .. } => expr_callees(*lhs).union(expr_callees(*rhs)),
        SpecExpr::Call(c, args) => (match *c {
            SpecExpr::Ident(i) => set![i.value],
            _ => Set::empty(),
        }).union(expr_callees(*c)).union(exprs_callees(args)),
        SpecExpr::Deref(_, v) => expr_callees(*v),
        _ => Set::empty(),
    }
}

/// The names called in a list of expressions.
pub open spec fn exprs_callees(es: Seq<SpecExpr>) -> Set<Seq<char>>
    decreases es,
{
    if es.len() == 0 {
        Set::empty()
    } else {
        exprs_callees(es.drop_last()).union(expr_callees(es.last()))
    }
}

/// The names called in a block.
pub open spec fn block_callees(b: SpecBlock) -> Set<Seq<char>>
    decreases b,
{
    stmts_callees(b.stmts)
}

/// The names called in a list of statements.
pub open spec fn stmts_callees(ss: Seq<SpecStatement>) -> Set<Seq<char>>
    decreases ss,
{
    if ss.len() == 0 {
        Set::empty()
    } else {
        stmts_callees(ss.drop_last()).union(stmt_callees(ss.last()))
    }
}

/// The names called in a statement.
pub open spec fn stmt_callees(st: SpecStatement) -> Set<Seq<char>>
    decreases st,
{
    match st {
        SpecStatement::Expr { expr, .. } => expr_callees(expr),
        SpecStatement::If { cond, body, otherwise, .. } => expr_callees(cond).union(block_callees(body)).union(
            match otherwise {
                Some(o) => block_callees(o.1),
                None => Set::empty(),
            },
        ),
        SpecStatement::Label { .. } => Set::empty(),
        SpecStatement::Let { expr, .. } => expr_callees(expr),
        SpecStatement::Loop { body, .. } => block_callees(body),
        SpecStatement::While { cond, body, .. } => expr_callees(cond).union(block_callees(body)),
    }
}

/// No diagnostic reports a call of a function not declared yet.
pub open spec fn none_unresolved(errors: Seq<(AnalyzeError, ErrorMarker)>) -> bool {
    forall|i: int| 0 <= i < errors.len() ==> (#[trigger] errors[i]).1 != ErrorMarker::FunctionNotExists
}

/// Reporting an ordinary diagnostic adds no report of an unknown function.
proof fn lemma_error_resolved(s: SpecSummary, e: AnalyzeError)
    ensures
        none_unresolved(s.errors) ==> none_unresolved(spec_error(s, e).errors),
{
    let r = spec_error(s, e).errors;
    if none_unresolved(s.errors) {
        assert forall|i: int| 0 <= i < r.len() implies (#[trigger] r[i]).1 != ErrorMarker::FunctionNotExists by {
            if i < s.errors.len() {
                assert(r[i] == s.errors[i]);
            }
        }
    }
}

/// Analyzing an expression gives back one that calls no name it did not call;
/// where every name it calls is declared, it reports no unknown function.
pub proof fn lemma_expr_resolved(e: SpecExpr, s: SpecSummary)
    ensures
        an_expr(e, s) matches Some((e2, s2)) ==> expr_callees(e2).subset_of(expr_callees(e)) && (expr_callees(e).subset_of(
            s.stores.functions.dom(),
        ) && none_unresolved(s.errors) ==> none_unresolved(s2.errors)),
    decreases e,
{
    match e {
        SpecExpr::Assign(var, val) => {
            lemma_expr_resolved(*var, s);
            lemma_expr_frame(*var, s);
            if let Some((v2, s1)) = an_expr(*var, s) {
                let s2 = if is_assignable(v2) {
                    s1
                } else {
                    spec_error(
                        s1,
                        AnalyzeError::ExprNotAssignable(
                            AnalyzeExprNotAssignable { location: expr_span(v2) },
                        ),
                    )
                };
                if !is_assignable(v2) {
                    lemma_error_resolved(
                        s1,
                        AnalyzeError::ExprNotAssignable(AnalyzeExprNotAssignable { location: expr_span(v2) }),
                    );
                }
                lemma_expr_resolved(*val, s2);
            }
        },
        SpecExpr::Block(b) => lemma_block_resolved(b, s),
        SpecExpr::Binary { kind, lhs, rhs, swap_load } => {
            lemma_expr_resolved(*lhs, s);
            lemma_expr_frame(*lhs, s);
            if let Some((l2, s1)) = an_expr(*lhs, s) {
                lemma_expr_resolved(*rhs, with_cost(s1, s.stores.binary_cost));
            }
        },
        SpecExpr::Call(c, args) => {
            if let SpecExpr::Ident(i) = *c {
              if s.stores.functions.contains_key(i.value) {
                let def = s.stores.functions[i.value];
                let s1 = if def.args.args.len() != args.len() {
                    spec_error(
                        s,
                        AnalyzeError::FunctionMismatchArgsCountError(
                            AnalyzeFunctionMismatchArgsCountError {
                                location: exprs_span(args),
                                provided: args.len() as usize,
                                original: fn_args_span(def.args),
                                expected: def.args.args.len() as usize,
                            },
                        ),
                    )
                } else {
                    s
                };
                if def.args.args.len() != args.len() {
                    lemma_error_resolved(
                        s,
                        AnalyzeError::FunctionMismatchArgsCountError(
                            AnalyzeFunctionMismatchArgsCountError {
                                location: exprs_span(args),
                                provided: args.len() as usize,
                                original: fn_args_span(def.args),
                                expected: def.args.args.len() as usize,
                            },
                        ),
                    );
                }
                lemma_exprs_resolved(args, s1);
              }
            } else {
                lemma_error_resolved(
                    s,
                    AnalyzeError::CalleeIsNotIdent(AnalyzeCalleeIsNotIdent { location: expr_span(*c) }),
                );
            }
        },
        SpecExpr::Deref(d, v) => lemma_expr_resolved(*v, s),
        SpecExpr::Ident(var) => {
            if !s.stores.local_vars.contains_key(var.value) {
                lemma_error_resolved(
                    s,
                    AnalyzeError::VariableNotExistsError(AnalyzeVariableNotExistsError { location: var.span }),
                );
            }
        },
        _ => {},
    }
}

/// Analyzing expressions gives back ones that call no name they did not call;
/// where every name they call is declared, it reports no unknown function.
pub proof fn lemma_exprs_resolved(es: Seq<SpecExpr>, s: SpecSummary)
    ensures
        an_exprs(es, s) matches Some((es2, s2)) ==> exprs_callees(es2).subset_of(exprs_callees(es)) && (exprs_callees(es).subset_of(
            s.stores.functions.dom(),
        ) && none_unresolved(s.errors) ==> none_unresolved(s2.errors)),
    decreases es,
{
    if es.len() > 0 {
        lemma_exprs_resolved(es.drop_last(), s);
        lemma_exprs_frame(es.drop_last(), s);
        if let Some((p, s1)) = an_exprs(es.drop_last(), s) {
            lemma_expr_resolved(es.last(), s1);
            if let Some((e2, s2)) = an_expr(es.last(), s1) {
                assert(p.push(e2).drop_last() =~= p);
            }
        }
    }
}

/// Analyzing a block gives back one that calls no name it did not call; where
/// every name it calls is declared, it reports no unknown function.
pub proof fn lemma_block_resolved(b: SpecBlock, s: SpecSummary)
    ensures
        an_block(b, s) matches Some((b2, s2)) ==> block_callees(b2).subset_of(block_callees(b)) && (block_callees(b).subset_of(
            s.stores.functions.dom(),
        ) && none_unresolved(s.errors) ==> none_unresolved(s2.errors)),
    decreases b,
{
    let s1 = match last_unterminated(b.stmts) {
        Some(st) => spec_error(
            s,
            AnalyzeError::MissingSemicolon(
                AnalyzeMissingSemicolon { location: stmt_span(st).spec_end_span(0) },
            ),
        ),
        None => s,
    };
    if let Some(st) = last_unterminated(b.stmts) {
        lemma_error_resolved(
            s,
            AnalyzeError::MissingSemicolon(AnalyzeMissingSemicolon { location: stmt_span(st).spec_end_span(0) }),
        );
    }
    lemma_stmts_resolved(b.stmts, s1);
}

/// Analyzing statements gives back ones that call no name they did not call;
/// where every name they call is declared, it reports no unknown function.
pub proof fn lemma_stmts_resolved(ss: Seq<SpecStatement>, s: SpecSummary)
    ensures
        an_stmts(ss, s) matches Some((ss2, s2)) ==> stmts_callees(ss2).subset_of(stmts_callees(ss)) && (stmts_callees(ss).subset_of(
            s.stores.functions.dom(),
        ) && none_unresolved(s.errors) ==> none_unresolved(s2.errors)),
    decreases ss,
{
    if ss.len() > 0 {
        lemma_stmts_resolved(ss.drop_last(), s);
        lemma_stmts_frame(ss.drop_last(), s);
        if let Some((p, s1)) = an_stmts(ss.drop_last(), s) {
            lemma_stmt_resolved(ss.last(), s1);
            if let Some((st2, s2)) = an_stmt(ss.last(), s1) {
                assert(p.push(st2).drop_last() =~= p);
            }
        }
    }
}

/// Analyzing a statement gives back one that calls no name it did not call;
/// where every name it calls is declared, it reports no unknown function.
#[verifier::spinoff_prover]
#[verifier::rlimit(40)]
pub proof fn lemma_stmt_resolved(st: SpecStatement, s: SpecSummary)
    ensures
        an_stmt(st, s) matches Some((st2, s2)) ==> stmt_callees(st2).subset_of(stmt_callees(st)) && (stmt_callees(st).subset_of(
            s.stores.functions.dom(),
        ) && none_unresolved(s.errors) ==> none_unresolved(s2.errors)),
    decreases st,
{
    match st {
        SpecStatement::Expr { expr, .. } => lemma_expr_resolved(expr, s),
        SpecStatement::If { cond, body, otherwise, .. } => {
            lemma_expr_resolved(cond, s);
            lemma_expr_frame(cond, s);
            if let Some((c2, s1)) = an_expr(cond, s) {
                let sc = check_condition(c2, ConditionStatement::If, s1);
                if !is_comparison(c2) {
                    lemma_error_resolved(
                        s1,
                        AnalyzeError::ExpectedCondition(
                            AnalyzeExpectedCondition { location: expr_span(c2), statement: ConditionStatement::If },
                        ),
                    );
                }
                lemma_block_resolved(body, sc);
                lemma_block_frame(body, sc);
                if let Some((b2, s2)) = an_block(body, sc) {
                    if let Some(o) = otherwise {
                        lemma_block_resolved(o.1, s2);
                    }
                }
            }
        },
        SpecStatement::Let { name, expr, .. } => lemma_expr_resolved(
            expr,
            with_locals(s, s.stores.local_vars.insert(name.value, name.span)),
        ),
        SpecStatement::While { cond, .. } => {
            lemma_expr_resolved(cond, s);
            if let Some((c2, s1)) = an_expr(cond, s) {
                if !is_comparison(c2) {
                    lemma_error_resolved(
                        s1,
                        AnalyzeError::ExpectedCondition(
                            AnalyzeExpectedCondition {
                                location: expr_span(c2),
                                statement: ConditionStatement::While,
                            },
                        ),
                    );
                }
            }
        },
        _ => {},
    }
}

/// Withdrawing the reports of unknown functions removes nothing only where
/// there were none.
proof fn lemma_nothing_withdrawn(errors: Seq<(AnalyzeError, ErrorMarker)>)
    ensures
        without_marked(errors, ErrorMarker::FunctionNotExists).len() == errors.len() ==> none_unresolved(
            errors,
        ),
    decreases errors.len(),
{
    reveal(Seq::filter);
    let p = crate::analysis::unmarked(ErrorMarker::FunctionNotExists);
    if errors.len() > 0 {
        lemma_nothing_withdrawn(errors.drop_last());
        errors.drop_last().lemma_filter_len(p);
        if without_marked(errors, ErrorMarker::FunctionNotExists).len() == errors.len() {
            assert(p(errors.last()));
            assert forall|i: int| 0 <= i < errors.len() implies (#[trigger] errors[i]).1
                != ErrorMarker::FunctionNotExists by {
                if i < errors.len() - 1 {
                    assert(errors[i] == errors.drop_last()[i]);
                }
            }
        }
    }
}

/// Checking attributes reports no unknown function.
proof fn lemma_attrs_resolved(attrs: Seq<SpecAttribute>, s: SpecSummary)
    ensures
        none_unresolved(s.errors) ==> none_unresolved(an_attrs(attrs, s).errors),
    decreases attrs.len(),
{
    if attrs.len() > 0 {
        lemma_attrs_resolved(attrs.drop_last(), s);
        let s1 = an_attrs(attrs.drop_last(), s);
        lemma_error_resolved(
            s1,
            AnalyzeError::UnknownAttribute(AnalyzeUnknownAttribute { location: attrs.last().path.span }),
        );
    }
}

/// Recording the entry function reports no unknown function.
proof fn lemma_entries_resolved(attrs: Seq<SpecAttribute>, name: Span, s: SpecSummary)
    ensures
        none_unresolved(s.errors) ==> none_unresolved(an_entries(attrs, name, s).errors),
    decreases attrs.len(),
{
    if attrs.len() > 0 {
        lemma_entries_resolved(attrs.drop_last(), name, s);
        let s1 = an_entries(attrs.drop_last(), name, s);
        if let Some(p) = s1.stores.entry_fn {
            lemma_error_resolved(
                s1,
                AnalyzeError::FunctionUniqueEntry(AnalyzeFunctionUniqueEntry { location: name, original: p }),
            );
        }
    }
}

/// The name of an item, with where it stands.
pub open spec fn item_ident(i: SpecItem) -> Spanned<Seq<char>> {
    match i {
        SpecItem::Function(f) => f.name,
    }
}

/// The names called in the body of an item.
pub open spec fn item_callees(i: SpecItem) -> Set<Seq<char>> {
    match i {
        SpecItem::Function(f) => block_callees(f.body),
    }
}

/// The names of a list of items.
pub open spec fn names_of(items: Seq<SpecItem>) -> Set<Seq<char>> {
    Set::new(|c: Seq<char>| exists|j: int| 0 <= j < items.len() && item_name(#[trigger] items[j]) == c)
}

/// No two items have the same name.
pub open spec fn distinct_names(items: Seq<SpecItem>) -> bool {
    forall|i: int, j: int|
        0 <= i < j < items.len() ==> item_name(#[trigger] items[i]) != item_name(#[trigger] items[j])
}

/// Every name that the body of an item calls is the name of an item.
pub open spec fn calls_within(items: Seq<SpecItem>) -> bool {
    forall|i: int| 0 <= i < items.len() ==> item_callees(#[trigger] items[i]).subset_of(names_of(items))
}

/// Each recorded function that bears the name of an item was recorded from that item.
pub open spec fn defs_match(items: Seq<SpecItem>, fs: Map<Seq<char>, SpecFunctionDefinition>) -> bool {
    forall|i: int|
        0 <= i < items.len() && fs.contains_key(item_name(#[trigger] items[i])) ==> fs[item_name(
            items[i],
        )].name == item_ident(items[i])
}

/// One round of analysis over the first `m` items of a program whose items
/// have distinct names and call only each other: it never meets a second
/// declaration; where it asks for another round it leaves no report of an
/// unknown function; where it goes on to the end, the items' names are all
/// declared and a report of an unknown function remains only while some later
/// item is still undeclared.
#[verifier::spinoff_prover]
#[verifier::rlimit(100)]
pub proof fn lemma_round_resolved(all: Seq<SpecItem>, m: int, s: SpecSummary)
    requires
        0 <= m <= all.len(),
        distinct_names(all),
        calls_within(all),
        none_unresolved(s.errors),
        defs_match(all, s.stores.functions),
    ensures
        an_items(all.take(m), s) matches Some((p, s1, r)) ==> {
            &&& p.len() == m
            &&& forall|i: int| 0 <= i < m ==> item_ident(#[trigger] p[i]) == item_ident(all[i])
            &&& forall|i: int| 0 <= i < m ==> item_callees(#[trigger] p[i]).subset_of(item_callees(all[i]))
            &&& r != AnalyzeResult::Break(false)
            &&& defs_match(all, s1.stores.functions)
            &&& s.stores.functions.dom().subset_of(s1.stores.functions.dom())
            &&& (r == AnalyzeResult::Break(true) ==> none_unresolved(s1.errors))
            &&& (r == AnalyzeResult::Continue ==> (forall|i: int|
                0 <= i < m ==> s1.stores.functions.contains_key(item_name(#[trigger] all[i]))) && (
            none_unresolved(s1.errors) || exists|j: int|
                m <= j < all.len() && !s1.stores.functions.contains_key(item_name(#[trigger] all[j]))))
        },
    decreases m,
{
    let items = all.take(m);
    if m > 0 {
        assert(items.drop_last() =~= all.take(m - 1));
        assert(items.last() == all[m - 1]);
        lemma_round_resolved(all, m - 1, s);
        if let Some((p0, s0, r0)) = an_items(all.take(m - 1), s) {
            if r0 == AnalyzeResult::Continue {
                let SpecItem::Function(f) = all[m - 1];
                let key = f.name.value;
                let fs = s0.stores.functions;
                let sa = with_locals(s0, Map::empty());
                let s1 = with_functions(sa, fs.insert(key, definition_of(f)));
                assert(item_name(all[m - 1]) == key);
                if fs.contains_key(key) {
                    assert(fs[key].name == f.name);
                }
                assert forall|i: int|
                    0 <= i < all.len() && s1.stores.functions.contains_key(item_name(#[trigger] all[i])) implies s1.stores.functions[item_name(
                    all[i],
                )].name == item_ident(all[i]) by {
                    if i != m - 1 {
                        if item_name(all[i]) == key {
                            if i < m - 1 {
                                assert(item_name(all[i]) != item_name(all[m - 1]));
                            } else {
                                assert(item_name(all[m - 1]) != item_name(all[i]));
                            }
                        }
                    }
                }
                let s2 = if fs.contains_key(key) {
                    s1
                } else {
                    SpecSummary { errors: without_marked(s1.errors, ErrorMarker::FunctionNotExists), ..s1 }
                };
                crate::analysis::lemma_withdrawn(s1.errors, ErrorMarker::FunctionNotExists);
                lemma_nothing_withdrawn(s1.errors);
                if s2.errors.len() == s1.errors.len() {
                    let s3 = an_entries(f.attrs, f.name.span, an_attrs(f.attrs, s2));
                    let s4 = with_locals(s3, declare_args(f.args.args, s3.stores.local_vars));
                    lemma_attrs_frame(f.attrs, s2);
                    lemma_entries_frame(f.attrs, f.name.span, an_attrs(f.attrs, s2));
                    lemma_attrs_resolved(f.attrs, s2);
                    lemma_entries_resolved(f.attrs, f.name.span, an_attrs(f.attrs, s2));
                    lemma_block_resolved(f.body, s4);
                    lemma_block_frame(f.body, s4);
                    assert(s4.stores.functions == s1.stores.functions);
                    if let Some((b2, s5)) = an_block(f.body, s4) {
                        let p = p0.push(SpecItem::Function(SpecItemFunction { body: b2, ..f }));
                        assert forall|i: int| 0 <= i < m implies item_ident(#[trigger] p[i]) == item_ident(all[i]) by {
                            if i < m - 1 {
                                assert(p[i] == p0[i]);
                            }
                        }
                        assert forall|i: int| 0 <= i < m implies item_callees(#[trigger] p[i]).subset_of(
                            item_callees(all[i]),
                        ) by {
                            if i < m - 1 {
                                assert(p[i] == p0[i]);
                            }
                        }
                        assert forall|i: int| 0 <= i < m implies s5.stores.functions.contains_key(
                            item_name(#[trigger] all[i]),
                        ) by {
                            if i < m - 1 {
                                assert(fs.contains_key(item_name(all[i])));
                            }
                        }
                        if !(none_unresolved(s5.errors)) {
                            if !block_callees(f.body).subset_of(s4.stores.functions.dom()) {
                                let c = choose|c: Seq<char>|
                                    block_callees(f.body).contains(c) && !s4.stores.functions.dom().contains(c);
                                assert(item_callees(all[m - 1]).subset_of(names_of(all)));
                                assert(names_of(all).contains(c));
                                let j = choose|j: int| 0 <= j < all.len() && item_name(#[trigger] all[j]) == c;
                                if j < m - 1 {
                                    assert(fs.contains_key(item_name(all[j])));
                                }
                                assert(m <= j);
                            } else if !none_unresolved(s0.errors) {
                                let j = choose|j: int|
                                    m - 1 <= j < all.len() && !fs.contains_key(item_name(#[trigger] all[j]));
                                assert(j != m - 1);
                                assert(item_name(all[m - 1]) != item_name(all[j]));
                                assert(!s5.stores.functions.contains_key(item_name(all[j])));
                            }
                        }
                    }
                }
            }
        }
    }
}

} // verus!

use crate::analysis::AnalyzeSummary;
use crate::nodes::expr::lemma_view_exprs;
use crate::nodes::model::{expr_fits, exprs_fit, fn_args_fit, view_exprs};
use crate::nodes::{clone_spanned_ident, span_of_expr, span_of_exprs, Expr};
use crate::parser::IntoSpanned;

verus! {

/// The argument lists of the recorded functions have spans that fit a `usize`.
pub open spec fn defs_fit(fs: Map<Seq<char>, SpecFunctionDefinition>) -> bool {
    forall|k: Seq<char>| fs.contains_key(k) ==> fn_args_fit(#[trigger] fs[k].args)
}

/// Analyzes an expression and hands back its rewritten form; `None` where the
/// analysis overflows.
pub fn analyze_expr(e: Expr, summary: &mut AnalyzeSummary) -> (r: Option<Expr>)
    requires
        expr_fits(e@),
        defs_fit(old(summary)@.stores.functions),
    ensures
        match an_expr(e@, old(summary)@) {
            Some((e2, s2)) => r matches Some(x) && x@ == e2 && final(summary)@ == s2 && expr_fits(e2),
            None => r is None,
        },
    decreases e,
{
    let ghost ev = e@;
    let ghost s0 = summary@;
    match e {
        Expr::Assign(var, val) => {
            let ghost var_v = (*var)@;
            let ghost val_v = (*val)@;
            assert(ev == SpecExpr::Assign(Box::new(var_v), Box::new(val_v)));
            proof {
                lemma_expr_frame(var_v, s0);
            }
            let v2 = match analyze_expr(*var, summary) {
                None => {
                    return None;
                },
                Some(x) => x,
            };
            let assignable = match &v2 {
                Expr::Deref(..) => true,
                Expr::Ident(..) => true,
                _ => false,
            };
            if !assignable {
                let location = span_of_expr(&v2);
                summary.error(AnalyzeError::ExprNotAssignable(AnalyzeExprNotAssignable { location }));
            }
            let ghost s2 = summary@;
            proof {
                lemma_expr_frame(val_v, s2);
            }
            let e2 = match analyze_expr(*val, summary) {
                None => {
                    return None;
                },
                Some(x) => x,
            };
            Some(Expr::Assign(Box::new(v2), Box::new(e2)))
        },
        Expr::Block(b) => {
            assert(ev == SpecExpr::Block(b@));
            match analyze_block(b, summary) {
                None => None,
                Some(b2) => Some(Expr::Block(b2)),
            }
        },
        Expr::Binary { kind, lhs, rhs, swap_load } => {
            let ghost lv = (*lhs)@;
            let ghost rv = (*rhs)@;
            assert(ev == SpecExpr::Binary { kind, lhs: Box::new(lv), rhs: Box::new(rv), swap_load });
            let base = summary.binary_cost();
            proof {
                lemma_expr_frame(lv, s0);
            }
            let l2 = match analyze_expr(*lhs, summary) {
                None => {
                    return None;
                },
                Some(x) => x,
            };
            let lhs_cost = summary.binary_cost();
            summary.set_binary_cost(base);
            let ghost s1b = summary@;
            proof {
                lemma_expr_frame(rv, s1b);
            }
            let r2 = match analyze_expr(*rhs, summary) {
                None => {
                    return None;
                },
                Some(x) => x,
            };
            let rhs_cost = summary.binary_cost();
            summary.set_binary_cost(base);
            let nums: Option<(Spanned<i32>, Spanned<i32>)> = match &l2 {
                Expr::Number(a) => match &r2 {
                    Expr::Number(b) => Some((*a, *b)),
                    _ => None,
                },
                _ => None,
            };
            match nums {
                Some((a, b)) => {
                    let span = a.span.merge(b.span);
                    match kind {
                        ExprBinary::Add => match a.value.checked_add(b.value) {
                            None => None,
                            Some(v) => Some(Expr::Number(Spanned { span, value: v })),
                        },
                        ExprBinary::Sub => match a.value.checked_sub(b.value) {
                            None => None,
                            Some(v) => Some(Expr::Number(Spanned { span, value: v })),
                        },
                        _ => Some(Expr::Binary { kind, lhs: Box::new(l2), rhs: Box::new(r2), swap_load }),
                    }
                },
                None => {
                    if base == usize::MAX {
                        return None;
                    }
                    summary.set_binary_cost(base + 1);
                    Some(
                        Expr::Binary {
                            kind,
                            lhs: Box::new(l2),
                            rhs: Box::new(r2),
                            swap_load: swap_load || rhs_cost > lhs_cost,
                        },
                    )
                },
            }
        },
        Expr::Call(c, args) => {
            let ghost cv = (*c)@;
            assert(ev == SpecExpr::Call(Box::new(cv), view_exprs(args@)));
            let callee: Option<Spanned<crate::nodes::Ident>> = match &*c {
                Expr::Ident(i) => Some(clone_spanned_ident(i)),
                _ => None,
            };
            match callee {
                None => {
                    let location = span_of_expr(&c);
                    summary.error(AnalyzeError::CalleeIsNotIdent(AnalyzeCalleeIsNotIdent { location }));
                    Some(Expr::Call(c, args))
                },
                Some(i) => {
                    assert(cv == SpecExpr::Ident(Spanned { span: i.span, value: i.value@ }));
                    let found: Option<(usize, Span)> = match summary.function(&i.value.0) {
                        Some(def) => {
                            assert(fn_args_fit(def@.args));
                            Some((def.args.args.len(), def.args.span()))
                        },
                        None => None,
                    };
                    match found {
                        None => {
                            summary.error_marked(
                                AnalyzeError::FunctionNotExistsError(
                                    AnalyzeFunctionNotExistsError { location: i.span },
                                ),
                                ErrorMarker::FunctionNotExists,
                            );
                            Some(Expr::Call(c, args))
                        },
                        Some((expected, original)) => {
                            proof {
                                lemma_view_exprs(args@);
                            }
                            if expected != args.len() {
                                let location = span_of_exprs(&args);
                                summary.error(
                                    AnalyzeError::FunctionMismatchArgsCountError(
                                        AnalyzeFunctionMismatchArgsCountError {
                                            location,
                                            provided: args.len(),
                                            original,
                                            expected,
                                        },
                                    ),
                                );
                            }
                            assert(decreases_to!(args => args@));
                            match analyze_exprs(args, summary) {
                                None => None,
                                Some(a2) => Some(Expr::Call(c, a2)),
                            }
                        },
                    }
                },
            }
        },
        Expr::Deref(d, v) => {
            let ghost vv = (*v)@;
            assert(ev == SpecExpr::Deref(d, Box::new(vv)));
            match analyze_expr(*v, summary) {
                None => None,
                Some(v2) => Some(Expr::Deref(d, Box::new(v2))),
            }
        },
        Expr::Ident(var) => {
            if !summary.has_local_var(&var.value.0) {
                summary.error(
                    AnalyzeError::VariableNotExistsError(
                        AnalyzeVariableNotExistsError { location: var.span },
                    ),
                );
            }
            Some(Expr::Ident(var))
        },
        Expr::Label(l) => Some(Expr::Label(l)),
        Expr::Number(n) => Some(Expr::Number(n)),
    }
}

/// Analyzes expressions one after the other.
pub fn analyze_exprs(es: Vec<Expr>, summary: &mut AnalyzeSummary) -> (r: Option<Vec<Expr>>)
    requires
        exprs_fit(view_exprs(es@)),
        defs_fit(old(summary)@.stores.functions),
    ensures
        match an_exprs(view_exprs(es@), old(summary)@) {
            Some((es2, s2)) => r matches Some(x) && view_exprs(x@) == es2 && final(summary)@ == s2
                && exprs_fit(es2),
            None => r is None,
        },
    decreases es@,
{
    let ghost ev = view_exprs(es@);
    let ghost esv = es@;
    let ghost s0 = summary@;
    let mut init = es;
    match init.pop() {
        None => {
            proof {
                assert(ev.len() == 0);
                assert(view_exprs(init@) =~= ev);
            }
            Some(init)
        },
        Some(last) => {
            assert(init@ =~= esv.drop_last());
            assert(last == esv.last());
            assert(ev == view_exprs(esv.drop_last()).push(esv.last()@));
            assert(view_exprs(init@) =~= ev.drop_last());
            assert(last@ == ev.last());
            proof {
                lemma_exprs_frame(ev.drop_last(), s0);
            }
            let mut p = match analyze_exprs(init, summary) {
                None => {
                    return None;
                },
                Some(x) => x,
            };
            let ghost s1 = summary@;
            proof {
                lemma_expr_frame(ev.last(), s1);
            }
            let e2 = match analyze_expr(last, summary) {
                None => {
                    return None;
                },
                Some(x) => x,
            };
            let ghost pv = p@;
            p.push(e2);
            proof {
                assert(p@.drop_last() == pv);
                assert(view_exprs(p@) == view_exprs(pv).push(e2@));
                assert(view_exprs(p@).drop_last() =~= view_exprs(pv));
            }
            Some(p)
        },
    }
}

} // verus!

use crate::nodes::model::{block_fits, stmt_fits, stmts_fit, view_stmts};
use crate::nodes::statements::lemma_view_stmts;
use crate::nodes::{
    AnalyzeExpectedCondition as ExpectedCondition, Block, Statement, StmtExpr, StmtIf, StmtLet,
    StmtWhile,
};

verus! {

/// Every statement of a fitting list fits.
pub proof fn lemma_stmts_fit_index(ss: Seq<SpecStatement>, k: int)
    requires
        stmts_fit(ss),
        0 <= k < ss.len(),
    ensures
        stmt_fits(ss[k]),
    decreases ss.len(),
{
    if k < ss.len() - 1 {
        lemma_stmts_fit_index(ss.drop_last(), k);
        assert(ss.drop_last()[k] == ss[k]);
    }
}

/// The index of the last statement before the final one that lacks its `;`.
fn find_unterminated(stmts: &Vec<Statement>) -> (r: Option<usize>)
    ensures
        match last_unterminated(view_stmts(stmts@)) {
            Some(st) => r matches Some(k) && k < stmts@.len() && stmts@[k as int]@ == st,
            None => r is None,
        },
{
    let ghost ss = view_stmts(stmts@);
    proof {
        lemma_view_stmts(stmts@);
        assert(ss.subrange(0, ss.len() as int) =~= ss);
    }
    let mut j: usize = stmts.len();
    while j >= 2
        invariant
            j <= stmts@.len(),
            ss == view_stmts(stmts@),
            ss.len() == stmts@.len(),
            forall|i: int| 0 <= i < stmts@.len() ==> #[trigger] ss[i] == stmts@[i]@,
            last_unterminated(ss) == last_unterminated(ss.subrange(0, j as int)),
        decreases j,
    {
        let ghost sub = ss.subrange(0, j as int);
        assert(sub[sub.len() - 2] == ss[j - 2]);
        match stmts[j - 2].has_semi() {
            Some(false) => {
                return Some(j - 2);
            },
            _ => {},
        }
        assert(sub.drop_last() =~= ss.subrange(0, j - 1));
        j = j - 1;
    }
    None
}

/// Analyzes a statement and hands back its rewritten form; `None` where the
/// analysis overflows.
#[verifier::spinoff_prover]
#[verifier::rlimit(60)]
pub fn analyze_stmt(st: Statement, summary: &mut AnalyzeSummary) -> (r: Option<Statement>)
    requires
        stmt_fits(st@),
        defs_fit(old(summary)@.stores.functions),
    ensures
        match an_stmt(st@, old(summary)@) {
            Some((st2, s2)) => r matches Some(x) && x@ == st2 && final(summary)@ == s2 && stmt_fits(st2),
            None => r is None,
        },
    decreases st,
{
    let ghost sv = st@;
    let ghost s0 = summary@;
    match st {
        Statement::Expr(StmtExpr { expr, semi }) => {
            match analyze_expr(expr, summary) {
                None => None,
                Some(e2) => Some(Statement::Expr(StmtExpr { expr: e2, semi })),
            }
        },
        Statement::If(StmtIf { if_, cond, body, otherwise }) => {
            proof {
                lemma_expr_frame(cond@, s0);
            }
            let c2 = match analyze_expr(cond, summary) {
                None => {
                    return None;
                },
                Some(x) => x,
            };
            match ExpectedCondition::analyze(&c2, ConditionStatement::If) {
                Some(err) => summary.error(AnalyzeError::ExpectedCondition(err)),
                None => {},
            }
            let ghost s2 = summary@;
            proof {
                lemma_block_frame(body@, s2);
            }
            let b2 = match analyze_block(body, summary) {
                None => {
                    return None;
                },
                Some(x) => x,
            };
            match otherwise {
                None => Some(Statement::If(StmtIf { if_, cond: c2, body: b2, otherwise: None })),
                Some((t, ob)) => {
                    match analyze_block(ob, summary) {
                        None => None,
                        Some(ob2) => Some(
                            Statement::If(StmtIf { if_, cond: c2, body: b2, otherwise: Some((t, ob2)) }),
                        ),
                    }
                },
            }
        },
        Statement::Label(l) => Some(Statement::Label(l)),
        Statement::Let(StmtLet { let_, name, expr, semi }) => {
            summary.declare_local_var(name.value.0.clone(), name.span);
            match analyze_expr(expr, summary) {
                None => None,
                Some(e2) => Some(Statement::Let(StmtLet { let_, name, expr: e2, semi })),
            }
        },
        Statement::Loop(l) => Some(Statement::Loop(l)),
        Statement::While(StmtWhile { while_, cond, body }) => {
            let c2 = match analyze_expr(cond, summary) {
                None => {
                    return None;
                },
                Some(x) => x,
            };
            match ExpectedCondition::analyze(&c2, ConditionStatement::While) {
                Some(err) => summary.error(AnalyzeError::ExpectedCondition(err)),
                None => {},
            }
            Some(Statement::While(StmtWhile { while_, cond: c2, body }))
        },
    }
}

/// Analyzes statements one after the other.
#[verifier::spinoff_prover]
pub fn analyze_stmts(ss: Vec<Statement>, summary: &mut AnalyzeSummary) -> (r: Option<Vec<Statement>>)
    requires
        stmts_fit(view_stmts(ss@)),
        defs_fit(old(summary)@.stores.functions),
    ensures
        match an_stmts(view_stmts(ss@), old(summary)@) {
            Some((ss2, s2)) => r matches Some(x) && view_stmts(x@) == ss2 && final(summary)@ == s2
                && stmts_fit(ss2),
            None => r is None,
        },
    decreases ss@,
{
    let ghost sv = view_stmts(ss@);
    let ghost ssv = ss@;
    let ghost s0 = summary@;
    let mut init = ss;
    match init.pop() {
        None => {
            proof {
                assert(sv.len() == 0);
                assert(view_stmts(init@) =~= sv);
            }
            Some(init)
        },
        Some(last) => {
            assert(init@ =~= ssv.drop_last());
            assert(last == ssv.last());
            assert(sv == view_stmts(ssv.drop_last()).push(ssv.last()@));
            assert(view_stmts(init@) =~= sv.drop_last());
            assert(last@ == sv.last());
            proof {
                lemma_stmts_frame(sv.drop_last(), s0);
            }
            let mut p = match analyze_stmts(init, summary) {
                None => {
                    return None;
                },
                Some(x) => x,
            };
            let ghost s1 = summary@;
            proof {
                lemma_stmt_frame(sv.last(), s1);
            }
            let st2 = match analyze_stmt(last, summary) {
                None => {
                    return None;
                },
                Some(x) => x,
            };
            let ghost pv = p@;
            p.push(st2);
            proof {
                assert(p@.drop_last() == pv);
                assert(view_stmts(p@) == view_stmts(pv).push(st2@));
                assert(view_stmts(p@).drop_last() =~= view_stmts(pv));
            }
            Some(p)
        },
    }
}

/// Analyzes a block and hands back its rewritten form; `None` where the
/// analysis overflows.
pub fn analyze_block(b: Block, summary: &mut AnalyzeSummary) -> (r: Option<Block>)
    requires
        block_fits(b@),
        defs_fit(old(summary)@.stores.functions),
    ensures
        match an_block(b@, old(summary)@) {
            Some((b2, s2)) => r matches Some(x) && x@ == b2 && final(summary)@ == s2 && block_fits(b2),
            None => r is None,
        },
    decreases b,
{
    let ghost bv = b@;
    match find_unterminated(&b.stmts) {
        Some(k) => {
            proof {
                lemma_view_stmts(b.stmts@);
                lemma_stmts_fit_index(bv.stmts, k as int);
            }
            let location = b.stmts[k].span().end_span(0);
            summary.error(AnalyzeError::MissingSemicolon(AnalyzeMissingSemicolon { location }));
        },
        None => {},
    }
    let Block { open, stmts, close } = b;
    assert(decreases_to!(stmts => stmts@));
    match analyze_stmts(stmts, summary) {
        None => None,
        Some(ss2) => Some(Block { open, stmts: ss2, close }),
    }
}

} // verus!

use crate::nodes::model::item_function_fits;
use crate::nodes::{AttributeBuiltin, FunctionDefinition, Ident, ItemFunction};

verus! {

/// Copies an optional spanned identifier.
fn clone_opt_ident(s: &Option<Spanned<Ident>>) -> (r: Option<Spanned<Ident>>)
    ensures
        r == *s,
{
    match s {
        Some(i) => Some(clone_spanned_ident(i)),
        None => None,
    }
}

/// Records the function and decides whether its analysis goes on: `Some` with
/// the result that stops it, or `None` to go on.
fn record_function(f: &ItemFunction, summary: &mut AnalyzeSummary) -> (r: Option<AnalyzeResult>)
    requires
        item_function_fits(f@),
        defs_fit(old(summary)@.stores.functions),
    ensures
        ({
            let fv = f@;
            let key = fv.name.value;
            let s0 = with_locals(old(summary)@, Map::empty());
            let fs = s0.stores.functions;
            let s1 = with_functions(s0, fs.insert(key, definition_of(fv)));
            if fs.contains_key(key) && fs[key].name.span != fv.name.span {
                r == Some(AnalyzeResult::Break(false)) && final(summary)@ == spec_error(
                    s1,
                    AnalyzeError::FunctionExistsError(
                        AnalyzeFunctionExistsError {
                            location: fv.name.span,
                            original: fs[key].name.span,
                        },
                    ),
                )
            } else {
                let s2 = if fs.contains_key(key) {
                    s1
                } else {
                    SpecSummary {
                        errors: without_marked(s1.errors, ErrorMarker::FunctionNotExists),
                        ..s1
                    }
                };
                &&& final(summary)@ == s2
                &&& (r == if s2.errors.len() != s1.errors.len() {
                    Some(AnalyzeResult::Break(true))
                } else {
                    None::<AnalyzeResult>
                })
            }
        }),
        defs_fit(final(summary)@.stores.functions),
{
    summary.clear_local_vars();
    let key = f.name.value.0.clone();
    let prev: Option<Span> = match summary.function(&key) {
        Some(d) => Some(d.name.span),
        None => None,
    };
    let def = FunctionDefinition {
        name: clone_spanned_ident(&f.name),
        args: f.args.clone(),
        ret: clone_opt_ident(&f.ret),
    };
    assert(def@ == definition_of(f@));
    summary.declare_function(key, def);
    match prev {
        Some(p) => {
            if p != f.name.span {
                summary.error(
                    AnalyzeError::FunctionExistsError(
                        AnalyzeFunctionExistsError { location: f.name.span, original: p },
                    ),
                );
                return Some(AnalyzeResult::Break(false));
            }
            None
        },
        None => {
            let removed = summary.remove_marked(ErrorMarker::FunctionNotExists);
            if removed != 0 {
                Some(AnalyzeResult::Break(true))
            } else {
                None
            }
        },
    }
}

/// Analyzes a function in place; `None` where the analysis overflows.
pub fn analyze_fn(f: &mut ItemFunction, summary: &mut AnalyzeSummary) -> (r: Option<AnalyzeResult>)
    requires
        item_function_fits(old(f)@),
        defs_fit(old(summary)@.stores.functions),
    ensures
        match an_fn(old(f)@, old(summary)@) {
            Some((f2, s2, flow)) => r == Some(flow) && final(f)@ == f2 && final(summary)@ == s2
                && item_function_fits(f2) && defs_fit(s2.stores.functions),
            None => r is None,
        },
{
    let ghost fv = f@;
    match record_function(f, summary) {
        Some(flow) => {
            return Some(flow);
        },
        None => {},
    }
    let ghost s2 = summary@;
    let mut i: usize = 0;
    while i < f.attrs.len()
        invariant
            i <= f.attrs@.len(),
            fv == f@,
            summary@ == an_attrs(fv.attrs.take(i as int), s2),
        decreases f.attrs.len() - i,
    {
        proof {
            assert(fv.attrs.take(i + 1).drop_last() =~= fv.attrs.take(i as int));
            assert(fv.attrs.take(i + 1).last() == f.attrs@[i as int]@);
        }
        match AttributeBuiltin::try_from(&f.attrs[i]) {
            Err(_) => summary.error(
                AnalyzeError::UnknownAttribute(
                    AnalyzeUnknownAttribute { location: f.attrs[i].path.span },
                ),
            ),
            Ok(_) => {},
        }
        i = i + 1;
    }
    assert(fv.attrs.take(i as int) =~= fv.attrs);
    let ghost sa = summary@;
    let mut i: usize = 0;
    while i < f.attrs.len()
        invariant
            i <= f.attrs@.len(),
            fv == f@,
            summary@ == an_entries(fv.attrs.take(i as int), fv.name.span, sa),
        decreases f.attrs.len() - i,
    {
        proof {
            assert(fv.attrs.take(i + 1).drop_last() =~= fv.attrs.take(i as int));
            assert(fv.attrs.take(i + 1).last() == f.attrs@[i as int]@);
        }
        match AttributeBuiltin::try_from(&f.attrs[i]) {
            Ok(AttributeBuiltin::Entry) => {
                match summary.entry_fn() {
                    Some(p) => {
                        if p != f.name.span {
                            summary.error(
                                AnalyzeError::FunctionUniqueEntry(
                                    AnalyzeFunctionUniqueEntry { location: f.name.span, original: p },
                                ),
                            );
                        } else {
                            summary.set_entry_fn(Some(f.name.span));
                        }
                    },
                    None => summary.set_entry_fn(Some(f.name.span)),
                }
            },
            Err(_) => {},
        }
        i = i + 1;
    }
    assert(fv.attrs.take(i as int) =~= fv.attrs);
    let ghost s3 = summary@;
    let ghost args = fv.args.args;
    let mut i: usize = 0;
    while i < f.args.args.len()
        invariant
            i <= f.args.args@.len(),
            fv == f@,
            args == fv.args.args,
            args == f.args.args@.map_values(|a: crate::nodes::FnArg| a@),
            summary@ == with_locals(s3, declare_args(args.take(i as int), s3.stores.local_vars)),
        decreases f.args.args.len() - i,
    {
        proof {
            assert(args.take(i + 1).drop_last() =~= args.take(i as int));
            assert(args.take(i + 1).last() == f.args.args@[i as int]@);
        }
        summary.declare_local_var(f.args.args[i].name.value.0.clone(), f.args.args[i].name.span);
        i = i + 1;
    }
    assert(args.take(i as int) =~= args);
    let ghost s4 = summary@;
    proof {
        lemma_attrs_frame(fv.attrs, s2);
        lemma_entries_frame(fv.attrs, fv.name.span, sa);
        lemma_block_frame(fv.body, s4);
    }
    let mut body = Block { open: f.body.open, stmts: Vec::new(), close: f.body.close };
    core::mem::swap(&mut f.body, &mut body);
    assert(body@ == fv.body);
    match analyze_block(body, summary) {
        None => None,
        Some(b2) => {
            f.body = b2;
            proof {
                assert(f@ == (SpecItemFunction { body: b2@, ..fv }));
            }
            Some(AnalyzeResult::Continue)
        },
    }
}

} // verus!

use crate::analysis::{fresh_summary, Analyze};
use crate::nodes::model::{item_fits, program_fits, SpecItem as ItemView};
use crate::nodes::{Item, Program};

verus! {

/// Analyzes an item in place; `None` where the analysis overflows.
pub fn analyze_item(i: &mut Item, summary: &mut AnalyzeSummary) -> (r: Option<AnalyzeResult>)
    requires
        item_fits(old(i)@),
        defs_fit(old(summary)@.stores.functions),
    ensures
        match an_item(old(i)@, old(summary)@) {
            Some((i2, s2, flow)) => r == Some(flow) && final(i)@ == i2 && final(summary)@ == s2
                && item_fits(i2) && defs_fit(s2.stores.functions),
            None => r is None,
        },
{
    match i {
        Item::Function(f) => analyze_fn(f, summary),
    }
}

/// Once an item stops the analysis, the items after it stay as they are.
proof fn lemma_an_items_stop(iv: Seq<ItemView>, k: int, j: int, s: SpecSummary)
    requires
        0 <= k <= j <= iv.len(),
        an_items(iv.take(k), s) matches Some((_, _, r)) && r is Break,
    ensures
        an_items(iv.take(j), s) == Some(
            (
                an_items(iv.take(k), s).unwrap().0 + iv.subrange(k, j),
                an_items(iv.take(k), s).unwrap().1,
                an_items(iv.take(k), s).unwrap().2,
            ),
        ),
    decreases j - k,
{
    let (p, s1, r) = an_items(iv.take(k), s).unwrap();
    if j == k {
        assert(p + iv.subrange(k, j) =~= p);
    } else {
        lemma_an_items_stop(iv, k, j - 1, s);
        assert(iv.take(j).drop_last() =~= iv.take(j - 1));
        assert(iv.take(j).last() == iv[j - 1]);
        assert((p + iv.subrange(k, j - 1)).push(iv[j - 1]) =~= p + iv.subrange(k, j));
    }
}

/// Once an item overflows, so does the analysis of the items.
proof fn lemma_an_items_none(iv: Seq<ItemView>, k: int, j: int, s: SpecSummary)
    requires
        0 <= k <= j <= iv.len(),
        an_items(iv.take(k), s) is None,
    ensures
        an_items(iv.take(j), s) is None,
    decreases j - k,
{
    if j > k {
        lemma_an_items_none(iv, k, j - 1, s);
        assert(iv.take(j).drop_last() =~= iv.take(j - 1));
    }
}

/// Analyzes items in order until one stops the analysis.
#[verifier::spinoff_prover]
#[verifier::rlimit(40)]
pub fn analyze_items(items: Vec<Item>, summary: &mut AnalyzeSummary) -> (r: Option<(Vec<Item>, AnalyzeResult)>)
    requires
        program_fits(items@.map_values(|i: Item| i@)),
        defs_fit(old(summary)@.stores.functions),
    ensures
        match an_items(items@.map_values(|i: Item| i@), old(summary)@) {
            Some((items2, s2, flow)) => r matches Some((x, f)) && x@.map_values(|i: Item| i@)
                == items2 && f == flow && final(summary)@ == s2 && program_fits(items2)
                && defs_fit(s2.stores.functions),
            None => r is None,
        },
{
    let ghost iv = items@.map_values(|i: Item| i@);
    let ghost s0 = summary@;
    let mut rest = items;
    let mut out: Vec<Item> = Vec::new();
    let ghost mut k: int = 0;
    proof {
        assert(iv.take(0) =~= Seq::<ItemView>::empty());
        assert(rest@.map_values(|i: Item| i@) =~= iv.subrange(0, iv.len() as int));
        assert(out@.map_values(|i: Item| i@) =~= Seq::<ItemView>::empty());
    }
    while rest.len() > 0
        invariant
            iv == items@.map_values(|i: Item| i@),
            s0 == old(summary)@,
            0 <= k <= iv.len(),
            k + rest@.len() == iv.len(),
            rest@.map_values(|i: Item| i@) == iv.subrange(k, iv.len() as int),
            an_items(iv.take(k), s0) == Some(
                (out@.map_values(|i: Item| i@), summary@, AnalyzeResult::Continue),
            ),
            program_fits(iv),
            program_fits(out@.map_values(|i: Item| i@)),
            defs_fit(summary@.stores.functions),
        decreases rest.len(),
    {
        let ghost rv = rest@;
        let mut it = rest.remove(0);
        proof {
            assert(it@ == rv.map_values(|i: Item| i@)[0]);
            assert(it@ == iv[k]);
            assert(item_fits(iv[k]));
            assert(iv.take(k + 1).drop_last() =~= iv.take(k));
            assert(iv.take(k + 1).last() == iv[k]);
            assert(rest@ =~= rv.subrange(1, rv.len() as int));
            let restv = rest@.map_values(|i: Item| i@);
            let rvv = rv.map_values(|i: Item| i@);
            assert forall|j: int| 0 <= j < restv.len() implies #[trigger] restv[j] == iv.subrange(
                k + 1,
                iv.len() as int,
            )[j] by {
                assert(rest@[j] == rv[j + 1]);
                assert(rvv[j + 1] == iv.subrange(k, iv.len() as int)[j + 1]);
            }
            assert(restv =~= iv.subrange(k + 1, iv.len() as int));
        }
        let ghost ov = out@.map_values(|i: Item| i@);
        let ghost sb = summary@;
        let ghost itv = it@;
        match analyze_item(&mut it, summary) {
            None => {
                proof {
                    assert(an_item(itv, sb) is None);
                    assert(an_items(iv.take(k + 1), s0) is None);
                    lemma_an_items_none(iv, k + 1, iv.len() as int, s0);
                    assert(iv.take(iv.len() as int) =~= iv);
                }
                return None;
            },
            Some(flow) => {
                let ghost it2 = it@;
                out.push(it);
                proof {
                    assert(an_item(itv, sb) == Some((it2, summary@, flow)));
                    assert(out@.map_values(|i: Item| i@) =~= ov.push(it2));
                    assert(an_items(iv.take(k + 1), s0) == Some((ov.push(it2), summary@, flow)));
                    k = k + 1;
                }
                match flow {
                    AnalyzeResult::Continue => {},
                    AnalyzeResult::Break(_) => {
                        let ghost ov2 = out@.map_values(|i: Item| i@);
                        out.append(&mut rest);
                        proof {
                            lemma_an_items_stop(iv, k, iv.len() as int, s0);
                            assert(iv.take(iv.len() as int) =~= iv);
                            let ofin = out@.map_values(|i: Item| i@);
                            assert(ofin =~= ov2 + iv.subrange(k, iv.len() as int));
                            assert forall|j: int| 0 <= j < ofin.len() implies item_fits(#[trigger] ofin[j]) by {
                                if j >= ov2.len() {
                                    assert(ofin[j] == iv[k + j - ov2.len()]);
                                } else {
                                    assert(ofin[j] == ov2[j]);
                                }
                            }
                        }
                        return Some((out, flow));
                    },
                }
            },
        }
    }
    assert(iv.take(k) =~= iv);
    Some((out, AnalyzeResult::Continue))
}

} // verus!

use crate::nodes::Attribute;
use crate::parser::Token;

verus! {

impl Analyze for Expr {
    open spec fn analyzable(&self) -> bool {
        expr_fits(self@)
    }

    open spec fn spec_analyze(&self, s: SpecSummary) -> Option<(SpecExpr, SpecSummary, AnalyzeResult)> {
        match an_expr(self@, s) {
            Some((e2, s2)) => Some((e2, s2, AnalyzeResult::Continue)),
            None => None,
        }
    }

    fn try_analyze(&mut self, summary: &mut AnalyzeSummary) -> (r: Option<AnalyzeResult>) {
        proof {
            lemma_expr_frame(self@, summary@);
        }
        let mut taken = Expr::Number(Spanned { span: Span::new(0, 0), value: 0 });
        core::mem::swap(self, &mut taken);
        match analyze_expr(taken, summary) {
            Some(e2) => {
                *self = e2;
                Some(AnalyzeResult::Continue)
            },
            None => None,
        }
    }

    fn analyze(&mut self, summary: &mut AnalyzeSummary) -> (r: AnalyzeResult) {
        match self.try_analyze(summary) {
            Some(r) => r,
            None => {
                assert(false);
                AnalyzeResult::Continue
            },
        }
    }
}

/// Analyzing an expression never stops the analysis nor asks for another round,
/// and keeps every diagnostic reported before.
pub proof fn lemma_expr_continues(e: Expr, s: SpecSummary)
    ensures
        e.spec_analyze(s) matches Some((_, s2, flow)) ==> flow == AnalyzeResult::Continue
            && keeps_errors(s.errors, s2.errors),
{
    lemma_expr_frame(e@, s);
}

impl Analyze for Statement {
    open spec fn analyzable(&self) -> bool {
        stmt_fits(self@)
    }

    open spec fn spec_analyze(&self, s: SpecSummary) -> Option<(SpecStatement, SpecSummary, AnalyzeResult)> {
        match an_stmt(self@, s) {
            Some((st2, s2)) => Some((st2, s2, AnalyzeResult::Continue)),
            None => None,
        }
    }

    fn try_analyze(&mut self, summary: &mut AnalyzeSummary) -> (r: Option<AnalyzeResult>) {
        proof {
            lemma_stmt_frame(self@, summary@);
        }
        let mut taken = Statement::Expr(
            StmtExpr { expr: Expr::Number(Spanned { span: Span::new(0, 0), value: 0 }), semi: None },
        );
        core::mem::swap(self, &mut taken);
        match analyze_stmt(taken, summary) {
            Some(st2) => {
                *self = st2;
                Some(AnalyzeResult::Continue)
            },
            None => None,
        }
    }

    fn analyze(&mut self, summary: &mut AnalyzeSummary) -> (r: AnalyzeResult) {
        match self.try_analyze(summary) {
            Some(r) => r,
            None => {
                assert(false);
                AnalyzeResult::Continue
            },
        }
    }
}

impl Analyze for Block {
    open spec fn analyzable(&self) -> bool {
        block_fits(self@)
    }

    open spec fn spec_analyze(&self, s: SpecSummary) -> Option<(SpecBlock, SpecSummary, AnalyzeResult)> {
        match an_block(self@, s) {
            Some((b2, s2)) => Some((b2, s2, AnalyzeResult::Continue)),
            None => None,
        }
    }

    fn try_analyze(&mut self, summary: &mut AnalyzeSummary) -> (r: Option<AnalyzeResult>) {
        proof {
            lemma_block_frame(self@, summary@);
        }
        let mut taken = Block { open: self.open, stmts: Vec::new(), close: self.close };
        core::mem::swap(self, &mut taken);
        match analyze_block(taken, summary) {
            Some(b2) => {
                *self = b2;
                Some(AnalyzeResult::Continue)
            },
            None => None,
        }
    }

    fn analyze(&mut self, summary: &mut AnalyzeSummary) -> (r: AnalyzeResult) {
        match self.try_analyze(summary) {
            Some(r) => r,
            None => {
                assert(false);
                AnalyzeResult::Continue
            },
        }
    }
}

impl Analyze for Attribute {
    open spec fn analyzable(&self) -> bool {
        crate::nodes::model::attribute_fits(self@)
    }

    open spec fn spec_analyze(&self, s: SpecSummary) -> Option<(SpecAttribute, SpecSummary, AnalyzeResult)> {
        Some((self@, an_attrs(seq![self@], s), AnalyzeResult::Continue))
    }

    fn try_analyze(&mut self, summary: &mut AnalyzeSummary) -> (r: Option<AnalyzeResult>) {
        let ghost s0 = summary@;
        assert(seq![self@].drop_last() =~= Seq::<SpecAttribute>::empty());
        assert(an_attrs(Seq::<SpecAttribute>::empty(), s0) == s0);
        assert(seq![self@].last() == self@);
        match AttributeBuiltin::try_from(self) {
            Err(_) => summary.error(
                AnalyzeError::UnknownAttribute(AnalyzeUnknownAttribute { location: self.path.span }),
            ),
            Ok(_) => {},
        }
        Some(AnalyzeResult::Continue)
    }

    fn analyze(&mut self, summary: &mut AnalyzeSummary) -> (r: AnalyzeResult) {
        match self.try_analyze(summary) {
            Some(r) => r,
            None => {
                assert(false);
                AnalyzeResult::Continue
            },
        }
    }
}

impl Analyze for ItemFunction {
    open spec fn analyzable(&self) -> bool {
        item_function_fits(self@)
    }

    open spec fn spec_analyze(&self, s: SpecSummary) -> Option<(SpecItemFunction, SpecSummary, AnalyzeResult)> {
        an_fn(self@, s)
    }

    fn try_analyze(&mut self, summary: &mut AnalyzeSummary) -> (r: Option<AnalyzeResult>) {
        analyze_fn(self, summary)
    }

    fn analyze(&mut self, summary: &mut AnalyzeSummary) -> (r: AnalyzeResult) {
        match self.try_analyze(summary) {
            Some(r) => r,
            None => {
                assert(false);
                AnalyzeResult::Continue
            },
        }
    }
}

impl Analyze for Item {
    open spec fn analyzable(&self) -> bool {
        item_fits(self@)
    }

    open spec fn spec_analyze(&self, s: SpecSummary) -> Option<(ItemView, SpecSummary, AnalyzeResult)> {
        an_item(self@, s)
    }

    fn try_analyze(&mut self, summary: &mut AnalyzeSummary) -> (r: Option<AnalyzeResult>) {
        analyze_item(self, summary)
    }

    fn analyze(&mut self, summary: &mut AnalyzeSummary) -> (r: AnalyzeResult) {
        match self.try_analyze(summary) {
            Some(r) => r,
            None => {
                assert(false);
                AnalyzeResult::Continue
            },
        }
    }
}

impl Analyze for Program {
    open spec fn analyzable(&self) -> bool {
        program_fits(self@)
    }

    open spec fn spec_analyze(&self, s: SpecSummary) -> Option<(Seq<ItemView>, SpecSummary, AnalyzeResult)> {
        an_items(self@, s)
    }

    fn try_analyze(&mut self, summary: &mut AnalyzeSummary) -> (r: Option<AnalyzeResult>) {
        let mut items: Vec<Item> = Vec::new();
        core::mem::swap(&mut self.0, &mut items);
        match analyze_items(items, summary) {
            Some((items2, flow)) => {
                self.0 = items2;
                Some(flow)
            },
            None => None,
        }
    }

    fn analyze(&mut self, summary: &mut AnalyzeSummary) -> (r: AnalyzeResult) {
        match self.try_analyze(summary) {
            Some(r) => r,
            None => {
                assert(false);
                AnalyzeResult::Continue
            },
        }
    }
}

impl Program {
    /// Analyzes the program from a fresh summary, again for as long as a run
    /// asks for it, and hands back the summary; `None` where a run overflows.
    pub fn try_analyzed(&mut self) -> (r: Option<AnalyzeSummary>)
        requires
            program_fits(old(self)@),
        ensures
            match analyzed_from(old(self)@, fresh_summary()) {
                Some((p2, s2)) => r matches Some(x) && final(self)@ == p2 && x@ == s2,
                None => r is None,
            },
            distinct_names(old(self)@) && calls_within(old(self)@) ==> (r matches Some(x)
                ==> forall|i: int|
                0 <= i < x@.errors.len() ==> !((#[trigger] x@.errors[i]).0 is FunctionNotExistsError)),
    {
        proof {
            if distinct_names(old(self)@) && calls_within(old(self)@) {
                lemma_program_calls_resolved(old(self)@);
            }
        }
        let mut summary = AnalyzeSummary::new();
        loop
            invariant
                distinct_names(old(self)@) && calls_within(old(self)@) ==> (analyzed_from(
                    old(self)@,
                    fresh_summary(),
                ) matches Some((_, s)) ==> forall|i: int|
                    0 <= i < s.errors.len() ==> !((#[trigger] s.errors[i]).0 is FunctionNotExistsError)),
                program_fits(self@),
                defs_fit(summary@.stores.functions),
                analyzed_from(self@, summary@) == analyzed_from(old(self)@, fresh_summary()),
            decreases pending(self@, summary@.stores.functions),
        {
            let ghost p0 = self@;
            let ghost s0 = summary@;
            match self.try_analyze(&mut summary) {
                None => {
                    return None;
                },
                Some(AnalyzeResult::Break(true)) => {
                    proof {
                        lemma_an_items_progress(p0, s0);
                        lemma_pending_decreases(p0, self@, s0.stores.functions, summary@.stores.functions);
                    }
                },
                Some(_) => {
                    return Some(summary);
                },
            }
        }
    }

    /// Analyzes the program from a fresh summary, again for as long as a run
    /// asks for it, and hands back the summary.
    pub fn analyzed(&mut self) -> (s: AnalyzeSummary)
        requires
            program_fits(old(self)@),
            analyzed_from(old(self)@, fresh_summary()) is Some,
        ensures
            final(self)@ == analyzed_from(old(self)@, fresh_summary()).unwrap().0,
            s@ == analyzed_from(old(self)@, fresh_summary()).unwrap().1,
            distinct_names(old(self)@) && calls_within(old(self)@) ==> forall|i: int|
                0 <= i < s@.errors.len() ==> !((#[trigger] s@.errors[i]).0 is FunctionNotExistsError),
    {
        match self.try_analyzed() {
            Some(s) => s,
            None => {
                assert(false);
                AnalyzeSummary::new()
            },
        }
    }
}

} // verus!

verus! {

/// Whether every expression of a list is a number.
pub open spec fn all_numbers(es: Seq<SpecExpr>) -> bool {
    forall|i: int| 0 <= i < es.len() ==> (#[trigger] es[i]) is Number
}

/// Numbers analyze to themselves and report nothing.
pub proof fn lemma_numbers_unchanged(es: Seq<SpecExpr>, s: SpecSummary)
    requires
        all_numbers(es),
    ensures
        an_exprs(es, s) == Some((es, s)),
    decreases es.len(),
{
    if es.len() > 0 {
        assert(all_numbers(es.drop_last()));
        lemma_numbers_unchanged(es.drop_last(), s);
        assert(es.last() is Number);
        assert(an_expr(es.last(), s) == Some((es.last(), s)));
        assert(es.drop_last().push(es.last()) =~= es);
    }
}

/// A call of a declared function reports that the number of arguments does
/// not match exactly when the call passes more or fewer arguments than the
/// function declares: with a different number the report, with the count
/// provided and the count expected, is among the diagnostics afterwards; with
/// the same number and arguments that report nothing themselves, the call
/// reports nothing.
pub proof fn lemma_call_arity_reported(name: Spanned<Seq<char>>, args: Seq<SpecExpr>, s: SpecSummary)
    requires
        s.stores.functions.contains_key(name.value),
    ensures
        ({
            let def = s.stores.functions[name.value];
            let report = (
                AnalyzeError::FunctionMismatchArgsCountError(
                    AnalyzeFunctionMismatchArgsCountError {
                        location: exprs_span(args),
                        provided: args.len() as usize,
                        original: fn_args_span(def.args),
                        expected: def.args.args.len() as usize,
                    },
                ),
                ErrorMarker::Unmarked,
            );
            let call = SpecExpr::Call(Box::new(SpecExpr::Ident(name)), args);
            &&& def.args.args.len() != args.len() ==> (an_expr(call, s) matches Some((_, s2))
                ==> s2.errors.contains(report))
            &&& def.args.args.len() == args.len() && all_numbers(args) ==> an_expr(call, s) == Some(
                (call, s),
            )
        }),
{
    let def = s.stores.functions[name.value];
    let call = SpecExpr::Call(Box::new(SpecExpr::Ident(name)), args);
    let report = (
        AnalyzeError::FunctionMismatchArgsCountError(
            AnalyzeFunctionMismatchArgsCountError {
                location: exprs_span(args),
                provided: args.len() as usize,
                original: fn_args_span(def.args),
                expected: def.args.args.len() as usize,
            },
        ),
        ErrorMarker::Unmarked,
    );
    if def.args.args.len() != args.len() {
        let s1 = spec_error(s, report.0);
        assert(s1.errors.contains(report)) by {
            if !s.errors.contains(report) {
                assert(s1.errors[s.errors.len() as int] == report);
            }
        }
        lemma_exprs_frame(args, s1);
        if let Some((a2, s2)) = an_exprs(args, s1) {
            let k = choose|k: int| 0 <= k < s1.errors.len() && s1.errors[k] == report;
            assert(s2.errors[k] == report);
            assert(s2.errors.contains(report));
        }
    } else if all_numbers(args) {
        lemma_numbers_unchanged(args, s);
    }
}

} // verus!

verus! {

/// Whether an operator compares its operands.
pub open spec fn compares(k: ExprBinary) -> bool {
    k == ExprBinary::Eq || k == ExprBinary::Ne || k == ExprBinary::Gt || k == ExprBinary::Ge
        || k == ExprBinary::Lt || k == ExprBinary::Le
}

/// A diagnostic, not marked, is among those of a summary after it is reported.
proof fn lemma_reported(s: SpecSummary, e: AnalyzeError)
    ensures
        spec_error(s, e).errors.contains((e, ErrorMarker::Unmarked)),
        keeps_errors(s.errors, spec_error(s, e).errors),
{
    if !s.errors.contains((e, ErrorMarker::Unmarked)) {
        assert(spec_error(s, e).errors[s.errors.len() as int] == (e, ErrorMarker::Unmarked));
    }
}

/// The condition of an `if` or a `while` is reported exactly when it is not a
/// comparison: a comparison leaves the summary as it is, and anything else
/// adds the report of a missing condition where the expression stands.
pub proof fn lemma_condition_reported(cond: SpecExpr, st: ConditionStatement, s: SpecSummary)
    ensures
        (cond matches SpecExpr::Binary { kind, .. } && compares(kind)) ==> check_condition(cond, st, s)
            == s,
        !(cond matches SpecExpr::Binary { kind, .. } && compares(kind)) ==> check_condition(
            cond,
            st,
            s,
        ).errors.contains(
            (
                AnalyzeError::ExpectedCondition(
                    AnalyzeExpectedCondition { location: expr_span(cond), statement: st },
                ),
                ErrorMarker::Unmarked,
            ),
        ),
{
    lemma_reported(
        s,
        AnalyzeError::ExpectedCondition(
            AnalyzeExpectedCondition { location: expr_span(cond), statement: st },
        ),
    );
}

/// A variable is reported exactly when no variable of that name is declared:
/// a declared one leaves the summary as it is, an undeclared one adds the
/// report of an unknown variable where the name stands.
pub proof fn lemma_variable_reported(v: Spanned<Seq<char>>, s: SpecSummary)
    ensures
        s.stores.local_vars.contains_key(v.value) ==> an_expr(SpecExpr::Ident(v), s) == Some(
            (SpecExpr::Ident(v), s),
        ),
        !s.stores.local_vars.contains_key(v.value) ==> (an_expr(SpecExpr::Ident(v), s) matches Some(
            (e2, s2),
        ) && e2 == SpecExpr::Ident(v) && s2.errors.contains(
            (
                AnalyzeError::VariableNotExistsError(AnalyzeVariableNotExistsError { location: v.span }),
                ErrorMarker::Unmarked,
            ),
        )),
{
    lemma_reported(
        s,
        AnalyzeError::VariableNotExistsError(AnalyzeVariableNotExistsError { location: v.span }),
    );
}

/// A call of a name that no function declares is reported, with the mark
/// that a later declaration of that name withdraws, and left as it is.
pub proof fn lemma_unknown_callee_reported(name: Spanned<Seq<char>>, args: Seq<SpecExpr>, s: SpecSummary)
    requires
        !s.stores.functions.contains_key(name.value),
    ensures
        ({
            let call = SpecExpr::Call(Box::new(SpecExpr::Ident(name)), args);
            an_expr(call, s) matches Some((e2, s2)) && e2 == call && s2.errors.contains(
                (
                    AnalyzeError::FunctionNotExistsError(
                        AnalyzeFunctionNotExistsError { location: name.span },
                    ),
                    ErrorMarker::FunctionNotExists,
                ),
            )
        }),
{
    let entry = (
        AnalyzeError::FunctionNotExistsError(AnalyzeFunctionNotExistsError { location: name.span }),
        ErrorMarker::FunctionNotExists,
    );
    if !s.errors.contains(entry) {
        assert(crate::analysis::record(s.errors, entry)[s.errors.len() as int] == entry);
    }
}

/// The sum and the difference of two numbers are folded into one number
/// that holds their sum or difference and covers both: where it fits an
/// `i32` the analysis gives that number, and where it does not the analysis
/// cannot finish.
pub proof fn lemma_numbers_folded(
    kind: ExprBinary,
    x: Spanned<i32>,
    y: Spanned<i32>,
    swap: bool,
    s: SpecSummary,
)
    requires
        kind == ExprBinary::Add || kind == ExprBinary::Sub,
    ensures
        ({
            let v = if kind == ExprBinary::Add {
                x.value + y.value
            } else {
                x.value - y.value
            };
            let e = SpecExpr::Binary {
                kind,
                lhs: Box::new(SpecExpr::Number(x)),
                rhs: Box::new(SpecExpr::Number(y)),
                swap_load: swap,
            };
            &&& fits_i32(v) ==> (an_expr(e, s) matches Some((e2, _)) && e2 == SpecExpr::Number(
                Spanned { span: x.span.spec_merge(y.span), value: v as i32 },
            ))
            &&& !fits_i32(v) ==> an_expr(e, s) is None
        }),
{
    let base = s.stores.binary_cost;
    assert(an_expr(SpecExpr::Number(x), s) == Some((SpecExpr::Number(x), s)));
    assert(an_expr(SpecExpr::Number(y), with_cost(s, base)) == Some(
        (SpecExpr::Number(y), with_cost(s, base)),
    ));
}

/// Whether the statement may end with `;` and does not.
pub open spec fn lacks_semi(st: SpecStatement) -> bool {
    ||| st matches SpecStatement::Expr { semi: None, .. }
    ||| st matches SpecStatement::Let { semi: None, .. }
}

/// A block is reported for a missing `;` exactly when an expression or `let`
/// statement that is not its last has none, and the report is for the last
/// such statement.
pub proof fn lemma_missing_semicolon_found(ss: Seq<SpecStatement>)
    ensures
        last_unterminated(ss) is None <==> forall|i: int|
            0 <= i < ss.len() - 1 ==> !lacks_semi(#[trigger] ss[i]),
        last_unterminated(ss) matches Some(st) ==> exists|i: int|
            0 <= i < ss.len() - 1 && ss[i] == st && lacks_semi(st) && forall|j: int|
                i < j < ss.len() - 1 ==> !lacks_semi(#[trigger] ss[j]),
    decreases ss.len(),
{
    if ss.len() > 1 {
        let d = ss.drop_last();
        lemma_missing_semicolon_found(d);
        let c = ss[ss.len() - 2];
        assert(spec_has_semi(c) == Some(false) <==> lacks_semi(c));
        assert forall|i: int| 0 <= i < d.len() - 1 implies d[i] == ss[i] by {}
        if !lacks_semi(c) {
            if let Some(st) = last_unterminated(d) {
                let i = choose|i: int|
                    0 <= i < d.len() - 1 && d[i] == st && lacks_semi(st) && forall|j: int|
                        i < j < d.len() - 1 ==> !lacks_semi(#[trigger] d[j]);
                assert(ss[i] == st);
                assert forall|j: int| i < j < ss.len() - 1 implies !lacks_semi(#[trigger] ss[j]) by {
                    if j < ss.len() - 2 {
                        assert(d[j] == ss[j]);
                    }
                }
            } else {
                assert forall|i: int| 0 <= i < ss.len() - 1 implies !lacks_semi(#[trigger] ss[i]) by {
                    if i < ss.len() - 2 {
                        assert(d[i] == ss[i]);
                    }
                }
            }
        } else {
            assert(ss[ss.len() - 2] == c);
        }
    }
}

} // verus!
