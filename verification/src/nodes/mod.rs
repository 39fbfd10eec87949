//! The syntax tree of the language.

pub mod analyze;
pub mod attribute;
pub mod expr;
pub mod items;
pub mod model;
pub mod statements;

pub use attribute::{AnalyzeUnknownAttribute, Attribute, AttributeBuiltin, AttributeStyle};
pub use expr::{
    span_of_expr, span_of_exprs, AnalyzeCalleeIsNotIdent, AnalyzeExprNotAssignable,
    AnalyzeFunctionMismatchArgsCountError, AnalyzeFunctionNotExistsError,
    AnalyzeFunctionNotExistsMarker, AnalyzeVariableNotExistsError, Expr, ExprAnalyzeStore,
    ExprBinary, ExprDeref,
};
pub use items::{
    AnalyzeFunctionExistsError, AnalyzeFunctionUniqueEntry, FnArg, FnArgs, FunctionDefinition,
    FunctionSharedStore, Item, ItemFunction,
};
pub use statements::{
    AnalyzeExpectedCondition, ConditionStatement, Statement, StmtExpr, StmtIf, StmtIfStore,
    StmtLabel, StmtLet, StmtLetStore, StmtLoop, StmtWhile,
};

use vstd::prelude::*;

use crate::nodes::model::{block_fits, block_span, item_fits, item_function_span, program_fits, SpecItem};
use crate::parser::{IntoSpanned, Span, Spanned, Token};

verus! {

/// Identifier of functions or variables.
#[derive(Debug)]
pub struct Ident(pub String);

impl Clone for Ident {
    fn clone(&self) -> (r: Ident)
        ensures
            r == *self,
    {
        Ident(self.0.clone())
    }
}

/// Copies a spanned identifier.
pub fn clone_spanned_ident(s: &Spanned<Ident>) -> (r: Spanned<Ident>)
    ensures
        r == *s,
{
    Spanned { span: s.span, value: s.value.clone() }
}

/// A whole source file: its items in order.
#[derive(Debug)]
pub struct Program(pub Vec<Item>);

impl IntoSpanned for Program {
    open spec fn spec_span(&self) -> Span {
        if self@.len() == 0 {
            Span { start: 0, len: 0 }
        } else {
            match self@[0] {
                SpecItem::Function(f) => item_function_span(f),
            }
        }
    }

    open spec fn spans_fit(&self) -> bool {
        program_fits(self@)
    }

    fn span(&self) -> (s: Span) {
        if self.0.len() == 0 {
            Span::new(0, 0)
        } else {
            assert(item_fits(self@[0]));
            self.0[0].span()
        }
    }
}

/// A missing `;` between two statements of a block.
#[derive(Clone, Copy, Debug, PartialEq, Eq, Hash, Structural)]
pub struct AnalyzeMissingSemicolon {
    pub location: Span,
}

/// A braced sequence of statements.
#[derive(Debug)]
pub struct Block {
    pub open: Spanned<Token>,
    pub stmts: Vec<Statement>,
    pub close: Spanned<Token>,
}

impl IntoSpanned for Block {
    open spec fn spec_span(&self) -> Span {
        block_span(self@)
    }

    open spec fn spans_fit(&self) -> bool {
        block_fits(self@)
    }

    fn span(&self) -> (s: Span) {
        self.open.span.merge(self.close.span)
    }
}

} // verus!
