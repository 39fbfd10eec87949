//! Attributes attached to items: `#[entry]`.

use vstd::prelude::*;

use crate::nodes::model::{attribute_span, attribute_fits};
use crate::nodes::Ident;
use crate::parser::{IntoSpanned, Span, Spanned, Token};

verus! {

#[derive(Debug)]
pub struct Attribute {
    pub pound: Spanned<Token>,
    pub open: Spanned<Token>,
    pub path: Spanned<Ident>,
    pub style: AttributeStyle,
    pub close: Spanned<Token>,
}

#[derive(Clone, Copy, Debug, PartialEq, Eq, Structural)]
pub enum AttributeStyle {
    Path,
}

impl IntoSpanned for Attribute {
    open spec fn spec_span(&self) -> Span {
        attribute_span(self@)
    }

    open spec fn spans_fit(&self) -> bool {
        attribute_fits(self@)
    }

    fn span(&self) -> (s: Span) {
        self.pound.span.merge(self.close.span)
    }
}

/// An attribute whose path names no builtin attribute.
#[derive(Clone, Copy, Debug, PartialEq, Eq, Hash, Structural)]
pub struct AnalyzeUnknownAttribute {
    pub location: Span,
}

/// The attributes the compiler understands.
#[derive(Clone, Copy, Debug, PartialEq, Eq, Structural)]
pub enum AttributeBuiltin {
    Entry,
}

/// The builtin attribute an attribute path names, if any.
pub open spec fn spec_builtin_of(path: Seq<char>) -> Option<AttributeBuiltin> {
    if path == "entry"@ {
        Some(AttributeBuiltin::Entry)
    } else {
        None
    }
}

impl AttributeBuiltin {
    pub fn try_from(value: &Attribute) -> (r: Result<AttributeBuiltin, ()>)
        ensures
            r matches Ok(b) ==> spec_builtin_of(value.path.value@) == Some(b),
            r is Err ==> spec_builtin_of(value.path.value@) is None,
    {
        if crate::text::text_eq(value.path.value.0.as_str(), "entry") {
            Ok(AttributeBuiltin::Entry)
        } else {
            Err(())
        }
    }
}

} // verus!
