//! The types a syntax tree is built from, named together.
use vstd::prelude::*;
use crate::identifier::Identifier;
use crate::literal::Literal;

verus! {

/// A choice of the types that annotate a syntax tree and that hold its
/// identifiers and literals.
pub trait SyntaxLevel {
    type Annotation;
    type Identifier;
    type Literal;
}

/// Syntax trees without annotations.
#[derive(Clone, Debug, Hash, Eq, PartialEq, Ord, PartialOrd)]
pub struct EmptyLevel {}

impl SyntaxLevel for EmptyLevel {
    type Annotation = ();
    type Identifier = Identifier;
    type Literal = Literal;
}

} // verus!
