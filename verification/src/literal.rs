use vstd::prelude::*;
use crate::value_type::ValueType;

verus! {

/// A literal as written in source code.
#[derive(Debug)]
pub enum Literal {
    Null,
    String(String),
    Number(String),
    Boolean(bool),
    Type(ValueType),
}

/// The mathematical model of a literal.
pub enum SLiteral {
    Null,
    String(Seq<char>),
    Number(Seq<char>),
    Boolean(bool),
    Type(ValueType),
}

impl View for Literal {
    type V = SLiteral;

    open spec fn view(&self) -> SLiteral {
        match self {
            Literal::Null => SLiteral::Null,
            Literal::String(s) => SLiteral::String(s@),
            Literal::Number(s) => SLiteral::Number(s@),
            Literal::Boolean(b) => SLiteral::Boolean(*b),
            Literal::Type(t) => SLiteral::Type(*t),
        }
    }
}

impl Literal {
    /// A copy of this literal that owns all of its text.
    pub fn deep_clone(&self) -> (r: Literal)
        ensures
            r@ == self@,
    {
        match self {
            Literal::Null => Literal::Null,
            Literal::String(s) => Literal::String(s.clone()),
            Literal::Number(s) => Literal::Number(s.clone()),
            Literal::Boolean(b) => Literal::Boolean(*b),
            Literal::Type(t) => Literal::Type(*t),
        }
    }

    /// Whether two literals are the same literal.
    pub fn eq(&self, other: &Literal) -> (r: bool)
        ensures
            r == (self@ == other@),
    {
        match (self, other) {
            (Literal::Null, Literal::Null) => true,
            (Literal::String(a), Literal::String(b)) => *a == *b,
            (Literal::Number(a), Literal::Number(b)) => *a == *b,
            (Literal::Boolean(a), Literal::Boolean(b)) => *a == *b,
            (Literal::Type(a), Literal::Type(b)) => *a == *b,
            _ => false,
        }
    }
}

} // verus!
