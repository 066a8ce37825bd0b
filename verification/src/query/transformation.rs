//! Transformations: a bag of expressions and a projection over their values.
use vstd::prelude::*;
use crate::syntax::expression::ExpressionSet;
use crate::query::projection::MultiProjection;

verus! {

/// Evaluates the expressions of `bag` and runs `projection` over the
/// permutations of their values.
#[derive(Debug)]
pub struct Transformation {
    pub bag: ExpressionSet,
    pub projection: MultiProjection,
}

} // verus!
