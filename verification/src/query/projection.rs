//! Mapping the values that pass a predicate to new values.
use vstd::prelude::*;
use crate::identifier::Identifier;
use crate::literal::{Literal, SLiteral};
use crate::value::{Value, SValue, values_view};
use crate::syntax::expression::{Expression, ExpressionBody, ExpressionSet, SExpr, SExprBody};
use crate::syntax::pattern::{Pattern, PatternBody, PatternSet, SPattern, SPatternBody};
use crate::runtime::env::Environment;
use crate::runtime::evaluation::{Evaluation, MAX_DEPTH};
use crate::runtime::semantics::eval;
use crate::query::capture::{Capture, MultiCapture, CaptureError, capture_spec, multi_capture_from};
use crate::query::predicate::{Predicate, MultiPredicate, PredicateError};

verus! {

#[derive(Clone, Copy, Debug, PartialEq, Eq, Structural)]
pub enum ProjectionError {
    PredicateError(PredicateError),
    /// A projection expression could not be evaluated.
    EvalError,
}

/// Maps a value that passes the predicate to the value of the projection,
/// evaluated with the predicate's bindings.
#[derive(Debug)]
pub struct Projection {
    pub predicate: Predicate,
    pub projection: Expression,
}

/// Maps values that pass the predicate to the values of the projections.
#[derive(Debug)]
pub struct MultiProjection {
    pub predicate: MultiPredicate,
    pub projections: ExpressionSet,
}

/// The values of `exprs` in `env`, in order, if all of them have one.
pub open spec fn eval_all(fuel: nat, env: Seq<(Seq<char>, SValue)>, exprs: Seq<SExpr>) -> Option<Seq<SValue>>
    decreases exprs.len(),
{
    if exprs.len() == 0 {
        Some(Seq::empty())
    } else {
        match eval(fuel, env, exprs[0]) {
            Ok(v) => match eval_all(fuel, env, exprs.drop_first()) {
                Some(rest) => Some(seq![v] + rest),
                None => None,
            },
            Err(_) => None,
        }
    }
}

/// What a projection gives once the capture is known: the projected
/// values when the guard holds.
pub open spec fn projection_outcome(
    fuel: nat,
    captured: Result<Option<Seq<(Seq<char>, SValue)>>, CaptureError>,
    guard: SExpr,
    projections: Seq<SExpr>,
) -> Result<Option<Seq<SValue>>, ProjectionError> {
    match captured {
        Ok(Some(e)) => match eval(fuel, e, guard) {
            Ok(SValue::Boolean(b)) => if b {
                match eval_all(fuel, e, projections) {
                    Some(vs) => Ok(Some(vs)),
                    None => Err(ProjectionError::EvalError),
                }
            } else {
                Ok(None)
            },
            _ => Err(ProjectionError::PredicateError(PredicateError::GuardError)),
        },
        Ok(None) => Ok(None),
        Err(_) => Err(ProjectionError::PredicateError(PredicateError::PatternError)),
    }
}

pub open spec fn projection_spec(fuel: nat, env: Seq<(Seq<char>, SValue)>, pattern: SPattern, guard: SExpr, projection: SExpr, value: SValue) -> Result<Option<SValue>, ProjectionError> {
    match projection_outcome(fuel, capture_spec(fuel, env, pattern, value), guard, seq![projection]) {
        Ok(Some(vs)) => Ok(Some(vs[0])),
        Ok(None) => Ok(None),
        Err(e) => Err(e),
    }
}

pub open spec fn multi_projection_spec(fuel: nat, env: Seq<(Seq<char>, SValue)>, patterns: Seq<SPattern>, guard: SExpr, projections: Seq<SExpr>, values: Seq<SValue>) -> Result<Option<Seq<SValue>>, ProjectionError> {
    projection_outcome(fuel, multi_capture_from(fuel, env, patterns, values, 0), guard, projections)
}

pub open spec fn opt_value_result_view(r: &Result<Option<Value>, ProjectionError>) -> Result<Option<SValue>, ProjectionError> {
    match r {
        Ok(Some(v)) => Ok(Some(v@)),
        Ok(None) => Ok(None),
        Err(e) => Err(*e),
    }
}

pub open spec fn opt_values_result_view(r: &Result<Option<Vec<Value>>, ProjectionError>) -> Result<Option<Seq<SValue>>, ProjectionError> {
    match r {
        Ok(Some(v)) => Ok(Some(values_view(v))),
        Ok(None) => Ok(None),
        Err(e) => Err(*e),
    }
}

impl Projection {
    /// The projected value of `value` in `env`, or `None` when it does not
    /// pass the predicate.
    pub fn apply(&self, env: &Environment, value: &Value) -> (r: Result<Option<Value>, ProjectionError>)
        ensures
            opt_value_result_view(&r) == projection_spec(MAX_DEPTH as nat, env@, self.predicate.capture.pattern@, self.predicate.guard@, self.projection@, value@),
    {
        let env = match self.predicate.capture.apply(env, value) {
            Ok(Some(env)) => env,
            Ok(None) => return Ok(None),
            Err(_) => return Err(ProjectionError::PredicateError(PredicateError::PatternError)),
        };
        let evaluation = Evaluation::new(&env);
        proof {
            reveal_with_fuel(eval_all, 2);
        }
        match evaluation.eval_expr(&self.predicate.guard) {
            Ok(Value::Boolean(b)) => {
                if b {
                    match evaluation.eval_expr(&self.projection) {
                        Ok(result) => {
                            assert(seq![self.projection@].drop_first() =~= Seq::<SExpr>::empty());
                            assert(seq![result@] + Seq::<SValue>::empty() =~= seq![result@]);
                            Ok(Some(result))
                        },
                        Err(_) => Err(ProjectionError::EvalError),
                    }
                } else {
                    Ok(None)
                }
            },
            Ok(_) => Err(ProjectionError::PredicateError(PredicateError::GuardError)),
            Err(_) => Err(ProjectionError::PredicateError(PredicateError::GuardError)),
        }
    }
}

impl MultiProjection {
    /// The projected values of `values` in `env`, or `None` when they do
    /// not pass the predicate.
    #[verifier::loop_isolation(false)]
    pub fn apply(&self, env: &Environment, values: &Vec<Value>) -> (r: Result<Option<Vec<Value>>, ProjectionError>)
        ensures
            opt_values_result_view(&r) == multi_projection_spec(MAX_DEPTH as nat, env@, self.predicate.capture.patterns@, self.predicate.guard@, self.projections@, values_view(values)),
    {
        let env = match self.predicate.capture.apply(env, values) {
            Ok(Some(env)) => env,
            Ok(None) => return Ok(None),
            Err(_) => return Err(ProjectionError::PredicateError(PredicateError::PatternError)),
        };
        let evaluation = Evaluation::new(&env);
        match evaluation.eval_expr(&self.predicate.guard) {
            Ok(Value::Boolean(b)) => {
                if !b {
                    return Ok(None);
                }
            },
            Ok(_) => return Err(ProjectionError::PredicateError(PredicateError::GuardError)),
            Err(_) => return Err(ProjectionError::PredicateError(PredicateError::GuardError)),
        }
        let ghost all = self.projections@;
        let mut results: Vec<Value> = Vec::new();
        let mut i: usize = 0;
        assert(all.skip(0) =~= all);
        while i < self.projections.expressions.len()
            invariant
                i <= self.projections.expressions.len(),
                all == self.projections@,
                evaluation.env == &env,
                evaluation.fuel == MAX_DEPTH,
                eval_all(MAX_DEPTH as nat, env@, all) == (match eval_all(MAX_DEPTH as nat, env@, all.skip(i as int)) {
                    Some(rest) => Some(values_view(&results) + rest),
                    None => None::<Seq<SValue>>,
                }),
            decreases self.projections.expressions.len() - i,
        {
            let ghost rest = all.skip(i as int);
            assert(rest[0] == self.projections.expressions[i as int]@);
            assert(rest.drop_first() =~= all.skip(i + 1));
            match evaluation.eval_expr(&self.projections.expressions[i]) {
                Ok(v) => {
                    let ghost before = values_view(&results);
                    let ghost vv = v@;
                    results.push(v);
                    assert(values_view(&results) =~= before.push(vv));
                    assert forall|tail: Seq<SValue>| before + (seq![vv] + tail) =~= values_view(&results) + tail by {}
                },
                Err(_) => return Err(ProjectionError::EvalError),
            }
            i += 1;
        }
        assert(all.skip(i as int) =~= Seq::<SExpr>::empty());
        assert(values_view(&results) + Seq::<SValue>::empty() =~= values_view(&results));
        Ok(Some(results))
    }
}

impl Default for MultiProjection {
    /// Passes every single value through unchanged: the pattern `$$` and
    /// the projection `$$`, guarded by `true`.
    fn default() -> (r: MultiProjection)
        ensures
            r.predicate.capture.patterns@ == seq![SPattern { body: SPatternBody::Identifier("$$"@), location: None }],
            r.predicate.guard@ == (SExpr { body: SExprBody::Literal(SLiteral::Boolean(true)), location: None }),
            r.projections@ == seq![SExpr { body: SExprBody::Identifier("$$"@), location: None }],
    {
        let mut patterns: Vec<Pattern> = Vec::new();
        patterns.push(Pattern::new(PatternBody::Identifier(Identifier::new("$$"))));
        let mut expressions: Vec<Expression> = Vec::new();
        expressions.push(Expression::new(ExpressionBody::Identifier(Identifier::new("$$"))));
        let r = MultiProjection {
            predicate: MultiPredicate {
                capture: MultiCapture { patterns: PatternSet { patterns } },
                guard: Expression::new(ExpressionBody::Literal(Literal::Boolean(true))),
            },
            projections: ExpressionSet { expressions },
        };
        assert(r.predicate.capture.patterns@ =~= seq![SPattern { body: SPatternBody::Identifier("$$"@), location: None }]);
        assert(r.projections@ =~= seq![SExpr { body: SExprBody::Identifier("$$"@), location: None }]);
        r
    }
}

} // verus!
