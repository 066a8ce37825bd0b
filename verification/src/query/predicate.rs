//! Deciding whether values pass a pattern and a guard.
use vstd::prelude::*;
use crate::value::{Value, SValue, values_view};
use crate::syntax::expression::{Expression, SExpr};
use crate::syntax::pattern::SPattern;
use crate::runtime::env::Environment;
use crate::runtime::evaluation::{Evaluation, MAX_DEPTH};
use crate::runtime::semantics::eval;
use crate::query::capture::{Capture, MultiCapture, capture_spec, multi_capture_from};

verus! {

#[derive(Clone, Copy, Debug, PartialEq, Eq, Structural)]
pub enum PredicateError {
    /// An expression inside the pattern could not be evaluated.
    PatternError,
    /// The guard could not be evaluated, or its value is not a boolean.
    GuardError,
}

/// A value passes when it matches the pattern and the guard, evaluated
/// with the pattern's bindings, is `true`.
#[derive(Debug)]
pub struct Predicate {
    pub capture: Capture,
    pub guard: Expression,
}

/// Like `Predicate`, for several values matched against several patterns.
#[derive(Debug)]
pub struct MultiPredicate {
    pub capture: MultiCapture,
    pub guard: Expression,
}

/// The verdict of a guard once the capture is known.
pub open spec fn guard_spec(fuel: nat, captured: Result<Option<Seq<(Seq<char>, SValue)>>, crate::query::capture::CaptureError>, guard: SExpr) -> Result<bool, PredicateError> {
    match captured {
        Ok(Some(e)) => match eval(fuel, e, guard) {
            Ok(SValue::Boolean(b)) => Ok(b),
            _ => Err(PredicateError::GuardError),
        },
        Ok(None) => Ok(false),
        Err(_) => Err(PredicateError::PatternError),
    }
}

pub open spec fn predicate_spec(fuel: nat, env: Seq<(Seq<char>, SValue)>, pattern: SPattern, guard: SExpr, value: SValue) -> Result<bool, PredicateError> {
    guard_spec(fuel, capture_spec(fuel, env, pattern, value), guard)
}

pub open spec fn multi_predicate_spec(fuel: nat, env: Seq<(Seq<char>, SValue)>, patterns: Seq<SPattern>, guard: SExpr, values: Seq<SValue>) -> Result<bool, PredicateError> {
    guard_spec(fuel, multi_capture_from(fuel, env, patterns, values, 0), guard)
}

impl Predicate {
    /// Whether `value` passes this predicate in `env`.
    pub fn apply(&self, env: &Environment, value: &Value) -> (r: Result<bool, PredicateError>)
        ensures
            r == predicate_spec(MAX_DEPTH as nat, env@, self.capture.pattern@, self.guard@, value@),
    {
        let env = match self.capture.apply(env, value) {
            Ok(Some(env)) => env,
            Ok(None) => return Ok(false),
            Err(_) => return Err(PredicateError::PatternError),
        };
        let evaluation = Evaluation::new(&env);
        match evaluation.eval_expr(&self.guard) {
            Ok(Value::Boolean(b)) => Ok(b),
            Ok(_) => Err(PredicateError::GuardError),
            Err(_) => Err(PredicateError::GuardError),
        }
    }
}

impl MultiPredicate {
    /// Whether `values` pass this predicate in `env`.
    pub fn apply(&self, env: &Environment, values: &Vec<Value>) -> (r: Result<bool, PredicateError>)
        ensures
            r == multi_predicate_spec(MAX_DEPTH as nat, env@, self.capture.patterns@, self.guard@, values_view(values)),
    {
        let env = match self.capture.apply(env, values) {
            Ok(Some(env)) => env,
            Ok(None) => return Ok(false),
            Err(_) => return Err(PredicateError::PatternError),
        };
        let evaluation = Evaluation::new(&env);
        match evaluation.eval_expr(&self.guard) {
            Ok(Value::Boolean(b)) => Ok(b),
            Ok(_) => Err(PredicateError::GuardError),
            Err(_) => Err(PredicateError::GuardError),
        }
    }
}

} // verus!
