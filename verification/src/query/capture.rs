//! Binding the names of patterns to values.
use vstd::prelude::*;
use crate::value::{Value, SValue, smap_override};
use crate::syntax::pattern::{Pattern, PatternSet, SPattern};
use crate::runtime::env::Environment;
use crate::runtime::evaluation::MAX_DEPTH;
use crate::runtime::matching::Matcher;
use crate::runtime::semantics::{match_pattern, SPatternFailReason};

verus! {

/// Why a capture could not be decided: a pattern is not a problem when it
/// does not match, only when evaluating an expression inside it fails.
#[derive(Clone, Copy, Debug, PartialEq, Eq, Structural)]
pub enum CaptureError {
    PatternError,
    EvalError,
}

/// Matches one value against a pattern.
#[derive(Debug)]
pub struct Capture {
    pub pattern: Pattern,
}

/// Matches values against patterns, pairwise.
#[derive(Debug)]
pub struct MultiCapture {
    pub patterns: PatternSet,
}

/// The environment `env` extended by the bindings of `pattern` matched
/// against `value` (`None` when it does not match).
pub open spec fn capture_spec(fuel: nat, env: Seq<(Seq<char>, SValue)>, pattern: SPattern, value: SValue) -> Result<Option<Seq<(Seq<char>, SValue)>>, CaptureError> {
    match match_pattern(fuel, env, Seq::empty(), pattern, value) {
        Ok(bound) => Ok(Some(smap_override(env, bound))),
        Err(f) => if f.reason is EvalError { Err(CaptureError::EvalError) } else { Ok(None) },
    }
}

/// Matches `patterns[i..]` against `values[i..]` pairwise (up to the
/// shorter of the two), each pattern matched in and extending the
/// environment built so far.
pub open spec fn multi_capture_from(
    fuel: nat,
    env: Seq<(Seq<char>, SValue)>,
    patterns: Seq<SPattern>,
    values: Seq<SValue>,
    i: nat,
) -> Result<Option<Seq<(Seq<char>, SValue)>>, CaptureError>
    decreases patterns.len() - i,
{
    if i >= patterns.len() || i >= values.len() {
        Ok(Some(env))
    } else {
        match match_pattern(fuel, env, env, patterns[i as int], values[i as int]) {
            Ok(bound) => multi_capture_from(fuel, smap_override(env, bound), patterns, values, i + 1),
            Err(f) => if f.reason is EvalError { Err(CaptureError::EvalError) } else { Ok(None) },
        }
    }
}

pub open spec fn capture_result_view(r: &Result<Option<Environment>, CaptureError>) -> Result<Option<Seq<(Seq<char>, SValue)>>, CaptureError> {
    match r {
        Ok(Some(e)) => Ok(Some(e@)),
        Ok(None) => Ok(None),
        Err(e) => Err(*e),
    }
}

impl Capture {
    /// `env` extended by the bindings of the pattern matched against
    /// `value`; `None` when it does not match.
    pub fn apply(&self, env: &Environment, value: &Value) -> (r: Result<Option<Environment>, CaptureError>)
        ensures
            capture_result_view(&r) == capture_spec(MAX_DEPTH as nat, env@, self.pattern@, value@),
    {
        let matcher = Matcher::new(env);
        match matcher.match_pattern(Environment::new(), &self.pattern, value) {
            Ok(new_env) => Ok(Some(env.combine_with_override(&new_env))),
            Err(e) => match e.reason {
                crate::runtime::matching::PatternFailReason::EvalError(_) => Err(CaptureError::EvalError),
                _ => Ok(None),
            },
        }
    }
}

impl MultiCapture {
    /// `env` extended by the bindings of each pattern matched against the
    /// value in the same position; `None` when one does not match.
    #[verifier::loop_isolation(false)]
    pub fn apply(&self, env: &Environment, values: &Vec<Value>) -> (r: Result<Option<Environment>, CaptureError>)
        ensures
            capture_result_view(&r) == multi_capture_from(MAX_DEPTH as nat, env@, self.patterns@, crate::value::values_view(values), 0),
    {
        let ghost pats = self.patterns@;
        let ghost vals = crate::value::values_view(values);
        let mut e = env.deep_clone();
        let mut i: usize = 0;
        while i < self.patterns.patterns.len() && i < values.len()
            invariant
                i <= self.patterns.patterns.len(),
                multi_capture_from(MAX_DEPTH as nat, env@, pats, vals, 0) == multi_capture_from(MAX_DEPTH as nat, e@, pats, vals, i as nat),
            decreases self.patterns.patterns.len() - i,
        {
            assert(pats[i as int] == self.patterns.patterns[i as int]@);
            assert(vals[i as int] == values[i as int]@);
            let next = {
                let m = Matcher::new(&e);
                match m.match_pattern(e.deep_clone(), &self.patterns.patterns[i], &values[i]) {
                    Ok(new_env) => new_env,
                    Err(f) => {
                        return match f.reason {
                            crate::runtime::matching::PatternFailReason::EvalError(_) => Err(CaptureError::EvalError),
                            _ => Ok(None),
                        };
                    },
                }
            };
            e = e.combine_with_override(&next);
            i += 1;
        }
        Ok(Some(e))
    }
}

} // verus!
