//! Evaluating sets of assignments.
use vstd::prelude::*;
use crate::identifier::{Identifier, ids_view};
use crate::value::{SValue, smap_keys, smap_override};
use crate::syntax::assignment::{Assignment, AssignmentSet, SAssignment, assignment_nodes, permuted};
use crate::topology::{TopologyError, topological_order, cycle_identifiers};
use crate::runtime::env::Environment;
use crate::runtime::evaluation::{EvalError, Evaluation, MAX_DEPTH};
use crate::runtime::matching::{PatternFail, Matcher};
use crate::runtime::semantics::{SEvalError, SPatternFail, eval, match_pattern};

verus! {

/// Why a set of assignments could not be carried out.
#[derive(Debug)]
pub enum AssignmentError {
    /// No order of the assignments respects what they read and bind; the
    /// names are those bound by the assignments left over.
    TopologyError(Vec<Identifier>),
    EvalError(EvalError),
    MatchError(PatternFail),
}

pub enum SAssignmentError {
    TopologyError(Seq<Seq<char>>),
    EvalError(SEvalError),
    MatchError(SPatternFail),
}

impl View for AssignmentError {
    type V = SAssignmentError;

    open spec fn view(&self) -> SAssignmentError {
        match self {
            AssignmentError::TopologyError(ids) => SAssignmentError::TopologyError(ids_view(ids)),
            AssignmentError::EvalError(e) => SAssignmentError::EvalError(e@),
            AssignmentError::MatchError(f) => SAssignmentError::MatchError(f@),
        }
    }
}

/// Carries out assignments in the order given: each expression is evaluated
/// in `local` (the outer bindings overridden by those made so far), its
/// pattern is matched in `local` extending `collected`, and the new bindings
/// are added to both.
pub open spec fn run_assignments(
    fuel: nat,
    local: Seq<(Seq<char>, SValue)>,
    collected: Seq<(Seq<char>, SValue)>,
    assignments: Seq<SAssignment>,
) -> Result<Seq<(Seq<char>, SValue)>, SAssignmentError>
    decreases assignments.len(),
{
    if assignments.len() == 0 {
        Ok(collected)
    } else {
        let a = assignments[0];
        match eval(fuel, local, a.expression) {
            Err(e) => Err(SAssignmentError::EvalError(e)),
            Ok(v) => match match_pattern(fuel, local, collected, a.pattern, v) {
                Err(f) => Err(SAssignmentError::MatchError(f)),
                Ok(bound) => run_assignments(fuel, smap_override(local, bound), bound, assignments.drop_first()),
            },
        }
    }
}

/// The bindings a set of assignments makes in `env`: the assignments are
/// put in dependency order (the names of `env` count as bound) and carried
/// out in turn.
pub open spec fn eval_assignments(fuel: nat, env: Seq<(Seq<char>, SValue)>, assignments: Seq<SAssignment>) -> Result<Seq<(Seq<char>, SValue)>, SAssignmentError> {
    match topological_order(assignment_nodes(assignments), smap_keys(env)) {
        Some(order) => run_assignments(fuel, env, Seq::empty(), permuted(assignments, order)),
        None => Err(SAssignmentError::TopologyError(cycle_identifiers(assignment_nodes(assignments), smap_keys(env)))),
    }
}

pub open spec fn assignment_result_view(r: &Result<Environment, AssignmentError>) -> Result<Seq<(Seq<char>, SValue)>, SAssignmentError> {
    match r {
        Ok(e) => Ok(e@),
        Err(e) => Err(e@),
    }
}

/// Evaluates assignment sets in an environment.
#[derive(Debug)]
pub struct AssignmentEvaluation<'e> {
    pub env: &'e Environment,
}

impl<'e> AssignmentEvaluation<'e> {
    pub fn new(env: &'e Environment) -> (r: AssignmentEvaluation<'e>)
        ensures
            r.env == env,
    {
        AssignmentEvaluation { env }
    }

    /// The bindings that `assignments` make.
    #[verifier::loop_isolation(false)]
    pub fn eval_assigment_set(&self, assignments: AssignmentSet) -> (r: Result<Environment, AssignmentError>)
        ensures
            assignment_result_view(&r) == eval_assignments(MAX_DEPTH as nat, self.env@, assignments@),
    {
        let ghost all = assignments@;
        let external = self.env.identifiers();
        assert(ids_view(&external) =~= smap_keys(self.env@));
        let sorted = match assignments.sort_topological(&external) {
            Ok(sorted) => sorted,
            Err(TopologyError::Cycle(ids)) => return Err(AssignmentError::TopologyError(ids)),
        };
        let ghost goal = eval_assignments(MAX_DEPTH as nat, self.env@, all);
        let mut local_env = self.env.deep_clone();
        let mut collected_env = Environment::new();
        let mut i: usize = 0;
        assert(sorted@.skip(0) =~= sorted@);
        while i < sorted.assignments.len()
            invariant
                i <= sorted.assignments.len(),
                goal == run_assignments(MAX_DEPTH as nat, local_env@, collected_env@, sorted@.skip(i as int)),
            decreases sorted.assignments.len() - i,
        {
            let ghost rest = sorted@.skip(i as int);
            assert(rest[0] == sorted.assignments[i as int]@);
            assert(rest.drop_first() =~= sorted@.skip(i + 1));
            let assignment: &Assignment = &sorted.assignments[i];
            let value = {
                let evaluation = Evaluation::new(&local_env);
                match evaluation.eval_expr(&assignment.expression) {
                    Ok(v) => v,
                    Err(e) => return Err(AssignmentError::EvalError(e)),
                }
            };
            let new_env = {
                let matcher = Matcher::new(&local_env);
                match matcher.match_pattern(collected_env, &assignment.pattern, &value) {
                    Ok(new_env) => new_env,
                    Err(e) => return Err(AssignmentError::MatchError(e)),
                }
            };
            local_env = local_env.combine_with_override(&new_env);
            collected_env = new_env;
            i += 1;
        }
        assert(sorted@.skip(i as int).len() == 0);
        Ok(collected_env)
    }
}

} // verus!
