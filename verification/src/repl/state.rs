//! The REPL's state and how each command changes it.
use vstd::prelude::*;
use crate::identifier::{Identifier, ids_view};
use crate::value::{Value, ValueBag, SValue, values_view, smap_keys, smap_override};
use crate::strings::seq_lt;
use crate::syntax::expression::{ExpressionSet, SExpr};
use crate::syntax::pattern::SPattern;
use crate::runtime::env::Environment;
use crate::runtime::evaluation::{Evaluation, MAX_DEPTH};
use crate::runtime::assignment::{AssignmentEvaluation, AssignmentError, SAssignmentError, eval_assignments};
use crate::runtime::semantics::eval;
use crate::query::transformation::Transformation;
use crate::query::predicate::PredicateError;
use crate::query::projection::{ProjectionError, eval_all, multi_projection_spec};
use crate::query::iter::{MultiProjectionIterator, index_permutations, multi_projection_scan, pick, perms_view, positions_in_range};
use crate::repl::command::{Command, SCommand};
use crate::repl::io::{ReplOutput, ReplError, SReplOutput};

verus! {

/// The bindings the REPL keeps between commands.
#[derive(Debug)]
pub struct State {
    pub environment: Environment,
}

pub open spec fn assignment_error_kind(e: SAssignmentError) -> ReplError {
    match e {
        SAssignmentError::TopologyError(_) => ReplError::TopologyError,
        SAssignmentError::EvalError(_) => ReplError::EvalError,
        SAssignmentError::MatchError(_) => ReplError::MatchError,
    }
}

pub open spec fn projection_error_kind(e: ProjectionError) -> ReplError {
    match e {
        ProjectionError::PredicateError(PredicateError::PatternError) => ReplError::MatchError,
        ProjectionError::PredicateError(PredicateError::GuardError) => ReplError::EvalError,
        ProjectionError::EvalError => ReplError::EvalError,
    }
}

/// The values of those of `exprs` that have one, in order.
pub open spec fn ok_values(fuel: nat, env: Seq<(Seq<char>, SValue)>, exprs: Seq<SExpr>) -> Seq<SValue>
    decreases exprs.len(),
{
    if exprs.len() == 0 {
        Seq::empty()
    } else {
        match eval(fuel, env, exprs[0]) {
            Ok(v) => seq![v] + ok_values(fuel, env, exprs.drop_first()),
            Err(_) => ok_values(fuel, env, exprs.drop_first()),
        }
    }
}

/// All values the projection gives for the permutations from the `pos`-th
/// on, or the first failure.
pub open spec fn multi_projection_all(
    fuel: nat,
    env: Seq<(Seq<char>, SValue)>,
    patterns: Seq<SPattern>,
    guard: SExpr,
    projections: Seq<SExpr>,
    items: Seq<SValue>,
    perms: Seq<Seq<usize>>,
    pos: nat,
) -> Result<Seq<SValue>, ProjectionError>
    decreases perms.len() - pos,
{
    if pos >= perms.len() {
        Ok(Seq::empty())
    } else {
        match multi_projection_spec(fuel, env, patterns, guard, projections, pick(items, perms[pos as int])) {
            Ok(Some(vs)) => match multi_projection_all(fuel, env, patterns, guard, projections, items, perms, pos + 1) {
                Ok(rest) => Ok(vs + rest),
                Err(e) => Err(e),
            },
            Ok(None) => multi_projection_all(fuel, env, patterns, guard, projections, items, perms, pos + 1),
            Err(e) => Err(e),
        }
    }
}

/// What a transformation gives: the projection run over the permutations
/// of the values of the bag's expressions (those without a value are left
/// out).
pub open spec fn transform_spec(fuel: nat, env: Seq<(Seq<char>, SValue)>, bag: Seq<SExpr>, patterns: Seq<SPattern>, guard: SExpr, projections: Seq<SExpr>) -> Result<Seq<SValue>, ReplError> {
    let items = ok_values(fuel, env, bag);
    match multi_projection_all(fuel, env, patterns, guard, projections, items, index_permutations(items.len() as usize, patterns.len() as usize), 0) {
        Ok(vs) => Ok(vs),
        Err(e) => Err(projection_error_kind(e)),
    }
}

/// The answer to a command, and the bindings kept afterwards.
pub open spec fn repl_step(fuel: nat, env: Seq<(Seq<char>, SValue)>, command: SCommand) -> (Result<SReplOutput, ReplError>, Seq<(Seq<char>, SValue)>) {
    match command {
        SCommand::Exit => (Ok(SReplOutput::Exit), env),
        SCommand::Help => (Ok(SReplOutput::Success), env),
        SCommand::Cancel => (Ok(SReplOutput::Success), env),
        SCommand::ShowEnv => (Ok(SReplOutput::Bindings(env)), env),
        SCommand::ClearEnv => (Ok(SReplOutput::Success), Seq::empty()),
        SCommand::Transform(bag, patterns, guard, projections) => match transform_spec(fuel, env, bag, patterns, guard, projections) {
            Ok(vs) => (Ok(SReplOutput::Values(vs)), env),
            Err(e) => (Err(e), env),
        },
        SCommand::Assign(assignments, locals) => {
            let local = match locals {
                Some(l) => match eval_assignments(fuel, env, l) {
                    Ok(bound) => Ok(smap_override(env, bound)),
                    Err(e) => Err(assignment_error_kind(e)),
                },
                None => Ok(env),
            };
            match local {
                Err(e) => (Err(e), env),
                Ok(local) => match eval_assignments(fuel, local, assignments) {
                    Ok(bound) => (Ok(SReplOutput::Bindings(bound)), smap_override(env, bound)),
                    Err(e) => (Err(assignment_error_kind(e)), env),
                },
            }
        },
        SCommand::Match(assignments) => match eval_assignments(fuel, env, assignments) {
            Ok(bound) => (Ok(SReplOutput::Bindings(bound)), env),
            Err(e) => (Err(assignment_error_kind(e)), env),
        },
        SCommand::Eval(assignments, exprs) => match eval_assignments(fuel, env, assignments) {
            Err(e) => (Err(assignment_error_kind(e)), env),
            Ok(bound) => match eval_all(fuel, smap_override(env, bound), exprs) {
                Some(vs) => (Ok(SReplOutput::Values(vs)), env),
                None => (Err(ReplError::EvalError), env),
            },
        },
    }
}

pub open spec fn repl_result_view(r: &Result<ReplOutput, ReplError>) -> Result<SReplOutput, ReplError> {
    match r {
        Ok(o) => Ok(o@),
        Err(e) => Err(*e),
    }
}

proof fn lemma_scan_all(
    fuel: nat,
    env: Seq<(Seq<char>, SValue)>,
    patterns: Seq<SPattern>,
    guard: SExpr,
    projections: Seq<SExpr>,
    items: Seq<SValue>,
    perms: Seq<Seq<usize>>,
    pos: nat,
)
    ensures
        ({
            let (next, after) = multi_projection_scan(fuel, env, patterns, guard, projections, items, perms, pos);
            let all = multi_projection_all(fuel, env, patterns, guard, projections, items, perms, pos);
            match next {
                None => all == Ok::<Seq<SValue>, ProjectionError>(Seq::empty()),
                Some(Ok(vs)) => all == (match multi_projection_all(fuel, env, patterns, guard, projections, items, perms, after) {
                    Ok(rest) => Ok(vs + rest),
                    Err(e) => Err(e),
                }),
                Some(Err(e)) => all == Err::<Seq<SValue>, ProjectionError>(e),
            }
        }),
        pos < perms.len() ==> pos < multi_projection_scan(fuel, env, patterns, guard, projections, items, perms, pos).1 <= perms.len(),
        multi_projection_scan(fuel, env, patterns, guard, projections, items, perms, pos).0 is None
            ==> multi_projection_scan(fuel, env, patterns, guard, projections, items, perms, pos).1 >= perms.len(),
    decreases perms.len() - pos,
{
    if pos < perms.len() {
        lemma_scan_all(fuel, env, patterns, guard, projections, items, perms, pos + 1);
    }
}

impl State {
    /// A state with no bindings.
    pub fn new() -> (r: State)
        ensures
            r.environment@ == Seq::<(Seq<char>, SValue)>::empty(),
    {
        State { environment: Environment::new() }
    }

    /// The names bound, in increasing order, each once.
    pub fn vars(&self) -> (r: Vec<Identifier>)
        ensures
            ids_view(&r) == smap_keys(self.environment@),
            forall|i: int, j: int| 0 <= i < j < r.len() ==> seq_lt(#[trigger] r[i]@, #[trigger] r[j]@),
    {
        let r = self.environment.identifiers();
        assert(ids_view(&r) =~= smap_keys(self.environment@));
        r
    }

    /// The values of `exprs` in `env`, if all have one.
    fn eval_expressions(env: &Environment, exprs: &ExpressionSet) -> (r: Option<Vec<Value>>)
        ensures
            match r {
                Some(vs) => eval_all(MAX_DEPTH as nat, env@, exprs@) == Some(values_view(&vs)),
                None => eval_all(MAX_DEPTH as nat, env@, exprs@).is_none(),
            },
    {
        let evaluation = Evaluation::new(env);
        let ghost all = exprs@;
        let mut results: Vec<Value> = Vec::new();
        let mut i: usize = 0;
        assert(all.skip(0) =~= all);
        while i < exprs.expressions.len()
            invariant
                i <= exprs.expressions.len(),
                all == exprs@,
                evaluation.env == env,
                evaluation.fuel == MAX_DEPTH,
                eval_all(MAX_DEPTH as nat, env@, all) == (match eval_all(MAX_DEPTH as nat, env@, all.skip(i as int)) {
                    Some(rest) => Some(values_view(&results) + rest),
                    None => None::<Seq<SValue>>,
                }),
            decreases exprs.expressions.len() - i,
        {
            let ghost rest = all.skip(i as int);
            assert(rest[0] == exprs.expressions[i as int]@);
            assert(rest.drop_first() =~= all.skip(i + 1));
            match evaluation.eval_expr(&exprs.expressions[i]) {
                Ok(v) => {
                    let ghost before = values_view(&results);
                    let ghost vv = v@;
                    results.push(v);
                    assert(values_view(&results) =~= before.push(vv));
                    assert forall|tail: Seq<SValue>| before + (seq![vv] + tail) =~= values_view(&results) + tail by {}
                },
                Err(_) => {
                    return None;
                },
            }
            i += 1;
        }
        assert(all.skip(i as int) =~= Seq::<SExpr>::empty());
        assert(values_view(&results) + Seq::<SValue>::empty() =~= values_view(&results));
        Some(results)
    }

    /// The values of those expressions of `exprs` that have one in `env`.
    fn ok_values_exec(env: &Environment, exprs: &ExpressionSet) -> (r: Vec<Value>)
        ensures
            values_view(&r) == ok_values(MAX_DEPTH as nat, env@, exprs@),
    {
        let evaluation = Evaluation::new(env);
        let ghost all = exprs@;
        let mut results: Vec<Value> = Vec::new();
        let mut i: usize = 0;
        assert(all.skip(0) =~= all);
        assert(values_view(&results) =~= Seq::<SValue>::empty());
        while i < exprs.expressions.len()
            invariant
                i <= exprs.expressions.len(),
                all == exprs@,
                evaluation.env == env,
                evaluation.fuel == MAX_DEPTH,
                ok_values(MAX_DEPTH as nat, env@, all) == values_view(&results) + ok_values(MAX_DEPTH as nat, env@, all.skip(i as int)),
            decreases exprs.expressions.len() - i,
        {
            let ghost rest = all.skip(i as int);
            assert(rest[0] == exprs.expressions[i as int]@);
            assert(rest.drop_first() =~= all.skip(i + 1));
            let ghost before = values_view(&results);
            let ghost tail = ok_values(MAX_DEPTH as nat, env@, all.skip(i + 1));
            match evaluation.eval_expr(&exprs.expressions[i]) {
                Ok(v) => {
                    let ghost vv = v@;
                    results.push(v);
                    assert(values_view(&results) =~= before.push(vv));
                    assert(before + (seq![vv] + tail) =~= values_view(&results) + tail);
                },
                Err(_) => {},
            }
            i += 1;
        }
        assert(all.skip(i as int) =~= Seq::<SExpr>::empty());
        assert(values_view(&results) + Seq::<SValue>::empty() =~= values_view(&results));
        results
    }

    /// The values a transformation gives in this state.
    #[verifier::loop_isolation(false)]
    fn run_transformation(&self, transformation: Transformation) -> (r: Result<Vec<Value>, ReplError>)
        ensures
            match r {
                Ok(vs) => transform_spec(MAX_DEPTH as nat, self.environment@, transformation.bag@,
                    transformation.projection.predicate.capture.patterns@, transformation.projection.predicate.guard@,
                    transformation.projection.projections@) == Ok::<Seq<SValue>, ReplError>(values_view(&vs)),
                Err(e) => transform_spec(MAX_DEPTH as nat, self.environment@, transformation.bag@,
                    transformation.projection.predicate.capture.patterns@, transformation.projection.predicate.guard@,
                    transformation.projection.projections@) == Err::<Seq<SValue>, ReplError>(e),
            },
    {
        let ghost bag = transformation.bag@;
        let ghost patterns = transformation.projection.predicate.capture.patterns@;
        let ghost guard = transformation.projection.predicate.guard@;
        let ghost projections = transformation.projection.projections@;
        let items = Self::ok_values_exec(&self.environment, &transformation.bag);
        let ghost item_views = values_view(&items);
        let mut iterator = MultiProjectionIterator::new(self.environment.deep_clone(), transformation.projection, items);
        let ghost perms = perms_view(&iterator.permutations);
        let ghost goal = multi_projection_all(MAX_DEPTH as nat, self.environment@, patterns, guard, projections, item_views, perms, 0);
        let mut results: Vec<Value> = Vec::new();
        assert(values_view(&results) + goal.unwrap() =~= goal.unwrap());
        while iterator.position < iterator.permutations.len()
            invariant
                iterator.env@ == self.environment@,
                iterator.projection.predicate.capture.patterns@ == patterns,
                iterator.projection.predicate.guard@ == guard,
                iterator.projection.projections@ == projections,
                values_view(&iterator.items) == item_views,
                perms_view(&iterator.permutations) == perms,
                positions_in_range(perms_view(&iterator.permutations), iterator.items.len() as nat),
                goal == (match multi_projection_all(MAX_DEPTH as nat, self.environment@, patterns, guard, projections, item_views, perms, iterator.position as nat) {
                    Ok(rest) => Ok(values_view(&results) + rest),
                    Err(e) => Err(e),
                }),
            decreases iterator.permutations.len() - iterator.position,
        {
            let ghost pos = iterator.position as nat;
            proof {
                lemma_scan_all(MAX_DEPTH as nat, self.environment@, patterns, guard, projections, item_views, perms, pos);
            }
            match iterator.next() {
                None => {},
                Some(Ok(vs)) => {
                    let ghost before = values_view(&results);
                    let ghost vsv = values_view(&vs);
                    let mut vs = vs;
                    results.append(&mut vs);
                    assert(values_view(&results) =~= before + vsv);
                    assert forall|rest: Seq<SValue>| before + (vsv + rest) =~= values_view(&results) + rest by {}
                },
                Some(Err(e)) => {
                    let kind = match e {
                        ProjectionError::PredicateError(PredicateError::PatternError) => ReplError::MatchError,
                        ProjectionError::PredicateError(PredicateError::GuardError) => ReplError::EvalError,
                        ProjectionError::EvalError => ReplError::EvalError,
                    };
                    return Err(kind);
                },
            }
        }
        assert(values_view(&results) + Seq::<SValue>::empty() =~= values_view(&results));
        Ok(results)
    }

    /// Carries out a command: answers it and updates the bindings.
    pub fn eval(&mut self, command: Command) -> (r: Result<ReplOutput, ReplError>)
        ensures
            (repl_result_view(&r), final(self).environment@) == repl_step(MAX_DEPTH as nat, old(self).environment@, command@),
    {
        match command {
            Command::Exit => Ok(ReplOutput::Exit),
            Command::Help => Ok(ReplOutput::Success),
            Command::Cancel => Ok(ReplOutput::Success),
            Command::ShowEnv => Ok(ReplOutput::Bindings(self.environment.deep_clone())),
            Command::ClearEnv => {
                self.environment.clear();
                Ok(ReplOutput::Success)
            },
            Command::Transform(transformation) => match self.run_transformation(transformation) {
                Ok(values) => Ok(ReplOutput::Values(ValueBag { values })),
                Err(e) => Err(e),
            },
            Command::Assign(assignments, locals) => {
                let local_env = match locals {
                    Some(loc) => {
                        let evaluation = AssignmentEvaluation::new(&self.environment);
                        match evaluation.eval_assigment_set(loc) {
                            Ok(new_bindings) => self.environment.combine_with_override(&new_bindings),
                            Err(e) => return Err(Self::assignment_error(e)),
                        }
                    },
                    None => self.environment.deep_clone(),
                };
                let evaluation = AssignmentEvaluation::new(&local_env);
                match evaluation.eval_assigment_set(assignments) {
                    Ok(new_bindings) => {
                        self.environment = self.environment.combine_with_override(&new_bindings);
                        Ok(ReplOutput::Bindings(new_bindings))
                    },
                    Err(e) => Err(Self::assignment_error(e)),
                }
            },
            Command::Match(assignments) => {
                let evaluation = AssignmentEvaluation::new(&self.environment);
                match evaluation.eval_assigment_set(assignments) {
                    Ok(new_bindings) => Ok(ReplOutput::Bindings(new_bindings)),
                    Err(e) => Err(Self::assignment_error(e)),
                }
            },
            Command::Eval(assignments, expressions) => {
                let new_bindings = {
                    let evaluation = AssignmentEvaluation::new(&self.environment);
                    match evaluation.eval_assigment_set(assignments) {
                        Ok(new_env) => new_env,
                        Err(e) => return Err(Self::assignment_error(e)),
                    }
                };
                let local_env = self.environment.combine_with_override(&new_bindings);
                match Self::eval_expressions(&local_env, &expressions) {
                    Some(values) => Ok(ReplOutput::Values(ValueBag { values })),
                    None => Err(ReplError::EvalError),
                }
            },
        }
    }

    fn assignment_error(e: AssignmentError) -> (r: ReplError)
        ensures
            r == assignment_error_kind(e@),
    {
        match e {
            AssignmentError::TopologyError(_) => ReplError::TopologyError,
            AssignmentError::EvalError(_) => ReplError::EvalError,
            AssignmentError::MatchError(_) => ReplError::MatchError,
        }
    }
}

} // verus!
