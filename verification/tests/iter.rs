use damasc::parser::expression::expression_all_consuming;
use damasc::parser::pattern::pattern_all_consuming;
use damasc::parser::value::value_bag_all_consuming;
use damasc::query::capture::Capture;
use damasc::query::iter::{PredicateIterator, ProjectionIterator};
use damasc::query::predicate::{Predicate, PredicateError};
use damasc::query::projection::{Projection, ProjectionError};
use damasc::runtime::env::Environment;
use damasc::value::{Value, ValueBag};

const EXAMPLE_VALUES: &str = "1; 2; \"a\"; true; null; [40, 25]; [30, 35]; [60, 5]; [7, 7]; \
[1, 2, 3]; []; {a:1}; Integer; 5; 6; \"b\"; false";

fn bag() -> ValueBag {
    let Some(bag) = value_bag_all_consuming(EXAMPLE_VALUES) else {
        unreachable!("Values could not be read.");
    };
    bag
}

fn predicate_results(mut it: PredicateIterator) -> Vec<Result<Value, PredicateError>> {
    let mut out = Vec::new();
    while let Some(r) = it.next() {
        out.push(r);
    }
    out
}

fn projection_results(mut it: ProjectionIterator) -> Vec<Result<Value, ProjectionError>> {
    let mut out = Vec::new();
    while let Some(r) = it.next() {
        out.push(r);
    }
    out
}

fn projection(pattern: &str, guard: &str, proj: &str) -> Projection {
    let Some(pattern) = pattern_all_consuming(pattern) else {
        unreachable!("Pattern parse error");
    };
    let Some(guard) = expression_all_consuming(guard) else {
        unreachable!("Guard parse error");
    };
    let Some(proj_expression) = expression_all_consuming(proj) else {
        unreachable!("Projection parse error");
    };
    Projection {
        predicate: Predicate { capture: Capture { pattern }, guard },
        projection: proj_expression,
    }
}

#[test]
fn test_predicate_iteration() {
    let bag = bag();
    let Some(pattern) = pattern_all_consuming("[_,_]") else {
        unreachable!("Pattern parse error");
    };
    let Some(guard) = expression_all_consuming("true") else {
        unreachable!("Pattern parse error");
    };
    let pred = Predicate { capture: Capture { pattern }, guard };
    let count = bag.values.len();
    let pred_iter = PredicateIterator::new(Environment::new(), pred, bag.values);
    let results = predicate_results(pred_iter);
    for v in &results {
        assert!(matches!(v, Ok(Value::Array(a)) if a.len() == 2));
    }
    assert_eq!(count, 17);
    assert_eq!(results.len(), 4);
}

#[test]
fn test_projection_constant_iteration() {
    let bag = bag();
    let count = bag.values.len();
    let it = ProjectionIterator::new(Environment::new(), projection("[_,_]", "true", "42"), bag.values);
    let results = projection_results(it);
    for v in &results {
        assert!(matches!(v, Ok(Value::Integer(42))));
    }
    assert_eq!(count, 17);
    assert_eq!(results.len(), 4);
}

#[test]
fn test_projection_dynamic_iteration() {
    let bag = bag();
    let count = bag.values.len();
    let it = ProjectionIterator::new(Environment::new(), projection("[x,y]", "x != y", "x+y"), bag.values);
    let results = projection_results(it);
    for v in &results {
        assert!(matches!(v, Ok(Value::Integer(65))));
    }
    assert_eq!(count, 17);
    assert_eq!(results.len(), 3);
}

#[test]
fn test_projection_eval_error_iteration() {
    let bag = bag();
    let count = bag.values.len();
    let it = ProjectionIterator::new(Environment::new(), projection("[x,y]", "true", "z+y"), bag.values);
    let results = projection_results(it);
    for v in &results {
        assert!(matches!(v, Err(ProjectionError::EvalError)));
    }
    assert_eq!(count, 17);
    assert_eq!(results.len(), 4);
}

#[test]
fn test_projection_guard_error_iteration() {
    let bag = bag();
    let count = bag.values.len();
    let it = ProjectionIterator::new(Environment::new(), projection("[x,y]", "x > z", "x+y"), bag.values);
    let results = projection_results(it);
    for v in &results {
        assert!(matches!(v, Err(ProjectionError::PredicateError(PredicateError::GuardError))));
    }
    assert_eq!(count, 17);
    assert_eq!(results.len(), 4);
}

#[test]
fn test_projection_pattern_error_iteration() {
    let bag = bag();
    let count = bag.values.len();
    let it = ProjectionIterator::new(Environment::new(), projection("{[x]: 42}", "x > z", "x+y"), bag.values);
    let results = projection_results(it);
    for v in &results {
        assert!(matches!(v, Err(ProjectionError::PredicateError(PredicateError::PatternError))));
    }
    assert_eq!(count, 17);
    assert_eq!(results.len(), 1);
}
