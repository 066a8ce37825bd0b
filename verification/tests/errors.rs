use damasc::identifier::Identifier;
use damasc::repl::messages::{cycle_message, eval_error_message, pattern_fail_message};
use damasc::runtime::matching::PatternFailReason;
use damasc::value::ValueMap;
use damasc::literal::Literal;
use damasc::parser::expression::expression_all_consuming;
use damasc::runtime::env::Environment;
use damasc::runtime::evaluation::{EvalError, Evaluation};
use damasc::syntax::expression::{Expression, ExpressionBody};
use damasc::value::Value;

fn eval(src: &str) -> Result<Value, EvalError> {
    let env = Environment::new();
    let e = expression_all_consuming(src).expect("expression parses");
    Evaluation::new(&env).eval_expr(&e)
}

#[test]
fn kind_error_for_a_non_type_on_the_right_of_is() {
    assert!(matches!(eval("5 is 3"), Err(EvalError::KindError(Value::Integer(3)))));
}

#[test]
fn type_error_for_mismatched_operands() {
    assert!(matches!(eval("1 + true"), Err(EvalError::TypeError(_, _))));
    assert!(matches!(eval("[1][true]"), Err(EvalError::TypeError(_, _))));
}

#[test]
fn collection_type_error_for_length_of_a_number() {
    assert!(matches!(eval("length(5)"), Err(EvalError::CollectionTypeError(Value::Integer(5)))));
    assert!(matches!(eval("5[0]"), Err(EvalError::CollectionTypeError(Value::Integer(5)))));
}

#[test]
fn cast_error_for_a_string_that_is_no_integer() {
    assert!(matches!(eval("\"abc\" as Integer"), Err(EvalError::CastError(_, _))));
    assert!(matches!(eval("true as Integer"), Ok(Value::Integer(1))));
}

#[test]
fn invalid_number_for_a_literal_that_does_not_parse() {
    let env = Environment::new();
    let e = Expression::new(ExpressionBody::Literal(Literal::Number("12a".to_string())));
    assert!(matches!(Evaluation::new(&env).eval_expr(&e), Err(EvalError::InvalidNumber(_))));
}

#[test]
fn key_and_bound_errors() {
    assert!(matches!(eval("{a: 1}.b"), Err(EvalError::KeyNotDefined(_, _))));
    assert!(matches!(eval("[1, 2][5]"), Err(EvalError::OutOfBound(2, 5))));
    assert!(matches!(eval("[1, 2][-1]"), Ok(Value::Integer(2))));
}

#[test]
fn integer_overflow_is_reported() {
    assert!(matches!(eval("9223372036854775807 + 1"), Err(EvalError::IntegerOverflow)));
    assert!(matches!(eval("-9223372036854775807 - 2"), Err(EvalError::IntegerOverflow)));
}

#[test]
fn unknown_function_is_reported() {
    assert!(matches!(eval("nofun(1)"), Err(EvalError::UnknownFunction(_))));
}

#[test]
fn pattern_errors_are_reported() {
    assert!(matches!(eval("(fn [x] => x).(5)"), Err(EvalError::PatternError(_))));
    assert!(matches!(eval("match 5 { 6 => 1 }"), Err(EvalError::PatternExhaustionError(Value::Integer(5)))));
    assert!(matches!(eval("match 5 { 6 => 1, x if x > 4 => x * 2 }"), Ok(Value::Integer(10))));
}

#[test]
fn application_budget_is_enforced() {
    let env = Environment::new();
    let e = expression_all_consuming("(fn x => x).(1)").unwrap();
    let evaluation = Evaluation { env: &env, fuel: 0 };
    assert!(matches!(evaluation.eval_expr(&e), Err(EvalError::RecursionLimit)));
    let evaluation = Evaluation { env: &env, fuel: 1 };
    assert!(matches!(evaluation.eval_expr(&e), Ok(Value::Integer(1))));
}

#[test]
fn error_messages_explain_the_failure() {
    let err = eval("1 + true").err().unwrap();
    assert_eq!(eval_error_message(&err), "Expected a value of type Integer but found true of type Boolean.");
    let err = eval("[1, 2][5]").err().unwrap();
    assert_eq!(eval_error_message(&err), "Tried to access index 5 of value that has a length of 2.");
    let err = eval("\"abc\" as Integer").err().unwrap();
    assert_eq!(eval_error_message(&err), "Value \"abc\" of type String can not be converted into Integer..");
    let err = eval("nope").err().unwrap();
    assert_eq!(eval_error_message(&err), "Unknown identifier nope.");
    let reason = PatternFailReason::ObjectKeyMismatch { expected: "c".to_string(), actual: obj_ab() };
    assert_eq!(pattern_fail_message(&reason), "The object was expected to have a key c, but has only keys: a, b.");
    let reason = PatternFailReason::ArrayLengthMismatch { expected: 3, actual: 10 };
    assert_eq!(pattern_fail_message(&reason), "Array is expected to be of length 3. But has actual length 10.");
    let names = vec![Identifier::new("x"), Identifier::new("y")];
    assert_eq!(cycle_message(&names), "These defintions cyclicly depend on each other: x, y");
    assert_eq!(cycle_message(&Vec::new()), "These defintions cyclicly depend on each other: ");
}

fn obj_ab() -> ValueMap {
    let mut m = ValueMap::new();
    m.insert("b".to_string(), Value::Null);
    m.insert("a".to_string(), Value::Null);
    m
}
