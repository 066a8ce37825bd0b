use damasc::identifier::Identifier;
use damasc::literal::Literal;
use damasc::runtime::env::Environment;
use damasc::runtime::evaluation::{EvalError, Evaluation};
use damasc::syntax::expression::{BinaryExpression, BinaryOperator, Expression, ExpressionBody};
use damasc::value::Value;

fn num(s: &str) -> Expression {
    Expression::new(ExpressionBody::Literal(Literal::Number(s.to_string())))
}

fn binary(op: BinaryOperator, l: Expression, r: Expression) -> Expression {
    Expression::new(ExpressionBody::Binary(BinaryExpression {
        operator: op,
        left: Box::new(l),
        right: Box::new(r),
    }))
}

#[test]
fn adds_integers() {
    let env = Environment::new();
    let evaluation = Evaluation::new(&env);
    let e = binary(BinaryOperator::Plus, num("2"), num("40"));
    assert!(matches!(evaluation.eval_expr(&e), Ok(Value::Integer(42))));
}

#[test]
fn division_by_zero_is_an_error() {
    let env = Environment::new();
    let evaluation = Evaluation::new(&env);
    let e = binary(BinaryOperator::Over, num("1"), num("0"));
    assert!(matches!(evaluation.eval_expr(&e), Err(EvalError::MathDivisionByZero)));
}

#[test]
fn unknown_identifier_is_an_error() {
    let env = Environment::new();
    let evaluation = Evaluation::new(&env);
    let e = Expression::new(ExpressionBody::Identifier(Identifier::new("x")));
    assert!(matches!(evaluation.eval_expr(&e), Err(EvalError::UnknownIdentifier(_))));
}
