use damasc::syntax::location::Location;
use damasc::parser::expression::expression_all_consuming;
use damasc::parser::value::{single_value, value_bag_all_consuming};
use damasc::query::parser::{auto_named_projection, transformation_all_consuming};
use damasc::runtime::env::Environment;
use damasc::runtime::evaluation::{EvalError, Evaluation};
use damasc::strings::{i64_to_string, parse_i64, usize_to_string};
use damasc::value::ValueMap;
use damasc::value::Value;

fn eval(src: &str) -> Result<Value, EvalError> {
    let env = Environment::new();
    let e = expression_all_consuming(src).expect("expression parses");
    Evaluation::new(&env).eval_expr(&e)
}

#[test]
fn values_print_as_written() {
    let v = eval("{b: [1, \"x\"], a: null, \"not plain\": true, x1: Integer}").ok().unwrap();
    assert_eq!(v.to_string(), "{a: null,b: [1, \"x\", ],\"not plain\": true,x1: Integer,}");
    let bag = value_bag_all_consuming("1; \"two\"; false;").unwrap();
    assert_eq!(bag.to_string(), "1;\n\"two\";\nfalse;\n");
}

#[test]
fn object_keys_with_non_ascii_letters_stay_plain() {
    let v = single_value("{a:1}").unwrap();
    assert_eq!(v.to_string(), "{a: 1,}");
    let e = expression_all_consuming("{\"é\": 1, \"a-b\": 2}").unwrap();
    let v = Evaluation::new(&Environment::new()).eval_expr(&e).ok().unwrap();
    assert_eq!(v.to_string(), "{\"a-b\": 2,é: 1,}");
}

#[test]
fn value_parser_edge_cases() {
    assert!(single_value("{a: 1}").is_none());
    assert!(single_value("{a:[1]}").is_some());
    assert!(single_value("{a: [1]}").is_some());
    assert!(single_value(" 1").is_none());
    assert!(single_value("99999999999999999999").is_none());
    assert!(matches!(single_value("-9223372036854775808"), Some(Value::Integer(i64::MIN))));
    assert!(value_bag_all_consuming("").is_none());
    assert_eq!(value_bag_all_consuming("  1 ;2").unwrap().values.len(), 2);
}

#[test]
fn integer_power_overflow_is_an_error() {
    assert!(matches!(eval("2 ^ 62"), Ok(Value::Integer(4611686018427387904))));
    assert!(matches!(eval("2 ^ 63"), Err(_)));
    assert!(matches!(eval("2 ^ -1"), Err(_)));
    assert!(matches!(eval("(0 - 2) ^ 63"), Ok(Value::Integer(i64::MIN))));
    assert!(matches!(eval("(0 - 2) ^ 64"), Err(EvalError::IntegerOverflow)));
    assert!(matches!(eval("(0 - 1) ^ 1001"), Ok(Value::Integer(-1))));
    assert!(matches!(eval("1 ^ 4000000000"), Ok(Value::Integer(1))));
    assert!(matches!(eval("0 ^ 0"), Ok(Value::Integer(1))));
    assert!(matches!(eval("0 ^ 7"), Ok(Value::Integer(0))));
    assert!(matches!(eval("3 ^ 0"), Ok(Value::Integer(1))));
    assert!(matches!(eval("10 ^ 18"), Ok(Value::Integer(1000000000000000000))));
    assert!(matches!(eval("10 ^ 19"), Err(EvalError::IntegerOverflow)));
}

#[test]
fn error_variants() {
    assert!(matches!(eval("1 / 0"), Err(EvalError::MathDivisionByZero)));
    assert!(matches!(eval("nope"), Err(EvalError::UnknownIdentifier(_))));
    assert!(matches!(eval("1 + true"), Err(EvalError::TypeError(_, _))));
    assert!(matches!(eval("[1, 2][5]"), Err(_)));
    assert!(matches!(eval("{a: 1}.b"), Err(_)));
    assert!(matches!(eval("nofun(1)"), Err(_)));
}

#[test]
fn string_helpers() {
    assert_eq!(parse_i64("-42"), Some(-42));
    assert_eq!(parse_i64("+7"), Some(7));
    assert_eq!(parse_i64("4x"), None);
    let mut m = ValueMap::new();
    m.insert("abc".to_string(), Value::Integer(1));
    assert!(m.contains_key("abc"));
    assert!(!m.contains_key("abd"));
    assert!(!m.contains_key("ab"));
    assert_eq!(i64_to_string(-42), "-42");
    assert_eq!(i64_to_string(i64::MIN), "-9223372036854775808");
    assert_eq!(Value::String("hé".to_string()).to_string(), "\"hé\"");
    assert_eq!(usize_to_string(1203), "1203");
}

#[test]
fn projection_names_captures_by_position() {
    let p = auto_named_projection(None, None, None);
    assert_eq!(p.predicate.capture.patterns.patterns.len(), 1);
    assert_eq!(p.predicate.capture.patterns.patterns[0].to_string(), "$0 @ _");
    assert_eq!(p.projections.expressions[0].to_string(), "$0");
    let t = transformation_all_consuming("{1; 2} |> map x; y").unwrap();
    let names: Vec<String> = t.projection.projections.expressions.iter().map(|e| e.to_string()).collect();
    assert_eq!(names, vec!["$0".to_string(), "$1".to_string()]);
}

#[test]
fn parsed_expressions_carry_byte_spans() {
    let e = expression_all_consuming("1 + 2").unwrap();
    assert_eq!(e.location, Some(Location::new(0, 5)));
    let e = expression_all_consuming("\"é\" + x").unwrap();
    assert_eq!(e.location, Some(Location::new(0, 8)));
    let p = damasc::parser::pattern::pattern_all_consuming("[a, _]").unwrap();
    assert_eq!(p.location, Some(Location::new(0, 6)));
}
