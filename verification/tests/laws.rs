use damasc::repl::io::ReplOutput;
use damasc::repl::parser::command_all_consuming;
use damasc::repl::state::State;
use damasc::syntax::expression::{Expression, ExpressionBody};
use damasc::syntax::location::Location;
use damasc::syntax::pattern::{pattern_eq, Pattern, PatternBody};
use damasc::value::LambdaBinding;
use damasc::parser::assignment::assignment_set1_all_consuming;
use damasc::runtime::assignment::{AssignmentError, AssignmentEvaluation};
use damasc::identifier::Identifier;
use damasc::parser::expression::expression_all_consuming;
use damasc::parser::pattern::pattern_all_consuming;
use damasc::parser::value::single_value;
use damasc::query::iter::MultiProjectionIterator;
use damasc::query::projection::MultiProjection;
use damasc::runtime::env::Environment;
use damasc::runtime::evaluation::{EvalError, Evaluation};
use damasc::runtime::matching::Matcher;
use damasc::topology::{sort_topological, Node, TopologyError};
use damasc::value::{value_eq, Value, ValueMap};
use damasc::value_type::ValueType;

fn eval(src: &str) -> Result<Value, EvalError> {
    let env = Environment::new();
    let e = expression_all_consuming(src).expect("expression parses");
    Evaluation::new(&env).eval_expr(&e)
}

fn val(src: &str) -> Value {
    single_value(src).expect("value parses")
}

fn ids(names: &[&str]) -> Vec<Identifier> {
    names.iter().map(|n| Identifier::new(n)).collect()
}

#[test]
fn map_get_after_insert() {
    let mut m = ValueMap::new();
    m.insert("b".to_string(), Value::Integer(1));
    m.insert("a".to_string(), Value::Integer(2));
    m.insert("b".to_string(), Value::Integer(3));
    assert!(matches!(m.get("b"), Some(Value::Integer(3))));
    assert!(matches!(m.get("a"), Some(Value::Integer(2))));
    assert!(m.get("c").is_none());
    assert_eq!(m.len(), 2);
    let keys = m.keys();
    assert_eq!(keys, vec!["a".to_string(), "b".to_string()]);
}

#[test]
fn keys_are_ordered_by_code_point() {
    let mut m = ValueMap::new();
    for k in ["b", "B", "ab", "a", ""] {
        m.insert(k.to_string(), Value::Null);
    }
    assert_eq!(m.keys(), vec!["".to_string(), "B".to_string(), "a".to_string(), "ab".to_string(), "b".to_string()]);
}

#[test]
fn override_prefers_new_bindings() {
    let mut a = Environment::new();
    a.bindings.insert("x".to_string(), Value::Integer(1));
    a.bindings.insert("y".to_string(), Value::Integer(2));
    let mut b = Environment::new();
    b.bindings.insert("y".to_string(), Value::Integer(20));
    b.bindings.insert("z".to_string(), Value::Integer(30));
    let c = a.combine_with_override(&b);
    assert!(matches!(c.bindings.get("x"), Some(Value::Integer(1))));
    assert!(matches!(c.bindings.get("y"), Some(Value::Integer(20))));
    assert!(matches!(c.bindings.get("z"), Some(Value::Integer(30))));
    assert!(a.combine(&b).is_none());
}

#[test]
fn convert_to_own_type_is_identity() {
    for src in ["null", "5", "\"s\"", "true", "[1]", "{a:1}", "Integer"] {
        let v = val(src);
        let t = v.get_type();
        let c = v.convert(t).expect("conversion to own type");
        assert!(value_eq(&c, &v), "{}", src);
    }
    let c = val("[1]").convert(ValueType::Type).unwrap();
    assert!(matches!(c, Value::Type(ValueType::Array)));
}

#[test]
fn literal_evaluates_to_its_value() {
    assert!(matches!(eval("42"), Ok(Value::Integer(42))));
    assert!(matches!(eval("\"x\""), Ok(Value::String(s)) if s == "x"));
    assert!(matches!(eval("null"), Ok(Value::Null)));
    assert!(matches!(eval("Boolean"), Ok(Value::Type(ValueType::Boolean))));
}

#[test]
fn logic_short_circuits() {
    assert!(matches!(eval("false && undefined_name"), Ok(Value::Boolean(false))));
    assert!(matches!(eval("true || undefined_name"), Ok(Value::Boolean(true))));
    assert!(matches!(eval("true && undefined_name"), Err(EvalError::UnknownIdentifier(_))));
}

#[test]
fn identifier_evaluates_to_binding() {
    let mut env = Environment::new();
    env.bindings.insert("x".to_string(), Value::Integer(7));
    let e = expression_all_consuming("x").unwrap();
    assert!(matches!(Evaluation::new(&env).eval_expr(&e), Ok(Value::Integer(7))));
    let e = expression_all_consuming("y").unwrap();
    assert!(matches!(Evaluation::new(&env).eval_expr(&e), Err(EvalError::UnknownIdentifier(_))));
}

#[test]
fn identifier_pattern_binds_value() {
    let env = Environment::new();
    let p = pattern_all_consuming("x").unwrap();
    let r = Matcher::new(&env).match_pattern(Environment::new(), &p, &Value::Integer(3)).ok().unwrap();
    assert!(matches!(r.bindings.get("x"), Some(Value::Integer(3))));
    let mut bound = Environment::new();
    bound.bindings.insert("x".to_string(), Value::Integer(4));
    assert!(Matcher::new(&env).match_pattern(bound, &p, &Value::Integer(3)).is_err());
}

#[test]
fn discard_matches_everything() {
    let env = Environment::new();
    let p = pattern_all_consuming("_").unwrap();
    for src in ["null", "[1, 2]", "{}", "\"a\""] {
        let r = Matcher::new(&env).match_pattern(Environment::new(), &p, &val(src)).ok().unwrap();
        assert_eq!(r.bindings.len(), 0);
    }
}

#[test]
fn typed_discard_matches_its_type() {
    let env = Environment::new();
    let p = pattern_all_consuming("_ is Integer").unwrap();
    assert!(Matcher::new(&env).match_pattern(Environment::new(), &p, &Value::Integer(1)).is_ok());
    assert!(Matcher::new(&env).match_pattern(Environment::new(), &p, &Value::Null).is_err());
}

#[test]
fn identity_lambda_returns_argument() {
    assert!(matches!(eval("(fn x => x).(5)"), Ok(Value::Integer(5))));
    let r = eval("(fn x => x).([1, 2])").ok().unwrap();
    assert!(value_eq(&r, &val("[1, 2]")));
}

#[test]
fn default_projection_passes_single_value() {
    let mut it = MultiProjectionIterator::new(Environment::new(), MultiProjection::default(), vec![Value::Integer(9), Value::Boolean(true)]);
    let first = it.next().unwrap().ok().unwrap();
    assert_eq!(first.len(), 1);
    assert!(matches!(first[0], Value::Integer(9)));
    let second = it.next().unwrap().ok().unwrap();
    assert!(matches!(second[0], Value::Boolean(true)));
    assert!(it.next().is_none());
}

#[test]
fn topological_order_respects_dependencies() {
    let nodes = vec![
        Node { outputs: ids(&["b"]), inputs: ids(&["a"]) },
        Node { outputs: ids(&["a"]), inputs: ids(&[]) },
        Node { outputs: ids(&["c"]), inputs: ids(&["a", "b", "ext"]) },
    ];
    let order = sort_topological(&nodes, &ids(&["ext"])).ok().unwrap();
    assert_eq!(order, vec![1, 0, 2]);
}

#[test]
fn topological_cycle_is_reported() {
    let nodes = vec![
        Node { outputs: ids(&["x"]), inputs: ids(&["y"]) },
        Node { outputs: ids(&["y"]), inputs: ids(&["x"]) },
        Node { outputs: ids(&["z"]), inputs: ids(&[]) },
    ];
    match sort_topological(&nodes, &ids(&[])) {
        Err(TopologyError::Cycle(c)) => assert!(!c.is_empty()),
        Ok(_) => panic!("a cycle must be refused"),
    }
}

#[test]
fn assigning_a_name_binds_its_value() {
    let env = Environment::new();
    let set = assignment_set1_all_consuming("x = 1 + 2").unwrap();
    let bound = AssignmentEvaluation::new(&env).eval_assigment_set(set).ok().unwrap();
    assert_eq!(bound.bindings.len(), 1);
    assert!(matches!(bound.bindings.get("x"), Some(Value::Integer(3))));
    let set = assignment_set1_all_consuming("x = 1 / 0").unwrap();
    assert!(matches!(AssignmentEvaluation::new(&env).eval_assigment_set(set), Err(AssignmentError::EvalError(EvalError::MathDivisionByZero))));
    let set = assignment_set1_all_consuming("x = x + 1").unwrap();
    assert!(matches!(AssignmentEvaluation::new(&env).eval_assigment_set(set), Err(AssignmentError::TopologyError(_))));
    let mut outer = Environment::new();
    outer.bindings.insert("x".to_string(), Value::Integer(4));
    let set = assignment_set1_all_consuming("x = x + 1").unwrap();
    let bound = AssignmentEvaluation::new(&outer).eval_assigment_set(set).ok().unwrap();
    assert!(matches!(bound.bindings.get("x"), Some(Value::Integer(5))));
}

#[test]
fn pattern_equality_ignores_location() {
    let located = Pattern::new_with_location(PatternBody::Identifier(Identifier::new("x")), Location::new(3, 4));
    let plain = Pattern::new(PatternBody::Identifier(Identifier::new("x")));
    assert!(pattern_eq(&located, &plain));
    let inner_located = Pattern::new_with_location(PatternBody::Discard, Location::new(0, 1));
    let nested_a = Pattern::new(PatternBody::Capture(Identifier::new("y"), Box::new(inner_located)));
    let nested_b = Pattern::new_with_location(PatternBody::Capture(Identifier::new("y"), Box::new(Pattern::new(PatternBody::Discard))), Location::new(7, 9));
    assert!(pattern_eq(&nested_a, &nested_b));
    let other = Pattern::new(PatternBody::Identifier(Identifier::new("z")));
    assert!(!pattern_eq(&plain, &other));
}

#[test]
fn lambdas_differing_in_pattern_location_are_equal() {
    let body = || Expression::new(ExpressionBody::Identifier(Identifier::new("x")));
    let a = Value::Lambda(LambdaBinding::new(), Pattern::new_with_location(PatternBody::Identifier(Identifier::new("x")), Location::new(3, 4)), body());
    let b = Value::Lambda(LambdaBinding::new(), Pattern::new(PatternBody::Identifier(Identifier::new("x"))), body());
    assert!(value_eq(&a, &b));
    let mut ev_env = Environment::new();
    ev_env.bindings.insert("a".to_string(), a);
    ev_env.bindings.insert("b".to_string(), b);
    let eq = expression_all_consuming("a == b").unwrap();
    assert!(matches!(Evaluation::new(&ev_env).eval_expr(&eq), Ok(Value::Boolean(true))));
    let ne = expression_all_consuming("a != b").unwrap();
    assert!(matches!(Evaluation::new(&ev_env).eval_expr(&ne), Ok(Value::Boolean(false))));
    let p = pattern_all_consuming("^b").unwrap();
    assert!(Matcher::new(&ev_env).match_pattern(Environment::new(), &p, ev_env.bindings.get("a").unwrap()).is_ok());
}

#[test]
fn strict_equality_across_types_is_false() {
    assert!(matches!(eval("1 == \"1\""), Ok(Value::Boolean(false))));
    assert!(matches!(eval("1 != \"1\""), Ok(Value::Boolean(true))));
    assert!(matches!(eval("[1, {a: 2}] == [1, {a: 2}]"), Ok(Value::Boolean(true))));
}

#[test]
fn keys_and_values_follow_key_order() {
    let r = eval("keys({b: 1, a: 2, c: 3})").ok().unwrap();
    assert!(value_eq(&r, &val("[\"a\", \"b\", \"c\"]")));
    let r = eval("values({b: 1, a: 2, c: 3})").ok().unwrap();
    assert!(value_eq(&r, &val("[2, 1, 3]")));
    assert!(matches!(eval("keys([1])"), Err(EvalError::TypeError(ValueType::Object, _))));
    assert!(matches!(eval("values(1)"), Err(EvalError::TypeError(ValueType::Object, _))));
}

#[test]
fn combining_is_symmetric() {
    let mut a = Environment::new();
    a.bindings.insert("x".to_string(), Value::Integer(1));
    a.bindings.insert("y".to_string(), Value::Integer(2));
    let mut b = Environment::new();
    b.bindings.insert("y".to_string(), Value::Integer(2));
    b.bindings.insert("z".to_string(), Value::Integer(3));
    let ab = a.combine(&b).unwrap();
    let ba = b.combine(&a).unwrap();
    assert_eq!(ab.bindings.keys(), vec!["x".to_string(), "y".to_string(), "z".to_string()]);
    assert_eq!(ab.bindings.keys(), ba.bindings.keys());
    for k in ["x", "y", "z"] {
        assert!(value_eq(ab.bindings.get(k).unwrap(), ba.bindings.get(k).unwrap()));
    }
    let same = a.combine(&Environment::new()).unwrap();
    assert_eq!(same.bindings.keys(), a.bindings.keys());
    let mut c = Environment::new();
    c.bindings.insert("y".to_string(), Value::Integer(5));
    assert!(a.combine(&c).is_none());
    assert!(c.combine(&a).is_none());
}

#[test]
fn matching_only_adds_bindings() {
    let env = Environment::new();
    let mut before = Environment::new();
    before.bindings.insert("k".to_string(), Value::Integer(1));
    let p = pattern_all_consuming("[x, {a: y, ...rest}]").unwrap();
    let r = Matcher::new(&env).match_pattern(before, &p, &val("[1, {a:2, b:3}]")).ok().unwrap();
    assert!(matches!(r.bindings.get("k"), Some(Value::Integer(1))));
    assert_eq!(r.bindings.keys(), vec!["k".to_string(), "rest".to_string(), "x".to_string(), "y".to_string()]);
}

#[test]
fn let_into_empty_session_binds_what_it_reports() {
    let mut state = State::new();
    assert!(state.vars().is_empty());
    let out = state.eval(command_all_consuming("let [b, a] = [1, 2]").unwrap()).ok().unwrap();
    match out {
        ReplOutput::Bindings(n) => {
            let names: Vec<String> = state.vars().into_iter().map(|i| i.name).collect();
            assert_eq!(names, n.bindings.keys());
            assert_eq!(names, vec!["a".to_string(), "b".to_string()]);
        },
        _ => panic!("a let answers with its bindings"),
    }
    state.eval(command_all_consuming(".clearenv").unwrap()).ok().unwrap();
    assert!(state.vars().is_empty());
}

#[test]
fn lambda_free_names_exclude_its_parameters() {
    let e = expression_all_consuming("fn x => x + y").unwrap();
    let names: Vec<String> = e.get_identifiers().into_iter().map(|i| i.name).collect();
    assert_eq!(names, vec!["y".to_string()]);
    let e = expression_all_consuming("fn [a, ^b] => a + c").unwrap();
    let mut names: Vec<String> = e.get_identifiers().into_iter().map(|i| i.name).collect();
    names.sort();
    names.dedup();
    assert_eq!(names, vec!["b".to_string(), "c".to_string()]);
}

#[test]
fn lambda_captures_only_free_names() {
    let mut env = Environment::new();
    env.bindings.insert("y".to_string(), Value::Integer(1));
    env.bindings.insert("z".to_string(), Value::Integer(2));
    let e = expression_all_consuming("fn x => x + y").unwrap();
    match Evaluation::new(&env).eval_expr(&e) {
        Ok(Value::Lambda(captured, _, _)) => {
            assert_eq!(captured.bindings.keys(), vec!["y".to_string()]);
            assert!(matches!(captured.bindings.get("y"), Some(Value::Integer(1))));
        },
        _ => panic!("a lambda evaluates to a lambda value"),
    }
    let empty = Environment::new();
    match Evaluation::new(&empty).eval_expr(&e) {
        Err(EvalError::UnknownIdentifier(id)) => assert_eq!(id.name, "y"),
        _ => panic!("an unbound free name is reported"),
    }
}
