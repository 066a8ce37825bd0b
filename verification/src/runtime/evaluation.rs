//! Evaluating expressions to values.
use vstd::prelude::*;
use vstd::arithmetic::power::pow;
use crate::value_type::ValueType;
use crate::identifier::Identifier;
use crate::literal::Literal;
use crate::syntax::expression::{
    BinaryOperator, UnaryOperator, Expression, ExpressionBody, ArrayItem, ObjectProperty, PropertyKey,
    LogicalExpression, StringTemplate, LambdaApplication, ArrayComprehension, ObjectComprehension,
    ComprehensionSource, MatchExpression, IfElseExpression, SExpr, SExprBody,
    array_items_view, object_props_view, array_item_view, object_property_view, template_parts_view,
    template_part_view, sources_view, source_view, match_cases_view, match_case_view,
};
use crate::value::{Value, ValueMap, LambdaBinding, SValue, values_view, value_eq, smap_get};
use crate::strings::{parse_i64, str_eq, str_byte_len, string_from_chars};
use crate::runtime::env::Environment;
use crate::runtime::matching::{PatternFail, pattern_fail_view, Matcher, match_result_view};
use crate::runtime::semantics::{
    SEvalError, checked_pow_spec, eval_lit, eval_binary, eval_unary, eval_member, member_index,
    eval_call, keys_array, eval, eval_into_array, eval_into_object, eval_template, template_text,
    SAcc, eval_comprehension, eval_comprehension_envs, eval_source, source_values, eval_cases, empty_map,
};
use crate::value::smap_override;

verus! {

/// The number of nested lambda applications an evaluation allows unless
/// it is given another budget.
pub const MAX_DEPTH: u64 = 0xffff_ffff_ffff_ffff;

/// Why an expression has no value.
#[derive(Debug)]
pub enum EvalError {
    KindError(Value),
    TypeError(ValueType, Value),
    CollectionTypeError(Value),
    CastError(ValueType, Value),
    UnknownIdentifier(Identifier),
    InvalidNumber(String),
    MathDivisionByZero,
    KeyNotDefined(Value, Value),
    OutOfBound(usize, usize),
    IntegerOverflow,
    UnknownFunction(Identifier),
    PatternError(Box<PatternFail>),
    PatternExhaustionError(Value),
    /// More nested lambda applications than the evaluation allows.
    RecursionLimit,
}

impl View for EvalError {
    type V = SEvalError;

    open spec fn view(&self) -> SEvalError {
        eval_error_view(self)
    }
}

pub open spec fn eval_error_view(e: &EvalError) -> SEvalError
    decreases e, 0int,
{
        match e {
            EvalError::KindError(v) => SEvalError::KindError(v@),
            EvalError::TypeError(t, v) => SEvalError::TypeError(*t, v@),
            EvalError::CollectionTypeError(v) => SEvalError::CollectionTypeError(v@),
            EvalError::CastError(t, v) => SEvalError::CastError(*t, v@),
            EvalError::UnknownIdentifier(id) => SEvalError::UnknownIdentifier(id@),
            EvalError::InvalidNumber(s) => SEvalError::InvalidNumber(s@),
            EvalError::MathDivisionByZero => SEvalError::MathDivisionByZero,
            EvalError::KeyNotDefined(a, b) => SEvalError::KeyNotDefined(a@, b@),
            EvalError::OutOfBound(a, b) => SEvalError::OutOfBound(*a, *b),
            EvalError::IntegerOverflow => SEvalError::IntegerOverflow,
            EvalError::UnknownFunction(id) => SEvalError::UnknownFunction(id@),
            EvalError::PatternError(f) => SEvalError::PatternError(Box::new(pattern_fail_view(f))),
            EvalError::PatternExhaustionError(v) => SEvalError::PatternExhaustionError(v@),
            EvalError::RecursionLimit => SEvalError::RecursionLimit,
        }
}

/// The model of the outcome of an evaluation.
pub open spec fn value_result_view(r: &Result<Value, EvalError>) -> Result<SValue, SEvalError> {
    match r {
        Ok(v) => Ok(v@),
        Err(e) => Err(e@),
    }
}

spec fn abs_int(x: int) -> int {
    if x < 0 { -x } else { x }
}

proof fn lemma_pow_step(b: int, e: nat)
    ensures
        pow(b, e + 1) == b * pow(b, e),
{
    reveal(pow);
}

proof fn lemma_pow_small_base(b: int, e: nat)
    requires
        -1 <= b <= 1,
    ensures
        -1 <= pow(b, e) <= 1,
    decreases e,
{
    reveal(pow);
    if e > 0 {
        lemma_pow_small_base(b, (e - 1) as nat);
        let x = pow(b, (e - 1) as nat);
        assert(-1 <= b * x <= 1) by (nonlinear_arith)
            requires
                -1 <= b <= 1,
                -1 <= x <= 1,
        ;
    }
}

/// With a base of magnitude at least 2, each further factor at least
/// doubles the magnitude of a power.
proof fn lemma_pow_grows(b: int, e1: nat, e2: nat)
    requires
        b <= -2 || b >= 2,
        e1 < e2,
    ensures
        abs_int(pow(b, e2)) >= 2 * abs_int(pow(b, e1)),
    decreases e2 - e1,
{
    let x = pow(b, (e2 - 1) as nat);
    lemma_pow_step(b, (e2 - 1) as nat);
    assert(abs_int(b * x) >= 2 * abs_int(x)) by (nonlinear_arith)
        requires
            b <= -2 || b >= 2,
    {
        if x < 0 {
            if b < 0 { assert(b * x >= -2 * x); } else { assert(b * x <= 2 * x); }
        } else {
            if b < 0 { assert(b * x <= -2 * x); } else { assert(b * x >= 2 * x); }
        }
    }
    if e1 + 1 < e2 {
        lemma_pow_grows(b, e1, (e2 - 1) as nat);
    }
}

/// A power that does not fit in an `i64` stays out of range as the
/// exponent grows.
proof fn lemma_pow_out_of_range(b: int, e1: nat, e2: nat)
    requires
        e1 <= e2,
        !(i64::MIN <= pow(b, e1) <= i64::MAX),
    ensures
        !(i64::MIN <= pow(b, e2) <= i64::MAX),
{
    if e1 < e2 {
        if -1 <= b <= 1 {
            lemma_pow_small_base(b, e1);
        } else {
            lemma_pow_grows(b, e1, e2);
        }
    }
}

/// The powers of -1, 0 and 1.
proof fn lemma_pow_unit(b: int, e: nat)
    requires
        -1 <= b <= 1,
    ensures
        pow(b, e) == (if b == 1 || e == 0 { 1 } else if b == 0 { 0 } else if e % 2 == 0 { 1 } else { -1 }),
    decreases e,
{
    reveal(pow);
    if e > 0 {
        lemma_pow_unit(b, (e - 1) as nat);
        let x = pow(b, (e - 1) as nat);
        assert(pow(b, e) == b * x);
        if b == -1 {
            assert(b * x == -x);
            assert((e % 2 == 0) == ((e - 1) % 2 != 0));
        } else if b == 0 {
            assert(b * x == 0);
        } else {
            assert(b * x == x);
        }
    }
}

/// `base` raised to `exp`, or `None` when the power does not fit in an
/// `i64` (what `i64::checked_pow` gives).
fn checked_pow(base: i64, exp: u32) -> (r: Option<i64>)
    ensures
        r == checked_pow_spec(base, exp),
{
    if -1 <= base && base <= 1 {
        proof {
            lemma_pow_unit(base as int, exp as nat);
        }
        let p: i64 = if base == 1 || exp == 0 { 1 } else if base == 0 { 0 } else if exp % 2 == 0 { 1 } else { -1 };
        return Some(p);
    }
    let mut acc: i64 = 1;
    let mut i: u32 = 0;
    proof {
        reveal(pow);
    }
    while i < exp
        invariant
            i <= exp,
            acc as int == pow(base as int, i as nat),
        decreases exp - i,
    {
        proof {
            lemma_pow_step(base as int, i as nat);
            assert(acc * base == base * acc) by (nonlinear_arith);
        }
        match acc.checked_mul(base) {
            Some(next) => {
                acc = next;
                i = i + 1;
            },
            None => {
                proof {
                    lemma_pow_out_of_range(base as int, (i + 1) as nat, exp as nat);
                }
                return None;
            },
        }
    }
    Some(acc)
}

/// The position that index `i` selects in a collection of length `len`.
fn member_position(len: usize, i: i64) -> (r: usize)
    ensures
        r == member_index(len, i),
{
    if i < 0 {
        let magnitude: u64 = if i == i64::MIN { 0x8000_0000_0000_0000u64 } else { (-i) as u64 };
        len.wrapping_sub(magnitude as usize)
    } else {
        i as usize
    }
}

fn clone_values(v: &Vec<Value>) -> (r: Vec<Value>)
    ensures
        values_view(&r) == values_view(v),
{
    let mut r: Vec<Value> = Vec::new();
    let mut i: usize = 0;
    while i < v.len()
        invariant
            i <= v.len(),
            r.len() == i,
            forall|j: int| 0 <= j < i ==> r[j]@ == v[j]@,
        decreases v.len() - i,
    {
        r.push(v[i].deep_clone());
        i += 1;
    }
    assert(values_view(&r) =~= values_view(v));
    r
}

/// Evaluates expressions in an environment, with `fuel` nested lambda
/// applications allowed.
pub struct Evaluation<'e> {
    pub env: &'e Environment,
    pub fuel: u64,
}

impl<'e> Evaluation<'e> {
    /// An evaluation in `env`.
    pub fn new(env: &'e Environment) -> (r: Evaluation<'e>)
        ensures
            r.env == env,
            r.fuel == MAX_DEPTH,
    {
        Evaluation { env, fuel: MAX_DEPTH }
    }

    fn eval_lit(&self, literal: &Literal) -> (r: Result<Value, EvalError>)
        ensures
            value_result_view(&r) == eval_lit(literal@),
    {
        match literal {
            Literal::Null => Ok(Value::Null),
            Literal::String(s) => Ok(Value::String(s.clone())),
            Literal::Number(s) => match parse_i64(s.as_str()) {
                Some(i) => Ok(Value::Integer(i)),
                None => Err(EvalError::InvalidNumber(s.clone())),
            },
            Literal::Boolean(b) => Ok(Value::Boolean(*b)),
            Literal::Type(t) => Ok(Value::Type(*t)),
        }
    }

    fn eval_binary(&self, op: &BinaryOperator, left: &Value, right: &Value) -> (r: Result<Value, EvalError>)
        ensures
            value_result_view(&r) == eval_binary(*op, left@, right@),
    {
        match op {
            BinaryOperator::StrictEqual => return Ok(Value::Boolean(value_eq(left, right))),
            BinaryOperator::StrictNotEqual => return Ok(Value::Boolean(!value_eq(left, right))),
            BinaryOperator::In => {
                return match left {
                    Value::String(s) => match right {
                        Value::Object(o) => Ok(Value::Boolean(o.contains_key(s.as_str()))),
                        _ => Err(EvalError::TypeError(ValueType::Object, right.deep_clone())),
                    },
                    _ => Err(EvalError::TypeError(ValueType::String, left.deep_clone())),
                };
            },
            BinaryOperator::Is => {
                return match right {
                    Value::Type(t) => Ok(Value::Boolean(left.get_type() == *t)),
                    _ => Err(EvalError::KindError(right.deep_clone())),
                };
            },
            BinaryOperator::Cast => {
                return match right {
                    Value::Type(t) => match left.convert(*t) {
                        Some(v) => Ok(v),
                        None => Err(EvalError::CastError(*t, left.deep_clone())),
                    },
                    _ => Err(EvalError::KindError(right.deep_clone())),
                };
            },
            _ => {},
        }
        let l: i64 = match left {
            Value::Integer(l) => *l,
            _ => return Err(EvalError::TypeError(ValueType::Integer, left.deep_clone())),
        };
        let r: i64 = match right {
            Value::Integer(r) => *r,
            _ => return Err(EvalError::TypeError(ValueType::Integer, right.deep_clone())),
        };
        let checked = match op {
            BinaryOperator::LessThan => return Ok(Value::Boolean(l < r)),
            BinaryOperator::GreaterThan => return Ok(Value::Boolean(l > r)),
            BinaryOperator::LessThanEqual => return Ok(Value::Boolean(l <= r)),
            BinaryOperator::GreaterThanEqual => return Ok(Value::Boolean(l >= r)),
            BinaryOperator::Plus => l.checked_add(r),
            BinaryOperator::Minus => l.checked_sub(r),
            BinaryOperator::Times => l.checked_mul(r),
            BinaryOperator::Over => {
                if r == 0 {
                    return Err(EvalError::MathDivisionByZero);
                }
                l.checked_div(r)
            },
            BinaryOperator::Mod => l.checked_rem(r),
            _ => checked_pow(l, r as u32),
        };
        match checked {
            Some(x) => Ok(Value::Integer(x)),
            None => Err(EvalError::IntegerOverflow),
        }
    }

    fn eval_unary(&self, op: &UnaryOperator, arg: &Value) -> (r: Result<Value, EvalError>)
        ensures
            value_result_view(&r) == eval_unary(*op, arg@),
    {
        match op {
            UnaryOperator::Minus => match arg {
                Value::Integer(v) => if *v == i64::MIN {
                    Err(EvalError::IntegerOverflow)
                } else {
                    Ok(Value::Integer(-*v))
                },
                _ => Err(EvalError::TypeError(ValueType::Integer, arg.deep_clone())),
            },
            UnaryOperator::Plus => match arg {
                Value::Integer(v) => Ok(Value::Integer(*v)),
                _ => Err(EvalError::TypeError(ValueType::Integer, arg.deep_clone())),
            },
            UnaryOperator::Not => match arg {
                Value::Boolean(b) => Ok(Value::Boolean(!*b)),
                _ => Err(EvalError::TypeError(ValueType::Boolean, arg.deep_clone())),
            },
        }
    }

    fn eval_member(&self, obj: &Value, prop: &Value) -> (r: Result<Value, EvalError>)
        ensures
            value_result_view(&r) == eval_member(obj@, prop@),
    {
        match obj {
            Value::Object(o) => match prop {
                Value::String(p) => match o.get(p.as_str()) {
                    Some(v) => Ok(v.deep_clone()),
                    None => Err(EvalError::KeyNotDefined(obj.deep_clone(), prop.deep_clone())),
                },
                _ => Err(EvalError::TypeError(ValueType::String, prop.deep_clone())),
            },
            Value::Array(a) => match prop {
                Value::Integer(i) => {
                    let index = member_position(a.len(), *i);
                    if index < a.len() {
                        Ok(a[index].deep_clone())
                    } else {
                        Err(EvalError::OutOfBound(a.len(), index))
                    }
                },
                _ => Err(EvalError::TypeError(ValueType::Integer, prop.deep_clone())),
            },
            Value::String(s) => match prop {
                Value::Integer(i) => {
                    let bytes = str_byte_len(s.as_str());
                    let index = member_position(bytes, *i);
                    if index < s.as_str().unicode_len() {
                        let mut one: Vec<char> = Vec::new();
                        one.push(s.as_str().get_char(index));
                        assert(one@ =~= seq![s@[index as int]]);
                        Ok(Value::String(string_from_chars(&one)))
                    } else {
                        Err(EvalError::OutOfBound(bytes, index))
                    }
                },
                _ => Err(EvalError::TypeError(ValueType::Integer, prop.deep_clone())),
            },
            _ => Err(EvalError::CollectionTypeError(obj.deep_clone())),
        }
    }

    fn eval_identifier(&self, id: &Identifier) -> (r: Result<Value, EvalError>)
        ensures
            value_result_view(&r) == (match smap_get(self.env@, id@) {
                Some(v) => Ok(v),
                None => Err(SEvalError::UnknownIdentifier(id@)),
            }),
    {
        match self.env.bindings.get(id.name.as_str()) {
            Some(v) => Ok(v.deep_clone()),
            None => Err(EvalError::UnknownIdentifier(id.deep_clone())),
        }
    }

    fn eval_call(&self, function: &Identifier, argument: &Value) -> (r: Result<Value, EvalError>)
        ensures
            value_result_view(&r) == eval_call(function@, argument@),
    {
        let name = function.name.as_str();
        proof {
            reveal_strlit("length");
            reveal_strlit("keys");
            reveal_strlit("values");
            reveal_strlit("env");
            reveal_strlit("rebind");
            reveal_strlit("type");
            assert("length"@ =~= seq!['l', 'e', 'n', 'g', 't', 'h']);
            assert("keys"@ =~= seq!['k', 'e', 'y', 's']);
            assert("values"@ =~= seq!['v', 'a', 'l', 'u', 'e', 's']);
            assert("env"@ =~= seq!['e', 'n', 'v']);
            assert("rebind"@ =~= seq!['r', 'e', 'b', 'i', 'n', 'd']);
            assert("type"@ =~= seq!['t', 'y', 'p', 'e']);
        }
        if str_eq(name, "length") {
            match argument {
                Value::String(s) => Ok(Value::Integer(str_byte_len(s.as_str()) as i64)),
                Value::Array(a) => Ok(Value::Integer(a.len() as i64)),
                Value::Object(o) => Ok(Value::Integer(o.len() as i64)),
                _ => Err(EvalError::CollectionTypeError(argument.deep_clone())),
            }
        } else if str_eq(name, "keys") {
            match argument {
                Value::Object(o) => {
                    let mut keys: Vec<Value> = Vec::new();
                    let mut i: usize = 0;
                    while i < o.entries.len()
                        invariant
                            i <= o.entries.len(),
                            keys.len() == i,
                            forall|j: int| 0 <= j < i ==> keys[j]@ == SValue::String(o@[j].0),
                        decreases o.entries.len() - i,
                    {
                        keys.push(Value::String(o.entries[i].0.clone()));
                        i += 1;
                    }
                    assert(values_view(&keys) =~= keys_array(o@));
                    Ok(Value::Array(keys))
                },
                _ => Err(EvalError::TypeError(ValueType::Object, argument.deep_clone())),
            }
        } else if str_eq(name, "values") {
            match argument {
                Value::Object(o) => {
                    let mut vals: Vec<Value> = Vec::new();
                    let mut i: usize = 0;
                    while i < o.entries.len()
                        invariant
                            i <= o.entries.len(),
                            vals.len() == i,
                            forall|j: int| 0 <= j < i ==> vals[j]@ == o@[j].1,
                        decreases o.entries.len() - i,
                    {
                        vals.push(o.entries[i].1.deep_clone());
                        i += 1;
                    }
                    assert(values_view(&vals) =~= crate::value::smap_values(o@));
                    Ok(Value::Array(vals))
                },
                _ => Err(EvalError::TypeError(ValueType::Object, argument.deep_clone())),
            }
        } else if str_eq(name, "env") {
            match argument {
                Value::Lambda(env, _, _) => Ok(Value::Object(env.bindings.deep_clone())),
                _ => Err(EvalError::TypeError(ValueType::Lambda, argument.deep_clone())),
            }
        } else if str_eq(name, "rebind") {
            match argument {
                Value::Array(arr) => {
                    if arr.len() < 1 {
                        return Err(EvalError::OutOfBound(1, arr.len()));
                    }
                    assert(values_view(arr)[0] == arr[0]@);
                    match &arr[0] {
                        Value::Lambda(env, pattern, body) => {
                            if arr.len() < 2 {
                                return Err(EvalError::OutOfBound(2, arr.len()));
                            }
                            assert(values_view(arr)[1] == arr[1]@);
                            match &arr[1] {
                                Value::Object(obj) => {
                                    let mut new_env = env.deep_clone();
                                    new_env.replace(obj);
                                    Ok(Value::Lambda(new_env, pattern.deep_clone(), body.deep_clone()))
                                },
                                _ => Err(EvalError::TypeError(ValueType::Object, arr[1].deep_clone())),
                            }
                        },
                        _ => Err(EvalError::TypeError(ValueType::Lambda, arr[0].deep_clone())),
                    }
                },
                _ => Err(EvalError::TypeError(ValueType::Array, argument.deep_clone())),
            }
        } else if str_eq(name, "type") {
            Ok(Value::Type(argument.get_type()))
        } else {
            Err(EvalError::UnknownFunction(function.deep_clone()))
        }
    }
}

/// The model of the outcome of evaluating items into an array.
pub open spec fn values_result_view(r: &Result<Vec<Value>, EvalError>) -> Result<Seq<SValue>, SEvalError> {
    match r {
        Ok(v) => Ok(values_view(v)),
        Err(e) => Err(e@),
    }
}

/// The model of the outcome of evaluating properties into an object.
pub open spec fn map_result_view(r: &Result<ValueMap, EvalError>) -> Result<Seq<(Seq<char>, SValue)>, SEvalError> {
    match r {
        Ok(m) => Ok(m@),
        Err(e) => Err(e@),
    }
}

/// The bindings of each environment, in order.
pub open spec fn envs_view(v: &Vec<Environment>) -> Seq<Seq<(Seq<char>, SValue)>> {
    Seq::new(v.len() as nat, |i: int| v[i]@)
}

/// The model of the outcome of running a comprehension source.
pub open spec fn envs_result_view(r: &Result<Vec<Environment>, EvalError>) -> Result<Seq<Seq<(Seq<char>, SValue)>>, SEvalError> {
    match r {
        Ok(v) => Ok(envs_view(v)),
        Err(e) => Err(e@),
    }
}

/// An expression with the given body; its location does not matter to
/// evaluation.
pub open spec fn unlocated(body: SExprBody) -> SExpr {
    SExpr { body, location: None }
}

impl<'e> Evaluation<'e> {
    /// The value of `expression` in this evaluation's environment.
    pub fn eval_expr(&self, expression: &Expression) -> (r: Result<Value, EvalError>)
        ensures
            value_result_view(&r) == eval(self.fuel as nat, self.env@, expression@),
        decreases self.fuel, expression, 0int, 0int,
    {
        match &expression.body {
            ExpressionBody::Array(items) => self.eval_array(items),
            ExpressionBody::Binary(x) => {
                let l = match self.eval_expr(&x.left) {
                    Ok(v) => v,
                    Err(e) => return Err(e),
                };
                let r = match self.eval_expr(&x.right) {
                    Ok(v) => v,
                    Err(e) => return Err(e),
                };
                self.eval_binary(&x.operator, &l, &r)
            },
            ExpressionBody::Identifier(id) => self.eval_identifier(id),
            ExpressionBody::Literal(l) => self.eval_lit(l),
            ExpressionBody::Logical(x) => self.eval_logic(x),
            ExpressionBody::Member(x) => {
                let obj = match self.eval_expr(&x.object) {
                    Ok(v) => v,
                    Err(e) => return Err(e),
                };
                let prop = match self.eval_expr(&x.property) {
                    Ok(v) => v,
                    Err(e) => return Err(e),
                };
                self.eval_member(&obj, &prop)
            },
            ExpressionBody::Object(props) => self.eval_object(props),
            ExpressionBody::Unary(x) => {
                let v = match self.eval_expr(&x.argument) {
                    Ok(v) => v,
                    Err(e) => return Err(e),
                };
                self.eval_unary(&x.operator, &v)
            },
            ExpressionBody::Call(x) => {
                let v = match self.eval_expr(&x.argument) {
                    Ok(v) => v,
                    Err(e) => return Err(e),
                };
                self.eval_call(&x.function, &v)
            },
            ExpressionBody::Template(t) => self.eval_template(t),
            ExpressionBody::Abstraction(x) => {
                let ids = x.body.get_identifiers();
                let args = x.arguments.get_identifiers();
                match self.env.extract_except(&ids, &args) {
                    Ok(captured) => Ok(Value::Lambda(
                        LambdaBinding { bindings: captured.bindings },
                        x.arguments.deep_clone(),
                        x.body.deep_clone(),
                    )),
                    Err(id) => Err(EvalError::UnknownIdentifier(id)),
                }
            },
            ExpressionBody::Application(app) => self.eval_application(app),
            ExpressionBody::ArrayComp(comp) => self.eval_array_comprehension(comp),
            ExpressionBody::ObjectComp(comp) => self.eval_object_comprehension(comp),
            ExpressionBody::Condition(c) => self.eval_condition(c),
            ExpressionBody::Match(m) => self.eval_match(m),
        }
    }

    fn eval_array(&self, items: &Vec<ArrayItem>) -> (r: Result<Value, EvalError>)
        ensures
            value_result_view(&r) == eval(self.fuel as nat, self.env@, unlocated(SExprBody::Array(array_items_view(items)))),
        decreases self.fuel, items, 1int, 0int,
    {
        let empty: Vec<Value> = Vec::new();
        assert(values_view(&empty) =~= Seq::<SValue>::empty());
        match self.eval_into_array(empty, items) {
            Ok(vs) => Ok(Value::Array(vs)),
            Err(e) => Err(e),
        }
    }

    /// Appends the values of `items` to `target`; spread items contribute
    /// their elements.
    #[verifier::loop_isolation(false)]
    fn eval_into_array(&self, target: Vec<Value>, items: &Vec<ArrayItem>) -> (r: Result<Vec<Value>, EvalError>)
        ensures
            values_result_view(&r) == eval_into_array(self.fuel as nat, self.env@, values_view(&target), array_items_view(items)),
        decreases self.fuel, items, 0int, 0int,
    {
        let mut target = target;
        let ghost all = array_items_view(items);
        let ghost goal = eval_into_array(self.fuel as nat, self.env@, values_view(&target), all);
        let mut i: usize = 0;
        assert(all.skip(0) =~= all);
        while i < items.len()
            invariant
                i <= items.len(),
                all == array_items_view(items),
                goal == eval_into_array(self.fuel as nat, self.env@, values_view(&target), all.skip(i as int)),
            decreases items.len() - i,
        {
            let ghost rest = all.skip(i as int);
            assert(rest[0] == array_item_view(&items[i as int]));
            assert(rest.drop_first() =~= all.skip(i + 1));
            let ghost before = values_view(&target);
            match &items[i] {
                ArrayItem::Single(x) => {
                    let v = match self.eval_expr(x) {
                        Ok(v) => v,
                        Err(e) => return Err(e),
                    };
                    let ghost vv = v@;
                    target.push(v);
                    assert(values_view(&target) =~= before.push(vv));
                },
                ArrayItem::Spread(x) => {
                    let v = match self.eval_expr(x) {
                        Ok(v) => v,
                        Err(e) => return Err(e),
                    };
                    match v {
                        Value::Array(multiples) => {
                            let mut multiples = multiples;
                            let ghost mv = values_view(&multiples);
                            target.append(&mut multiples);
                            assert(values_view(&target) =~= before + mv);
                        },
                        other => return Err(EvalError::TypeError(ValueType::Array, other)),
                    }
                },
            }
            i += 1;
        }
        assert(all.skip(i as int).len() == 0);
        Ok(target)
    }

    fn eval_object(&self, props: &Vec<ObjectProperty>) -> (r: Result<Value, EvalError>)
        ensures
            value_result_view(&r) == eval(self.fuel as nat, self.env@, unlocated(SExprBody::Object(object_props_view(props)))),
        decreases self.fuel, props, 1int, 0int,
    {
        match self.eval_into_object(ValueMap::new(), props) {
            Ok(m) => Ok(Value::Object(m)),
            Err(e) => Err(e),
        }
    }

    /// Adds the entries that `props` describe to `into`.
    #[verifier::loop_isolation(false)]
    fn eval_into_object(&self, into: ValueMap, props: &Vec<ObjectProperty>) -> (r: Result<ValueMap, EvalError>)
        ensures
            map_result_view(&r) == eval_into_object(self.fuel as nat, self.env@, into@, object_props_view(props)),
        decreases self.fuel, props, 0int, 0int,
    {
        let mut into = into;
        let ghost all = object_props_view(props);
        let ghost goal = eval_into_object(self.fuel as nat, self.env@, into@, all);
        let mut i: usize = 0;
        assert(all.skip(0) =~= all);
        while i < props.len()
            invariant
                i <= props.len(),
                all == object_props_view(props),
                goal == eval_into_object(self.fuel as nat, self.env@, into@, all.skip(i as int)),
            decreases props.len() - i,
        {
            let ghost rest = all.skip(i as int);
            assert(rest[0] == object_property_view(&props[i as int]));
            assert(rest.drop_first() =~= all.skip(i + 1));
            match &props[i] {
                ObjectProperty::Single(id) => {
                    let v = match self.eval_identifier(id) {
                        Ok(v) => v,
                        Err(e) => return Err(e),
                    };
                    into.insert(id.name.clone(), v);
                },
                ObjectProperty::Property(p) => {
                    let key: String = match &p.key {
                        PropertyKey::Identifier(id) => id.name.clone(),
                        PropertyKey::Expression(x) => match self.eval_expr(x) {
                            Ok(Value::String(s)) => s,
                            Ok(other) => return Err(EvalError::TypeError(ValueType::String, other)),
                            Err(e) => return Err(e),
                        },
                    };
                    let v = match self.eval_expr(&p.value) {
                        Ok(v) => v,
                        Err(e) => return Err(e),
                    };
                    into.insert(key, v);
                },
                ObjectProperty::Spread(x) => {
                    let v = match self.eval_expr(x) {
                        Ok(v) => v,
                        Err(e) => return Err(e),
                    };
                    match v {
                        Value::Object(m) => {
                            into = into.combine_with_override(&m);
                        },
                        other => return Err(EvalError::TypeError(ValueType::Object, other)),
                    }
                },
            }
            i += 1;
        }
        assert(all.skip(i as int).len() == 0);
        Ok(into)
    }

    fn eval_logic(&self, x: &LogicalExpression) -> (r: Result<Value, EvalError>)
        ensures
            value_result_view(&r) == eval(self.fuel as nat, self.env@, unlocated(SExprBody::Logical(x.operator, Box::new(x.left@), Box::new(x.right@)))),
        decreases self.fuel, x, 0int, 0int,
    {
        let left_bool = match self.eval_expr(&x.left) {
            Ok(Value::Boolean(b)) => b,
            Ok(other) => return Err(EvalError::TypeError(ValueType::Boolean, other)),
            Err(e) => return Err(e),
        };
        if x.operator.short_circuit_on(left_bool) {
            return Ok(Value::Boolean(left_bool));
        }
        match self.eval_expr(&x.right) {
            Ok(Value::Boolean(b)) => Ok(Value::Boolean(b)),
            Ok(other) => Err(EvalError::TypeError(ValueType::Boolean, other)),
            Err(e) => Err(e),
        }
    }

    #[verifier::loop_isolation(false)]
    fn eval_template(&self, template: &StringTemplate) -> (r: Result<Value, EvalError>)
        ensures
            value_result_view(&r) == eval(self.fuel as nat, self.env@, unlocated(SExprBody::Template(template_parts_view(&template.parts), template.suffix@))),
        decreases self.fuel, template, 0int, 0int,
    {
        let ghost all = template_parts_view(&template.parts);
        let ghost goal = eval_template(self.fuel as nat, self.env@, Seq::empty(), all);
        let mut acc = String::new();
        let mut i: usize = 0;
        assert(all.skip(0) =~= all);
        assert(acc@ =~= Seq::<char>::empty());
        while i < template.parts.len()
            invariant
                i <= template.parts.len(),
                all == template_parts_view(&template.parts),
                goal == eval_template(self.fuel as nat, self.env@, acc@, all.skip(i as int)),
            decreases template.parts.len() - i,
        {
            let ghost rest = all.skip(i as int);
            assert(rest[0] == template_part_view(&template.parts[i as int]));
            assert(rest.drop_first() =~= all.skip(i + 1));
            let part = &template.parts[i];
            let v = match self.eval_expr(&part.dynamic_end) {
                Ok(v) => v,
                Err(e) => return Err(e),
            };
            let text = match v.convert(ValueType::String) {
                Some(Value::String(s)) => s,
                _ => return Err(EvalError::TypeError(ValueType::String, v)),
            };
            assert(template_text(v@) == Ok::<Seq<char>, SEvalError>(text@));
            acc.append(part.fixed_start.as_str());
            acc.append(text.as_str());
            i += 1;
        }
        assert(all.skip(i as int).len() == 0);
        acc.append(template.suffix.as_str());
        Ok(Value::String(acc))
    }

    fn eval_application(&self, app: &LambdaApplication) -> (r: Result<Value, EvalError>)
        ensures
            value_result_view(&r) == eval(self.fuel as nat, self.env@, unlocated(SExprBody::Application(Box::new(app.lambda@), Box::new(app.parameter@)))),
        decreases self.fuel, app, 0int, 0int,
    {
        let lambda = match self.eval_expr(&app.lambda) {
            Ok(v) => v,
            Err(e) => return Err(e),
        };
        let param = match self.eval_expr(&app.parameter) {
            Ok(v) => v,
            Err(e) => return Err(e),
        };
        match lambda {
            Value::Lambda(binding, pattern, body) => {
                if self.fuel == 0 {
                    return Err(EvalError::RecursionLimit);
                }
                let env = binding.to_env();
                let matcher = Matcher { outer_env: &env, fuel: self.fuel - 1 };
                match matcher.match_pattern(Environment::new(), &pattern, &param) {
                    Err(f) => Err(EvalError::PatternError(Box::new(f))),
                    Ok(bound) => {
                        let local = env.combine_with_override(&bound);
                        let inner = Evaluation { env: &local, fuel: self.fuel - 1 };
                        inner.eval_expr(&body)
                    },
                }
            },
            other => Err(EvalError::TypeError(ValueType::Lambda, other)),
        }
    }

    fn eval_condition(&self, if_else: &IfElseExpression) -> (r: Result<Value, EvalError>)
        ensures
            value_result_view(&r) == eval(self.fuel as nat, self.env@, unlocated(SExprBody::Condition(
                Box::new(if_else.condition@),
                Box::new(if_else.true_branch@),
                match &if_else.false_branch { Some(f) => Some(Box::new((**f)@)), None => None },
            ))),
        decreases self.fuel, if_else, 0int, 0int,
    {
        let condition = match self.eval_expr(&if_else.condition) {
            Ok(Value::Boolean(b)) => b,
            Ok(other) => return Err(EvalError::TypeError(ValueType::Boolean, other)),
            Err(e) => return Err(e),
        };
        if condition {
            self.eval_expr(&if_else.true_branch)
        } else {
            match &if_else.false_branch {
                Some(f) => self.eval_expr(f),
                None => Ok(Value::Null),
            }
        }
    }

    #[verifier::loop_isolation(false)]
    fn eval_match(&self, match_expr: &MatchExpression) -> (r: Result<Value, EvalError>)
        ensures
            value_result_view(&r) == eval(self.fuel as nat, self.env@, unlocated(SExprBody::Match(
                Box::new(match_expr.subject@),
                match_cases_view(&match_expr.cases),
            ))),
        decreases self.fuel, match_expr, 0int, 0int,
    {
        let subject = match self.eval_expr(&match_expr.subject) {
            Ok(v) => v,
            Err(e) => return Err(e),
        };
        let ghost all = match_cases_view(&match_expr.cases);
        let ghost goal = eval_cases(self.fuel as nat, self.env@, subject@, all);
        let mut k: usize = 0;
        assert(all.skip(0) =~= all);
        while k < match_expr.cases.len()
            invariant
                k <= match_expr.cases.len(),
                all == match_cases_view(&match_expr.cases),
                goal == eval_cases(self.fuel as nat, self.env@, subject@, all.skip(k as int)),
            decreases match_expr.cases.len() - k,
        {
            let ghost rest = all.skip(k as int);
            assert(rest[0] == match_case_view(&match_expr.cases[k as int]));
            assert(rest.drop_first() =~= all.skip(k + 1));
            let case = &match_expr.cases[k];
            let matcher = Matcher { outer_env: self.env, fuel: self.fuel };
            match matcher.match_pattern(Environment::new(), &case.pattern, &subject) {
                Err(_) => {},
                Ok(bound) => {
                    let local = self.env.combine_with_override(&bound);
                    let inner = Evaluation { env: &local, fuel: self.fuel };
                    match &case.guard {
                        Some(g) => match inner.eval_expr(g) {
                            Ok(Value::Boolean(ok)) => {
                                if ok {
                                    return inner.eval_expr(&case.body);
                                }
                            },
                            Ok(other) => return Err(EvalError::TypeError(ValueType::Boolean, other)),
                            Err(e) => return Err(e),
                        },
                        None => return inner.eval_expr(&case.body),
                    }
                },
            }
            k += 1;
        }
        assert(all.skip(k as int).len() == 0);
        Err(EvalError::PatternExhaustionError(subject))
    }

    /// The environments a comprehension source produces: this evaluation's
    /// environment extended by the bindings of each element of the
    /// collection that the pattern matches and the predicate accepts.
    #[verifier::loop_isolation(false)]
    fn eval_comprehension_source(&self, source: &ComprehensionSource) -> (r: Result<Vec<Environment>, EvalError>)
        ensures
            envs_result_view(&r) == eval_source(self.fuel as nat, self.env@, source_view(source)),
        decreases self.fuel, source, 0int, 0int,
    {
        let collection = match self.eval_expr(&source.collection) {
            Ok(v) => v,
            Err(e) => return Err(e),
        };
        let vals = match collection {
            Value::Array(vals) => vals,
            other => return Err(EvalError::TypeError(ValueType::Array, other)),
        };
        let ghost src = source_view(source);
        let ghost all = values_view(&vals);
        let ghost goal = source_values(self.fuel as nat, self.env@, src, all, Seq::empty());
        let mut results: Vec<Environment> = Vec::new();
        let mut k: usize = 0;
        assert(all.skip(0) =~= all);
        assert(envs_view(&results) =~= Seq::<Seq<(Seq<char>, SValue)>>::empty());
        while k < vals.len()
            invariant
                k <= vals.len(),
                src == source_view(source),
                all == values_view(&vals),
                goal == source_values(self.fuel as nat, self.env@, src, all.skip(k as int), envs_view(&results)),
            decreases vals.len() - k,
        {
            let ghost rest = all.skip(k as int);
            assert(rest[0] == vals[k as int]@);
            assert(rest.drop_first() =~= all.skip(k + 1));
            let ghost before = envs_view(&results);
            let matcher = Matcher { outer_env: self.env, fuel: self.fuel };
            match matcher.match_pattern(Environment::new(), &source.pattern, &vals[k]) {
                Err(f) => {
                    if source.strong_pattern {
                        return Err(EvalError::PatternError(Box::new(f)));
                    }
                },
                Ok(bound) => {
                    let local = self.env.combine_with_override(&bound);
                    let keep = match &source.predicate {
                        Some(p) => {
                            let inner = Evaluation { env: &local, fuel: self.fuel };
                            match inner.eval_expr(p) {
                                Ok(Value::Boolean(b)) => b,
                                Ok(other) => return Err(EvalError::TypeError(ValueType::Boolean, other)),
                                Err(e) => return Err(e),
                            }
                        },
                        None => true,
                    };
                    if keep {
                        let ghost lv = local@;
                        results.push(local);
                        assert(envs_view(&results) =~= before.push(lv));
                    }
                },
            }
            k += 1;
        }
        assert(all.skip(k as int).len() == 0);
        Ok(results)
    }

    fn eval_array_comprehension(&self, comp: &ArrayComprehension) -> (r: Result<Value, EvalError>)
        ensures
            value_result_view(&r) == eval(self.fuel as nat, self.env@, unlocated(SExprBody::ArrayComp(
                sources_view(&comp.sources),
                array_items_view(&comp.projection),
            ))),
        decreases self.fuel, comp, comp.sources.len() + 1, 0int,
    {
        let empty: Vec<Value> = Vec::new();
        assert(values_view(&empty) =~= Seq::<SValue>::empty());
        match self.array_comprehension_from(comp, 0, empty) {
            Ok(vs) => Ok(Value::Array(vs)),
            Err(e) => Err(e),
        }
    }

    /// Runs the sources of `comp` from the `i`-th on, depth first, adding the
    /// projection to `acc` for every environment they produce.
    #[verifier::loop_isolation(false)]
    fn array_comprehension_from(&self, comp: &ArrayComprehension, i: usize, acc: Vec<Value>) -> (r: Result<Vec<Value>, EvalError>)
        requires
            i <= comp.sources.len(),
        ensures
            match r {
                Ok(v) => eval_comprehension(self.fuel as nat, self.env@, SExprBody::ArrayComp(sources_view(&comp.sources), array_items_view(&comp.projection)), i as nat, SAcc::Array(values_view(&acc)))
                    == Ok::<SAcc, SEvalError>(SAcc::Array(values_view(&v))),
                Err(e) => eval_comprehension(self.fuel as nat, self.env@, SExprBody::ArrayComp(sources_view(&comp.sources), array_items_view(&comp.projection)), i as nat, SAcc::Array(values_view(&acc)))
                    == Err::<SAcc, SEvalError>(e@),
            },
        decreases self.fuel, comp, comp.sources.len() - i, 0int,
    {
        let ghost b = SExprBody::ArrayComp(sources_view(&comp.sources), array_items_view(&comp.projection));
        if i >= comp.sources.len() {
            return self.eval_into_array(acc, &comp.projection);
        }
        assert(sources_view(&comp.sources)[i as int] == source_view(&comp.sources[i as int]));
        let envs = match self.eval_comprehension_source(&comp.sources[i]) {
            Ok(envs) => envs,
            Err(e) => return Err(e),
        };
        let ghost all = envs_view(&envs);
        let ghost goal = eval_comprehension_envs(self.fuel as nat, all, b, (i + 1) as nat, SAcc::Array(values_view(&acc)));
        let mut acc = acc;
        let mut k: usize = 0;
        assert(all.skip(0) =~= all);
        while k < envs.len()
            invariant
                k <= envs.len(),
                i < comp.sources.len(),
                all == envs_view(&envs),
                b == SExprBody::ArrayComp(sources_view(&comp.sources), array_items_view(&comp.projection)),
                goal == eval_comprehension_envs(self.fuel as nat, all.skip(k as int), b, (i + 1) as nat, SAcc::Array(values_view(&acc))),
            decreases envs.len() - k,
        {
            let ghost rest = all.skip(k as int);
            assert(rest[0] == envs[k as int]@);
            assert(rest.drop_first() =~= all.skip(k + 1));
            let inner = Evaluation { env: &envs[k], fuel: self.fuel };
            acc = match inner.array_comprehension_from(comp, i + 1, acc) {
                Ok(a) => a,
                Err(e) => return Err(e),
            };
            k += 1;
        }
        assert(all.skip(k as int).len() == 0);
        Ok(acc)
    }

    fn eval_object_comprehension(&self, comp: &ObjectComprehension) -> (r: Result<Value, EvalError>)
        ensures
            value_result_view(&r) == eval(self.fuel as nat, self.env@, unlocated(SExprBody::ObjectComp(
                sources_view(&comp.sources),
                object_props_view(&comp.projection),
            ))),
        decreases self.fuel, comp, comp.sources.len() + 1, 0int,
    {
        match self.object_comprehension_from(comp, 0, ValueMap::new()) {
            Ok(m) => Ok(Value::Object(m)),
            Err(e) => Err(e),
        }
    }

    /// Runs the sources of `comp` from the `i`-th on, depth first, adding the
    /// projection to `acc` for every environment they produce.
    #[verifier::loop_isolation(false)]
    fn object_comprehension_from(&self, comp: &ObjectComprehension, i: usize, acc: ValueMap) -> (r: Result<ValueMap, EvalError>)
        requires
            i <= comp.sources.len(),
        ensures
            match r {
                Ok(m) => eval_comprehension(self.fuel as nat, self.env@, SExprBody::ObjectComp(sources_view(&comp.sources), object_props_view(&comp.projection)), i as nat, SAcc::Object(acc@))
                    == Ok::<SAcc, SEvalError>(SAcc::Object(m@)),
                Err(e) => eval_comprehension(self.fuel as nat, self.env@, SExprBody::ObjectComp(sources_view(&comp.sources), object_props_view(&comp.projection)), i as nat, SAcc::Object(acc@))
                    == Err::<SAcc, SEvalError>(e@),
            },
        decreases self.fuel, comp, comp.sources.len() - i, 0int,
    {
        let ghost b = SExprBody::ObjectComp(sources_view(&comp.sources), object_props_view(&comp.projection));
        if i >= comp.sources.len() {
            return self.eval_into_object(acc, &comp.projection);
        }
        assert(sources_view(&comp.sources)[i as int] == source_view(&comp.sources[i as int]));
        let envs = match self.eval_comprehension_source(&comp.sources[i]) {
            Ok(envs) => envs,
            Err(e) => return Err(e),
        };
        let ghost all = envs_view(&envs);
        let ghost goal = eval_comprehension_envs(self.fuel as nat, all, b, (i + 1) as nat, SAcc::Object(acc@));
        let mut acc = acc;
        let mut k: usize = 0;
        assert(all.skip(0) =~= all);
        while k < envs.len()
            invariant
                k <= envs.len(),
                i < comp.sources.len(),
                all == envs_view(&envs),
                b == SExprBody::ObjectComp(sources_view(&comp.sources), object_props_view(&comp.projection)),
                goal == eval_comprehension_envs(self.fuel as nat, all.skip(k as int), b, (i + 1) as nat, SAcc::Object(acc@)),
            decreases envs.len() - k,
        {
            let ghost rest = all.skip(k as int);
            assert(rest[0] == envs[k as int]@);
            assert(rest.drop_first() =~= all.skip(k + 1));
            let inner = Evaluation { env: &envs[k], fuel: self.fuel };
            acc = match inner.object_comprehension_from(comp, i + 1, acc) {
                Ok(a) => a,
                Err(e) => return Err(e),
            };
            k += 1;
        }
        assert(all.skip(k as int).len() == 0);
        Ok(acc)
    }
}

} // verus!
