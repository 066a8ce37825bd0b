//! The meaning of expressions and patterns, as mathematical functions over
//! the models of syntax trees and values.
//!
//! Evaluation is given a budget (`fuel`) of nested lambda applications;
//! every other step works on a strictly smaller piece of the tree, so the
//! definitions terminate.
use vstd::prelude::*;
use crate::value_type::{ValueType, value_type_name};
use crate::literal::SLiteral;
use crate::syntax::location::Location;
use crate::syntax::expression::{SExpr, SExprBody, SArrayItem, SObjectProperty, SPropertyKey, STemplatePart, SSource, SMatchCase, BinaryOperator, LogicalOperator, UnaryOperator};
use crate::syntax::pattern::{SPattern, SPatternBody, SRest, SObjectPropertyPattern};
use crate::syntax::identifiers::{expr_ids, pattern_ids};
use crate::value::{SValue, smap_get, smap_insert, smap_has, smap_keys, smap_values, smap_override, smap_replace, smap_extract, svalue_type, convert_spec, same_value};
use crate::strings::{parse_i64_spec, utf8_len};

verus! {

pub enum SEvalError {
    KindError(SValue),
    TypeError(ValueType, SValue),
    CollectionTypeError(SValue),
    CastError(ValueType, SValue),
    UnknownIdentifier(Seq<char>),
    InvalidNumber(Seq<char>),
    MathDivisionByZero,
    KeyNotDefined(SValue, SValue),
    OutOfBound(usize, usize),
    IntegerOverflow,
    UnknownFunction(Seq<char>),
    PatternError(Box<SPatternFail>),
    PatternExhaustionError(SValue),
    RecursionLimit,
}

pub struct SPatternFail {
    pub reason: SPatternFailReason,
    pub location: Option<Location>,
}

pub enum SPatternFailReason {
    IdentifierConflict { identifier: Seq<char>, expected: SValue, actual: SValue },
    ArrayLengthMismatch { expected: usize, actual: usize },
    ArrayMinimumLengthMismatch { expected: usize, actual: usize },
    TypeMismatch { expected: ValueType, actual: SValue },
    ObjectLengthMismatch { expected: usize, actual: usize },
    ObjectKeyMismatch { expected: Seq<char>, actual: Seq<(Seq<char>, SValue)> },
    EvalError(Box<SEvalError>),
    LiteralMismatch,
    ExpressionMissmatch { expected: SValue, actual: SValue },
}

pub open spec fn fail_at(reason: SPatternFailReason, location: Option<Location>) -> SPatternFail {
    SPatternFail { reason, location }
}

// ------------------------------ operators ----------------------------------

/// `base` to the power `exp` when that fits in an `i64`.
pub open spec fn checked_pow_spec(base: i64, exp: u32) -> Option<i64> {
    let p = vstd::arithmetic::power::pow(base as int, exp as nat);
    if i64::MIN <= p <= i64::MAX { Some(p as i64) } else { None }
}

pub open spec fn int_op(op: BinaryOperator, l: i64, r: i64) -> Result<SValue, SEvalError> {
    match op {
        BinaryOperator::LessThan => Ok(SValue::Boolean(l < r)),
        BinaryOperator::GreaterThan => Ok(SValue::Boolean(l > r)),
        BinaryOperator::LessThanEqual => Ok(SValue::Boolean(l <= r)),
        BinaryOperator::GreaterThanEqual => Ok(SValue::Boolean(l >= r)),
        BinaryOperator::Plus => match l.checked_add(r) {
            Some(x) => Ok(SValue::Integer(x)),
            None => Err(SEvalError::IntegerOverflow),
        },
        BinaryOperator::Minus => match l.checked_sub(r) {
            Some(x) => Ok(SValue::Integer(x)),
            None => Err(SEvalError::IntegerOverflow),
        },
        BinaryOperator::Times => match l.checked_mul(r) {
            Some(x) => Ok(SValue::Integer(x)),
            None => Err(SEvalError::IntegerOverflow),
        },
        BinaryOperator::Over => if r == 0 {
            Err(SEvalError::MathDivisionByZero)
        } else {
            match l.checked_div(r) {
                Some(x) => Ok(SValue::Integer(x)),
                None => Err(SEvalError::IntegerOverflow),
            }
        },
        BinaryOperator::Mod => match l.checked_rem(r) {
            Some(x) => Ok(SValue::Integer(x)),
            None => Err(SEvalError::IntegerOverflow),
        },
        _ => match checked_pow_spec(l, r as u32) {
            Some(x) => Ok(SValue::Integer(x)),
            None => Err(SEvalError::IntegerOverflow),
        },
    }
}

/// The value of a binary operator applied to two values.
pub open spec fn eval_binary(op: BinaryOperator, left: SValue, right: SValue) -> Result<SValue, SEvalError> {
    match op {
        BinaryOperator::StrictEqual => Ok(SValue::Boolean(same_value(left, right))),
        BinaryOperator::StrictNotEqual => Ok(SValue::Boolean(!same_value(left, right))),
        BinaryOperator::In => match left {
            SValue::String(s) => match right {
                SValue::Object(o) => Ok(SValue::Boolean(smap_has(o, s))),
                _ => Err(SEvalError::TypeError(ValueType::Object, right)),
            },
            _ => Err(SEvalError::TypeError(ValueType::String, left)),
        },
        BinaryOperator::Is => match right {
            SValue::Type(t) => Ok(SValue::Boolean(svalue_type(left) == t)),
            _ => Err(SEvalError::KindError(right)),
        },
        BinaryOperator::Cast => match right {
            SValue::Type(t) => match convert_spec(left, t) {
                Some(v) => Ok(v),
                None => Err(SEvalError::CastError(t, left)),
            },
            _ => Err(SEvalError::KindError(right)),
        },
        _ => match left {
            SValue::Integer(l) => match right {
                SValue::Integer(r) => int_op(op, l, r),
                _ => Err(SEvalError::TypeError(ValueType::Integer, right)),
            },
            _ => Err(SEvalError::TypeError(ValueType::Integer, left)),
        },
    }
}

/// The value of a unary operator applied to a value. Negating the least
/// integer overflows.
pub open spec fn eval_unary(op: UnaryOperator, arg: SValue) -> Result<SValue, SEvalError> {
    match op {
        UnaryOperator::Minus => match arg {
            SValue::Integer(v) => if v == i64::MIN {
                Err(SEvalError::IntegerOverflow)
            } else {
                Ok(SValue::Integer((-v) as i64))
            },
            _ => Err(SEvalError::TypeError(ValueType::Integer, arg)),
        },
        UnaryOperator::Plus => match arg {
            SValue::Integer(v) => Ok(SValue::Integer(v)),
            _ => Err(SEvalError::TypeError(ValueType::Integer, arg)),
        },
        UnaryOperator::Not => match arg {
            SValue::Boolean(b) => Ok(SValue::Boolean(!b)),
            _ => Err(SEvalError::TypeError(ValueType::Boolean, arg)),
        },
    }
}

/// The value of a literal.
pub open spec fn eval_lit(l: SLiteral) -> Result<SValue, SEvalError> {
    match l {
        SLiteral::Null => Ok(SValue::Null),
        SLiteral::String(s) => Ok(SValue::String(s)),
        SLiteral::Number(s) => match parse_i64_spec(s) {
            Some(i) => Ok(SValue::Integer(i)),
            None => Err(SEvalError::InvalidNumber(s)),
        },
        SLiteral::Boolean(b) => Ok(SValue::Boolean(b)),
        SLiteral::Type(t) => Ok(SValue::Type(t)),
    }
}

/// The magnitude of an integer, as an unsigned number.
pub open spec fn unsigned_abs(i: i64) -> u64 {
    if i < 0 { (-(i as int)) as u64 } else { i as u64 }
}

/// The position an integer index selects in a collection of length `len`:
/// negative indices count from the end, wrapping around below zero as
/// unsigned subtraction does without overflow checks.
pub open spec fn member_index(len: usize, i: i64) -> usize {
    if i < 0 {
        len.wrapping_sub(unsigned_abs(i) as usize)
    } else {
        i as usize
    }
}

/// The value of `obj[prop]`.
pub open spec fn eval_member(obj: SValue, prop: SValue) -> Result<SValue, SEvalError> {
    match obj {
        SValue::Object(o) => match prop {
            SValue::String(p) => match smap_get(o, p) {
                Some(v) => Ok(v),
                None => Err(SEvalError::KeyNotDefined(obj, prop)),
            },
            _ => Err(SEvalError::TypeError(ValueType::String, prop)),
        },
        SValue::Array(a) => match prop {
            SValue::Integer(i) => {
                let index = member_index(a.len() as usize, i);
                if index < a.len() {
                    Ok(a[index as int])
                } else {
                    Err(SEvalError::OutOfBound(a.len() as usize, index))
                }
            },
            _ => Err(SEvalError::TypeError(ValueType::Integer, prop)),
        },
        SValue::String(s) => match prop {
            SValue::Integer(i) => {
                let index = member_index(utf8_len(s), i);
                if index < s.len() {
                    Ok(SValue::String(seq![s[index as int]]))
                } else {
                    Err(SEvalError::OutOfBound(utf8_len(s), index))
                }
            },
            _ => Err(SEvalError::TypeError(ValueType::Integer, prop)),
        },
        _ => Err(SEvalError::CollectionTypeError(obj)),
    }
}

pub open spec fn keys_array(o: Seq<(Seq<char>, SValue)>) -> Seq<SValue> {
    Seq::new(o.len(), |i: int| SValue::String(o[i].0))
}

/// The value of a call of a built-in function.
pub open spec fn eval_call(function: Seq<char>, arg: SValue) -> Result<SValue, SEvalError> {
    if function == seq!['l', 'e', 'n', 'g', 't', 'h'] {
        match arg {
            SValue::String(s) => Ok(SValue::Integer(utf8_len(s) as i64)),
            SValue::Array(a) => Ok(SValue::Integer(a.len() as i64)),
            SValue::Object(o) => Ok(SValue::Integer(o.len() as i64)),
            _ => Err(SEvalError::CollectionTypeError(arg)),
        }
    } else if function == seq!['k', 'e', 'y', 's'] {
        match arg {
            SValue::Object(o) => Ok(SValue::Array(keys_array(o))),
            _ => Err(SEvalError::TypeError(ValueType::Object, arg)),
        }
    } else if function == seq!['v', 'a', 'l', 'u', 'e', 's'] {
        match arg {
            SValue::Object(o) => Ok(SValue::Array(smap_values(o))),
            _ => Err(SEvalError::TypeError(ValueType::Object, arg)),
        }
    } else if function == seq!['e', 'n', 'v'] {
        match arg {
            SValue::Lambda(env, _, _) => Ok(SValue::Object(env)),
            _ => Err(SEvalError::TypeError(ValueType::Lambda, arg)),
        }
    } else if function == seq!['r', 'e', 'b', 'i', 'n', 'd'] {
        match arg {
            SValue::Array(arr) => if arr.len() < 1 {
                Err(SEvalError::OutOfBound(1, arr.len() as usize))
            } else {
                match arr[0] {
                    SValue::Lambda(env, pattern, body) => if arr.len() < 2 {
                        Err(SEvalError::OutOfBound(2, arr.len() as usize))
                    } else {
                        match arr[1] {
                            SValue::Object(obj) => Ok(SValue::Lambda(smap_replace(env, obj), pattern, body)),
                            _ => Err(SEvalError::TypeError(ValueType::Object, arr[1])),
                        }
                    },
                    _ => Err(SEvalError::TypeError(ValueType::Lambda, arr[0])),
                }
            },
            _ => Err(SEvalError::TypeError(ValueType::Array, arg)),
        }
    } else if function == seq!['t', 'y', 'p', 'e'] {
        Ok(SValue::Type(svalue_type(arg)))
    } else {
        Err(SEvalError::UnknownFunction(function))
    }
}

/// The string a template inserts for a value: its conversion to `String`.
pub open spec fn template_text(v: SValue) -> Result<Seq<char>, SEvalError> {
    match convert_spec(v, ValueType::String) {
        Some(SValue::String(s)) => Ok(s),
        _ => Err(SEvalError::TypeError(ValueType::String, v)),
    }
}

// ------------------------------- matching ----------------------------------

/// Binds `name` to `value` in `slf`, unless it is bound there to another value.
pub open spec fn match_identifier(slf: Seq<(Seq<char>, SValue)>, name: Seq<char>, value: SValue) -> Result<Seq<(Seq<char>, SValue)>, SPatternFailReason> {
    match smap_get(slf, name) {
        Some(old) => if same_value(value, old) {
            Ok(slf)
        } else {
            Err(SPatternFailReason::IdentifierConflict { identifier: name, expected: old, actual: value })
        },
        None => Ok(smap_insert(slf, name, value)),
    }
}

/// Whether a literal pattern matches a value.
pub open spec fn literal_matches(l: SLiteral, v: SValue) -> bool {
    match (l, v) {
        (SLiteral::Null, SValue::Null) => true,
        (SLiteral::String(a), SValue::String(b)) => a == b,
        (SLiteral::Number(n), SValue::Integer(i)) => parse_i64_spec(n) == Some(i),
        (SLiteral::Boolean(a), SValue::Boolean(b)) => a == b,
        (SLiteral::Type(a), SValue::Type(b)) => a == b,
        _ => false,
    }
}

/// The index of the entry for `k` in `m`, or `m.len()`.
pub open spec fn smap_index(m: Seq<(Seq<char>, SValue)>, k: Seq<char>) -> nat
    decreases m.len(),
{
    if m.len() == 0 {
        0
    } else if m[0].0 == k {
        0
    } else {
        1 + smap_index(m.drop_first(), k)
    }
}

/// The entries of `m` not marked in `used`, order kept.
pub open spec fn unused_entries(m: Seq<(Seq<char>, SValue)>, used: Seq<bool>) -> Seq<(Seq<char>, SValue)>
    decreases m.len(),
{
    if m.len() == 0 {
        m
    } else if used.len() > 0 && used[0] {
        unused_entries(m.drop_first(), used.drop_first())
    } else {
        seq![m[0]] + unused_entries(m.drop_first(), used.drop_first())
    }
}

pub open spec fn empty_map() -> Seq<(Seq<char>, SValue)> {
    Seq::empty()
}

/// Matches pattern `p` against value `v`, extending the bindings `slf`.
/// Expressions inside the pattern are evaluated in `outer`.
pub open spec fn match_pattern(
    fuel: nat,
    outer: Seq<(Seq<char>, SValue)>,
    slf: Seq<(Seq<char>, SValue)>,
    p: SPattern,
    v: SValue,
) -> Result<Seq<(Seq<char>, SValue)>, SPatternFail>
    decreases fuel, p, 1int, 0int,
{
    match p.body {
        SPatternBody::Discard => Ok(slf),
        SPatternBody::Capture(name, inner) => match match_pattern(fuel, outer, slf, *inner, v) {
            Ok(s) => match match_identifier(s, name, v) {
                Ok(s2) => Ok(s2),
                Err(r) => Err(fail_at(r, p.location)),
            },
            Err(e) => Err(e),
        },
        SPatternBody::Identifier(name) => match match_identifier(slf, name, v) {
            Ok(s) => Ok(s),
            Err(r) => Err(fail_at(r, p.location)),
        },
        SPatternBody::TypedDiscard(t) => if t == svalue_type(v) {
            Ok(slf)
        } else {
            Err(fail_at(SPatternFailReason::TypeMismatch { expected: t, actual: v }, p.location))
        },
        SPatternBody::TypedIdentifier(name, t) => if t != svalue_type(v) {
            Err(fail_at(SPatternFailReason::TypeMismatch { expected: t, actual: v }, p.location))
        } else {
            match match_identifier(slf, name, v) {
                Ok(s) => Ok(s),
                Err(r) => Err(fail_at(r, p.location)),
            }
        },
        SPatternBody::Object(props, rest) => match v {
            SValue::Object(o) => if rest is Exact && o.len() != props.len() {
                Err(fail_at(SPatternFailReason::ObjectLengthMismatch { expected: props.len() as usize, actual: o.len() as usize }, p.location))
            } else {
                match_object(fuel, outer, slf, p, o, 0, Seq::new(o.len(), |i: int| false))
            },
            _ => Err(fail_at(SPatternFailReason::TypeMismatch { expected: ValueType::Object, actual: v }, p.location)),
        },
        SPatternBody::Array(items, rest) => match v {
            SValue::Array(a) => if rest is Exact && a.len() != items.len() {
                Err(fail_at(SPatternFailReason::ArrayLengthMismatch { expected: items.len() as usize, actual: a.len() as usize }, p.location))
            } else if a.len() < items.len() {
                Err(fail_at(SPatternFailReason::ArrayMinimumLengthMismatch { expected: items.len() as usize, actual: a.len() as usize }, p.location))
            } else {
                match_array(fuel, outer, slf, p, a, 0)
            },
            _ => Err(fail_at(SPatternFailReason::TypeMismatch { expected: ValueType::Array, actual: v }, p.location)),
        },
        SPatternBody::Literal(l) => if literal_matches(l, v) {
            Ok(slf)
        } else {
            Err(fail_at(SPatternFailReason::LiteralMismatch, p.location))
        },
        SPatternBody::PinnedExpression(e) => match eval(fuel, outer, *e) {
            Err(err) => Err(fail_at(SPatternFailReason::EvalError(Box::new(err)), p.location)),
            Ok(expected) => if same_value(expected, v) {
                Ok(slf)
            } else {
                Err(fail_at(SPatternFailReason::ExpressionMissmatch { expected, actual: v }, p.location))
            },
        },
    }
}

/// The key an object property pattern names and, for computed keys, the
/// evaluation of the key (in `outer`).
pub open spec fn prop_key(fuel: nat, outer: Seq<(Seq<char>, SValue)>, key: SPropertyKey, location: Option<Location>) -> Result<Seq<char>, SPatternFail>
    decreases fuel, key, 1int, 0int,
{
    match key {
        SPropertyKey::Identifier(k) => Ok(k),
        SPropertyKey::Expression(e) => match eval(fuel, outer, *e) {
            Ok(SValue::String(k)) => Ok(k),
            Ok(other) => Err(fail_at(SPatternFailReason::TypeMismatch { expected: ValueType::String, actual: other }, location)),
            Err(err) => Err(fail_at(SPatternFailReason::EvalError(Box::new(err)), location)),
        },
    }
}

/// The key a property of an object pattern names.
pub open spec fn prop_pattern_key(fuel: nat, outer: Seq<(Seq<char>, SValue)>, prop: SObjectPropertyPattern, location: Option<Location>) -> Result<Seq<char>, SPatternFail>
    decreases fuel, prop, 2int, 0int,
{
    match prop {
        SObjectPropertyPattern::Single(id) => Ok(id),
        SObjectPropertyPattern::Match(key, _) => prop_key(fuel, outer, key, location),
    }
}

/// Matches the value found under a property's key against what the
/// property of an object pattern expects of it.
pub open spec fn match_property(fuel: nat, outer: Seq<(Seq<char>, SValue)>, slf: Seq<(Seq<char>, SValue)>, prop: SObjectPropertyPattern, value: SValue) -> Result<Seq<(Seq<char>, SValue)>, SPatternFail>
    decreases fuel, prop, 2int, 0int,
{
    match prop {
        SObjectPropertyPattern::Single(id) => match match_identifier(slf, id, value) {
            Ok(s) => Ok(s),
            Err(r) => Err(fail_at(r, None)),
        },
        SObjectPropertyPattern::Match(_, sub) => match_pattern(fuel, outer, slf, sub, value),
    }
}

/// Matches the properties of object pattern `p` from the `k`-th on against
/// object `o`; `used` marks the entries of `o` already matched.
pub open spec fn match_object(
    fuel: nat,
    outer: Seq<(Seq<char>, SValue)>,
    slf: Seq<(Seq<char>, SValue)>,
    p: SPattern,
    o: Seq<(Seq<char>, SValue)>,
    k: nat,
    used: Seq<bool>,
) -> Result<Seq<(Seq<char>, SValue)>, SPatternFail>
    decreases fuel, p, 0int, (match p.body { SPatternBody::Object(props, _) => props.len(), _ => 0 }) - k,
{
    match p.body {
        SPatternBody::Object(props, rest) => if k >= props.len() {
            match rest {
                SRest::Collect(q) => match_pattern(fuel, outer, slf, *q, SValue::Object(unused_entries(o, used))),
                _ => Ok(slf),
            }
        } else {
            match prop_pattern_key(fuel, outer, props[k as int], p.location) {
                Err(e) => Err(e),
                Ok(key) => {
                    let i = smap_index(o, key);
                    if i >= o.len() || used[i as int] {
                        Err(fail_at(SPatternFailReason::ObjectKeyMismatch { expected: key, actual: o }, p.location))
                    } else {
                        match match_property(fuel, outer, slf, props[k as int], o[i as int].1) {
                            Ok(s) => match_object(fuel, outer, s, p, o, k + 1, used.update(i as int, true)),
                            Err(e) => Err(e),
                        }
                    }
                },
            }
        },
        _ => Ok(slf),
    }
}

/// Matches the items of array pattern `p` from the `k`-th on against array `a`.
pub open spec fn match_array(
    fuel: nat,
    outer: Seq<(Seq<char>, SValue)>,
    slf: Seq<(Seq<char>, SValue)>,
    p: SPattern,
    a: Seq<SValue>,
    k: nat,
) -> Result<Seq<(Seq<char>, SValue)>, SPatternFail>
    decreases fuel, p, 0int, (match p.body { SPatternBody::Array(items, _) => items.len(), _ => 0 }) - k,
{
    match p.body {
        SPatternBody::Array(items, rest) => if k >= items.len() {
            match rest {
                SRest::Collect(q) => match_pattern(fuel, outer, slf, *q, SValue::Array(a.skip(items.len() as int))),
                _ => Ok(slf),
            }
        } else {
            match match_pattern(fuel, outer, slf, items[k as int], a[k as int]) {
                Ok(s) => match_array(fuel, outer, s, p, a, k + 1),
                Err(e) => Err(e),
            }
        },
        _ => Ok(slf),
    }
}

// ------------------------------- evaluation --------------------------------

/// The value of expression `e` in environment `env`, with `fuel` nested
/// lambda applications allowed.
pub open spec fn eval(fuel: nat, env: Seq<(Seq<char>, SValue)>, e: SExpr) -> Result<SValue, SEvalError>
    decreases fuel, e, 0int, 0int,
{
    match e.body {
        SExprBody::Array(items) => match eval_into_array(fuel, env, Seq::empty(), items) {
            Ok(vs) => Ok(SValue::Array(vs)),
            Err(err) => Err(err),
        },
        SExprBody::Binary(op, l, r) => match eval(fuel, env, *l) {
            Ok(lv) => match eval(fuel, env, *r) {
                Ok(rv) => eval_binary(op, lv, rv),
                Err(err) => Err(err),
            },
            Err(err) => Err(err),
        },
        SExprBody::Identifier(id) => match smap_get(env, id) {
            Some(v) => Ok(v),
            None => Err(SEvalError::UnknownIdentifier(id)),
        },
        SExprBody::Literal(l) => eval_lit(l),
        SExprBody::Logical(op, l, r) => match eval(fuel, env, *l) {
            Ok(SValue::Boolean(lb)) => if (match op { LogicalOperator::Or => lb, LogicalOperator::And => !lb }) {
                Ok(SValue::Boolean(lb))
            } else {
                match eval(fuel, env, *r) {
                    Ok(SValue::Boolean(rb)) => Ok(SValue::Boolean(rb)),
                    Ok(other) => Err(SEvalError::TypeError(ValueType::Boolean, other)),
                    Err(err) => Err(err),
                }
            },
            Ok(other) => Err(SEvalError::TypeError(ValueType::Boolean, other)),
            Err(err) => Err(err),
        },
        SExprBody::Member(o, p) => match eval(fuel, env, *o) {
            Ok(ov) => match eval(fuel, env, *p) {
                Ok(pv) => eval_member(ov, pv),
                Err(err) => Err(err),
            },
            Err(err) => Err(err),
        },
        SExprBody::Object(props) => match eval_into_object(fuel, env, Seq::empty(), props) {
            Ok(m) => Ok(SValue::Object(m)),
            Err(err) => Err(err),
        },
        SExprBody::Unary(op, a) => match eval(fuel, env, *a) {
            Ok(v) => eval_unary(op, v),
            Err(err) => Err(err),
        },
        SExprBody::Call(f, a) => match eval(fuel, env, *a) {
            Ok(v) => eval_call(f, v),
            Err(err) => Err(err),
        },
        SExprBody::Template(parts, suffix) => match eval_template(fuel, env, Seq::empty(), parts) {
            Ok(s) => Ok(SValue::String(s + suffix)),
            Err(err) => Err(err),
        },
        SExprBody::Abstraction(args, body) => match smap_extract(env, expr_ids(*body), pattern_ids(*args), Seq::empty()) {
            Ok(captured) => Ok(SValue::Lambda(captured, *args, *body)),
            Err(id) => Err(SEvalError::UnknownIdentifier(id)),
        },
        SExprBody::Application(l, p) => match eval(fuel, env, *l) {
            Ok(lv) => match eval(fuel, env, *p) {
                Ok(pv) => match lv {
                    SValue::Lambda(captured, pattern, body) => if fuel == 0 {
                        Err(SEvalError::RecursionLimit)
                    } else {
                        match match_pattern((fuel - 1) as nat, captured, empty_map(), pattern, pv) {
                            Err(f) => Err(SEvalError::PatternError(Box::new(f))),
                            Ok(bound) => eval((fuel - 1) as nat, smap_override(captured, bound), body),
                        }
                    },
                    _ => Err(SEvalError::TypeError(ValueType::Lambda, lv)),
                },
                Err(err) => Err(err),
            },
            Err(err) => Err(err),
        },
        SExprBody::ArrayComp(..) => match eval_comprehension(fuel, env, e.body, 0, SAcc::Array(Seq::empty())) {
            Ok(SAcc::Array(vs)) => Ok(SValue::Array(vs)),
            Ok(SAcc::Object(m)) => Ok(SValue::Object(m)),
            Err(err) => Err(err),
        },
        SExprBody::ObjectComp(..) => match eval_comprehension(fuel, env, e.body, 0, SAcc::Object(Seq::empty())) {
            Ok(SAcc::Array(vs)) => Ok(SValue::Array(vs)),
            Ok(SAcc::Object(m)) => Ok(SValue::Object(m)),
            Err(err) => Err(err),
        },
        SExprBody::Condition(c, t, f) => match eval(fuel, env, *c) {
            Ok(SValue::Boolean(b)) => if b {
                eval(fuel, env, *t)
            } else {
                match f {
                    Some(x) => eval(fuel, env, *x),
                    None => Ok(SValue::Null),
                }
            },
            Ok(other) => Err(SEvalError::TypeError(ValueType::Boolean, other)),
            Err(err) => Err(err),
        },
        SExprBody::Match(subject, cases) => match eval(fuel, env, *subject) {
            Ok(sv) => eval_cases(fuel, env, sv, cases),
            Err(err) => Err(err),
        },
    }
}

/// Appends the values of array items to `acc` (spread items contribute
/// their elements).
pub open spec fn eval_into_array(fuel: nat, env: Seq<(Seq<char>, SValue)>, acc: Seq<SValue>, items: Seq<SArrayItem>) -> Result<Seq<SValue>, SEvalError>
    decreases fuel, items, 0int, 0int,
{
    if items.len() == 0 {
        Ok(acc)
    } else {
        let next = match items[0] {
            SArrayItem::Single(x) => match eval(fuel, env, x) {
                Ok(v) => Ok(acc.push(v)),
                Err(err) => Err(err),
            },
            SArrayItem::Spread(x) => match eval(fuel, env, x) {
                Ok(SValue::Array(vs)) => Ok(acc + vs),
                Ok(other) => Err(SEvalError::TypeError(ValueType::Array, other)),
                Err(err) => Err(err),
            },
        };
        match next {
            Ok(a) => eval_into_array(fuel, env, a, items.drop_first()),
            Err(err) => Err(err),
        }
    }
}

/// Inserts every entry of `entries` into `acc`, in order.
pub open spec fn insert_all(acc: Seq<(Seq<char>, SValue)>, entries: Seq<(Seq<char>, SValue)>) -> Seq<(Seq<char>, SValue)> {
    smap_override(acc, entries)
}

/// Adds the entries of object properties to `acc`.
pub open spec fn eval_into_object(fuel: nat, env: Seq<(Seq<char>, SValue)>, acc: Seq<(Seq<char>, SValue)>, props: Seq<SObjectProperty>) -> Result<Seq<(Seq<char>, SValue)>, SEvalError>
    decreases fuel, props, 0int, 0int,
{
    if props.len() == 0 {
        Ok(acc)
    } else {
        let next = match props[0] {
            SObjectProperty::Single(id) => match smap_get(env, id) {
                Some(v) => Ok(smap_insert(acc, id, v)),
                None => Err(SEvalError::UnknownIdentifier(id)),
            },
            SObjectProperty::Property(key, value) => {
                let k = match key {
                    SPropertyKey::Identifier(id) => Ok(id),
                    SPropertyKey::Expression(x) => match eval(fuel, env, *x) {
                        Ok(SValue::String(s)) => Ok(s),
                        Ok(other) => Err(SEvalError::TypeError(ValueType::String, other)),
                        Err(err) => Err(err),
                    },
                };
                match k {
                    Ok(k) => match eval(fuel, env, value) {
                        Ok(v) => Ok(smap_insert(acc, k, v)),
                        Err(err) => Err(err),
                    },
                    Err(err) => Err(err),
                }
            },
            SObjectProperty::Spread(x) => match eval(fuel, env, x) {
                Ok(SValue::Object(m)) => Ok(insert_all(acc, m)),
                Ok(other) => Err(SEvalError::TypeError(ValueType::Object, other)),
                Err(err) => Err(err),
            },
        };
        match next {
            Ok(a) => eval_into_object(fuel, env, a, props.drop_first()),
            Err(err) => Err(err),
        }
    }
}

/// Appends to `acc` the fixed text and the converted dynamic value of each
/// template part.
pub open spec fn eval_template(fuel: nat, env: Seq<(Seq<char>, SValue)>, acc: Seq<char>, parts: Seq<STemplatePart>) -> Result<Seq<char>, SEvalError>
    decreases fuel, parts, 0int, 0int,
{
    if parts.len() == 0 {
        Ok(acc)
    } else {
        match eval(fuel, env, parts[0].dynamic_end) {
            Ok(v) => match template_text(v) {
                Ok(t) => eval_template(fuel, env, acc + parts[0].fixed_start + t, parts.drop_first()),
                Err(err) => Err(err),
            },
            Err(err) => Err(err),
        }
    }
}

/// What a comprehension collects: array items or object entries.
pub enum SAcc {
    Array(Seq<SValue>),
    Object(Seq<(Seq<char>, SValue)>),
}

pub open spec fn comp_sources(b: SExprBody) -> Seq<SSource> {
    match b {
        SExprBody::ArrayComp(sources, _) => sources,
        SExprBody::ObjectComp(sources, _) => sources,
        _ => Seq::empty(),
    }
}

/// Runs the sources of comprehension `b` from the `i`-th on, depth first,
/// evaluating the projection into `acc` for every environment the sources
/// produce.
pub open spec fn eval_comprehension(fuel: nat, env: Seq<(Seq<char>, SValue)>, b: SExprBody, i: nat, acc: SAcc) -> Result<SAcc, SEvalError>
    decreases fuel, b, comp_sources(b).len() - i, 0int,
{
    if i >= comp_sources(b).len() {
        match b {
            SExprBody::ArrayComp(_, projection) => match acc {
                SAcc::Array(a) => match eval_into_array(fuel, env, a, projection) {
                    Ok(a2) => Ok(SAcc::Array(a2)),
                    Err(err) => Err(err),
                },
                _ => Ok(acc),
            },
            SExprBody::ObjectComp(_, projection) => match acc {
                SAcc::Object(m) => match eval_into_object(fuel, env, m, projection) {
                    Ok(m2) => Ok(SAcc::Object(m2)),
                    Err(err) => Err(err),
                },
                _ => Ok(acc),
            },
            _ => Ok(acc),
        }
    } else {
        match eval_source(fuel, env, comp_sources(b)[i as int]) {
            Ok(envs) => eval_comprehension_envs(fuel, envs, b, i + 1, acc),
            Err(err) => Err(err),
        }
    }
}

/// Runs the sources of `b` from the `i`-th on for each of `envs` in turn.
pub open spec fn eval_comprehension_envs(fuel: nat, envs: Seq<Seq<(Seq<char>, SValue)>>, b: SExprBody, i: nat, acc: SAcc) -> Result<SAcc, SEvalError>
    decreases fuel, b, comp_sources(b).len() - i, envs.len(),
{
    if envs.len() == 0 || i > comp_sources(b).len() {
        Ok(acc)
    } else {
        match eval_comprehension(fuel, envs[0], b, i, acc) {
            Ok(a) => eval_comprehension_envs(fuel, envs.drop_first(), b, i, a),
            Err(err) => Err(err),
        }
    }
}

/// The environments a comprehension source produces: one per element of the
/// collection that the pattern matches and the predicate accepts.
pub open spec fn eval_source(fuel: nat, env: Seq<(Seq<char>, SValue)>, src: SSource) -> Result<Seq<Seq<(Seq<char>, SValue)>>, SEvalError>
    decreases fuel, src, 1int, 0int,
{
    match eval(fuel, env, src.collection) {
        Ok(SValue::Array(vals)) => source_values(fuel, env, src, vals, Seq::empty()),
        Ok(other) => Err(SEvalError::TypeError(ValueType::Array, other)),
        Err(err) => Err(err),
    }
}

pub open spec fn source_values(fuel: nat, env: Seq<(Seq<char>, SValue)>, src: SSource, vals: Seq<SValue>, acc: Seq<Seq<(Seq<char>, SValue)>>) -> Result<Seq<Seq<(Seq<char>, SValue)>>, SEvalError>
    decreases fuel, src, 0int, vals.len(),
{
    if vals.len() == 0 {
        Ok(acc)
    } else {
        match match_pattern(fuel, env, empty_map(), src.pattern, vals[0]) {
            Err(f) => if src.strong_pattern {
                Err(SEvalError::PatternError(Box::new(f)))
            } else {
                source_values(fuel, env, src, vals.drop_first(), acc)
            },
            Ok(bound) => {
                let local = smap_override(env, bound);
                match src.predicate {
                    Some(pred) => match eval(fuel, local, pred) {
                        Ok(SValue::Boolean(keep)) => if keep {
                            source_values(fuel, env, src, vals.drop_first(), acc.push(local))
                        } else {
                            source_values(fuel, env, src, vals.drop_first(), acc)
                        },
                        Ok(other) => Err(SEvalError::TypeError(ValueType::Boolean, other)),
                        Err(err) => Err(err),
                    },
                    None => source_values(fuel, env, src, vals.drop_first(), acc.push(local)),
                }
            },
        }
    }
}

/// The value of the first case whose pattern matches `subject` and whose
/// guard holds.
pub open spec fn eval_cases(fuel: nat, env: Seq<(Seq<char>, SValue)>, subject: SValue, cases: Seq<SMatchCase>) -> Result<SValue, SEvalError>
    decreases fuel, cases, 0int, 0int,
{
    if cases.len() == 0 {
        Err(SEvalError::PatternExhaustionError(subject))
    } else {
        let case = cases[0];
        match match_pattern(fuel, env, empty_map(), case.pattern, subject) {
            Err(_) => eval_cases(fuel, env, subject, cases.drop_first()),
            Ok(bound) => {
                let local = smap_override(env, bound);
                match case.guard {
                    Some(g) => match eval(fuel, local, g) {
                        Ok(SValue::Boolean(ok)) => if ok {
                            eval(fuel, local, case.body)
                        } else {
                            eval_cases(fuel, env, subject, cases.drop_first())
                        },
                        Ok(other) => Err(SEvalError::TypeError(ValueType::Boolean, other)),
                        Err(err) => Err(err),
                    },
                    None => eval(fuel, local, case.body),
                }
            },
        }
    }
}

} // verus!
