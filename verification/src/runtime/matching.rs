//! Matching values against patterns.
use vstd::prelude::*;
use crate::value_type::ValueType;
use crate::identifier::Identifier;
use crate::literal::Literal;
use crate::syntax::location::Location;
use crate::syntax::pattern::{Pattern, PatternBody, Rest, ArrayPatternItem, ObjectPropertyPattern};
use crate::syntax::expression::PropertyKey;
use crate::value::{Value, ValueMap, SValue, value_eq, values_view, entries_view, smap_sorted};
use crate::strings::seq_lt;
use crate::strings::parse_i64;
use crate::runtime::env::Environment;
use crate::runtime::evaluation::{EvalError, Evaluation, MAX_DEPTH, eval_error_view};
use crate::runtime::semantics::{
    SPatternFail, SPatternFailReason, match_identifier, literal_matches, fail_at, match_pattern,
    match_object, match_array, smap_index, unused_entries, prop_pattern_key, match_property,
};
use crate::syntax::pattern::{SPatternBody, object_prop_patterns_view, object_prop_pattern_view, rest_view, array_pattern_items_view, array_pattern_item_view};

verus! {

/// Why a value did not match a pattern, and where in the source the
/// pattern that failed stands.
#[derive(Debug)]
pub struct PatternFail {
    pub reason: PatternFailReason,
    pub location: Option<Location>,
}

#[derive(Debug)]
pub enum PatternFailReason {
    IdentifierConflict { identifier: Identifier, expected: Value, actual: Value },
    ArrayLengthMismatch { expected: usize, actual: usize },
    ArrayMinimumLengthMismatch { expected: usize, actual: usize },
    TypeMismatch { expected: ValueType, actual: Value },
    ObjectLengthMismatch { expected: usize, actual: usize },
    ObjectKeyMismatch { expected: String, actual: ValueMap },
    EvalError(Box<EvalError>),
    LiteralMismatch,
    ExpressionMissmatch { expected: Value, actual: Value },
}

impl View for PatternFail {
    type V = SPatternFail;

    open spec fn view(&self) -> SPatternFail {
        pattern_fail_view(self)
    }
}

impl View for PatternFailReason {
    type V = SPatternFailReason;

    open spec fn view(&self) -> SPatternFailReason {
        fail_reason_view(self)
    }
}

pub open spec fn pattern_fail_view(f: &PatternFail) -> SPatternFail
    decreases f, 1int,
{
    SPatternFail { reason: fail_reason_view(&f.reason), location: f.location }
}

pub open spec fn fail_reason_view(r: &PatternFailReason) -> SPatternFailReason
    decreases r, 0int,
{
        match r {
            PatternFailReason::IdentifierConflict { identifier, expected, actual } =>
                SPatternFailReason::IdentifierConflict { identifier: identifier@, expected: expected@, actual: actual@ },
            PatternFailReason::ArrayLengthMismatch { expected, actual } =>
                SPatternFailReason::ArrayLengthMismatch { expected: *expected, actual: *actual },
            PatternFailReason::ArrayMinimumLengthMismatch { expected, actual } =>
                SPatternFailReason::ArrayMinimumLengthMismatch { expected: *expected, actual: *actual },
            PatternFailReason::TypeMismatch { expected, actual } =>
                SPatternFailReason::TypeMismatch { expected: *expected, actual: actual@ },
            PatternFailReason::ObjectLengthMismatch { expected, actual } =>
                SPatternFailReason::ObjectLengthMismatch { expected: *expected, actual: *actual },
            PatternFailReason::ObjectKeyMismatch { expected, actual } =>
                SPatternFailReason::ObjectKeyMismatch { expected: expected@, actual: actual@ },
            PatternFailReason::EvalError(e) => SPatternFailReason::EvalError(Box::new(eval_error_view(e))),
            PatternFailReason::LiteralMismatch => SPatternFailReason::LiteralMismatch,
            PatternFailReason::ExpressionMissmatch { expected, actual } =>
                SPatternFailReason::ExpressionMissmatch { expected: expected@, actual: actual@ },
        }
}

/// The model of the outcome of a match: the extended bindings or the failure.
pub open spec fn match_result_view(r: &Result<Environment, PatternFail>) -> Result<Seq<(Seq<char>, crate::value::SValue)>, SPatternFail> {
    match r {
        Ok(e) => Ok(e@),
        Err(f) => Err(f@),
    }
}

impl Pattern {
    /// A failure of this pattern for the given reason, located where the
    /// pattern stands.
    pub fn cause_error(&self, reason: PatternFailReason) -> (r: PatternFail)
        ensures
            r@ == fail_at(reason@, self.location),
            r.reason == reason,
    {
        PatternFail { reason, location: self.location }
    }
}

/// Matches values against patterns. Expressions inside patterns (pinned
/// expressions and computed keys) are evaluated in `outer_env`, with `fuel`
/// nested lambda applications allowed.
pub struct Matcher<'e> {
    pub outer_env: &'e Environment,
    pub fuel: u64,
}

impl<'e> Matcher<'e> {
    /// A matcher that evaluates pattern expressions in `env`.
    pub fn new(env: &'e Environment) -> (r: Matcher<'e>)
        ensures
            r.outer_env == env,
            r.fuel == MAX_DEPTH,
    {
        Matcher { outer_env: env, fuel: MAX_DEPTH }
    }

    /// Binds `name` to `value` in `slf_env`, unless `name` is bound there to
    /// a different value.
    pub fn match_identifier(&self, slf_env: Environment, name: &Identifier, value: &Value) -> (r: Result<Environment, PatternFailReason>)
        ensures
            match r {
                Ok(e) => match_identifier(slf_env@, name@, value@) == Ok::<_, SPatternFailReason>(e@),
                Err(reason) => match_identifier(slf_env@, name@, value@) == Err::<Seq<(Seq<char>, crate::value::SValue)>, _>(reason@),
            },
    {
        let mut slf_env = slf_env;
        let found = match slf_env.bindings.get(name.name.as_str()) {
            Some(old) => {
                if value_eq(value, old) {
                    None
                } else {
                    Some(PatternFailReason::IdentifierConflict {
                        identifier: name.deep_clone(),
                        expected: old.deep_clone(),
                        actual: value.deep_clone(),
                    })
                }
            },
            None => {
                slf_env.bindings.insert(name.name.clone(), value.deep_clone());
                None
            },
        };
        match found {
            Some(reason) => Err(reason),
            None => Ok(slf_env),
        }
    }

    /// Accepts `value` when the literal pattern denotes it.
    pub fn match_literal(&self, slf_env: Environment, literal: &Literal, value: &Value) -> (r: Result<Environment, PatternFailReason>)
        ensures
            match r {
                Ok(e) => literal_matches(literal@, value@) && e@ == slf_env@,
                Err(reason) => !literal_matches(literal@, value@) && reason@ == SPatternFailReason::LiteralMismatch,
            },
    {
        let matches = match (literal, value) {
            (Literal::Null, Value::Null) => true,
            (Literal::String(a), Value::String(b)) => *a == *b,
            (Literal::Number(n), Value::Integer(i)) => match parse_i64(n.as_str()) {
                Some(p) => p == *i,
                None => false,
            },
            (Literal::Boolean(a), Value::Boolean(b)) => *a == *b,
            (Literal::Type(a), Value::Type(b)) => *a == *b,
            _ => false,
        };
        if matches {
            Ok(slf_env)
        } else {
            Err(PatternFailReason::LiteralMismatch)
        }
    }
}

proof fn lemma_index_skip(m: Seq<(Seq<char>, SValue)>, k: Seq<char>, i: int)
    requires
        0 <= i <= m.len(),
        forall|j: int| 0 <= j < i ==> m[j].0 != k,
    ensures
        smap_index(m, k) == i + smap_index(m.skip(i), k),
    decreases i,
{
    if i > 0 {
        assert(m.drop_first().skip(i - 1) =~= m.skip(i));
        lemma_index_skip(m.drop_first(), k, i - 1);
    } else {
        assert(m.skip(0) =~= m);
    }
}

/// The index of the entry for `k` in `o`, or the number of entries.
fn key_index(o: &ValueMap, k: &str) -> (r: usize)
    ensures
        r == smap_index(o@, k@),
{
    let mut i: usize = 0;
    while i < o.entries.len()
        invariant
            i <= o.entries.len(),
            forall|j: int| 0 <= j < i ==> o@[j].0 != k@,
        decreases o.entries.len() - i,
    {
        if crate::strings::str_eq(o.entries[i].0.as_str(), k) {
            proof {
                lemma_index_skip(o@, k@, i as int);
            }
            return i;
        }
        i += 1;
    }
    proof {
        lemma_index_skip(o@, k@, i as int);
    }
    i
}

/// The entries of `o` that `used` does not mark, order kept.
fn unused_map(o: &ValueMap, used: &Vec<bool>) -> (r: ValueMap)
    requires
        used@.len() == o@.len(),
    ensures
        r@ == unused_entries(o@, used@),
{
    proof { use_type_invariant(o); }
    let mut entries: Vec<(String, Value)> = Vec::new();
    let mut i: usize = 0;
    assert(o@.skip(0) =~= o@);
    assert(used@.skip(0) =~= used@);
    assert(entries_view(&entries) =~= Seq::<(Seq<char>, SValue)>::empty());
    while i < o.entries.len()
        invariant
            i <= o@.len(),
            o.entries.len() == o@.len(),
            used@.len() == o@.len(),
            smap_sorted(o@),
            smap_sorted(entries_view(&entries)),
            forall|k: int| 0 <= k < entries_view(&entries).len() ==>
                exists|j: int| 0 <= j < i && (#[trigger] entries_view(&entries)[k]).0 == o@[j].0,
            unused_entries(o@, used@) == entries_view(&entries) + unused_entries(o@.skip(i as int), used@.skip(i as int)),
        decreases o@.len() - i,
    {
        let ghost before = entries_view(&entries);
        let ghost rest = unused_entries(o@.skip(i + 1), used@.skip(i + 1));
        assert(o@.skip(i as int).drop_first() =~= o@.skip(i + 1));
        assert(used@.skip(i as int).drop_first() =~= used@.skip(i + 1));
        if !used[i] {
            let e = &o.entries[i];
            entries.push((e.0.clone(), e.1.deep_clone()));
            let ghost after = entries_view(&entries);
            assert(after =~= before.push(o@[i as int]));
            assert(before + (seq![o@[i as int]] + rest) =~= before.push(o@[i as int]) + rest);
            assert forall|a: int, b: int| 0 <= a < b < after.len() implies seq_lt(#[trigger] after[a].0, #[trigger] after[b].0) by {
                if b < before.len() {
                    assert(after[a] == before[a] && after[b] == before[b]);
                } else {
                    assert(after[a] == before[a]);
                    let j = choose|j: int| 0 <= j < i && before[a].0 == o@[j].0;
                    assert(seq_lt(o@[j].0, o@[i as int].0));
                }
            }
            assert forall|k: int| 0 <= k < after.len() implies
                exists|j: int| 0 <= j < i + 1 && (#[trigger] after[k]).0 == o@[j].0 by {
                if k < before.len() {
                    assert(after[k] == before[k]);
                    let j = choose|j: int| 0 <= j < i && before[k].0 == o@[j].0;
                    assert(0 <= j < i + 1 && after[k].0 == o@[j].0);
                } else {
                    assert(after[k].0 == o@[i as int].0);
                }
            }
        } else {
            assert forall|k: int| 0 <= k < before.len() implies
                exists|j: int| 0 <= j < i + 1 && (#[trigger] before[k]).0 == o@[j].0 by {
                let j = choose|j: int| 0 <= j < i && before[k].0 == o@[j].0;
                assert(0 <= j < i + 1 && before[k].0 == o@[j].0);
            }
        }
        i += 1;
    }
    assert(unused_entries(o@.skip(i as int), used@.skip(i as int)) =~= Seq::empty());
    assert(entries_view(&entries) + Seq::empty() =~= entries_view(&entries));
    ValueMap { entries }
}

impl<'e> Matcher<'e> {
    /// Matches `value` against `pattern`, extending the bindings `slf_env`.
    pub fn match_pattern(&self, slf_env: Environment, pattern: &Pattern, value: &Value) -> (r: Result<Environment, PatternFail>)
        ensures
            match_result_view(&r) == match_pattern(self.fuel as nat, self.outer_env@, slf_env@, pattern@, value@),
        decreases self.fuel, pattern, 1int, 0int,
    {
        match &pattern.body {
            PatternBody::Discard => Ok(slf_env),
            PatternBody::Capture(name, inner) => match self.match_pattern(slf_env, inner, value) {
                Ok(s) => match self.match_identifier(s, name, value) {
                    Ok(s2) => Ok(s2),
                    Err(reason) => Err(pattern.cause_error(reason)),
                },
                Err(e) => Err(e),
            },
            PatternBody::Identifier(name) => match self.match_identifier(slf_env, name, value) {
                Ok(s) => Ok(s),
                Err(reason) => Err(pattern.cause_error(reason)),
            },
            PatternBody::TypedDiscard(t) => {
                if *t == value.get_type() {
                    Ok(slf_env)
                } else {
                    Err(pattern.cause_error(PatternFailReason::TypeMismatch { expected: *t, actual: value.deep_clone() }))
                }
            },
            PatternBody::TypedIdentifier(name, t) => {
                if *t != value.get_type() {
                    return Err(pattern.cause_error(PatternFailReason::TypeMismatch { expected: *t, actual: value.deep_clone() }));
                }
                match self.match_identifier(slf_env, name, value) {
                    Ok(s) => Ok(s),
                    Err(reason) => Err(pattern.cause_error(reason)),
                }
            },
            PatternBody::Object(props, rest) => match value {
                Value::Object(o) => {
                    assert(pattern@.body == SPatternBody::Object(object_prop_patterns_view(props), rest_view(rest)));
                    if matches!(rest, Rest::Exact) && o.len() != props.len() {
                        return Err(pattern.cause_error(PatternFailReason::ObjectLengthMismatch { expected: props.len(), actual: o.len() }));
                    }
                    self.match_object(slf_env, pattern, o)
                },
                _ => Err(pattern.cause_error(PatternFailReason::TypeMismatch { expected: ValueType::Object, actual: value.deep_clone() })),
            },
            PatternBody::Array(items, rest) => match value {
                Value::Array(a) => {
                    assert(pattern@.body == SPatternBody::Array(array_pattern_items_view(items), rest_view(rest)));
                    if matches!(rest, Rest::Exact) && a.len() != items.len() {
                        return Err(pattern.cause_error(PatternFailReason::ArrayLengthMismatch { expected: items.len(), actual: a.len() }));
                    }
                    if a.len() < items.len() {
                        return Err(pattern.cause_error(PatternFailReason::ArrayMinimumLengthMismatch { expected: items.len(), actual: a.len() }));
                    }
                    self.match_array(slf_env, pattern, a)
                },
                _ => Err(pattern.cause_error(PatternFailReason::TypeMismatch { expected: ValueType::Array, actual: value.deep_clone() })),
            },
            PatternBody::Literal(l) => match self.match_literal(slf_env, l, value) {
                Ok(s) => Ok(s),
                Err(reason) => Err(pattern.cause_error(reason)),
            },
            PatternBody::PinnedExpression(e) => {
                let evaluation = Evaluation { env: self.outer_env, fuel: self.fuel };
                match evaluation.eval_expr(e) {
                    Err(err) => Err(pattern.cause_error(PatternFailReason::EvalError(Box::new(err)))),
                    Ok(expected) => {
                        if value_eq(&expected, value) {
                            Ok(slf_env)
                        } else {
                            Err(pattern.cause_error(PatternFailReason::ExpressionMissmatch { expected, actual: value.deep_clone() }))
                        }
                    },
                }
            },
        }
    }

    /// The key that property `prop` of object pattern `pattern` names;
    /// computed keys are evaluated in the outer environment.
    fn property_key(&self, pattern: &Pattern, prop: &ObjectPropertyPattern) -> (r: Result<String, PatternFail>)
        ensures
            match r {
                Ok(k) => prop_pattern_key(self.fuel as nat, self.outer_env@, prop@, pattern.location) == Ok::<_, SPatternFail>(k@),
                Err(e) => prop_pattern_key(self.fuel as nat, self.outer_env@, prop@, pattern.location) == Err::<Seq<char>, _>(e@),
            },
        decreases self.fuel, prop, 2int, 0int,
    {
        match prop {
            ObjectPropertyPattern::Single(id) => Ok(id.name.clone()),
            ObjectPropertyPattern::Match(m) => match &m.key {
                PropertyKey::Identifier(id) => Ok(id.name.clone()),
                PropertyKey::Expression(x) => {
                    let evaluation = Evaluation { env: self.outer_env, fuel: self.fuel };
                    match evaluation.eval_expr(x) {
                        Ok(Value::String(s)) => Ok(s),
                        Ok(other) => Err(pattern.cause_error(PatternFailReason::TypeMismatch { expected: ValueType::String, actual: other })),
                        Err(e) => Err(pattern.cause_error(PatternFailReason::EvalError(Box::new(e)))),
                    }
                },
            },
        }
    }

    /// Matches `value`, found under the key of property `prop`, against what
    /// the property expects of it.
    fn match_property(&self, slf_env: Environment, prop: &ObjectPropertyPattern, value: &Value) -> (r: Result<Environment, PatternFail>)
        ensures
            match_result_view(&r) == match_property(self.fuel as nat, self.outer_env@, slf_env@, prop@, value@),
        decreases self.fuel, prop, 2int, 0int,
    {
        match prop {
            ObjectPropertyPattern::Single(id) => match self.match_identifier(slf_env, id, value) {
                Ok(s) => Ok(s),
                Err(reason) => Err(PatternFail { reason, location: None }),
            },
            ObjectPropertyPattern::Match(m) => self.match_pattern(slf_env, &m.value, value),
        }
    }

    /// Matches the properties of object pattern `pattern` against `o`.
    #[verifier::loop_isolation(false)]
    fn match_object(&self, slf_env: Environment, pattern: &Pattern, o: &ValueMap) -> (r: Result<Environment, PatternFail>)
        requires
            pattern.body is Object,
        ensures
            match_result_view(&r) == match_object(self.fuel as nat, self.outer_env@, slf_env@, pattern@, o@, 0, Seq::new(o@.len(), |i: int| false)),
        decreases self.fuel, pattern, 0int, 0int,
    {
        let (props, rest) = match &pattern.body {
            PatternBody::Object(props, rest) => (props, rest),
            _ => return Ok(slf_env),
        };
        let ghost p = pattern@;
        assert(p.body == SPatternBody::Object(object_prop_patterns_view(props), rest_view(rest)));
        let mut used: Vec<bool> = Vec::new();
        while used.len() < o.entries.len()
            invariant
                used.len() <= o@.len(),
                used@ =~= Seq::new(used@.len(), |i: int| false),
            decreases o.entries.len() - used.len(),
        {
            used.push(false);
        }
        assert(used@ =~= Seq::new(o@.len(), |i: int| false));
        let ghost goal = match_object(self.fuel as nat, self.outer_env@, slf_env@, p, o@, 0, used@);
        let mut slf_env = slf_env;
        let mut k: usize = 0;
        while k < props.len()
            invariant
                k <= props.len(),
                p == pattern@,
                pattern.body == PatternBody::Object(*props, *rest),
                used@.len() == o@.len(),
                goal == match_object(self.fuel as nat, self.outer_env@, slf_env@, p, o@, k as nat, used@),
            decreases props.len() - k,
        {
            assert(object_prop_patterns_view(props)[k as int] == object_prop_pattern_view(&props[k as int]));
            let key = match self.property_key(pattern, &props[k]) {
                Ok(key) => key,
                Err(e) => return Err(e),
            };
            let i = key_index(o, key.as_str());
            if i >= o.entries.len() || used[i] {
                return Err(pattern.cause_error(PatternFailReason::ObjectKeyMismatch { expected: key, actual: o.deep_clone() }));
            }
            slf_env = match self.match_property(slf_env, &props[k], &o.entries[i].1) {
                Ok(s) => s,
                Err(e) => return Err(e),
            };
            used.set(i, true);
            k += 1;
        }
        match rest {
            Rest::Collect(q) => {
                let remaining = unused_map(o, &used);
                self.match_pattern(slf_env, q, &Value::Object(remaining))
            },
            _ => Ok(slf_env),
        }
    }

    /// Matches the items of array pattern `pattern` against `a`, and the
    /// elements past them against its rest pattern.
    #[verifier::loop_isolation(false)]
    fn match_array(&self, slf_env: Environment, pattern: &Pattern, a: &Vec<Value>) -> (r: Result<Environment, PatternFail>)
        requires
            match pattern.body {
                PatternBody::Array(items, _) => items.len() <= a.len(),
                _ => false,
            },
        ensures
            match_result_view(&r) == match_array(self.fuel as nat, self.outer_env@, slf_env@, pattern@, values_view(a), 0),
        decreases self.fuel, pattern, 0int, 0int,
    {
        let (items, rest) = match &pattern.body {
            PatternBody::Array(items, rest) => (items, rest),
            _ => return Ok(slf_env),
        };
        let ghost p = pattern@;
        assert(p.body == SPatternBody::Array(array_pattern_items_view(items), rest_view(rest)));
        let ghost goal = match_array(self.fuel as nat, self.outer_env@, slf_env@, p, values_view(a), 0);
        let mut slf_env = slf_env;
        let mut k: usize = 0;
        while k < items.len()
            invariant
                k <= items.len(),
                items.len() <= a.len(),
                p == pattern@,
                pattern.body == PatternBody::Array(*items, *rest),
                goal == match_array(self.fuel as nat, self.outer_env@, slf_env@, p, values_view(a), k as nat),
            decreases items.len() - k,
        {
            assert(array_pattern_items_view(items)[k as int] == array_pattern_item_view(&items[k as int]));
            assert(values_view(a)[k as int] == a[k as int]@);
            slf_env = match &items[k] {
                ArrayPatternItem::Pattern(q) => match self.match_pattern(slf_env, q, &a[k]) {
                    Ok(s) => s,
                    Err(e) => return Err(e),
                },
            };
            k += 1;
        }
        match rest {
            Rest::Collect(q) => {
                let mut tail: Vec<Value> = Vec::new();
                let mut j: usize = items.len();
                while j < a.len()
                    invariant
                        items.len() <= j <= a.len(),
                        tail.len() == j - items.len(),
                        forall|t: int| 0 <= t < tail.len() ==> tail[t]@ == a[t + items.len()]@,
                    decreases a.len() - j,
                {
                    tail.push(a[j].deep_clone());
                    j += 1;
                }
                assert(values_view(&tail) =~= values_view(a).skip(items.len() as int));
                self.match_pattern(slf_env, q, &Value::Array(tail))
            },
            _ => Ok(slf_env),
        }
    }
}

} // verus!
