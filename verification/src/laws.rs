//! Properties of the library that hold for all inputs.
use vstd::prelude::*;
use crate::value_type::ValueType;
use crate::literal::SLiteral;
use crate::strings::seq_lt;
use crate::value::{SValue, smap_get, smap_insert, smap_sorted, smap_override, smap_has, svalue_type, convert_spec, smap_combine, smap_values, same_value};
use crate::syntax::pattern::same_pattern;
use crate::syntax::expression::BinaryOperator;
use crate::runtime::semantics::{eval_binary, eval_call, keys_array};
use crate::syntax::expression::{SExpr, SExprBody, LogicalOperator};
use crate::syntax::pattern::{SPattern, SPatternBody, SRest};
use crate::runtime::semantics::{
    eval, eval_lit, match_pattern, match_identifier, match_object, match_array, match_property,
    prop_pattern_key, smap_index, unused_entries, SEvalError, SPatternFail,
};
use crate::runtime::assignment::{run_assignments, eval_assignments};
use crate::syntax::assignment::SAssignment;
use crate::syntax::pattern::SObjectPropertyPattern;
use crate::repl::command::SCommand;
use crate::repl::io::SReplOutput;
use crate::repl::state::repl_step;
use crate::syntax::location::Location;
use crate::syntax::identifiers::{expr_ids, pattern_ids, remove_all, pattern_expr_ids_rev};
use crate::value::smap_extract;
use crate::query::capture::{CaptureError, multi_capture_from};
use crate::query::projection::{ProjectionError, multi_projection_spec, eval_all};
use crate::query::predicate::{PredicateError, predicate_spec};
use crate::query::iter::predicate_scan;
use crate::parser::grammar::{first_operator, level_operators, SOperator};
use crate::parser::input::tag_at;
use crate::text::{binary_op_text, logical_op_text};
use crate::syntax::expression::UnaryOperator;
use crate::runtime::semantics::eval_unary;
use crate::syntax::identifiers::pattern_expr_ids;
use crate::syntax::assignment::{assignment_node, assignment_nodes};
use crate::topology::{topological_order, respects_dependencies, produced, is_dependency, lemma_topological_order_respects_dependencies};
use crate::value::smap_keys;

verus! {

// ---------------------------------------------------------------------------
// The order of keys.
// ---------------------------------------------------------------------------

proof fn lemma_seq_lt_irreflexive(a: Seq<char>)
    ensures
        !seq_lt(a, a),
    decreases a.len(),
{
    if a.len() > 0 {
        lemma_seq_lt_irreflexive(a.drop_first());
    }
}

proof fn lemma_seq_lt_transitive(a: Seq<char>, b: Seq<char>, c: Seq<char>)
    requires
        seq_lt(a, b),
        seq_lt(b, c),
    ensures
        seq_lt(a, c),
    decreases a.len(),
{
    if a.len() > 0 && b.len() > 0 && c.len() > 0 && a[0] == b[0] && b[0] == c[0] {
        lemma_seq_lt_transitive(a.drop_first(), b.drop_first(), c.drop_first());
    }
}

proof fn lemma_seq_lt_total(a: Seq<char>, b: Seq<char>)
    requires
        a != b,
    ensures
        seq_lt(a, b) || seq_lt(b, a),
    decreases a.len(),
{
    if a.len() > 0 && b.len() > 0 && a[0] == b[0] {
        if a.drop_first() == b.drop_first() {
            assert(a =~= seq![a[0]] + a.drop_first());
            assert(b =~= seq![b[0]] + b.drop_first());
        }
        lemma_seq_lt_total(a.drop_first(), b.drop_first());
    } else if a.len() > 0 && b.len() > 0 {
        let x = a[0];
        let y = b[0];
        vstd::utf8::char_u32_cast(x, x as u32);
        vstd::utf8::char_u32_cast(y, y as u32);
    } else if a.len() == 0 && b.len() == 0 {
        assert(a =~= b);
    }
}

/// Law: the keys of a map compare in a strict total order (code point by
/// code point): no key comes before itself, the order is transitive, and of
/// two different keys one comes first.
pub proof fn lemma_key_order(a: Seq<char>, b: Seq<char>, c: Seq<char>)
    ensures
        !seq_lt(a, a),
        seq_lt(a, b) && seq_lt(b, c) ==> seq_lt(a, c),
        a != b ==> seq_lt(a, b) || seq_lt(b, a),
{
    lemma_seq_lt_irreflexive(a);
    if seq_lt(a, b) && seq_lt(b, c) {
        lemma_seq_lt_transitive(a, b, c);
    }
    if a != b {
        lemma_seq_lt_total(a, b);
    }
}

// ---------------------------------------------------------------------------
// Maps from names to values.
// ---------------------------------------------------------------------------

/// Law: reading a key right after binding it gives the value just bound.
pub proof fn lemma_get_after_insert(m: Seq<(Seq<char>, SValue)>, k: Seq<char>, v: SValue)
    ensures
        smap_get(smap_insert(m, k, v), k) == Some(v),
    decreases m.len(),
{
    if m.len() > 0 && m[0].0 != k && !seq_lt(k, m[0].0) {
        lemma_get_after_insert(m.drop_first(), k, v);
        assert((seq![m[0]] + smap_insert(m.drop_first(), k, v)).drop_first() =~= smap_insert(m.drop_first(), k, v));
    }
}

/// Law: binding a key leaves every other key as it was.
pub proof fn lemma_get_after_insert_other(m: Seq<(Seq<char>, SValue)>, k: Seq<char>, v: SValue, other: Seq<char>)
    requires
        other != k,
    ensures
        smap_get(smap_insert(m, k, v), other) == smap_get(m, other),
    decreases m.len(),
{
    let r = smap_insert(m, k, v);
    if m.len() == 0 {
        assert(r[0] == (k, v));
        assert(r.drop_first() =~= Seq::<(Seq<char>, SValue)>::empty());
        assert(smap_get(r, other) == smap_get(r.drop_first(), other));
    } else if m[0].0 == k {
        assert(r[0] == (k, v));
        assert(r.drop_first() =~= m.drop_first());
        assert(smap_get(r, other) == smap_get(r.drop_first(), other));
        assert(smap_get(m, other) == smap_get(m.drop_first(), other));
    } else if seq_lt(k, m[0].0) {
        assert(r[0] == (k, v));
        assert(r.drop_first() =~= m);
        assert(smap_get(r, other) == smap_get(r.drop_first(), other));
    } else {
        lemma_get_after_insert_other(m.drop_first(), k, v, other);
        assert(r[0] == m[0]);
        assert(r.drop_first() =~= smap_insert(m.drop_first(), k, v));
    }
}

proof fn lemma_insert_keys(m: Seq<(Seq<char>, SValue)>, k: Seq<char>, v: SValue, i: int)
    requires
        0 <= i < smap_insert(m, k, v).len(),
    ensures
        smap_insert(m, k, v)[i].0 == k || exists|j: int| 0 <= j < m.len() && m[j].0 == #[trigger] smap_insert(m, k, v)[i].0,
    decreases m.len(),
{
    let r = smap_insert(m, k, v);
    if m.len() == 0 {
    } else if m[0].0 == k {
        if i > 0 {
            assert(r[i] == m[i]);
        }
    } else if seq_lt(k, m[0].0) {
        if i > 0 {
            assert(r[i] == m[i - 1]);
        }
    } else {
        if i > 0 {
            let t = smap_insert(m.drop_first(), k, v);
            assert(r[i] == t[i - 1]);
            lemma_insert_keys(m.drop_first(), k, v, i - 1);
            if t[i - 1].0 != k {
                let j = choose|j: int| 0 <= j < m.drop_first().len() && m.drop_first()[j].0 == #[trigger] t[i - 1].0;
                assert(m[j + 1].0 == r[i].0);
            }
        }
    }
}

/// Law: binding a key keeps a map's keys in strictly increasing order.
pub proof fn lemma_insert_keeps_sorted(m: Seq<(Seq<char>, SValue)>, k: Seq<char>, v: SValue)
    requires
        smap_sorted(m),
    ensures
        smap_sorted(smap_insert(m, k, v)),
    decreases m.len(),
{
    let r = smap_insert(m, k, v);
    if m.len() == 0 {
    } else if m[0].0 == k {
        assert forall|i: int, j: int| 0 <= i < j < r.len() implies seq_lt(#[trigger] r[i].0, #[trigger] r[j].0) by {
            assert(r[j] == m[j]);
            if i > 0 {
                assert(r[i] == m[i]);
            }
        }
    } else if seq_lt(k, m[0].0) {
        assert forall|i: int, j: int| 0 <= i < j < r.len() implies seq_lt(#[trigger] r[i].0, #[trigger] r[j].0) by {
            assert(r[j] == m[j - 1]);
            if i > 0 {
                assert(r[i] == m[i - 1]);
            } else if j - 1 > 0 {
                lemma_seq_lt_transitive(k, m[0].0, m[j - 1].0);
            }
        }
    } else {
        lemma_seq_lt_total(k, m[0].0);
        let tail = m.drop_first();
        assert(smap_sorted(tail)) by {
            assert forall|i: int, j: int| 0 <= i < j < tail.len() implies seq_lt(#[trigger] tail[i].0, #[trigger] tail[j].0) by {
                assert(tail[i] == m[i + 1] && tail[j] == m[j + 1]);
            }
        }
        lemma_insert_keeps_sorted(tail, k, v);
        let t = smap_insert(tail, k, v);
        assert forall|i: int, j: int| 0 <= i < j < r.len() implies seq_lt(#[trigger] r[i].0, #[trigger] r[j].0) by {
            assert(r[j] == t[j - 1]);
            if i > 0 {
                assert(r[i] == t[i - 1]);
            } else {
                lemma_insert_keys(tail, k, v, j - 1);
                if t[j - 1].0 != k {
                    let w = choose|w: int| 0 <= w < tail.len() && tail[w].0 == #[trigger] t[j - 1].0;
                    assert(m[w + 1].0 == t[j - 1].0);
                }
            }
        }
    }
}

proof fn lemma_sorted_tail(m: Seq<(Seq<char>, SValue)>)
    requires
        smap_sorted(m),
        m.len() > 0,
    ensures
        smap_sorted(m.drop_first()),
        forall|j: int| 0 <= j < m.drop_first().len() ==> m.drop_first()[j].0 != m[0].0,
{
    let tail = m.drop_first();
    assert forall|i: int, j: int| 0 <= i < j < tail.len() implies seq_lt(#[trigger] tail[i].0, #[trigger] tail[j].0) by {
        assert(tail[i] == m[i + 1] && tail[j] == m[j + 1]);
    }
    assert forall|j: int| 0 <= j < tail.len() implies tail[j].0 != m[0].0 by {
        assert(tail[j] == m[j + 1]);
        assert(seq_lt(m[0].0, m[j + 1].0));
        if tail[j].0 == m[0].0 {
            lemma_seq_lt_irreflexive(m[0].0);
        }
    }
}

proof fn lemma_get_absent_key(m: Seq<(Seq<char>, SValue)>, k: Seq<char>)
    requires
        forall|j: int| 0 <= j < m.len() ==> m[j].0 != k,
    ensures
        smap_get(m, k).is_none(),
    decreases m.len(),
{
    if m.len() > 0 {
        lemma_get_absent_key(m.drop_first(), k);
    }
}

/// Law: overriding bindings with a map of new ones gives the new binding of
/// every key the new map binds, and the old binding of every other key.
pub proof fn lemma_override_get(a: Seq<(Seq<char>, SValue)>, b: Seq<(Seq<char>, SValue)>, k: Seq<char>)
    requires
        smap_sorted(b),
    ensures
        smap_get(smap_override(a, b), k) == (if smap_has(b, k) { smap_get(b, k) } else { smap_get(a, k) }),
    decreases b.len(),
{
    if b.len() > 0 {
        lemma_sorted_tail(b);
        let a2 = smap_insert(a, b[0].0, b[0].1);
        lemma_override_get(a2, b.drop_first(), k);
        if b[0].0 == k {
            lemma_get_absent_key(b.drop_first(), k);
            lemma_get_after_insert(a, k, b[0].1);
        } else {
            lemma_get_after_insert_other(a, b[0].0, b[0].1, k);
        }
    }
}

// ---------------------------------------------------------------------------
// Values.
// ---------------------------------------------------------------------------

/// Law: converting a value to its own type gives it back unchanged, and
/// converting a value that is not itself a type to `Type` gives its type.
pub proof fn lemma_convert_to_own_type(v: SValue)
    ensures
        convert_spec(v, svalue_type(v)) == Some(v),
        svalue_type(v) != ValueType::Type ==> convert_spec(v, ValueType::Type) == Some(SValue::Type(svalue_type(v))),
{
}

// ---------------------------------------------------------------------------
// Evaluation.
// ---------------------------------------------------------------------------

/// Law: a literal evaluates to the value it denotes, whatever the
/// environment.
pub proof fn lemma_eval_literal(fuel: nat, env: Seq<(Seq<char>, SValue)>, e: SExpr)
    requires
        e.body is Literal,
    ensures
        eval(fuel, env, e) == eval_lit(e.body->Literal_0),
{
}

/// Law: `&&` with a left operand that is `false`, and `||` with one that is
/// `true`, give that operand's value without evaluating the right operand.
pub proof fn lemma_eval_short_circuit(fuel: nat, env: Seq<(Seq<char>, SValue)>, op: LogicalOperator, left: SExpr, right: SExpr, location: Option<crate::syntax::location::Location>)
    requires
        eval(fuel, env, left) == Ok::<SValue, SEvalError>(SValue::Boolean(op == LogicalOperator::Or)),
    ensures
        eval(fuel, env, SExpr { body: SExprBody::Logical(op, Box::new(left), Box::new(right)), location })
            == Ok::<SValue, SEvalError>(SValue::Boolean(op == LogicalOperator::Or)),
{
}

/// Law: an identifier evaluates to the value it is bound to, and fails
/// exactly when it is not bound.
pub proof fn lemma_eval_identifier(fuel: nat, env: Seq<(Seq<char>, SValue)>, e: SExpr)
    requires
        e.body is Identifier,
    ensures
        eval(fuel, env, e) == (match smap_get(env, e.body->Identifier_0) {
            Some(v) => Ok(v),
            None => Err(SEvalError::UnknownIdentifier(e.body->Identifier_0)),
        }),
{
}

// ---------------------------------------------------------------------------
// Matching.
// ---------------------------------------------------------------------------

/// Law: an identifier pattern matches every value and binds its name to it,
/// unless the name is bound already to another value.
pub proof fn lemma_match_identifier(fuel: nat, outer: Seq<(Seq<char>, SValue)>, slf: Seq<(Seq<char>, SValue)>, p: SPattern, v: SValue)
    requires
        p.body is Identifier,
        smap_get(slf, p.body->Identifier_0) is None || smap_get(slf, p.body->Identifier_0) == Some(v),
    ensures
        match_pattern(fuel, outer, slf, p, v) matches Ok(bound) && smap_get(bound, p.body->Identifier_0) == Some(v),
{
    let name = p.body->Identifier_0;
    if smap_get(slf, name) is None {
        lemma_get_after_insert(slf, name, v);
        assert(match_pattern(fuel, outer, slf, p, v) == Ok::<_, crate::runtime::semantics::SPatternFail>(smap_insert(slf, name, v)));
    } else {
        assert(match_pattern(fuel, outer, slf, p, v) == Ok::<_, crate::runtime::semantics::SPatternFail>(slf));
    }
}

/// Law: the discard pattern matches every value and binds nothing.
pub proof fn lemma_match_discard(fuel: nat, outer: Seq<(Seq<char>, SValue)>, slf: Seq<(Seq<char>, SValue)>, p: SPattern, v: SValue)
    requires
        p.body is Discard,
    ensures
        match_pattern(fuel, outer, slf, p, v) == Ok::<_, crate::runtime::semantics::SPatternFail>(slf),
{
}

/// Law: a typed pattern matches exactly the values of its type.
pub proof fn lemma_match_typed_discard(fuel: nat, outer: Seq<(Seq<char>, SValue)>, slf: Seq<(Seq<char>, SValue)>, p: SPattern, v: SValue)
    requires
        p.body is TypedDiscard,
    ensures
        match_pattern(fuel, outer, slf, p, v) is Ok <==> svalue_type(v) == p.body->TypedDiscard_0,
{
}

// ---------------------------------------------------------------------------
// Lambdas.
// ---------------------------------------------------------------------------

/// Law: applying the identity lambda `fn x => x` to an argument gives the
/// argument's value; the application uses one unit of the budget of nested
/// applications.
pub proof fn lemma_apply_identity(fuel: nat, env: Seq<(Seq<char>, SValue)>, x: Seq<char>, arg: SExpr, l1: Option<Location>, l2: Option<Location>, l3: Option<Location>, l4: Option<Location>)
    requires
        fuel > 0,
        eval(fuel, env, arg) is Ok,
    ensures
        eval(fuel, env, SExpr {
            body: SExprBody::Application(
                Box::new(SExpr {
                    body: SExprBody::Abstraction(
                        Box::new(SPattern { body: SPatternBody::Identifier(x), location: l1 }),
                        Box::new(SExpr { body: SExprBody::Identifier(x), location: l2 }),
                    ),
                    location: l3,
                }),
                Box::new(arg),
            ),
            location: l4,
        }) == eval(fuel, env, arg),
{
    let p = SPattern { body: SPatternBody::Identifier(x), location: l1 };
    let b = SExpr { body: SExprBody::Identifier(x), location: l2 };
    assert(pattern_ids(p) =~= seq![x]);
    assert(expr_ids(b) =~= seq![x]);
    assert(seq![x].drop_first() =~= Seq::<Seq<char>>::empty());
    assert(seq![x].contains(x)) by {
        assert(seq![x][0] == x);
    }
    assert(smap_extract(env, Seq::<Seq<char>>::empty(), seq![x], Seq::empty()) == Ok::<_, Seq<char>>(Seq::<(Seq<char>, SValue)>::empty()));
    assert(smap_extract(env, seq![x], seq![x], Seq::empty()) == smap_extract(env, seq![x].drop_first(), seq![x], Seq::empty()));
    assert(smap_extract(env, seq![x], seq![x], Seq::empty()) == Ok::<_, Seq<char>>(Seq::<(Seq<char>, SValue)>::empty()));
    let v = eval(fuel, env, arg)->Ok_0;
    let bound = smap_insert(Seq::empty(), x, v);
    assert(match_pattern((fuel - 1) as nat, Seq::empty(), Seq::empty(), p, v) == Ok::<_, SPatternFail>(bound));
    assert(bound =~= seq![(x, v)]);
    assert(smap_sorted(bound));
    lemma_override_get(Seq::empty(), bound, x);
    lemma_get_after_insert(Seq::empty(), x, v);
    let lam = SExpr { body: SExprBody::Abstraction(Box::new(p), Box::new(b)), location: l3 };
    assert(eval(fuel, env, lam) == Ok::<SValue, SEvalError>(SValue::Lambda(Seq::empty(), p, b)));
    let local = smap_override(Seq::empty(), bound);
    assert(smap_get(local, x) == Some(v));
    assert(eval((fuel - 1) as nat, local, b) == Ok::<SValue, SEvalError>(v));
}

// ---------------------------------------------------------------------------
// Queries.
// ---------------------------------------------------------------------------

/// Law: the default projection (`$$` matched, guarded by `true`, projected
/// as `$$`) passes a single value through unchanged, in an environment that
/// does not bind `$$`.
pub proof fn lemma_default_projection_passes_value(fuel: nat, env: Seq<(Seq<char>, SValue)>, v: SValue)
    requires
        smap_sorted(env),
        smap_get(env, "$$"@) is None,
    ensures
        multi_projection_spec(
            fuel,
            env,
            seq![SPattern { body: SPatternBody::Identifier("$$"@), location: None }],
            SExpr { body: SExprBody::Literal(SLiteral::Boolean(true)), location: None },
            seq![SExpr { body: SExprBody::Identifier("$$"@), location: None }],
            seq![v],
        ) == Ok::<Option<Seq<SValue>>, ProjectionError>(Some(seq![v])),
{
    let name = "$$"@;
    let pats = seq![SPattern { body: SPatternBody::Identifier(name), location: None }];
    let bound = smap_insert(env, name, v);
    assert(match_pattern(fuel, env, env, pats[0], v) == Ok::<_, SPatternFail>(bound));
    lemma_insert_keeps_sorted(env, name, v);
    let e2 = smap_override(env, bound);
    assert(multi_capture_from(fuel, e2, pats, seq![v], 1) == Ok::<_, CaptureError>(Some(e2)));
    assert(multi_capture_from(fuel, env, pats, seq![v], 0) == Ok::<_, CaptureError>(Some(e2)));
    lemma_override_get(env, bound, name);
    lemma_get_after_insert(env, name, v);
    let projections = seq![SExpr { body: SExprBody::Identifier(name), location: None }];
    assert(projections.drop_first() =~= Seq::<SExpr>::empty());
    assert(smap_get(e2, name) == Some(v));
    assert(eval(fuel, e2, projections[0]) == Ok::<SValue, SEvalError>(v));
    assert(eval_all(fuel, e2, Seq::<SExpr>::empty()) == Some(Seq::<SValue>::empty()));
    assert(eval_all(fuel, e2, projections) == Some(seq![v] + Seq::<SValue>::empty()));
    assert(seq![v] + Seq::<SValue>::empty() =~= seq![v]);
}


// ---------------------------------------------------------------------------
// Equality.
// ---------------------------------------------------------------------------

/// Law: patterns compare by their bodies alone: two patterns with the same
/// body are equal wherever they were written, and so are two lambdas that
/// differ only in the source location of their parameter pattern.
pub proof fn lemma_pattern_location_ignored(p: SPattern, q: SPattern, captured: Seq<(Seq<char>, SValue)>, body: SExpr)
    requires
        p.body == q.body,
    ensures
        same_pattern(p, q),
        same_value(SValue::Lambda(captured, p, body), SValue::Lambda(captured, q, body)),
{
}

/// Law: `==` and `!=` never fail and give opposite answers; the equality
/// they decide is reflexive, symmetric and transitive, holds of identical
/// values, and never holds between values of different types.
pub proof fn lemma_strict_equality(a: SValue, b: SValue, c: SValue)
    ensures
        eval_binary(BinaryOperator::StrictEqual, a, b) == Ok::<SValue, SEvalError>(SValue::Boolean(same_value(a, b))),
        eval_binary(BinaryOperator::StrictNotEqual, a, b) == Ok::<SValue, SEvalError>(SValue::Boolean(!same_value(a, b))),
        same_value(a, a),
        same_value(a, b) == same_value(b, a),
        same_value(a, b) && same_value(b, c) ==> same_value(a, c),
        a == b ==> same_value(a, b),
        svalue_type(a) != svalue_type(b) ==> !same_value(a, b),
{
}

// ---------------------------------------------------------------------------
// Objects and environments.
// ---------------------------------------------------------------------------

/// Law: `keys` and `values` of an object list its keys in strictly
/// increasing order and its values in the same order, one of each per
/// entry, so that pairing them gives the object back; on any other value
/// both fail with a type error.
pub proof fn lemma_keys_values(o: Seq<(Seq<char>, SValue)>, other: SValue)
    requires
        smap_sorted(o),
        !(other is Object),
    ensures
        eval_call(seq!['k', 'e', 'y', 's'], SValue::Object(o)) == Ok::<SValue, SEvalError>(SValue::Array(keys_array(o))),
        eval_call(seq!['v', 'a', 'l', 'u', 'e', 's'], SValue::Object(o)) == Ok::<SValue, SEvalError>(SValue::Array(smap_values(o))),
        keys_array(o).len() == o.len(),
        smap_values(o).len() == o.len(),
        forall|i: int| 0 <= i < o.len() ==> #[trigger] o[i] == (keys_array(o)[i]->String_0, smap_values(o)[i]),
        forall|i: int, j: int| 0 <= i < j < o.len() ==> seq_lt(#[trigger] keys_array(o)[i]->String_0, #[trigger] keys_array(o)[j]->String_0),
        eval_call(seq!['k', 'e', 'y', 's'], other) == Err::<SValue, SEvalError>(SEvalError::TypeError(ValueType::Object, other)),
        eval_call(seq!['v', 'a', 'l', 'u', 'e', 's'], other) == Err::<SValue, SEvalError>(SEvalError::TypeError(ValueType::Object, other)),
{
    assert(seq!['k', 'e', 'y', 's'] != seq!['l', 'e', 'n', 'g', 't', 'h']);
    assert(seq!['v', 'a', 'l', 'u', 'e', 's'] != seq!['l', 'e', 'n', 'g', 't', 'h']);
    assert(seq!['v', 'a', 'l', 'u', 'e', 's'] != seq!['k', 'e', 'y', 's']);
}

/// No name bound in both maps is bound to values that differ.
pub open spec fn agree(a: Seq<(Seq<char>, SValue)>, b: Seq<(Seq<char>, SValue)>) -> bool {
    forall|k: Seq<char>| smap_has(a, k) && smap_has(b, k) ==> same_value(#[trigger] smap_get(a, k)->0, #[trigger] smap_get(b, k)->0)
}

proof fn lemma_get_tail(b: Seq<(Seq<char>, SValue)>, k: Seq<char>)
    requires
        b.len() > 0,
        b[0].0 != k,
    ensures
        smap_get(b, k) == smap_get(b.drop_first(), k),
{
}

/// Law: combining two environments succeeds exactly when they agree on
/// every name both bind; the result binds each name of either, a name of
/// the second to its value there and any other name as the first binds it.
/// So combining is symmetric (the two orders succeed together and bind
/// every name to equal values), and combining with the empty environment
/// gives the first back.
pub proof fn lemma_combine(a: Seq<(Seq<char>, SValue)>, b: Seq<(Seq<char>, SValue)>)
    requires
        smap_sorted(a),
        smap_sorted(b),
    ensures
        smap_combine(a, b).is_some() == agree(a, b),
        smap_combine(a, b) matches Some(r) ==> forall|k: Seq<char>| #[trigger] smap_get(r, k) == (if smap_has(b, k) { smap_get(b, k) } else { smap_get(a, k) }),
        smap_combine(a, b).is_some() == smap_combine(b, a).is_some(),
        (smap_combine(a, b), smap_combine(b, a)) matches (Some(r1), Some(r2)) ==> forall|k: Seq<char>|
            smap_has(r1, k) == smap_has(r2, k) && (smap_has(r1, k) ==> same_value(#[trigger] smap_get(r1, k)->0, #[trigger] smap_get(r2, k)->0)),
        smap_combine(a, Seq::empty()) == Some(a),
{
    lemma_combine_one_way(a, b);
    lemma_combine_one_way(b, a);
    let r1 = smap_combine(a, b);
    let r2 = smap_combine(b, a);
    assert(agree(a, b) == agree(b, a));
    if r1 is Some && r2 is Some {
        let x = r1->0;
        let y = r2->0;
        assert forall|k: Seq<char>| smap_has(x, k) == smap_has(y, k) && (smap_has(x, k) ==> same_value(#[trigger] smap_get(x, k)->0, #[trigger] smap_get(y, k)->0)) by {
            assert(smap_get(x, k) == (if smap_has(b, k) { smap_get(b, k) } else { smap_get(a, k) }));
            assert(smap_get(y, k) == (if smap_has(a, k) { smap_get(a, k) } else { smap_get(b, k) }));
        }
    }
}

proof fn lemma_combine_one_way(a: Seq<(Seq<char>, SValue)>, b: Seq<(Seq<char>, SValue)>)
    requires
        smap_sorted(a),
        smap_sorted(b),
    ensures
        smap_combine(a, b).is_some() == agree(a, b),
        smap_combine(a, b) matches Some(r) ==> forall|k: Seq<char>| #[trigger] smap_get(r, k) == (if smap_has(b, k) { smap_get(b, k) } else { smap_get(a, k) }),
    decreases b.len(),
{
    if b.len() == 0 {
        assert forall|k: Seq<char>| !smap_has(b, k) by {}
    } else {
        let k0 = b[0].0;
        let v0 = b[0].1;
        let tail = b.drop_first();
        let a2 = smap_insert(a, k0, v0);
        lemma_sorted_tail(b);
        lemma_insert_keeps_sorted(a, k0, v0);
        lemma_combine_one_way(a2, tail);
        lemma_get_after_insert(a, k0, v0);
        lemma_get_absent_key(tail, k0);
        assert forall|k: Seq<char>| k != k0 implies #[trigger] smap_get(b, k) == smap_get(tail, k) && smap_get(a2, k) == smap_get(a, k) by {
            lemma_get_tail(b, k);
            lemma_get_after_insert_other(a, k0, v0, k);
        }
        assert(smap_get(b, k0) == Some(v0));
        let ok0 = !smap_has(a, k0) || same_value(smap_get(a, k0)->0, v0);
        assert(agree(a, b) == (ok0 && agree(a2, tail))) by {
            if agree(a, b) {
                assert forall|k: Seq<char>| smap_has(a2, k) && smap_has(tail, k) implies same_value(#[trigger] smap_get(a2, k)->0, #[trigger] smap_get(tail, k)->0) by {
                    assert(k != k0);
                    assert(smap_get(b, k) == smap_get(tail, k) && smap_get(a2, k) == smap_get(a, k));
                    assert(smap_has(a, k) && smap_has(b, k));
                    assert(same_value(smap_get(a, k)->0, smap_get(b, k)->0));
                }
            }
            if ok0 && agree(a2, tail) {
                assert forall|k: Seq<char>| smap_has(a, k) && smap_has(b, k) implies same_value(#[trigger] smap_get(a, k)->0, #[trigger] smap_get(b, k)->0) by {
                    if k != k0 {
                        assert(smap_get(b, k) == smap_get(tail, k) && smap_get(a2, k) == smap_get(a, k));
                        assert(smap_has(a2, k) && smap_has(tail, k));
                        assert(same_value(smap_get(a2, k)->0, smap_get(tail, k)->0));
                    } else {
                        assert(same_value(smap_get(a, k0)->0, v0));
                    }
                }
            }
        }
        if smap_combine(a, b) is Some {
            let r = smap_combine(a, b)->0;
            assert(smap_combine(a, b) == smap_combine(a2, tail));
            assert forall|k: Seq<char>| #[trigger] smap_get(r, k) == (if smap_has(b, k) { smap_get(b, k) } else { smap_get(a, k) }) by {
                if k != k0 {
                    assert(smap_get(b, k) == smap_get(tail, k) && smap_get(a2, k) == smap_get(a, k));
                }
            }
        }
    }
}

// ---------------------------------------------------------------------------
// Free names and what a lambda captures.
// ---------------------------------------------------------------------------

proof fn lemma_remove_all_contains(s: Seq<Seq<char>>, bound: Seq<Seq<char>>, x: Seq<char>)
    ensures
        remove_all(s, bound).contains(x) == (s.contains(x) && !bound.contains(x)),
    decreases s.len(),
{
    broadcast use vstd::seq_lib::lemma_seq_concat_contains_all_elements;
    if s.len() > 0 {
        lemma_remove_all_contains(s.drop_first(), bound, x);
        assert(s =~= seq![s[0]] + s.drop_first());
        assert(seq![s[0]].contains(x) == (s[0] == x)) by {
            if s[0] == x {
                assert(seq![s[0]][0] == x);
            }
        }
    }
}

/// Law: as a set, the free names of a lambda `fn p => b` are the free
/// names of its body that the parameter pattern does not bind, together
/// with the names used by the expressions inside the pattern.
pub proof fn lemma_lambda_free_names(p: SPattern, b: SExpr, location: Option<Location>)
    ensures
        expr_ids(SExpr { body: SExprBody::Abstraction(Box::new(p), Box::new(b)), location }).to_set()
            == expr_ids(b).to_set().difference(pattern_ids(p).to_set()).union(pattern_expr_ids_rev(p).to_set()),
{
    broadcast use vstd::seq_lib::lemma_seq_concat_contains_all_elements;
    let e = SExpr { body: SExprBody::Abstraction(Box::new(p), Box::new(b)), location };
    let free = remove_all(expr_ids(b), pattern_ids(p));
    assert(expr_ids(e) == free + pattern_expr_ids_rev(p));
    assert forall|x: Seq<char>| expr_ids(e).to_set().contains(x)
        == expr_ids(b).to_set().difference(pattern_ids(p).to_set()).union(pattern_expr_ids_rev(p).to_set()).contains(x) by {
        lemma_remove_all_contains(expr_ids(b), pattern_ids(p), x);
    }
    assert(expr_ids(e).to_set() =~= expr_ids(b).to_set().difference(pattern_ids(p).to_set()).union(pattern_expr_ids_rev(p).to_set()));
}

proof fn lemma_extract(m: Seq<(Seq<char>, SValue)>, ids: Seq<Seq<char>>, skip: Seq<Seq<char>>, acc: Seq<(Seq<char>, SValue)>)
    ensures
        smap_extract(m, ids, skip, acc) is Ok
            == (forall|k: Seq<char>| ids.contains(k) && !skip.contains(k) ==> #[trigger] smap_has(m, k)),
        smap_extract(m, ids, skip, acc) matches Ok(r) ==> forall|k: Seq<char>| #[trigger] smap_get(r, k)
            == (if ids.contains(k) && !skip.contains(k) { smap_get(m, k) } else { smap_get(acc, k) }),
        smap_extract(m, ids, skip, acc) matches Err(u) ==> ids.contains(u) && !skip.contains(u) && !smap_has(m, u),
    decreases ids.len(),
{
    if ids.len() > 0 {
        let k0 = ids[0];
        let tail = ids.drop_first();
        assert(ids =~= seq![k0] + tail);
        assert forall|k: Seq<char>| ids.contains(k) == (k == k0 || tail.contains(k)) by {
            if k == k0 {
                assert(ids[0] == k);
            }
            if tail.contains(k) {
                let j = choose|j: int| 0 <= j < tail.len() && tail[j] == k;
                assert(ids[j + 1] == k);
            }
            if ids.contains(k) && k != k0 {
                let j = choose|j: int| 0 <= j < ids.len() && ids[j] == k;
                assert(tail[j - 1] == k);
            }
        }
        let all_ids = forall|k: Seq<char>| ids.contains(k) && !skip.contains(k) ==> #[trigger] smap_has(m, k);
        let all_tail = forall|k: Seq<char>| tail.contains(k) && !skip.contains(k) ==> #[trigger] smap_has(m, k);
        if skip.contains(k0) || smap_has(m, k0) {
            assert(all_ids == all_tail) by {
                if all_tail {
                    assert forall|k: Seq<char>| ids.contains(k) && !skip.contains(k) implies #[trigger] smap_has(m, k) by {
                        if k != k0 {
                            assert(tail.contains(k));
                        }
                    }
                }
                if all_ids {
                    assert forall|k: Seq<char>| tail.contains(k) && !skip.contains(k) implies #[trigger] smap_has(m, k) by {
                        assert(ids.contains(k));
                    }
                }
            }
        }
        if skip.contains(k0) {
            lemma_extract(m, tail, skip, acc);
        } else {
            match smap_get(m, k0) {
                None => {
                    assert(ids.contains(k0) && !smap_has(m, k0));
                },
                Some(v) => {
                    let acc2 = smap_insert(acc, k0, v);
                    lemma_extract(m, tail, skip, acc2);
                    lemma_get_after_insert(acc, k0, v);
                    assert forall|k: Seq<char>| k != k0 implies #[trigger] smap_get(acc2, k) == smap_get(acc, k) by {
                        lemma_get_after_insert_other(acc, k0, v, k);
                    }
                },
            }
        }
    }
}

/// Law: a lambda captures exactly its free names: evaluating `fn p => b`
/// succeeds when the environment binds every name that `b` uses and `p`
/// does not bind, and then captures just those names, each with its value
/// in the environment; otherwise it fails on such a name that is unbound.
pub proof fn lemma_lambda_captures_free_names(fuel: nat, env: Seq<(Seq<char>, SValue)>, p: SPattern, b: SExpr, location: Option<Location>)
    ensures
        ({
            let e = SExpr { body: SExprBody::Abstraction(Box::new(p), Box::new(b)), location };
            let free = |k: Seq<char>| expr_ids(b).contains(k) && !pattern_ids(p).contains(k);
            &&& eval(fuel, env, e) is Ok == (forall|k: Seq<char>| free(k) ==> #[trigger] smap_has(env, k))
            &&& eval(fuel, env, e) matches Ok(SValue::Lambda(captured, q, body)) ==> q == p && body == b
                && forall|k: Seq<char>| #[trigger] smap_get(captured, k) == (if free(k) { smap_get(env, k) } else { None })
            &&& eval(fuel, env, e) matches Err(err) ==> err matches SEvalError::UnknownIdentifier(u) && free(u) && !smap_has(env, u)
        }),
{
    lemma_extract(env, expr_ids(b), pattern_ids(p), Seq::empty());
}


// ---------------------------------------------------------------------------
// Filtering a sequence of values by a predicate.
// ---------------------------------------------------------------------------

/// Everything that repeated scans give from position `pos` on, until one
/// gives nothing.
pub open spec fn predicate_scan_all(fuel: nat, env: Seq<(Seq<char>, SValue)>, pattern: SPattern, guard: SExpr, items: Seq<SValue>, pos: nat) -> Seq<Result<SValue, PredicateError>>
    decreases items.len() - pos,
{
    if pos >= items.len() {
        Seq::empty()
    } else {
        match predicate_scan(fuel, env, pattern, guard, items, pos) {
            (Some(x), p) => if pos < p && p <= items.len() {
                seq![x] + predicate_scan_all(fuel, env, pattern, guard, items, p)
            } else {
                Seq::empty()
            },
            (None, _) => Seq::empty(),
        }
    }
}

/// What the predicate makes of each item from position `pos` on, in
/// order: the item where it passes, the failure where its test fails,
/// nothing where it does not pass.
pub open spec fn predicate_outcomes(fuel: nat, env: Seq<(Seq<char>, SValue)>, pattern: SPattern, guard: SExpr, items: Seq<SValue>, pos: nat) -> Seq<Result<SValue, PredicateError>>
    decreases items.len() - pos,
{
    if pos >= items.len() {
        Seq::empty()
    } else {
        (match predicate_spec(fuel, env, pattern, guard, items[pos as int]) {
            Ok(true) => seq![Ok(items[pos as int])],
            Ok(false) => Seq::empty(),
            Err(e) => seq![Err(e)],
        }) + predicate_outcomes(fuel, env, pattern, guard, items, pos + 1)
    }
}

proof fn lemma_scan_advances(fuel: nat, env: Seq<(Seq<char>, SValue)>, pattern: SPattern, guard: SExpr, items: Seq<SValue>, pos: nat)
    ensures
        predicate_scan(fuel, env, pattern, guard, items, pos) matches (Some(_), p) ==> pos < p <= items.len(),
    decreases items.len() - pos,
{
    if pos < items.len() {
        lemma_scan_advances(fuel, env, pattern, guard, items, pos + 1);
    }
}

/// Law: running a predicate's iterator to its end gives, in input order,
/// each item that passes and the failure of each item whose test fails,
/// and skips the items that do not pass.
pub proof fn lemma_predicate_iteration(fuel: nat, env: Seq<(Seq<char>, SValue)>, pattern: SPattern, guard: SExpr, items: Seq<SValue>, pos: nat)
    ensures
        predicate_scan_all(fuel, env, pattern, guard, items, pos) == predicate_outcomes(fuel, env, pattern, guard, items, pos),
    decreases items.len() - pos,
{
    if pos < items.len() {
        lemma_predicate_iteration(fuel, env, pattern, guard, items, pos + 1);
        lemma_scan_advances(fuel, env, pattern, guard, items, pos + 1);
        match predicate_spec(fuel, env, pattern, guard, items[pos as int]) {
            Ok(true) => {
                assert(predicate_outcomes(fuel, env, pattern, guard, items, pos)
                    == seq![Ok::<SValue, PredicateError>(items[pos as int])] + predicate_outcomes(fuel, env, pattern, guard, items, pos + 1));
            },
            Ok(false) => {
                assert(predicate_outcomes(fuel, env, pattern, guard, items, pos)
                    =~= predicate_outcomes(fuel, env, pattern, guard, items, pos + 1));
            },
            Err(e) => {
                assert(predicate_outcomes(fuel, env, pattern, guard, items, pos)
                    == seq![Err::<SValue, PredicateError>(e)] + predicate_outcomes(fuel, env, pattern, guard, items, pos + 1));
            },
        }
    }
}


/// Law: evaluating a list of expressions succeeds exactly when each of them
/// has a value, and then gives those values, one per expression, in order.
/// A projection that passes gives these values of its projections.
pub proof fn lemma_eval_all_elementwise(fuel: nat, env: Seq<(Seq<char>, SValue)>, exprs: Seq<SExpr>)
    ensures
        eval_all(fuel, env, exprs) is Some == (forall|i: int| 0 <= i < exprs.len() ==> #[trigger] eval(fuel, env, exprs[i]) is Ok),
        eval_all(fuel, env, exprs) matches Some(vs) ==> vs.len() == exprs.len()
            && forall|i: int| 0 <= i < exprs.len() ==> #[trigger] eval(fuel, env, exprs[i]) == Ok::<SValue, SEvalError>(vs[i]),
    decreases exprs.len(),
{
    if exprs.len() > 0 {
        let tail = exprs.drop_first();
        lemma_eval_all_elementwise(fuel, env, tail);
        assert forall|i: int| 0 < i < exprs.len() implies #[trigger] eval(fuel, env, exprs[i]) == eval(fuel, env, tail[i - 1]) by {
            assert(tail[i - 1] == exprs[i]);
        }
        if eval(fuel, env, exprs[0]) is Ok && eval_all(fuel, env, tail) is None {
            let j = choose|j: int| 0 <= j < tail.len() && !(#[trigger] eval(fuel, env, tail[j]) is Ok);
            assert(!(eval(fuel, env, exprs[j + 1]) is Ok));
        }
        if eval(fuel, env, exprs[0]) is Ok && eval_all(fuel, env, tail) is Some {
            let vs = eval_all(fuel, env, exprs)->0;
            let rest = eval_all(fuel, env, tail)->0;
            assert forall|i: int| 0 <= i < exprs.len() implies #[trigger] eval(fuel, env, exprs[i]) == Ok::<SValue, SEvalError>(vs[i]) by {
                if i > 0 {
                    assert(vs[i] == rest[i - 1]);
                    assert(eval(fuel, env, tail[i - 1]) == Ok::<SValue, SEvalError>(rest[i - 1]));
                }
            }
            assert forall|i: int| 0 <= i < exprs.len() implies #[trigger] eval(fuel, env, exprs[i]) is Ok by {
                assert(eval(fuel, env, exprs[i]) == Ok::<SValue, SEvalError>(vs[i]));
            }
        }
    }
}


// ---------------------------------------------------------------------------
// Integer operators.
// ---------------------------------------------------------------------------

/// The expression `a op b`.
pub open spec fn binary_of(op: BinaryOperator, a: SExpr, b: SExpr) -> SExpr {
    SExpr { body: SExprBody::Binary(op, Box::new(a), Box::new(b)), location: None }
}

/// Law: on integers the comparison operators are the mathematical
/// comparisons of the operands' values, and `+`, `-`, `*` give the exact
/// sum, difference and product, failing with an overflow error exactly when
/// it does not fit in an `i64`. In particular `a >= b` is the negation of
/// `a < b`, `a <= b` that of `a > b`, and `x >= x` and `x <= x` hold.
pub proof fn lemma_integer_operators(fuel: nat, env: Seq<(Seq<char>, SValue)>, a: SExpr, b: SExpr, l: i64, r: i64)
    requires
        eval(fuel, env, a) == Ok::<SValue, SEvalError>(SValue::Integer(l)),
        eval(fuel, env, b) == Ok::<SValue, SEvalError>(SValue::Integer(r)),
    ensures
        eval(fuel, env, binary_of(BinaryOperator::LessThan, a, b)) == Ok::<SValue, SEvalError>(SValue::Boolean(l < r)),
        eval(fuel, env, binary_of(BinaryOperator::GreaterThan, a, b)) == Ok::<SValue, SEvalError>(SValue::Boolean(l > r)),
        eval(fuel, env, binary_of(BinaryOperator::LessThanEqual, a, b)) == Ok::<SValue, SEvalError>(SValue::Boolean(l <= r)),
        eval(fuel, env, binary_of(BinaryOperator::GreaterThanEqual, a, b)) == Ok::<SValue, SEvalError>(SValue::Boolean(l >= r)),
        eval(fuel, env, binary_of(BinaryOperator::GreaterThanEqual, a, b)) == Ok::<SValue, SEvalError>(SValue::Boolean(!(l < r))),
        eval(fuel, env, binary_of(BinaryOperator::LessThanEqual, a, b)) == Ok::<SValue, SEvalError>(SValue::Boolean(!(l > r))),
        eval(fuel, env, binary_of(BinaryOperator::GreaterThanEqual, a, a)) == Ok::<SValue, SEvalError>(SValue::Boolean(true)),
        eval(fuel, env, binary_of(BinaryOperator::LessThanEqual, a, a)) == Ok::<SValue, SEvalError>(SValue::Boolean(true)),
        eval(fuel, env, binary_of(BinaryOperator::LessThan, a, a)) == Ok::<SValue, SEvalError>(SValue::Boolean(false)),
        eval(fuel, env, binary_of(BinaryOperator::GreaterThan, a, a)) == Ok::<SValue, SEvalError>(SValue::Boolean(false)),
        eval(fuel, env, binary_of(BinaryOperator::Plus, a, b)) == (if i64::MIN <= l + r <= i64::MAX {
            Ok::<SValue, SEvalError>(SValue::Integer((l + r) as i64))
        } else {
            Err::<SValue, SEvalError>(SEvalError::IntegerOverflow)
        }),
        eval(fuel, env, binary_of(BinaryOperator::Minus, a, b)) == (if i64::MIN <= l - r <= i64::MAX {
            Ok::<SValue, SEvalError>(SValue::Integer((l - r) as i64))
        } else {
            Err::<SValue, SEvalError>(SEvalError::IntegerOverflow)
        }),
        eval(fuel, env, binary_of(BinaryOperator::Times, a, b)) == (if i64::MIN <= l * r <= i64::MAX {
            Ok::<SValue, SEvalError>(SValue::Integer((l * r) as i64))
        } else {
            Err::<SValue, SEvalError>(SEvalError::IntegerOverflow)
        }),
{
}


proof fn lemma_truncated_division(x: int, d: int)
    requires
        d != 0,
    ensures
        ({
            let q = if x == 0 { 0 } else if x > 0 && d > 0 { x / d } else if x < 0 && d < 0 { (x * -1) / (d * -1) }
                else if x < 0 { ((x * -1) / d) * -1 } else { (x / (d * -1)) * -1 };
            let m = if x == 0 { 0 } else if x > 0 && d > 0 { x % d } else if x < 0 && d < 0 { ((x * -1) % (d * -1)) * -1 }
                else if x < 0 { ((x * -1) % d) * -1 } else { x % (d * -1) };
            &&& q * d + m == x
            &&& (if m < 0 { -m } else { m }) < (if d < 0 { -d } else { d })
            &&& (m == 0 || (m > 0) == (x > 0))
        }),
{
    if x == 0 {
        assert(0 * d == 0) by (nonlinear_arith);
    } else if x > 0 && d > 0 {
        vstd::arithmetic::div_mod::lemma_fundamental_div_mod(x, d);
        vstd::arithmetic::div_mod::lemma_mod_bound(x, d);
        let q = x / d;
        assert(q * d == d * q) by (nonlinear_arith);
    } else if x < 0 && d < 0 {
        let xx = x * -1;
        let dd = d * -1;
        vstd::arithmetic::div_mod::lemma_fundamental_div_mod(xx, dd);
        vstd::arithmetic::div_mod::lemma_mod_bound(xx, dd);
        let q = xx / dd;
        assert(q * d == -(dd * q)) by (nonlinear_arith) requires dd == d * -1;
    } else if x < 0 {
        let xx = x * -1;
        vstd::arithmetic::div_mod::lemma_fundamental_div_mod(xx, d);
        vstd::arithmetic::div_mod::lemma_mod_bound(xx, d);
        let q = xx / d;
        assert((q * -1) * d == -(d * q)) by (nonlinear_arith);
    } else {
        let dd = d * -1;
        vstd::arithmetic::div_mod::lemma_fundamental_div_mod(x, dd);
        vstd::arithmetic::div_mod::lemma_mod_bound(x, dd);
        let q = x / dd;
        assert((q * -1) * d == dd * q) by (nonlinear_arith) requires dd == d * -1;
    }
}

/// Law: integer division and remainder truncate toward zero: for a divisor
/// other than zero (and leaving out the one quotient that overflows, the
/// least integer divided by -1), `a / b` and `a % b` give q and m with
/// q * b + m equal to a, m smaller than b in magnitude and of the sign of
/// a (or zero). Dividing by zero is an error of its own; taking a
/// remainder by zero, or dividing the least integer by -1, overflows.
pub proof fn lemma_integer_division(fuel: nat, env: Seq<(Seq<char>, SValue)>, a: SExpr, b: SExpr, l: i64, r: i64)
    requires
        eval(fuel, env, a) == Ok::<SValue, SEvalError>(SValue::Integer(l)),
        eval(fuel, env, b) == Ok::<SValue, SEvalError>(SValue::Integer(r)),
    ensures
        r == 0 ==> eval(fuel, env, binary_of(BinaryOperator::Over, a, b)) == Err::<SValue, SEvalError>(SEvalError::MathDivisionByZero),
        r == 0 ==> eval(fuel, env, binary_of(BinaryOperator::Mod, a, b)) == Err::<SValue, SEvalError>(SEvalError::IntegerOverflow),
        l == i64::MIN && r == -1 ==> eval(fuel, env, binary_of(BinaryOperator::Over, a, b)) == Err::<SValue, SEvalError>(SEvalError::IntegerOverflow)
            && eval(fuel, env, binary_of(BinaryOperator::Mod, a, b)) == Err::<SValue, SEvalError>(SEvalError::IntegerOverflow),
        r != 0 && !(l == i64::MIN && r == -1) ==> ({
            &&& eval(fuel, env, binary_of(BinaryOperator::Over, a, b)) matches Ok(SValue::Integer(q))
            &&& eval(fuel, env, binary_of(BinaryOperator::Mod, a, b)) matches Ok(SValue::Integer(m))
            &&& q * r + m == l
            &&& (if m < 0 { -m } else { m as int }) < (if r < 0 { -r } else { r as int })
            &&& (m == 0 || (m > 0) == (l > 0))
        }),
{
    if r != 0 {
        lemma_truncated_division(l as int, r as int);
        if l == i64::MIN && r == -1 {
            assert((l as int) * -1 == 9223372036854775808int);
            assert((r as int) * -1 == 1int);
            assert(9223372036854775808int / 1int == 9223372036854775808int);
        } else {
            let x = l as int;
            let d = r as int;
            let q = if x == 0 { 0 } else if x > 0 && d > 0 { x / d } else if x < 0 && d < 0 { (x * -1) / (d * -1) }
                else if x < 0 { ((x * -1) / d) * -1 } else { (x / (d * -1)) * -1 };
            let m = if x == 0 { 0 } else if x > 0 && d > 0 { x % d } else if x < 0 && d < 0 { ((x * -1) % (d * -1)) * -1 }
                else if x < 0 { ((x * -1) % d) * -1 } else { x % (d * -1) };
            lemma_quotient_in_range(x, d, q, m);
        }
    }
}

proof fn lemma_quotient_in_range(x: int, d: int, q: int, m: int)
    requires
        i64::MIN <= x <= i64::MAX,
        i64::MIN <= d <= i64::MAX,
        d != 0,
        !(x == i64::MIN && d == -1),
        q * d + m == x,
        (if m < 0 { -m } else { m }) < (if d < 0 { -d } else { d }),
        m == 0 || (m > 0) == (x > 0),
    ensures
        i64::MIN <= q <= i64::MAX,
        i64::MIN <= m <= i64::MAX,
{
    assert(i64::MIN <= q <= i64::MAX) by (nonlinear_arith)
        requires
            i64::MIN <= x <= i64::MAX,
            i64::MIN <= d <= i64::MAX,
            d != 0,
            !(x == i64::MIN && d == -1),
            q * d + m == x,
            (if m < 0 { -m } else { m }) < (if d < 0 { -d } else { d }),
            m == 0 || (m > 0) == (x > 0),
    ;
}

/// Law: `is` tests a value's type: a value is of its own type and of no
/// other.
pub proof fn lemma_is_tests_type(v: SValue, t: ValueType)
    ensures
        eval_binary(BinaryOperator::Is, v, SValue::Type(t)) == Ok::<SValue, SEvalError>(SValue::Boolean(t == svalue_type(v))),
        eval_binary(BinaryOperator::Is, v, SValue::Type(svalue_type(v))) == Ok::<SValue, SEvalError>(SValue::Boolean(true)),
{
}

// ---------------------------------------------------------------------------
// Truthiness.
// ---------------------------------------------------------------------------

/// Law: a collection converts to `true` exactly when it is not empty: an
/// array or an object when it has an entry (that is, when the `length`
/// function gives a non-zero count), a string when it has a character.
pub proof fn lemma_collections_are_true_when_not_empty(a: Seq<SValue>, o: Seq<(Seq<char>, SValue)>, s: Seq<char>)
    ensures
        convert_spec(SValue::Array(a), ValueType::Boolean) == Some(SValue::Boolean(a.len() > 0)),
        convert_spec(SValue::Object(o), ValueType::Boolean) == Some(SValue::Boolean(o.len() > 0)),
        convert_spec(SValue::String(s), ValueType::Boolean) == Some(SValue::Boolean(s.len() > 0)),
        a.len() <= i64::MAX ==> eval_call(seq!['l', 'e', 'n', 'g', 't', 'h'], SValue::Array(a))
            == Ok::<SValue, SEvalError>(SValue::Integer(a.len() as i64))
            && convert_spec(SValue::Array(a), ValueType::Boolean) == Some(SValue::Boolean((a.len() as i64) != 0)),
        o.len() <= i64::MAX ==> eval_call(seq!['l', 'e', 'n', 'g', 't', 'h'], SValue::Object(o))
            == Ok::<SValue, SEvalError>(SValue::Integer(o.len() as i64))
            && convert_spec(SValue::Object(o), ValueType::Boolean) == Some(SValue::Boolean((o.len() as i64) != 0)),
        convert_spec(SValue::Array(Seq::empty()), ValueType::Boolean) == Some(SValue::Boolean(false)),
        a.len() > 0 ==> convert_spec(SValue::Array(a), ValueType::Boolean) == Some(SValue::Boolean(true)),
{
}

/// Law: a boolean converts to the integer 1 or 0 and back to itself; an
/// integer converts to `true` exactly when it is not zero; `null` is false
/// and zero.
pub proof fn lemma_boolean_integer_conversions(b: bool, i: i64)
    ensures
        convert_spec(SValue::Boolean(b), ValueType::Integer) == Some(SValue::Integer(if b { 1 } else { 0 })),
        convert_spec(SValue::Integer(if b { 1 } else { 0 }), ValueType::Boolean) == Some(SValue::Boolean(b)),
        convert_spec(SValue::Integer(i), ValueType::Boolean) == Some(SValue::Boolean(i != 0)),
        convert_spec(SValue::Null, ValueType::Boolean) == Some(SValue::Boolean(false)),
        convert_spec(SValue::Null, ValueType::Integer) == Some(SValue::Integer(0)),
{
}

// ---------------------------------------------------------------------------
// The rest of an array pattern.
// ---------------------------------------------------------------------------

proof fn lemma_discards_then_rest(
    fuel: nat,
    outer: Seq<(Seq<char>, SValue)>,
    slf: Seq<(Seq<char>, SValue)>,
    p: SPattern,
    a: Seq<SValue>,
    k: nat,
)
    requires
        p.body matches SPatternBody::Array(items, SRest::Collect(_)),
        forall|i: int| 0 <= i < p.body->Array_0.len() ==> (#[trigger] p.body->Array_0[i]).body is Discard,
        k <= p.body->Array_0.len() <= a.len(),
    ensures
        match_array(fuel, outer, slf, p, a, k)
            == match_pattern(fuel, outer, slf, *p.body->Array_1->Collect_0, SValue::Array(a.skip(p.body->Array_0.len() as int))),
    decreases p.body->Array_0.len() - k,
{
    let items = p.body->Array_0;
    if k < items.len() {
        assert(items[k as int].body is Discard);
        assert(match_pattern(fuel, outer, slf, items[k as int], a[k as int]) == Ok::<Seq<(Seq<char>, SValue)>, SPatternFail>(slf));
        assert(match_array(fuel, outer, slf, p, a, k) == match_array(fuel, outer, slf, p, a, k + 1));
        lemma_discards_then_rest(fuel, outer, slf, p, a, k + 1);
    }
}

/// Law: in an array pattern `[_, ..., _, ...r]` with `n` leading items,
/// matched against an array of at least `n` elements, the rest `r` is bound
/// to exactly the elements after the first `n`, in order: as many as the
/// array has beyond `n`.
pub proof fn lemma_array_rest_is_tail(
    fuel: nat,
    outer: Seq<(Seq<char>, SValue)>,
    slf: Seq<(Seq<char>, SValue)>,
    items: Seq<SPattern>,
    r: Seq<char>,
    rest_location: Option<Location>,
    location: Option<Location>,
    a: Seq<SValue>,
)
    requires
        forall|i: int| 0 <= i < items.len() ==> (#[trigger] items[i]).body is Discard,
        items.len() <= a.len(),
        !smap_has(slf, r),
    ensures
        ({
            let rest = SPattern { body: SPatternBody::Identifier(r), location: rest_location };
            let p = SPattern { body: SPatternBody::Array(items, SRest::Collect(Box::new(rest))), location };
            &&& match_pattern(fuel, outer, slf, p, SValue::Array(a)) is Ok
            &&& match_pattern(fuel, outer, slf, p, SValue::Array(a)) matches Ok(e) ==> ({
                &&& smap_get(e, r) matches Some(SValue::Array(t))
                &&& t.len() == a.len() - items.len()
                &&& forall|i: int| 0 <= i < t.len() ==> #[trigger] t[i] == a[i + items.len()]
                &&& keeps_bindings(slf, e)
            })
        }),
{
    let rest = SPattern { body: SPatternBody::Identifier(r), location: rest_location };
    let p = SPattern { body: SPatternBody::Array(items, SRest::Collect(Box::new(rest))), location };
    lemma_discards_then_rest(fuel, outer, slf, p, a, 0);
    let tail = a.skip(items.len() as int);
    lemma_get_after_insert(slf, r, SValue::Array(tail));
    lemma_match_only_adds(fuel, outer, slf, p, SValue::Array(a));
}

/// The names of identifier patterns `items` are pairwise different, and
/// different from `r`.
pub open spec fn distinct_identifier_items(items: Seq<SPattern>, r: Seq<char>) -> bool {
    &&& forall|i: int| 0 <= i < items.len() ==> (#[trigger] items[i]).body is Identifier
    &&& forall|i: int, j: int| 0 <= i < j < items.len() ==> (#[trigger] items[i]).body->Identifier_0 != (#[trigger] items[j]).body->Identifier_0
    &&& forall|i: int| 0 <= i < items.len() ==> (#[trigger] items[i]).body->Identifier_0 != r
}

proof fn lemma_identifiers_then_rest(
    fuel: nat,
    outer: Seq<(Seq<char>, SValue)>,
    s: Seq<(Seq<char>, SValue)>,
    p: SPattern,
    a: Seq<SValue>,
    k: nat,
)
    requires
        p.body matches SPatternBody::Array(items, SRest::Collect(q)) && q.body is Identifier,
        distinct_identifier_items(p.body->Array_0, p.body->Array_1->Collect_0.body->Identifier_0),
        k <= p.body->Array_0.len() <= a.len(),
        forall|i: int| k <= i < p.body->Array_0.len() ==> !smap_has(s, (#[trigger] p.body->Array_0[i]).body->Identifier_0),
        !smap_has(s, p.body->Array_1->Collect_0.body->Identifier_0),
    ensures
        match_array(fuel, outer, s, p, a, k) matches Ok(e) && ({
            let items = p.body->Array_0;
            let r = p.body->Array_1->Collect_0.body->Identifier_0;
            &&& forall|i: int| k <= i < items.len() ==> smap_get(e, (#[trigger] items[i]).body->Identifier_0) == Some(a[i])
            &&& smap_get(e, r) == Some(SValue::Array(a.skip(items.len() as int)))
            &&& keeps_bindings(s, e)
        }),
    decreases p.body->Array_0.len() - k,
{
    let items = p.body->Array_0;
    let q = *p.body->Array_1->Collect_0;
    let r = q.body->Identifier_0;
    if k < items.len() {
        let x = items[k as int].body->Identifier_0;
        assert(items[k as int].body is Identifier);
        let s2 = smap_insert(s, x, a[k as int]);
        lemma_get_after_insert(s, x, a[k as int]);
        assert(match_pattern(fuel, outer, s, items[k as int], a[k as int]) == Ok::<Seq<(Seq<char>, SValue)>, SPatternFail>(s2));
        assert forall|i: int| k + 1 <= i < items.len() implies !smap_has(s2, (#[trigger] items[i]).body->Identifier_0) by {
            assert(items[i].body->Identifier_0 != x);
            lemma_get_after_insert_other(s, x, a[k as int], items[i].body->Identifier_0);
        }
        lemma_get_after_insert_other(s, x, a[k as int], r);
        assert forall|y: Seq<char>| smap_has(s, y) implies #[trigger] smap_get(s2, y) == smap_get(s, y) by {
            lemma_get_after_insert_other(s, x, a[k as int], y);
        }
        lemma_identifiers_then_rest(fuel, outer, s2, p, a, k + 1);
        let e = match_array(fuel, outer, s2, p, a, k + 1)->Ok_0;
        assert(match_array(fuel, outer, s, p, a, k) == match_array(fuel, outer, s2, p, a, k + 1));
        assert(smap_has(s2, x));
        assert(smap_get(e, x) == Some(a[k as int]));
        assert forall|y: Seq<char>| smap_has(s, y) implies #[trigger] smap_get(e, y) == smap_get(s, y) by {
            assert(smap_get(s2, y) == smap_get(s, y));
        }
        assert forall|i: int| k <= i < items.len() implies smap_get(e, (#[trigger] items[i]).body->Identifier_0) == Some(a[i]) by {
            if i == k {
                assert(items[i].body->Identifier_0 == x);
            }
        }
    } else {
        let tail = SValue::Array(a.skip(items.len() as int));
        let e = smap_insert(s, r, tail);
        lemma_get_after_insert(s, r, tail);
        assert forall|y: Seq<char>| smap_has(s, y) implies #[trigger] smap_get(e, y) == smap_get(s, y) by {
            lemma_get_after_insert_other(s, r, tail, y);
        }
        assert(q.body == SPatternBody::Identifier(r));
        assert(match_identifier(s, r, tail) == Ok::<Seq<(Seq<char>, SValue)>, crate::runtime::semantics::SPatternFailReason>(e));
        assert(match_pattern(fuel, outer, s, q, tail) == Ok::<Seq<(Seq<char>, SValue)>, SPatternFail>(e));
        assert(match_array(fuel, outer, s, p, a, k) == Ok::<Seq<(Seq<char>, SValue)>, SPatternFail>(e));
    }
}

/// Law: matching `[x_0, ..., x_{n-1}, ...r]`, with names all different and
/// not yet bound, against an array of at least `n` elements binds each
/// `x_i` to the element at position `i` and `r` to the elements after the
/// first `n`, and keeps every earlier binding.
pub proof fn lemma_array_pattern_binds_positions(
    fuel: nat,
    outer: Seq<(Seq<char>, SValue)>,
    slf: Seq<(Seq<char>, SValue)>,
    items: Seq<SPattern>,
    r: Seq<char>,
    rest_location: Option<Location>,
    location: Option<Location>,
    a: Seq<SValue>,
)
    requires
        distinct_identifier_items(items, r),
        items.len() <= a.len(),
        forall|i: int| 0 <= i < items.len() ==> !smap_has(slf, (#[trigger] items[i]).body->Identifier_0),
        !smap_has(slf, r),
    ensures
        ({
            let rest = SPattern { body: SPatternBody::Identifier(r), location: rest_location };
            let p = SPattern { body: SPatternBody::Array(items, SRest::Collect(Box::new(rest))), location };
            match_pattern(fuel, outer, slf, p, SValue::Array(a)) matches Ok(e) && ({
                &&& forall|i: int| 0 <= i < items.len() ==> smap_get(e, (#[trigger] items[i]).body->Identifier_0) == Some(a[i])
                &&& smap_get(e, r) matches Some(SValue::Array(t))
                &&& t.len() == a.len() - items.len()
                &&& forall|i: int| 0 <= i < t.len() ==> #[trigger] t[i] == a[i + items.len()]
                &&& keeps_bindings(slf, e)
            })
        }),
{
    let rest = SPattern { body: SPatternBody::Identifier(r), location: rest_location };
    let p = SPattern { body: SPatternBody::Array(items, SRest::Collect(Box::new(rest))), location };
    lemma_identifiers_then_rest(fuel, outer, slf, p, a, 0);
}

// ---------------------------------------------------------------------------
// Printing operators.
// ---------------------------------------------------------------------------

/// Law: every binary operator but `as` is printed as the token that the
/// expression grammar reads as that operator: at one of the levels of
/// binary operators, the first operator that the printed text begins with
/// is the operator itself, and it takes the whole text. (`as` prints as
/// `cast`.)
pub proof fn lemma_binary_operator_text_reads_back(op: BinaryOperator)
    requires
        op != BinaryOperator::Cast,
    ensures
        exists|level: nat| 1 <= level <= 8
            && #[trigger] first_operator(binary_op_text(op), 0, level_operators(level))
                == Some((SOperator::Binary(op), binary_op_text(op).len())),
{
    reveal_with_fuel(first_operator, 8);
    reveal_strlit("==");
    reveal_strlit("!=");
    reveal_strlit("<");
    reveal_strlit(">");
    reveal_strlit("<=");
    reveal_strlit(">=");
    reveal_strlit("+");
    reveal_strlit("-");
    reveal_strlit("*");
    reveal_strlit("/");
    reveal_strlit("%");
    reveal_strlit("in");
    reveal_strlit("^");
    reveal_strlit("is");
    let t = binary_op_text(op);
    assert(tag_at(t, 0, t)) by {
        assert(t.subrange(0, t.len() as int) =~= t);
    }
    assert forall|u: Seq<char>| u.len() > 0 && t.len() > 0 && u[0] != t[0] implies !tag_at(t, 0, u) by {
        if tag_at(t, 0, u) {
            assert(t.subrange(0, u.len() as int)[0] == u[0]);
        }
    }
    assert forall|u: Seq<char>| u.len() > t.len() implies !tag_at(t, 0, u) by {}
    let level: nat = match op {
        BinaryOperator::Plus | BinaryOperator::Minus => 3,
        BinaryOperator::Times | BinaryOperator::Over | BinaryOperator::Mod => 2,
        BinaryOperator::PowerOf => 1,
        BinaryOperator::Is => 6,
        _ => 4,
    };
    let ops = level_operators(level);
    let idx: int = match op {
        BinaryOperator::GreaterThanEqual => 0,
        BinaryOperator::LessThanEqual => 1,
        BinaryOperator::LessThan => 2,
        BinaryOperator::GreaterThan => 3,
        BinaryOperator::StrictEqual => 4,
        BinaryOperator::StrictNotEqual => 5,
        BinaryOperator::In => 6,
        BinaryOperator::Plus => 0,
        BinaryOperator::Minus => 1,
        BinaryOperator::Times => 0,
        BinaryOperator::Over => 1,
        BinaryOperator::Mod => 2,
        _ => 0,
    };
    assert(0 <= idx < ops.len());
    assert(ops[idx] == (t, SOperator::Binary(op)));
    assert forall|i: int| 0 <= i < idx implies !tag_at(t, 0, #[trigger] ops[i].0) by {
        assert(ops[i].0.len() > t.len() || (ops[i].0.len() > 0 && t.len() > 0 && ops[i].0[0] != t[0]));
    }
    lemma_first_operator_at(t, ops, idx);
}

/// Law: `-` negates an integer (so that `0 - x` and `-x` agree, and
/// negating twice gives `x` back), failing only on the least integer; `+`
/// leaves an integer as it is; `!` negates a boolean.
pub proof fn lemma_unary_operators(x: i64, b: bool)
    ensures
        x != i64::MIN ==> eval_unary(UnaryOperator::Minus, SValue::Integer(x)) == Ok::<SValue, SEvalError>(SValue::Integer((0 - x) as i64))
            && eval_unary(UnaryOperator::Minus, SValue::Integer((0 - x) as i64)) == Ok::<SValue, SEvalError>(SValue::Integer(x)),
        x == i64::MIN ==> eval_unary(UnaryOperator::Minus, SValue::Integer(x)) == Err::<SValue, SEvalError>(SEvalError::IntegerOverflow),
        eval_unary(UnaryOperator::Plus, SValue::Integer(x)) == Ok::<SValue, SEvalError>(SValue::Integer(x)),
        eval_unary(UnaryOperator::Not, SValue::Boolean(b)) == Ok::<SValue, SEvalError>(SValue::Boolean(!b)),
        b == (eval_unary(UnaryOperator::Not, SValue::Boolean(b)) == Ok::<SValue, SEvalError>(SValue::Boolean(false))),
{
}

/// Law: `||` and `&&` print as the tokens the expression grammar reads as
/// them.
pub proof fn lemma_logical_operator_text_reads_back(op: LogicalOperator)
    ensures
        first_operator(logical_op_text(op), 0, level_operators(if op == LogicalOperator::Or { 8 } else { 7 }))
            == Some((SOperator::Logical(op), logical_op_text(op).len())),
{
    reveal_with_fuel(first_operator, 2);
    reveal_strlit("||");
    reveal_strlit("&&");
    let t = logical_op_text(op);
    assert(t.subrange(0, t.len() as int) =~= t);
}

proof fn lemma_first_operator_at(t: Seq<char>, ops: Seq<(Seq<char>, SOperator)>, idx: int)
    requires
        0 <= idx < ops.len(),
        forall|i: int| 0 <= i < idx ==> !tag_at(t, 0, #[trigger] ops[i].0),
        tag_at(t, 0, ops[idx].0),
    ensures
        first_operator(t, 0, ops) == Some((ops[idx].1, ops[idx].0.len())),
    decreases idx,
{
    if idx > 0 {
        assert(!tag_at(t, 0, ops[0].0));
        let rest = ops.drop_first();
        assert forall|i: int| 0 <= i < idx - 1 implies !tag_at(t, 0, #[trigger] rest[i].0) by {
            assert(rest[i] == ops[i + 1]);
        }
        assert(rest[idx - 1] == ops[idx]);
        lemma_first_operator_at(t, rest, idx - 1);
    }
}

// ---------------------------------------------------------------------------
// Assignments read after they are bound.
// ---------------------------------------------------------------------------

/// In `order`, every assignment comes after an assignment that binds each
/// name it reads and that some assignment binds, unless `external` holds
/// the name; the names an assignment reads are those used by its expression
/// and by the expressions inside its pattern.
pub open spec fn reads_after_binds(assignments: Seq<SAssignment>, external: Seq<Seq<char>>, order: Seq<usize>) -> bool {
    forall|j: int, d: Seq<char>, m: int|
        0 <= j < order.len() && 0 <= m < assignments.len()
        && (#[trigger] pattern_expr_ids(assignments[order[j] as int].pattern).contains(d)
            || expr_ids(assignments[order[j] as int].expression).contains(d))
        && #[trigger] pattern_ids(assignments[m].pattern).contains(d)
        && !external.contains(d)
        ==> exists|k: int| 0 <= k < j && #[trigger] pattern_ids(assignments[order[k] as int].pattern).contains(d)
}

/// Law: the order in which a set of assignments is evaluated lists only
/// assignments of the set, and puts every assignment after the assignments
/// that bind a name it reads, where names read are those used by its
/// expression and by the expressions inside its pattern (computed keys and
/// pinned expressions); names bound already in the environment need no
/// such assignment.
pub proof fn lemma_assignments_read_after_bound(env: Seq<(Seq<char>, SValue)>, assignments: Seq<SAssignment>)
    requires
        assignments.len() <= usize::MAX,
    ensures
        topological_order(assignment_nodes(assignments), smap_keys(env)) matches Some(order) ==>
            (forall|j: int| 0 <= j < order.len() ==> #[trigger] order[j] < assignments.len())
            && reads_after_binds(assignments, smap_keys(env), order),
{
    let nodes = assignment_nodes(assignments);
    let external = smap_keys(env);
    lemma_topological_order_respects_dependencies(nodes, external);
    match topological_order(nodes, external) {
        Some(order) => {
            assert(respects_dependencies(nodes, external, order));
            assert(nodes.len() == assignments.len());
            assert forall|j: int| 0 <= j < order.len() implies #[trigger] order[j] < assignments.len() by {
                assert(order[j] < nodes.len());
            }
            assert forall|j: int, d: Seq<char>, m: int|
                0 <= j < order.len() && 0 <= m < assignments.len()
                && (#[trigger] pattern_expr_ids(assignments[order[j] as int].pattern).contains(d)
                    || expr_ids(assignments[order[j] as int].expression).contains(d))
                && #[trigger] pattern_ids(assignments[m].pattern).contains(d)
                && !external.contains(d)
                implies exists|k: int| 0 <= k < j && #[trigger] pattern_ids(assignments[order[k] as int].pattern).contains(d) by {
                let i = order[j] as int;
                assert(nodes[i] == assignment_node(assignments[i]));
                vstd::seq_lib::lemma_seq_concat_contains_all_elements(pattern_expr_ids(assignments[i].pattern), expr_ids(assignments[i].expression), d);
                assert(nodes[i].inputs.contains(d));
                assert(nodes[m].outputs.contains(d));
                assert(produced(nodes, d));
                assert(is_dependency(nodes, external, d));
                let k = choose|k: int| 0 <= k < j && #[trigger] nodes[order[k] as int].outputs.contains(d);
                assert(nodes[order[k] as int] == assignment_node(assignments[order[k] as int]));
            }
            assert(reads_after_binds(assignments, external, order));
        },
        None => {},
    }
}

// ---------------------------------------------------------------------------
// Bindings made by matching and by assignments.
// ---------------------------------------------------------------------------

proof fn lemma_match_identifier_sorted(slf: Seq<(Seq<char>, SValue)>, name: Seq<char>, v: SValue)
    requires
        smap_sorted(slf),
    ensures
        match_identifier(slf, name, v) matches Ok(r) ==> smap_sorted(r),
{
    if smap_get(slf, name) is None {
        lemma_insert_keeps_sorted(slf, name, v);
    }
}

proof fn lemma_match_sorted(fuel: nat, outer: Seq<(Seq<char>, SValue)>, slf: Seq<(Seq<char>, SValue)>, p: SPattern, v: SValue)
    requires
        smap_sorted(slf),
    ensures
        match_pattern(fuel, outer, slf, p, v) matches Ok(r) ==> smap_sorted(r),
    decreases fuel, p, 1int, 0int,
{
    match p.body {
        SPatternBody::Capture(name, inner) => {
            lemma_match_sorted(fuel, outer, slf, *inner, v);
            match match_pattern(fuel, outer, slf, *inner, v) {
                Ok(s) => lemma_match_identifier_sorted(s, name, v),
                Err(_) => {},
            }
        },
        SPatternBody::Identifier(name) => lemma_match_identifier_sorted(slf, name, v),
        SPatternBody::TypedIdentifier(name, _) => lemma_match_identifier_sorted(slf, name, v),
        SPatternBody::Object(props, rest) => match v {
            SValue::Object(o) => {
                lemma_match_object_sorted(fuel, outer, slf, p, o, 0, Seq::new(o.len(), |i: int| false));
            },
            _ => {},
        },
        SPatternBody::Array(items, rest) => match v {
            SValue::Array(a) => {
                lemma_match_array_sorted(fuel, outer, slf, p, a, 0);
            },
            _ => {},
        },
        _ => {},
    }
}

proof fn lemma_match_property_sorted(
    fuel: nat,
    outer: Seq<(Seq<char>, SValue)>,
    slf: Seq<(Seq<char>, SValue)>,
    prop: SObjectPropertyPattern,
    value: SValue,
)
    requires
        smap_sorted(slf),
    ensures
        match_property(fuel, outer, slf, prop, value) matches Ok(r) ==> smap_sorted(r),
    decreases fuel, prop, 2int, 0int,
{
    match prop {
        SObjectPropertyPattern::Single(id) => lemma_match_identifier_sorted(slf, id, value),
        SObjectPropertyPattern::Match(_, sub) => lemma_match_sorted(fuel, outer, slf, sub, value),
    }
}

proof fn lemma_match_object_sorted(
    fuel: nat,
    outer: Seq<(Seq<char>, SValue)>,
    slf: Seq<(Seq<char>, SValue)>,
    p: SPattern,
    o: Seq<(Seq<char>, SValue)>,
    k: nat,
    used: Seq<bool>,
)
    requires
        smap_sorted(slf),
    ensures
        match_object(fuel, outer, slf, p, o, k, used) matches Ok(r) ==> smap_sorted(r),
    decreases fuel, p, 0int, (match p.body { SPatternBody::Object(props, _) => props.len(), _ => 0 }) - k,
{
    match p.body {
        SPatternBody::Object(props, rest) => if k >= props.len() {
            match rest {
                SRest::Collect(q) => lemma_match_sorted(fuel, outer, slf, *q, SValue::Object(unused_entries(o, used))),
                _ => {},
            }
        } else {
            match prop_pattern_key(fuel, outer, props[k as int], p.location) {
                Ok(key) => {
                    let i = smap_index(o, key);
                    if !(i >= o.len() || used[i as int]) {
                        lemma_match_property_sorted(fuel, outer, slf, props[k as int], o[i as int].1);
                        match match_property(fuel, outer, slf, props[k as int], o[i as int].1) {
                            Ok(s) => lemma_match_object_sorted(fuel, outer, s, p, o, k + 1, used.update(i as int, true)),
                            Err(_) => {},
                        }
                    }
                },
                Err(_) => {},
            }
        },
        _ => {},
    }
}

proof fn lemma_match_array_sorted(
    fuel: nat,
    outer: Seq<(Seq<char>, SValue)>,
    slf: Seq<(Seq<char>, SValue)>,
    p: SPattern,
    a: Seq<SValue>,
    k: nat,
)
    requires
        smap_sorted(slf),
    ensures
        match_array(fuel, outer, slf, p, a, k) matches Ok(r) ==> smap_sorted(r),
    decreases fuel, p, 0int, (match p.body { SPatternBody::Array(items, _) => items.len(), _ => 0 }) - k,
{
    match p.body {
        SPatternBody::Array(items, rest) => if k >= items.len() {
            match rest {
                SRest::Collect(q) => lemma_match_sorted(fuel, outer, slf, *q, SValue::Array(a.skip(items.len() as int))),
                _ => {},
            }
        } else {
            lemma_match_sorted(fuel, outer, slf, items[k as int], a[k as int]);
            match match_pattern(fuel, outer, slf, items[k as int], a[k as int]) {
                Ok(s) => lemma_match_array_sorted(fuel, outer, s, p, a, k + 1),
                Err(_) => {},
            }
        },
        _ => {},
    }
}

/// Every name bound in `before` is bound in `after` to the same value.
pub open spec fn keeps_bindings(before: Seq<(Seq<char>, SValue)>, after: Seq<(Seq<char>, SValue)>) -> bool {
    forall|k: Seq<char>| smap_has(before, k) ==> #[trigger] smap_get(after, k) == smap_get(before, k)
}

proof fn lemma_match_identifier_keeps(slf: Seq<(Seq<char>, SValue)>, name: Seq<char>, v: SValue)
    ensures
        match_identifier(slf, name, v) matches Ok(r) ==> keeps_bindings(slf, r),
{
    if smap_get(slf, name) is None {
        assert forall|k: Seq<char>| smap_has(slf, k) implies #[trigger] smap_get(smap_insert(slf, name, v), k) == smap_get(slf, k) by {
            lemma_get_after_insert_other(slf, name, v, k);
        }
    }
}

/// Law: matching a pattern only adds bindings: every name that was bound
/// before a successful match is bound afterwards to the same value.
pub proof fn lemma_match_only_adds(fuel: nat, outer: Seq<(Seq<char>, SValue)>, slf: Seq<(Seq<char>, SValue)>, p: SPattern, v: SValue)
    ensures
        match_pattern(fuel, outer, slf, p, v) matches Ok(r) ==> keeps_bindings(slf, r),
    decreases fuel, p, 1int, 0int,
{
    match p.body {
        SPatternBody::Capture(name, inner) => {
            lemma_match_only_adds(fuel, outer, slf, *inner, v);
            match match_pattern(fuel, outer, slf, *inner, v) {
                Ok(s) => lemma_match_identifier_keeps(s, name, v),
                Err(_) => {},
            }
        },
        SPatternBody::Identifier(name) => lemma_match_identifier_keeps(slf, name, v),
        SPatternBody::TypedIdentifier(name, _) => lemma_match_identifier_keeps(slf, name, v),
        SPatternBody::Object(props, rest) => match v {
            SValue::Object(o) => {
                lemma_match_object_keeps(fuel, outer, slf, p, o, 0, Seq::new(o.len(), |i: int| false));
            },
            _ => {},
        },
        SPatternBody::Array(items, rest) => match v {
            SValue::Array(a) => {
                lemma_match_array_keeps(fuel, outer, slf, p, a, 0);
            },
            _ => {},
        },
        _ => {},
    }
}

proof fn lemma_match_property_keeps(
    fuel: nat,
    outer: Seq<(Seq<char>, SValue)>,
    slf: Seq<(Seq<char>, SValue)>,
    prop: SObjectPropertyPattern,
    value: SValue,
)
    ensures
        match_property(fuel, outer, slf, prop, value) matches Ok(r) ==> keeps_bindings(slf, r),
    decreases fuel, prop, 2int, 0int,
{
    match prop {
        SObjectPropertyPattern::Single(id) => lemma_match_identifier_keeps(slf, id, value),
        SObjectPropertyPattern::Match(_, sub) => lemma_match_only_adds(fuel, outer, slf, sub, value),
    }
}

proof fn lemma_match_object_keeps(
    fuel: nat,
    outer: Seq<(Seq<char>, SValue)>,
    slf: Seq<(Seq<char>, SValue)>,
    p: SPattern,
    o: Seq<(Seq<char>, SValue)>,
    k: nat,
    used: Seq<bool>,
)
    ensures
        match_object(fuel, outer, slf, p, o, k, used) matches Ok(r) ==> keeps_bindings(slf, r),
    decreases fuel, p, 0int, (match p.body { SPatternBody::Object(props, _) => props.len(), _ => 0 }) - k,
{
    match p.body {
        SPatternBody::Object(props, rest) => if k >= props.len() {
            match rest {
                SRest::Collect(q) => lemma_match_only_adds(fuel, outer, slf, *q, SValue::Object(unused_entries(o, used))),
                _ => {},
            }
        } else {
            match prop_pattern_key(fuel, outer, props[k as int], p.location) {
                Ok(key) => {
                    let i = smap_index(o, key);
                    if !(i >= o.len() || used[i as int]) {
                        lemma_match_property_keeps(fuel, outer, slf, props[k as int], o[i as int].1);
                        match match_property(fuel, outer, slf, props[k as int], o[i as int].1) {
                            Ok(s) => lemma_match_object_keeps(fuel, outer, s, p, o, k + 1, used.update(i as int, true)),
                            Err(_) => {},
                        }
                    }
                },
                Err(_) => {},
            }
        },
        _ => {},
    }
}

proof fn lemma_match_array_keeps(
    fuel: nat,
    outer: Seq<(Seq<char>, SValue)>,
    slf: Seq<(Seq<char>, SValue)>,
    p: SPattern,
    a: Seq<SValue>,
    k: nat,
)
    ensures
        match_array(fuel, outer, slf, p, a, k) matches Ok(r) ==> keeps_bindings(slf, r),
    decreases fuel, p, 0int, (match p.body { SPatternBody::Array(items, _) => items.len(), _ => 0 }) - k,
{
    match p.body {
        SPatternBody::Array(items, rest) => if k >= items.len() {
            match rest {
                SRest::Collect(q) => lemma_match_only_adds(fuel, outer, slf, *q, SValue::Array(a.skip(items.len() as int))),
                _ => {},
            }
        } else {
            lemma_match_only_adds(fuel, outer, slf, items[k as int], a[k as int]);
            match match_pattern(fuel, outer, slf, items[k as int], a[k as int]) {
                Ok(s) => lemma_match_array_keeps(fuel, outer, s, p, a, k + 1),
                Err(_) => {},
            }
        },
        _ => {},
    }
}

proof fn lemma_run_assignments_sorted(
    fuel: nat,
    local: Seq<(Seq<char>, SValue)>,
    collected: Seq<(Seq<char>, SValue)>,
    assignments: Seq<SAssignment>,
)
    requires
        smap_sorted(collected),
    ensures
        run_assignments(fuel, local, collected, assignments) matches Ok(r) ==> smap_sorted(r),
    decreases assignments.len(),
{
    if assignments.len() > 0 {
        let a = assignments[0];
        match eval(fuel, local, a.expression) {
            Ok(v) => {
                lemma_match_sorted(fuel, local, collected, a.pattern, v);
                match match_pattern(fuel, local, collected, a.pattern, v) {
                    Ok(bound) => lemma_run_assignments_sorted(fuel, smap_override(local, bound), bound, assignments.drop_first()),
                    Err(_) => {},
                }
            },
            Err(_) => {},
        }
    }
}

/// Law: the bindings that a set of assignments makes hold each name at
/// most once, in the order of names.
pub proof fn lemma_assignment_bindings_sorted(fuel: nat, env: Seq<(Seq<char>, SValue)>, assignments: Seq<SAssignment>)
    ensures
        eval_assignments(fuel, env, assignments) matches Ok(bound) ==> smap_sorted(bound),
{
    match crate::topology::topological_order(crate::syntax::assignment::assignment_nodes(assignments), crate::value::smap_keys(env)) {
        Some(order) => lemma_run_assignments_sorted(
            fuel,
            env,
            Seq::empty(),
            crate::syntax::assignment::permuted(assignments, order),
        ),
        None => {},
    }
}

// ---------------------------------------------------------------------------
// The REPL session.
// ---------------------------------------------------------------------------

/// Law: once a `let` command has been answered with the bindings it made,
/// each name it bound reads in the session as it was bound, and every other
/// name reads as it did before.
pub proof fn lemma_let_then_read(
    fuel: nat,
    env: Seq<(Seq<char>, SValue)>,
    assignments: Seq<SAssignment>,
    locals: Option<Seq<SAssignment>>,
    k: Seq<char>,
)
    ensures
        repl_step(fuel, env, SCommand::Assign(assignments, locals)) matches (Ok(SReplOutput::Bindings(bound)), after)
            ==> smap_get(after, k) == (if smap_has(bound, k) { smap_get(bound, k) } else { smap_get(env, k) }),
{
    let local = match locals {
        Some(l) => match eval_assignments(fuel, env, l) {
            Ok(b) => Ok(smap_override(env, b)),
            Err(e) => Err(e),
        },
        None => Ok(env),
    };
    match local {
        Ok(local) => {
            lemma_assignment_bindings_sorted(fuel, local, assignments);
            match eval_assignments(fuel, local, assignments) {
                Ok(bound) => lemma_override_get(env, bound, k),
                Err(_) => {},
            }
        },
        Err(_) => {},
    }
}

/// Law: a command that the session refuses leaves its bindings as they
/// were, and only `let` and `.clearenv` change them.
pub proof fn lemma_bindings_change_only_by_let_or_clear(fuel: nat, env: Seq<(Seq<char>, SValue)>, command: SCommand)
    ensures
        repl_step(fuel, env, command).0 is Err ==> repl_step(fuel, env, command).1 == env,
        !(command is Assign) && !(command is ClearEnv) ==> repl_step(fuel, env, command).1 == env,
{
}

/// Law: after `.clearenv`, the session has no bindings.
pub proof fn lemma_clear_empties(fuel: nat, env: Seq<(Seq<char>, SValue)>)
    ensures
        repl_step(fuel, env, SCommand::ClearEnv) == (Ok::<SReplOutput, crate::repl::io::ReplError>(SReplOutput::Success), Seq::<(Seq<char>, SValue)>::empty()),
        repl_step(fuel, Seq::empty(), SCommand::ShowEnv).0 == Ok::<SReplOutput, crate::repl::io::ReplError>(SReplOutput::Bindings(Seq::empty())),
{
}


proof fn lemma_insert_greatest(m: Seq<(Seq<char>, SValue)>, k: Seq<char>, v: SValue)
    requires
        forall|j: int| 0 <= j < m.len() ==> seq_lt(#[trigger] m[j].0, k),
    ensures
        smap_insert(m, k, v) == m.push((k, v)),
    decreases m.len(),
{
    if m.len() > 0 {
        assert(seq_lt(m[0].0, k));
        lemma_seq_lt_irreflexive(k);
        if seq_lt(k, m[0].0) {
            lemma_seq_lt_transitive(k, m[0].0, k);
        }
        assert forall|j: int| 0 <= j < m.drop_first().len() implies seq_lt(#[trigger] m.drop_first()[j].0, k) by {
            assert(m.drop_first()[j] == m[j + 1]);
        }
        lemma_insert_greatest(m.drop_first(), k, v);
        assert(seq![m[0]] + m.drop_first().push((k, v)) =~= m.push((k, v)));
    } else {
        assert(seq![(k, v)] =~= m.push((k, v)));
    }
}

/// Overriding `m` with `b`, where every key of `m` comes before every key
/// of the sorted map `b`, appends `b` to `m`.
proof fn lemma_override_append(m: Seq<(Seq<char>, SValue)>, b: Seq<(Seq<char>, SValue)>)
    requires
        smap_sorted(b),
        forall|i: int, j: int| 0 <= i < m.len() && 0 <= j < b.len() ==> seq_lt(#[trigger] m[i].0, #[trigger] b[j].0),
    ensures
        smap_override(m, b) == m + b,
    decreases b.len(),
{
    if b.len() == 0 {
        assert(m + b =~= m);
    } else {
        let k0 = b[0].0;
        assert forall|j: int| 0 <= j < m.len() implies seq_lt(#[trigger] m[j].0, k0) by {
            assert(seq_lt(m[j].0, b[0].0));
        }
        lemma_insert_greatest(m, k0, b[0].1);
        let m2 = m.push(b[0]);
        let tail = b.drop_first();
        lemma_sorted_tail(b);
        assert forall|i: int, j: int| 0 <= i < m2.len() && 0 <= j < tail.len() implies seq_lt(#[trigger] m2[i].0, #[trigger] tail[j].0) by {
            assert(tail[j] == b[j + 1]);
            if i < m.len() {
                assert(m2[i] == m[i]);
            } else {
                assert(m2[i] == b[0]);
            }
        }
        lemma_override_append(m2, tail);
        assert(m2 + tail =~= m + b);
    }
}

/// Law: a `let` in a session without bindings leaves the session bound to
/// exactly what the answer reports, so its names are those of the answer,
/// in increasing order.
pub proof fn lemma_let_into_empty(fuel: nat, assignments: Seq<SAssignment>, locals: Option<Seq<SAssignment>>)
    ensures
        repl_step(fuel, Seq::empty(), SCommand::Assign(assignments, locals)) matches (Ok(SReplOutput::Bindings(bound)), after)
            ==> after == bound && smap_sorted(after),
{
    let env = Seq::<(Seq<char>, SValue)>::empty();
    let local = match locals {
        Some(l) => match eval_assignments(fuel, env, l) {
            Ok(b) => Ok(smap_override(env, b)),
            Err(e) => Err(e),
        },
        None => Ok(env),
    };
    match local {
        Ok(local) => {
            lemma_assignment_bindings_sorted(fuel, local, assignments);
            match eval_assignments(fuel, local, assignments) {
                Ok(bound) => {
                    lemma_override_append(env, bound);
                    assert(env + bound =~= bound);
                },
                Err(_) => {},
            }
        },
        Err(_) => {},
    }
}

/// Law: an assignment of an expression to a name binds just that name to
/// the expression's value (or fails as the expression does), provided the
/// expression reads the name only where the environment binds it.
pub proof fn lemma_assign_name(fuel: nat, env: Seq<(Seq<char>, SValue)>, x: Seq<char>, location: Option<Location>, e: SExpr)
    requires
        !expr_ids(e).contains(x) || crate::value::smap_keys(env).contains(x),
    ensures
        eval_assignments(fuel, env, seq![SAssignment { pattern: SPattern { body: SPatternBody::Identifier(x), location }, expression: e }])
            == match eval(fuel, env, e) {
                Ok(v) => Ok(seq![(x, v)]),
                Err(err) => Err(crate::runtime::assignment::SAssignmentError::EvalError(err)),
            },
{
    let p = SPattern { body: SPatternBody::Identifier(x), location };
    let a = SAssignment { pattern: p, expression: e };
    let asgs = seq![a];
    let nodes = crate::syntax::assignment::assignment_nodes(asgs);
    let ext = crate::value::smap_keys(env);
    let node = crate::syntax::assignment::assignment_node(a);
    assert(nodes =~= seq![node]);
    assert(pattern_ids(p) =~= seq![x]);
    assert(crate::syntax::identifiers::pattern_expr_ids(p) =~= Seq::<Seq<char>>::empty());
    assert(node.inputs =~= expr_ids(e));
    let one: Seq<usize> = seq![0usize];
    assert forall|d: Seq<char>| #[trigger] nodes[0].inputs.contains(d) implies !crate::topology::is_dependency(nodes, ext, d) by {
        if crate::topology::produced(nodes, d) {
            let k = choose|k: int| 0 <= k < nodes.len() && #[trigger] nodes[k].outputs.contains(d);
            assert(k == 0);
            assert(d == x);
        }
    }
    assert(crate::topology::respects_dependencies(nodes, ext, one)) by {
        assert forall|i: usize| i < nodes.len() implies #[trigger] one.contains(i) by {
            assert(one[0] == i);
        }
    }
    crate::topology::lemma_topological_order_complete(nodes, ext);
    crate::topology::lemma_topological_order_respects_dependencies(nodes, ext);
    let order = crate::topology::topological_order(nodes, ext)->Some_0;
    assert(order.contains(0usize));
    assert(order.len() == 1) by {
        if order.len() > 1 {
            assert(order[0] < 1 && order[1] < 1);
            assert(order[0] != order[1]);
        }
    }
    assert(order =~= one);
    assert(crate::syntax::assignment::permuted(asgs, order) =~= asgs);
    assert(asgs.drop_first() =~= Seq::<SAssignment>::empty());
    assert(eval_assignments(fuel, env, asgs) == run_assignments(fuel, env, Seq::empty(), asgs));
    match eval(fuel, env, e) {
        Ok(v) => {
            let bound = seq![(x, v)];
            assert(smap_insert(Seq::empty(), x, v) =~= bound);
            assert(smap_get(Seq::empty(), x) is None);
            assert(match_identifier(Seq::empty(), x, v) == Ok::<_, crate::runtime::semantics::SPatternFailReason>(bound));
            assert(match_pattern(fuel, env, Seq::empty(), p, v) == Ok::<_, SPatternFail>(bound));
            assert(run_assignments(fuel, smap_override(env, bound), bound, Seq::empty()) == Ok::<_, crate::runtime::assignment::SAssignmentError>(bound));
            assert(run_assignments(fuel, env, Seq::empty(), asgs) == Ok::<_, crate::runtime::assignment::SAssignmentError>(bound));
        },
        Err(_) => {},
    }
}

} // verus!
