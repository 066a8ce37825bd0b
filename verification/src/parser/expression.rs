//! The parsers of expressions; each gives what its rule in `grammar` gives.
use vstd::prelude::*;
use crate::identifier::Identifier;
use crate::literal::{Literal, SLiteral};
use crate::syntax::location::Location;
use crate::syntax::expression::{
    Expression, ExpressionBody, ExpressionSet, ArrayItem, ObjectProperty, Property, PropertyKey,
    CallExpression, StringTemplate, StringTemplatePart, LambdaAbstraction, LambdaApplication,
    MatchCase, MatchExpression, IfElseExpression, ArrayComprehension, ObjectComprehension,
    ComprehensionSource, UnaryExpression, UnaryOperator, BinaryExpression, BinaryOperator,
    LogicalExpression, LogicalOperator, MemberExpression, SExpr, SExprBody, SArrayItem, SObjectProperty, SSource,
    SMatchCase, STemplatePart, body_view, array_items_view, object_props_view, sources_view,
    match_cases_view, template_parts_view,
};
use crate::syntax::pattern::{Pattern, PatternBody, SPattern, SPatternBody};
use crate::parser::input::{Input, ws_tag, tag, space0, multispace0, identifier, literal, string_literal, opt_pos, ws_tag_at};
use crate::parser::pattern::pattern;
use crate::parser::grammar::{
    expr_at, view_pos, whole, expression_atom_at, expression_identifier_at, enclosed_at, array_item_at,
    array_items_rest, array_items_at, object_property_at, object_props_rest, object_props_at, call_at, array_at,
    source_at, sources_from, comprehension_sources_at, array_comprehension_at, object_at, object_comprehension_at,
    pattern_maybe_parenthesized_at, lambda_at, match_arm_at, match_arms_rest, match_arms_at, match_at,
    condition_at, lambda_match_at, interpolation_from, backtick_from, template_part_at, template_parts_from,
    string_template_at, expression_literal_at, with_paren_at, unary_at, primary_at, SSegment,
    path_segment_at, extend_path, path_fold, path_at, SOperator, lambda_match_local, first_operator, level_operators,
    operator_spec, outer_span, combine_spec, operand_at, binary_fold, binary_at, expression_at,
    expression_list_rest, expression_list_at,
};

verus! {

pub open spec fn items_pos(r: &Option<(Vec<ArrayItem>, usize)>) -> Option<(Seq<SArrayItem>, nat)> {
    match r {
        Some((v, p)) => Some((array_items_view(v), *p as nat)),
        None => None,
    }
}

pub open spec fn props_pos(r: &Option<(Vec<ObjectProperty>, usize)>) -> Option<(Seq<SObjectProperty>, nat)> {
    match r {
        Some((v, p)) => Some((object_props_view(v), *p as nat)),
        None => None,
    }
}

pub open spec fn sources_pos(r: &Option<(Vec<ComprehensionSource>, usize)>) -> Option<(Seq<SSource>, nat)> {
    match r {
        Some((v, p)) => Some((sources_view(v), *p as nat)),
        None => None,
    }
}

pub open spec fn cases_pos(r: &Option<(Vec<MatchCase>, usize)>) -> Option<(Seq<SMatchCase>, nat)> {
    match r {
        Some((v, p)) => Some((match_cases_view(v), *p as nat)),
        None => None,
    }
}

/// The expressions of a list, in the model.
pub open spec fn exprs_view(v: &Vec<Expression>) -> Seq<SExpr> {
    Seq::new(v.len() as nat, |i: int| v[i]@)
}

fn located(inp: &Input, start: usize, body: ExpressionBody, end: usize) -> (r: Expression)
    requires
        inp.wf(),
        start <= inp.chars.len(),
        end <= inp.chars.len(),
    ensures
        r@ == expr_at(inp.chars@, start as nat, body_view(&body), end as nat),
{
    Expression::new_with_location(body, inp.location(start, end))
}

/// The location spanning two expressions, when both have one.
fn outer_location(left: &Expression, right: &Expression) -> (r: Option<Location>)
    ensures
        r == outer_span(left.location, right.location),
{
    match (left.location, right.location) {
        (Some(l), Some(r)) => Some(Location::new(l.start, r.end)),
        _ => None,
    }
}

fn expression_atom(inp: &Input, pos: usize) -> (r: Option<(Expression, usize)>)
    requires
        inp.wf(),
        pos <= inp.chars.len(),
    ensures
        view_pos(&r) == expression_atom_at(inp.chars@, pos as nat),
        r matches Some((_, p)) ==> pos <= p <= inp.chars.len(),
{
    match literal(inp, pos) {
        Some((l, p)) => Some((located(inp, pos, ExpressionBody::Literal(l), p), p)),
        None => None,
    }
}

/// An identifier as an expression.
pub fn expression_identifier(inp: &Input, pos: usize) -> (r: Option<(Expression, usize)>)
    requires
        inp.wf(),
        pos <= inp.chars.len(),
    ensures
        view_pos(&r) == expression_identifier_at(inp.chars@, pos as nat),
        r matches Some((_, p)) ==> pos <= p <= inp.chars.len(),
{
    match identifier(inp, pos) {
        Some((id, p)) => Some((located(inp, pos, ExpressionBody::Identifier(id), p), p)),
        None => None,
    }
}

/// `expression` between `(` and `)` (each with surrounding blanks).
fn parenthesized(inp: &Input, pos: usize) -> (r: Option<(Expression, usize)>)
    requires
        inp.wf(),
        pos <= inp.chars.len(),
    ensures
        view_pos(&r) == enclosed_at(inp.chars@, pos as nat, "("@, ")"@),
        r matches Some((_, p)) ==> pos <= p <= inp.chars.len(),
    decreases inp.chars.len() - pos, 18int,
{
    proof {
        reveal_strlit("(");
        reveal_strlit(")");
    }
    let p1 = match ws_tag(inp, pos, "(") {
        Some(p) => p,
        None => return None,
    };
    let (e, p2) = match expression(inp, p1) {
        Some(x) => x,
        None => return None,
    };
    match ws_tag(inp, p2, ")") {
        Some(p3) => Some((e, p3)),
        None => None,
    }
}

fn expression_array_item(inp: &Input, pos: usize) -> (r: Option<(ArrayItem, usize)>)
    requires
        inp.wf(),
        pos <= inp.chars.len(),
    ensures
        view_pos(&r) == array_item_at(inp.chars@, pos as nat),
        r matches Some((_, p)) ==> pos <= p <= inp.chars.len(),
    decreases inp.chars.len() - pos, 41int,
{
    proof {
        reveal_strlit("...");
    }
    match ws_tag(inp, pos, "...") {
        Some(p1) => match expression(inp, p1) {
            Some((e, p2)) => return Some((ArrayItem::Spread(e), p2)),
            None => {},
        },
        None => {},
    }
    match expression(inp, pos) {
        Some((e, p)) => Some((ArrayItem::Single(e), p)),
        None => None,
    }
}

/// Array items separated by `,`, at least one, with an optional `,` at the
/// end.
#[verifier::loop_isolation(false)]
fn array_items(inp: &Input, pos: usize) -> (r: Option<(Vec<ArrayItem>, usize)>)
    requires
        inp.wf(),
        pos <= inp.chars.len(),
    ensures
        items_pos(&r) == array_items_at(inp.chars@, pos as nat),
        r matches Some((_, p)) ==> pos <= p <= inp.chars.len(),
    decreases inp.chars.len() - pos, 42int,
{
    proof {
        reveal(array_items_at);
    }
    proof {
        reveal_strlit(",");
    }
    let ghost s = inp.chars@;
    let (first, p) = match expression_array_item(inp, pos) {
        Some(x) => x,
        None => return None,
    };
    let ghost total = array_items_rest(s, p as nat);
    let ghost fv = first@;
    let mut items: Vec<ArrayItem> = Vec::new();
    items.push(first);
    assert(array_items_view(&items) =~= seq![fv]);
    let mut cur = p;
    loop
        invariant
            inp.wf(),
            s == inp.chars@,
            pos <= cur <= inp.chars.len(),
            array_items_view(&items) + array_items_rest(s, cur as nat).0 == seq![fv] + total.0,
            array_items_rest(s, cur as nat).1 == total.1,
        decreases inp.chars.len() - cur,
    {
        let q1 = match ws_tag(inp, cur, ",") {
            Some(q) => q,
            None => {
                assert(array_items_view(&items) + Seq::<SArrayItem>::empty() =~= array_items_view(&items));
                break;
            },
        };
        match expression_array_item(inp, q1) {
            Some((x, q2)) => {
                let ghost before = array_items_view(&items);
                let ghost xv = x@;
                items.push(x);
                assert(array_items_view(&items) =~= before.push(xv));
                assert(before + array_items_rest(s, cur as nat).0 =~= array_items_view(&items) + array_items_rest(s, q2 as nat).0);
                cur = q2;
            },
            None => {
                assert(array_items_view(&items) + Seq::<SArrayItem>::empty() =~= array_items_view(&items));
                break;
            },
        }
    }
    let end = match ws_tag(inp, cur, ",") {
        Some(q) => q,
        None => cur,
    };
    Some((items, end))
}

fn expression_object_property(inp: &Input, pos: usize) -> (r: Option<(ObjectProperty, usize)>)
    requires
        inp.wf(),
        pos <= inp.chars.len(),
    ensures
        view_pos(&r) == object_property_at(inp.chars@, pos as nat),
        r matches Some((_, p)) ==> pos <= p <= inp.chars.len(),
    decreases inp.chars.len() - pos, 41int,
{
    proof {
        reveal_strlit("...");
        reveal_strlit(":");
        reveal_strlit("[");
        reveal_strlit("]");
    }
    match ws_tag(inp, pos, "[") {
        Some(p1) => match expression(inp, p1) {
            Some((key, p2)) => match ws_tag(inp, p2, "]") {
                Some(p3) => match ws_tag(inp, p3, ":") {
                    Some(p4) => match expression(inp, p4) {
                        Some((value, p5)) => return Some((
                            ObjectProperty::Property(Property { key: PropertyKey::Expression(key), value }),
                            p5,
                        )),
                        None => {},
                    },
                    None => {},
                },
                None => {},
            },
            None => {},
        },
        None => {},
    }
    match identifier(inp, pos) {
        Some((id, p1)) => match ws_tag(inp, p1, ":") {
            Some(p2) => match expression(inp, p2) {
                Some((value, p3)) => return Some((
                    ObjectProperty::Property(Property { key: PropertyKey::Identifier(id), value }),
                    p3,
                )),
                None => {},
            },
            None => {},
        },
        None => {},
    }
    match string_literal(inp, pos) {
        Some((name, p1)) => match ws_tag(inp, p1, ":") {
            Some(p2) => match expression(inp, p2) {
                Some((value, p3)) => return Some((
                    ObjectProperty::Property(Property { key: PropertyKey::Identifier(Identifier::new_owned(name)), value }),
                    p3,
                )),
                None => {},
            },
            None => {},
        },
        None => {},
    }
    match ws_tag(inp, pos, "...") {
        Some(p1) => match expression(inp, p1) {
            Some((e, p2)) => return Some((ObjectProperty::Spread(e), p2)),
            None => {},
        },
        None => {},
    }
    match identifier(inp, pos) {
        Some((id, p)) => Some((ObjectProperty::Single(id), p)),
        None => None,
    }
}

/// Object properties separated by `,`, at least one, with an optional `,`
/// at the end.
#[verifier::loop_isolation(false)]
fn object_properties(inp: &Input, pos: usize) -> (r: Option<(Vec<ObjectProperty>, usize)>)
    requires
        inp.wf(),
        pos <= inp.chars.len(),
    ensures
        props_pos(&r) == object_props_at(inp.chars@, pos as nat),
        r matches Some((_, p)) ==> pos <= p <= inp.chars.len(),
    decreases inp.chars.len() - pos, 42int,
{
    proof {
        reveal(object_props_at);
    }
    proof {
        reveal_strlit(",");
    }
    let ghost s = inp.chars@;
    let (first, p) = match expression_object_property(inp, pos) {
        Some(x) => x,
        None => return None,
    };
    let ghost total = object_props_rest(s, p as nat);
    let ghost fv = first@;
    let mut props: Vec<ObjectProperty> = Vec::new();
    props.push(first);
    assert(object_props_view(&props) =~= seq![fv]);
    let mut cur = p;
    loop
        invariant
            inp.wf(),
            s == inp.chars@,
            pos <= cur <= inp.chars.len(),
            object_props_view(&props) + object_props_rest(s, cur as nat).0 == seq![fv] + total.0,
            object_props_rest(s, cur as nat).1 == total.1,
        decreases inp.chars.len() - cur,
    {
        let q1 = match ws_tag(inp, cur, ",") {
            Some(q) => q,
            None => {
                assert(object_props_view(&props) + Seq::<SObjectProperty>::empty() =~= object_props_view(&props));
                break;
            },
        };
        match expression_object_property(inp, q1) {
            Some((x, q2)) => {
                let ghost before = object_props_view(&props);
                let ghost xv = x@;
                props.push(x);
                assert(object_props_view(&props) =~= before.push(xv));
                assert(before + object_props_rest(s, cur as nat).0 =~= object_props_view(&props) + object_props_rest(s, q2 as nat).0);
                cur = q2;
            },
            None => {
                assert(object_props_view(&props) + Seq::<SObjectProperty>::empty() =~= object_props_view(&props));
                break;
            },
        }
    }
    let end = match ws_tag(inp, cur, ",") {
        Some(q) => q,
        None => cur,
    };
    Some((props, end))
}

fn expression_call(inp: &Input, pos: usize) -> (r: Option<(Expression, usize)>)
    requires
        inp.wf(),
        pos <= inp.chars.len(),
    ensures
        view_pos(&r) == call_at(inp.chars@, pos as nat),
        r matches Some((_, p)) ==> pos <= p <= inp.chars.len(),
    decreases inp.chars.len() - pos, 17int,
{
    let (function, p1) = match identifier(inp, pos) {
        Some(x) => x,
        None => return None,
    };
    let (argument, p2) = match parenthesized(inp, p1) {
        Some(x) => x,
        None => return None,
    };
    Some((located(inp, pos, ExpressionBody::Call(CallExpression { function, argument: Box::new(argument) }), p2), p2))
}

#[verifier::spinoff_prover]
#[verifier::rlimit(40)]
fn expression_array(inp: &Input, pos: usize) -> (r: Option<(Expression, usize)>)
    requires
        inp.wf(),
        pos <= inp.chars.len(),
    ensures
        view_pos(&r) == array_at(inp.chars@, pos as nat),
        r matches Some((_, p)) ==> pos <= p <= inp.chars.len(),
    decreases inp.chars.len() - pos, 17int,
{
    proof {
        reveal_strlit("[");
        reveal_strlit("]");
    }
    let p1 = match ws_tag(inp, pos, "[") {
        Some(p) => p,
        None => return None,
    };
    let ghost s = inp.chars@;
    let (items, p2) = match array_items(inp, p1) {
        Some(x) => x,
        None => {
            let empty: Vec<ArrayItem> = Vec::new();
            assert(array_items_view(&empty) =~= Seq::<SArrayItem>::empty());
            (empty, p1)
        },
    };
    let ghost iv = array_items_view(&items);
    assert(match array_items_at(s, p1 as nat) {
        Some(x) => x,
        None => (Seq::<SArrayItem>::empty(), p1 as nat),
    } == (iv, p2 as nat));
    match ws_tag(inp, p2, "]") {
        Some(p3) => {
            let e = located(inp, pos, ExpressionBody::Array(items), p3);
            assert(e@ == expr_at(s, pos as nat, SExprBody::Array(iv), p3 as nat));
            Some((e, p3))
        },
        None => None,
    }
}

/// A source of a comprehension.
fn comprehension_source(inp: &Input, cur: usize) -> (r: Option<(ComprehensionSource, usize)>)
    requires
        inp.wf(),
        cur <= inp.chars.len(),
    ensures
        view_pos(&r) == source_at(inp.chars@, cur as nat),
        r matches Some((_, p)) ==> cur < p <= inp.chars.len(),
    decreases inp.chars.len() - cur, 17int,
{
    proof {
        reveal(source_at);
        reveal_strlit("for");
        reveal_strlit("if");
        reveal_strlit("in");
        reveal_strlit("match");
    }
    let p1 = match ws_tag(inp, cur, "for") {
        Some(p) => p,
        None => return None,
    };
    let (weak, p2) = match ws_tag(inp, p1, "match") {
        Some(p) => (true, p),
        None => (false, p1),
    };
    let (pat, p3) = match pattern(inp, p2) {
        Some(x) => x,
        None => return None,
    };
    let p4 = match ws_tag(inp, p3, "in") {
        Some(p) => p,
        None => return None,
    };
    let (collection, p5) = match expression(inp, p4) {
        Some(x) => x,
        None => return None,
    };
    let (predicate, p6) = match ws_tag(inp, p5, "if") {
        Some(p) => match expression(inp, p) {
            Some((e, q)) => (Some(Box::new(e)), q),
            None => (None, p5),
        },
        None => (None, p5),
    };
    Some((ComprehensionSource { collection: Box::new(collection), pattern: pat, strong_pattern: !weak, predicate }, p6))
}

#[verifier::loop_isolation(false)]
#[verifier::spinoff_prover]
fn expression_comprehension_source(inp: &Input, pos: usize) -> (r: Option<(Vec<ComprehensionSource>, usize)>)
    requires
        inp.wf(),
        pos <= inp.chars.len(),
    ensures
        sources_pos(&r) == comprehension_sources_at(inp.chars@, pos as nat),
        r matches Some((_, p)) ==> pos <= p <= inp.chars.len(),
    decreases inp.chars.len() - pos, 18int,
{
    proof {
        reveal(comprehension_sources_at);
    }
    let ghost s = inp.chars@;
    let ghost total = sources_from(s, pos as nat);
    let mut sources: Vec<ComprehensionSource> = Vec::new();
    let mut cur = pos;
    assert(sources_view(&sources) =~= Seq::<SSource>::empty());
    assert(Seq::<SSource>::empty() + total.0 =~= total.0);
    loop
        invariant
            inp.wf(),
            s == inp.chars@,
            pos <= cur <= inp.chars.len(),
            sources_view(&sources) + sources_from(s, cur as nat).0 == total.0,
            sources_from(s, cur as nat).1 == total.1,
        decreases inp.chars.len() - cur,
    {
        match comprehension_source(inp, cur) {
            Some((source, p6)) => {
                let ghost before = sources_view(&sources);
                let ghost sv = source@;
                sources.push(source);
                assert(sources_view(&sources) =~= before.push(sv));
                assert(before + sources_from(s, cur as nat).0 =~= sources_view(&sources) + sources_from(s, p6 as nat).0);
                cur = p6;
            },
            None => {
                assert(sources_from(s, cur as nat) == (Seq::<SSource>::empty(), cur as nat));
                assert(sources_view(&sources) + Seq::<SSource>::empty() =~= sources_view(&sources));
                break;
            },
        }
    }
    assert(total == (sources_view(&sources), cur as nat));
    if sources.len() == 0 {
        None
    } else {
        Some((sources, cur))
    }
}

#[verifier::spinoff_prover]
#[verifier::rlimit(100)]
fn expression_array_comprehension(inp: &Input, pos: usize) -> (r: Option<(Expression, usize)>)
    requires
        inp.wf(),
        pos <= inp.chars.len(),
    ensures
        view_pos(&r) == array_comprehension_at(inp.chars@, pos as nat),
        r matches Some((_, p)) ==> pos <= p <= inp.chars.len(),
    decreases inp.chars.len() - pos, 17int,
{
    proof {
        reveal_strlit("[");
        reveal_strlit("]");
    }
    let p1 = match ws_tag(inp, pos, "[") {
        Some(p) => p,
        None => return None,
    };
    let (projection, p2) = match array_items(inp, p1) {
        Some(x) => x,
        None => return None,
    };
    let (sources, p3) = match expression_comprehension_source(inp, p2) {
        Some(x) => x,
        None => return None,
    };
    let ghost s = inp.chars@;
    let ghost sv = sources_view(&sources);
    let ghost iv = array_items_view(&projection);
    assert(array_items_at(s, p1 as nat) == Some((iv, p2 as nat)));
    assert(comprehension_sources_at(s, p2 as nat) == Some((sv, p3 as nat)));
    match ws_tag(inp, p3, "]") {
        Some(p4) => {
            let e = located(inp, pos, ExpressionBody::ArrayComp(ArrayComprehension { sources, projection }), p4);
            assert(e@ == expr_at(s, pos as nat, SExprBody::ArrayComp(sv, iv), p4 as nat));
            assert(array_comprehension_at(s, pos as nat) == Some((e@, p4 as nat)));
            Some((e, p4))
        },
        None => None,
    }
}

#[verifier::spinoff_prover]
#[verifier::rlimit(40)]
fn expression_object(inp: &Input, pos: usize) -> (r: Option<(Expression, usize)>)
    requires
        inp.wf(),
        pos <= inp.chars.len(),
    ensures
        view_pos(&r) == object_at(inp.chars@, pos as nat),
        r matches Some((_, p)) ==> pos <= p <= inp.chars.len(),
    decreases inp.chars.len() - pos, 17int,
{
    proof {
        reveal_strlit("{");
        reveal_strlit("}");
    }
    let p1 = match ws_tag(inp, pos, "{") {
        Some(p) => p,
        None => return None,
    };
    let ghost s = inp.chars@;
    let (props, p2) = match object_properties(inp, p1) {
        Some(x) => x,
        None => {
            let empty: Vec<ObjectProperty> = Vec::new();
            assert(object_props_view(&empty) =~= Seq::<SObjectProperty>::empty());
            (empty, p1)
        },
    };
    let ghost pv = object_props_view(&props);
    assert(match object_props_at(s, p1 as nat) {
        Some(x) => x,
        None => (Seq::<SObjectProperty>::empty(), p1 as nat),
    } == (pv, p2 as nat));
    match ws_tag(inp, p2, "}") {
        Some(p3) => {
            let e = located(inp, pos, ExpressionBody::Object(props), p3);
            assert(e@ == expr_at(s, pos as nat, SExprBody::Object(pv), p3 as nat));
            Some((e, p3))
        },
        None => None,
    }
}

#[verifier::spinoff_prover]
#[verifier::rlimit(100)]
fn expression_object_comprehension(inp: &Input, pos: usize) -> (r: Option<(Expression, usize)>)
    requires
        inp.wf(),
        pos <= inp.chars.len(),
    ensures
        view_pos(&r) == object_comprehension_at(inp.chars@, pos as nat),
        r matches Some((_, p)) ==> pos <= p <= inp.chars.len(),
    decreases inp.chars.len() - pos, 17int,
{
    proof {
        reveal_strlit("{");
        reveal_strlit("}");
    }
    let p1 = match ws_tag(inp, pos, "{") {
        Some(p) => p,
        None => return None,
    };
    let (projection, p2) = match object_properties(inp, p1) {
        Some(x) => x,
        None => return None,
    };
    let (sources, p3) = match expression_comprehension_source(inp, p2) {
        Some(x) => x,
        None => return None,
    };
    let ghost s = inp.chars@;
    let ghost sv = sources_view(&sources);
    let ghost pv = object_props_view(&projection);
    assert(object_props_at(s, p1 as nat) == Some((pv, p2 as nat)));
    assert(comprehension_sources_at(s, p2 as nat) == Some((sv, p3 as nat)));
    match ws_tag(inp, p3, "}") {
        Some(p4) => {
            let e = located(inp, pos, ExpressionBody::ObjectComp(ObjectComprehension { sources, projection }), p4);
            assert(e@ == expr_at(s, pos as nat, SExprBody::ObjectComp(sv, pv), p4 as nat));
            assert(object_comprehension_at(s, pos as nat) == Some((e@, p4 as nat)));
            Some((e, p4))
        },
        None => None,
    }
}

/// A pattern, possibly between `(` and `)`.
fn pattern_maybe_parenthesized(inp: &Input, pos: usize) -> (r: Option<(Pattern, usize)>)
    requires
        inp.wf(),
        pos <= inp.chars.len(),
    ensures
        view_pos(&r) == pattern_maybe_parenthesized_at(inp.chars@, pos as nat),
        r matches Some((_, p)) ==> pos <= p <= inp.chars.len(),
    decreases inp.chars.len() - pos, 17int,
{
    proof {
        reveal_strlit("(");
        reveal_strlit(")");
    }
    match ws_tag(inp, pos, "(") {
        Some(p1) => match pattern(inp, p1) {
            Some((pat, p2)) => match ws_tag(inp, p2, ")") {
                Some(p3) => return Some((pat, p3)),
                None => {},
            },
            None => {},
        },
        None => {},
    }
    pattern(inp, pos)
}

fn expression_lambda_abstraction(inp: &Input, pos: usize) -> (r: Option<(Expression, usize)>)
    requires
        inp.wf(),
        pos <= inp.chars.len(),
    ensures
        view_pos(&r) == lambda_at(inp.chars@, pos as nat),
        r matches Some((_, p)) ==> pos <= p <= inp.chars.len(),
    decreases inp.chars.len() - pos, 39int,
{
    proof {
        reveal_strlit("=>");
        reveal_strlit("fn");
    }
    let p1 = match ws_tag(inp, pos, "fn") {
        Some(p) => p,
        None => return None,
    };
    let (arguments, p2) = match pattern_maybe_parenthesized(inp, p1) {
        Some(x) => x,
        None => return None,
    };
    let p3 = match ws_tag(inp, p2, "=>") {
        Some(p) => p,
        None => return None,
    };
    match expression(inp, p3) {
        Some((body, p4)) => Some((
            located(inp, pos, ExpressionBody::Abstraction(LambdaAbstraction { arguments, body: Box::new(body) }), p4),
            p4,
        )),
        None => None,
    }
}

fn expression_match_arm(inp: &Input, pos: usize) -> (r: Option<(MatchCase, usize)>)
    requires
        inp.wf(),
        pos <= inp.chars.len(),
    ensures
        view_pos(&r) == match_arm_at(inp.chars@, pos as nat),
        r matches Some((_, p)) ==> pos <= p <= inp.chars.len(),
    decreases inp.chars.len() - pos, 18int,
{
    proof {
        reveal_strlit("=>");
        reveal_strlit("if");
    }
    let (pat, p1) = match pattern_maybe_parenthesized(inp, pos) {
        Some(x) => x,
        None => return None,
    };
    let (guard, p2) = match ws_tag(inp, p1, "if") {
        Some(p) => match expression(inp, p) {
            Some((g, q)) => (Some(Box::new(g)), q),
            None => (None, p1),
        },
        None => (None, p1),
    };
    let p3 = match ws_tag(inp, p2, "=>") {
        Some(p) => p,
        None => return None,
    };
    match expression(inp, p3) {
        Some((body, p4)) => Some((MatchCase { pattern: pat, guard, body: Box::new(body) }, p4)),
        None => None,
    }
}

/// Match arms between `{` and `}`, separated by `,`.
#[verifier::loop_isolation(false)]
fn match_arms(inp: &Input, pos: usize) -> (r: Option<(Vec<MatchCase>, usize)>)
    requires
        inp.wf(),
        pos <= inp.chars.len(),
    ensures
        cases_pos(&r) == match_arms_at(inp.chars@, pos as nat),
        r matches Some((_, p)) ==> pos <= p <= inp.chars.len(),
    decreases inp.chars.len() - pos, 19int,
{
    proof {
        reveal_strlit(",");
        reveal_strlit("{");
        reveal_strlit("}");
    }
    let p1 = match ws_tag(inp, pos, "{") {
        Some(p) => p,
        None => return None,
    };
    let ghost s = inp.chars@;
    let mut cases: Vec<MatchCase> = Vec::new();
    let mut cur = p1;
    match expression_match_arm(inp, p1) {
        Some((first, p)) => {
            let ghost total = match_arms_rest(s, p as nat);
            let ghost fv = first@;
            cases.push(first);
            assert(match_cases_view(&cases) =~= seq![fv]);
            cur = p;
            loop
                invariant
                    inp.wf(),
                    s == inp.chars@,
                    p1 <= cur <= inp.chars.len(),
                    pos < p1,
                    match_cases_view(&cases) + match_arms_rest(s, cur as nat).0 == seq![fv] + total.0,
                    match_arms_rest(s, cur as nat).1 == total.1,
                decreases inp.chars.len() - cur,
            {
                let q1 = match ws_tag(inp, cur, ",") {
                    Some(q) => q,
                    None => {
                        assert(match_cases_view(&cases) + Seq::<SMatchCase>::empty() =~= match_cases_view(&cases));
                        break;
                    },
                };
                match expression_match_arm(inp, q1) {
                    Some((x, q2)) => {
                        let ghost before = match_cases_view(&cases);
                        let ghost xv = x@;
                        cases.push(x);
                        assert(match_cases_view(&cases) =~= before.push(xv));
                        assert(before + match_arms_rest(s, cur as nat).0 =~= match_cases_view(&cases) + match_arms_rest(s, q2 as nat).0);
                        cur = q2;
                    },
                    None => {
                        assert(match_cases_view(&cases) + Seq::<SMatchCase>::empty() =~= match_cases_view(&cases));
                        break;
                    },
                }
            }
            match ws_tag(inp, cur, ",") {
                Some(q) => {
                    cur = q;
                },
                None => {},
            }
        },
        None => {
            assert(match_cases_view(&cases) =~= Seq::<SMatchCase>::empty());
        },
    }
    match ws_tag(inp, cur, "}") {
        Some(p) => Some((cases, p)),
        None => None,
    }
}

fn expression_match(inp: &Input, pos: usize) -> (r: Option<(Expression, usize)>)
    requires
        inp.wf(),
        pos <= inp.chars.len(),
    ensures
        view_pos(&r) == match_at(inp.chars@, pos as nat),
        r matches Some((_, p)) ==> pos <= p <= inp.chars.len(),
    decreases inp.chars.len() - pos, 39int,
{
    proof {
        reveal_strlit("match");
    }
    let p1 = match ws_tag(inp, pos, "match") {
        Some(p) => p,
        None => return None,
    };
    let (subject, p2) = match parenthesized(inp, p1) {
        Some(x) => x,
        None => match expression(inp, p1) {
            Some(x) => x,
            None => return None,
        },
    };
    match match_arms(inp, p2) {
        Some((cases, p3)) => Some((
            located(inp, pos, ExpressionBody::Match(MatchExpression { subject: Box::new(subject), cases }), p3),
            p3,
        )),
        None => None,
    }
}

/// `expression` between `{` and `}`.
fn braced(inp: &Input, pos: usize) -> (r: Option<(Expression, usize)>)
    requires
        inp.wf(),
        pos <= inp.chars.len(),
    ensures
        view_pos(&r) == enclosed_at(inp.chars@, pos as nat, "{"@, "}"@),
        r matches Some((_, p)) ==> pos <= p <= inp.chars.len(),
    decreases inp.chars.len() - pos, 18int,
{
    proof {
        reveal_strlit("{");
        reveal_strlit("}");
    }
    let p1 = match ws_tag(inp, pos, "{") {
        Some(p) => p,
        None => return None,
    };
    let (e, p2) = match expression(inp, p1) {
        Some(x) => x,
        None => return None,
    };
    match ws_tag(inp, p2, "}") {
        Some(p3) => Some((e, p3)),
        None => None,
    }
}

fn expression_condition(inp: &Input, pos: usize) -> (r: Option<(Expression, usize)>)
    requires
        inp.wf(),
        pos <= inp.chars.len(),
    ensures
        view_pos(&r) == condition_at(inp.chars@, pos as nat),
        r matches Some((_, p)) ==> pos <= p <= inp.chars.len(),
    decreases inp.chars.len() - pos, 39int,
{
    proof {
        reveal_strlit("else");
        reveal_strlit("if");
    }
    let p1 = match ws_tag(inp, pos, "if") {
        Some(p) => p,
        None => return None,
    };
    let (condition, p2) = match parenthesized(inp, p1) {
        Some(x) => x,
        None => match expression(inp, p1) {
            Some(x) => x,
            None => return None,
        },
    };
    let (true_branch, p3) = match braced(inp, p2) {
        Some(x) => x,
        None => return None,
    };
    let (false_branch, p4) = match ws_tag(inp, p3, "else") {
        Some(p) => match braced(inp, p) {
            Some((f, q)) => (Some(Box::new(f)), q),
            None => (None, p3),
        },
        None => (None, p3),
    };
    Some((
        located(inp, pos, ExpressionBody::Condition(IfElseExpression {
            condition: Box::new(condition),
            true_branch: Box::new(true_branch),
            false_branch,
        }), p4),
        p4,
    ))
}

fn expression_lambda_match_abstraction(inp: &Input, pos: usize) -> (r: Option<(Expression, usize)>)
    requires
        inp.wf(),
        pos <= inp.chars.len(),
    ensures
        view_pos(&r) == lambda_match_at(inp.chars@, pos as nat),
        r matches Some((_, p)) ==> pos <= p <= inp.chars.len(),
    decreases inp.chars.len() - pos, 39int,
{
    proof {
        reveal_strlit("fn match");
    }
    let p1 = match ws_tag(inp, pos, "fn match") {
        Some(p) => p,
        None => return None,
    };
    let (cases, p2) = match match_arms(inp, p1) {
        Some(x) => x,
        None => return None,
    };
    let ghost cv = match_cases_view(&cases);
    let arguments = Pattern::new(PatternBody::Identifier(Identifier::new("___local")));
    let subject = Expression::new(ExpressionBody::Identifier(Identifier::new("___local")));
    assert(subject@ == SExpr { body: SExprBody::Identifier(lambda_match_local()), location: None });
    let body = Expression::new(ExpressionBody::Match(MatchExpression { subject: Box::new(subject), cases }));
    let ghost bv = body@;
    assert(bv == SExpr { body: SExprBody::Match(Box::new(SExpr { body: SExprBody::Identifier(lambda_match_local()), location: None }), cv), location: None });
    assert(arguments@ == SPattern { body: SPatternBody::Identifier(lambda_match_local()), location: None });
    let ghost av = arguments@;
    let res = located(inp, pos, ExpressionBody::Abstraction(LambdaAbstraction { arguments, body: Box::new(body) }), p2);
    assert(res@ == expr_at(inp.chars@, pos as nat, SExprBody::Abstraction(Box::new(av), Box::new(bv)), p2 as nat));
    assert(match_arms_at(inp.chars@, p1 as nat) == Some((cv, p2 as nat)));
    assert(ws_tag_at(inp.chars@, pos as nat, "fn match"@) == Some(p1 as nat));
    Some((res, p2))
}

/// The position of the first `${` from `pos` on.
#[verifier::loop_isolation(false)]
fn find_interpolation(inp: &Input, pos: usize) -> (r: Option<usize>)
    requires
        pos <= inp.chars.len(),
    ensures
        opt_pos(r) == interpolation_from(inp.chars@, pos as nat),
        r matches Some(q) ==> pos <= q && q + 2 <= inp.chars.len(),
{
    let n = inp.chars.len();
    if n < 2 {
        return None;
    }
    let mut q = pos;
    while q < n - 1
        invariant
            n == inp.chars.len(),
            n >= 2,
            pos <= q <= inp.chars.len(),
            interpolation_from(inp.chars@, pos as nat) == interpolation_from(inp.chars@, q as nat),
        decreases inp.chars.len() - q,
    {
        if inp.chars[q] == '$' && inp.chars[q + 1] == '{' {
            return Some(q);
        }
        q += 1;
    }
    None
}

fn string_template_part(inp: &Input, pos: usize) -> (r: Option<(StringTemplatePart, usize)>)
    requires
        inp.wf(),
        pos <= inp.chars.len(),
    ensures
        view_pos(&r) == template_part_at(inp.chars@, pos as nat),
        r matches Some((_, p)) ==> pos < p <= inp.chars.len(),
    decreases inp.chars.len() - pos, 17int,
{
    proof {
        reveal_strlit("}");
    }
    let q = match find_interpolation(inp, pos) {
        Some(q) => q,
        None => return None,
    };
    let fixed_start = inp.slice(pos, q);
    let (e, p1) = match expression(inp, q + 2) {
        Some(x) => x,
        None => return None,
    };
    match tag(inp, p1, "}") {
        Some(p2) => Some((StringTemplatePart { fixed_start, dynamic_end: Box::new(e) }, p2)),
        None => None,
    }
}

#[verifier::loop_isolation(false)]
fn expression_string_template(inp: &Input, pos: usize) -> (r: Option<(Expression, usize)>)
    requires
        inp.wf(),
        pos <= inp.chars.len(),
    ensures
        view_pos(&r) == string_template_at(inp.chars@, pos as nat),
        r matches Some((_, p)) ==> pos <= p <= inp.chars.len(),
    decreases inp.chars.len() - pos, 17int,
{
    proof {
        reveal_strlit("`");
    }
    let p1 = match tag(inp, pos, "`") {
        Some(p) => p,
        None => return None,
    };
    let ghost s = inp.chars@;
    let ghost total = template_parts_from(s, p1 as nat);
    let mut parts: Vec<StringTemplatePart> = Vec::new();
    let mut cur = p1;
    assert(template_parts_view(&parts) + total.0 =~= total.0);
    loop
        invariant
            inp.wf(),
            s == inp.chars@,
            pos < p1 <= cur <= inp.chars.len(),
            template_parts_view(&parts) + template_parts_from(s, cur as nat).0 == total.0,
            template_parts_from(s, cur as nat).1 == total.1,
        decreases inp.chars.len() - cur,
    {
        match string_template_part(inp, cur) {
            Some((part, q)) => {
                let ghost before = template_parts_view(&parts);
                let ghost xv = part@;
                parts.push(part);
                assert(template_parts_view(&parts) =~= before.push(xv));
                assert(before + template_parts_from(s, cur as nat).0 =~= template_parts_view(&parts) + template_parts_from(s, q as nat).0);
                cur = q;
            },
            None => {
                assert(template_parts_view(&parts) + Seq::<STemplatePart>::empty() =~= template_parts_view(&parts));
                break;
            },
        }
    }
    let mut end = cur;
    while end < inp.chars.len() && inp.chars[end] != '`'
        invariant
            cur <= end <= inp.chars.len(),
            s == inp.chars@,
            backtick_from(s, cur as nat) == backtick_from(s, end as nat),
        decreases inp.chars.len() - end,
    {
        end += 1;
    }
    let suffix = inp.slice(cur, end);
    match tag(inp, end, "`") {
        Some(p2) => Some((located(inp, pos, ExpressionBody::Template(StringTemplate { parts, suffix }), p2), p2)),
        None => None,
    }
}

fn expression_literal(inp: &Input, pos: usize) -> (r: Option<(Expression, usize)>)
    requires
        inp.wf(),
        pos <= inp.chars.len(),
    ensures
        view_pos(&r) == expression_literal_at(inp.chars@, pos as nat),
        r matches Some((_, p)) ==> pos <= p <= inp.chars.len(),
    decreases inp.chars.len() - pos, 18int,
{
    match expression_object(inp, pos) {
        Some(x) => return Some(x),
        None => {},
    }
    match expression_array(inp, pos) {
        Some(x) => return Some(x),
        None => {},
    }
    match expression_array_comprehension(inp, pos) {
        Some(x) => return Some(x),
        None => {},
    }
    match expression_object_comprehension(inp, pos) {
        Some(x) => return Some(x),
        None => {},
    }
    match expression_string_template(inp, pos) {
        Some(x) => return Some(x),
        None => {},
    }
    match expression_call(inp, pos) {
        Some(x) => return Some(x),
        None => {},
    }
    expression_atom(inp, pos)
}

fn expression_with_paren(inp: &Input, pos: usize) -> (r: Option<(Expression, usize)>)
    requires
        inp.wf(),
        pos <= inp.chars.len(),
    ensures
        view_pos(&r) == with_paren_at(inp.chars@, pos as nat),
        r matches Some((_, p)) ==> pos <= p <= inp.chars.len(),
    decreases inp.chars.len() - pos, 18int,
{
    proof {
        reveal_strlit("(");
        reveal_strlit(")");
    }
    let p1 = match tag(inp, pos, "(") {
        Some(p) => p,
        None => return None,
    };
    let (e, p2) = match expression(inp, p1) {
        Some(x) => x,
        None => return None,
    };
    match tag(inp, p2, ")") {
        Some(p3) => Some((e, p3)),
        None => None,
    }
}

fn expression_unary(inp: &Input, pos: usize) -> (r: Option<(Expression, usize)>)
    requires
        inp.wf(),
        pos <= inp.chars.len(),
    ensures
        view_pos(&r) == unary_at(inp.chars@, pos as nat),
        r matches Some((_, p)) ==> pos <= p <= inp.chars.len(),
    decreases inp.chars.len() - pos, 18int,
{
    proof {
        reveal_strlit("!");
        reveal_strlit("+");
        reveal_strlit("-");
    }
    match ws_tag(inp, pos, "!") {
        Some(p1) => match expression_primary(inp, p1) {
            Some((argument, p2)) => return Some((
                located(inp, pos, ExpressionBody::Unary(UnaryExpression { operator: UnaryOperator::Not, argument: Box::new(argument) }), p2),
                p2,
            )),
            None => {},
        },
        None => {},
    }
    let (operator, p1) = match ws_tag(inp, pos, "-") {
        Some(p) => (UnaryOperator::Minus, p),
        None => match ws_tag(inp, pos, "+") {
            Some(p) => (UnaryOperator::Plus, p),
            None => return None,
        },
    };
    match expression_path(inp, p1) {
        Some((argument, p2)) => Some((
            located(inp, pos, ExpressionBody::Unary(UnaryExpression { operator, argument: Box::new(argument) }), p2),
            p2,
        )),
        None => None,
    }
}

fn expression_primary(inp: &Input, pos: usize) -> (r: Option<(Expression, usize)>)
    requires
        inp.wf(),
        pos <= inp.chars.len(),
    ensures
        view_pos(&r) == primary_at(inp.chars@, pos as nat),
        r matches Some((_, p)) ==> pos <= p <= inp.chars.len(),
    decreases inp.chars.len() - pos, 19int,
{
    match expression_with_paren(inp, pos) {
        Some(x) => return Some(x),
        None => {},
    }
    match expression_literal(inp, pos) {
        Some(x) => return Some(x),
        None => {},
    }
    match expression_identifier(inp, pos) {
        Some(x) => return Some(x),
        None => {},
    }
    expression_unary(inp, pos)
}

/// What follows a path: an index, a property or an application.
enum PathSegment {
    Application(Expression, Location),
    Index(Expression, Location),
    Prop(Identifier, Location),
}

impl View for PathSegment {
    type V = SSegment;

    closed spec fn view(&self) -> SSegment {
        match self {
            PathSegment::Application(e, l) => SSegment::Application(e@, *l),
            PathSegment::Index(e, l) => SSegment::Index(e@, *l),
            PathSegment::Prop(id, l) => SSegment::Prop(id@, *l),
        }
    }
}

fn path_segment(inp: &Input, pos: usize) -> (r: Option<(PathSegment, usize)>)
    requires
        inp.wf(),
        pos <= inp.chars.len(),
    ensures
        view_pos(&r) == path_segment_at(inp.chars@, pos as nat),
        r matches Some((_, p)) ==> pos < p <= inp.chars.len(),
    decreases inp.chars.len() - pos, 19int,
{
    proof {
        reveal_strlit(".");
        reveal_strlit("[");
        reveal_strlit("]");
    }
    match ws_tag(inp, pos, "[") {
        Some(p1) => match expression(inp, p1) {
            Some((e, p2)) => match ws_tag(inp, p2, "]") {
                Some(p3) => return Some((PathSegment::Index(e, inp.location(pos, p3)), p3)),
                None => {},
            },
            None => {},
        },
        None => {},
    }
    match ws_tag(inp, pos, ".") {
        Some(p1) => match identifier(inp, p1) {
            Some((id, p2)) => return Some((PathSegment::Prop(id, inp.location(p1, p2)), p2)),
            None => {},
        },
        None => {},
    }
    let ls = multispace0(inp, pos);
    let p1 = match tag(inp, ls, ".") {
        Some(p) => p,
        None => return None,
    };
    let p2 = multispace0(inp, p1);
    match expression_with_paren(inp, p2) {
        Some((e, p3)) => Some((PathSegment::Application(e, inp.location(ls, p3)), p3)),
        None => None,
    }
}

/// A path with one more segment; the location spans from the path's
/// start to the segment's end.
fn extend(acc: Expression, segment: PathSegment) -> (r: Expression)
    ensures
        r@ == extend_path(acc@, segment@),
{
    let right = match &segment {
        PathSegment::Application(_, loc) => *loc,
        PathSegment::Index(_, loc) => *loc,
        PathSegment::Prop(_, loc) => *loc,
    };
    let outer = match acc.location {
        Some(l) => Some(Location::new(l.start, right.end)),
        None => None,
    };
    let ghost av = acc@;
    let ghost sv = segment@;
    let ghost right_spec = match sv {
        SSegment::Application(_, loc) => loc,
        SSegment::Index(_, loc) => loc,
        SSegment::Prop(_, loc) => loc,
    };
    assert(right_spec == right);
    let ghost outer_spec = match av.location {
        Some(l) => Some(Location { start: l.start, end: right_spec.end }),
        None => None,
    };
    assert(outer_spec == outer);
    let ghost body_spec = match sv {
        SSegment::Application(param, _) => SExprBody::Application(Box::new(av), Box::new(param)),
        SSegment::Index(e, _) => SExprBody::Member(Box::new(av), Box::new(e)),
        SSegment::Prop(id, loc) => SExprBody::Member(
            Box::new(av),
            Box::new(SExpr { body: SExprBody::Literal(SLiteral::String(id)), location: Some(loc) }),
        ),
    };
    let body = match segment {
        PathSegment::Application(param, _) => {
            let b = ExpressionBody::Application(LambdaApplication {
                lambda: Box::new(acc),
                parameter: Box::new(param),
            });
            assert(body_view(&b) == body_spec);
            b
        },
        PathSegment::Index(e, _) => {
            let b = ExpressionBody::Member(MemberExpression {
                object: Box::new(acc),
                property: Box::new(e),
            });
            assert(body_view(&b) == body_spec);
            b
        },
        PathSegment::Prop(id, loc) => {
            let ghost idv = id@;
            assert(sv == SSegment::Prop(idv, loc));
            let lit = Literal::String(id.name);
            assert(lit@ == SLiteral::String(idv));
            let property = Expression::new_with_location(ExpressionBody::Literal(lit), loc);
            assert(property@ == SExpr { body: SExprBody::Literal(SLiteral::String(idv)), location: Some(loc) });
            let b = ExpressionBody::Member(MemberExpression {
                object: Box::new(acc),
                property: Box::new(property),
            });
            assert(body_view(&b) == body_spec);
            b
        },
    };
    let r = Expression::new_with_optional_location(body, outer);
    assert(r@ == SExpr { body: r@.body, location: outer_spec });
    r
}

#[verifier::loop_isolation(false)]
fn expression_path(inp: &Input, pos: usize) -> (r: Option<(Expression, usize)>)
    requires
        inp.wf(),
        pos <= inp.chars.len(),
    ensures
        view_pos(&r) == path_at(inp.chars@, pos as nat),
        r matches Some((_, p)) ==> pos <= p <= inp.chars.len(),
    decreases inp.chars.len() - pos, 20int,
{
    let (init, p0) = match expression_primary(inp, pos) {
        Some(x) => x,
        None => return None,
    };
    let ghost s = inp.chars@;
    let ghost total = path_fold(s, init@, p0 as nat);
    let mut acc = init;
    let mut cur = p0;
    loop
        invariant
            inp.wf(),
            s == inp.chars@,
            pos <= cur <= inp.chars.len(),
            path_fold(s, acc@, cur as nat) == total,
        decreases inp.chars.len() - cur,
    {
        let (segment, q) = match path_segment(inp, cur) {
            Some(x) => x,
            None => break,
        };
        let ghost sv = segment@;
        acc = extend(acc, segment);
        cur = q;
    }
    Some((acc, cur))
}

/// An operator of a binary level, with the blanks around it.
enum Operator {
    Logical(LogicalOperator),
    Binary(BinaryOperator),
}

impl View for Operator {
    type V = SOperator;

    closed spec fn view(&self) -> SOperator {
        match self {
            Operator::Logical(o) => SOperator::Logical(*o),
            Operator::Binary(o) => SOperator::Binary(*o),
        }
    }
}

/// The operator of level `level` at `pos` (after blanks), and the position
/// after it and the blanks that follow.
fn operator_at(inp: &Input, pos: usize, level: u8) -> (r: Option<(Operator, usize)>)
    requires
        pos <= inp.chars.len(),
    ensures
        view_pos(&r) == operator_spec(inp.chars@, pos as nat, level as nat),
        r matches Some((_, p)) ==> pos < p <= inp.chars.len(),
{
    proof {
        reveal_strlit("!=");
        reveal_strlit("%");
        reveal_strlit("&&");
        reveal_strlit("*");
        reveal_strlit("+");
        reveal_strlit("-");
        reveal_strlit("/");
        reveal_strlit("<");
        reveal_strlit("<=");
        reveal_strlit("==");
        reveal_strlit(">");
        reveal_strlit(">=");
        reveal_strlit("^");
        reveal_strlit("as");
        reveal_strlit("in");
        reveal_strlit("is");
        reveal_strlit("||");
    }
    proof {
        reveal_with_fuel(first_operator, 8);
    }
    let p0 = multispace0(inp, pos);
    let found: Option<(Operator, usize)> = if level == 8 {
        match tag(inp, p0, "||") {
            Some(p) => Some((Operator::Logical(LogicalOperator::Or), p)),
            None => None,
        }
    } else if level == 7 {
        match tag(inp, p0, "&&") {
            Some(p) => Some((Operator::Logical(LogicalOperator::And), p)),
            None => None,
        }
    } else if level == 6 {
        match tag(inp, p0, "is") {
            Some(p) => Some((Operator::Binary(BinaryOperator::Is), p)),
            None => None,
        }
    } else if level == 5 {
        match tag(inp, p0, "as") {
            Some(p) => Some((Operator::Binary(BinaryOperator::Cast), p)),
            None => None,
        }
    } else if level == 4 {
        match tag(inp, p0, ">=") {
            Some(p) => Some((Operator::Binary(BinaryOperator::GreaterThanEqual), p)),
            None => match tag(inp, p0, "<=") {
                Some(p) => Some((Operator::Binary(BinaryOperator::LessThanEqual), p)),
                None => match tag(inp, p0, "<") {
                    Some(p) => Some((Operator::Binary(BinaryOperator::LessThan), p)),
                    None => match tag(inp, p0, ">") {
                        Some(p) => Some((Operator::Binary(BinaryOperator::GreaterThan), p)),
                        None => match tag(inp, p0, "==") {
                            Some(p) => Some((Operator::Binary(BinaryOperator::StrictEqual), p)),
                            None => match tag(inp, p0, "!=") {
                                Some(p) => Some((Operator::Binary(BinaryOperator::StrictNotEqual), p)),
                                None => match tag(inp, p0, "in") {
                                    Some(p) => {
                                        if p < inp.chars.len() && (('a' <= inp.chars[p] && inp.chars[p] <= 'z')
                                            || ('A' <= inp.chars[p] && inp.chars[p] <= 'Z')) {
                                            None
                                        } else {
                                            Some((Operator::Binary(BinaryOperator::In), p))
                                        }
                                    },
                                    None => None,
                                },
                            },
                        },
                    },
                },
            },
        }
    } else if level == 3 {
        match tag(inp, p0, "+") {
            Some(p) => Some((Operator::Binary(BinaryOperator::Plus), p)),
            None => match tag(inp, p0, "-") {
                Some(p) => Some((Operator::Binary(BinaryOperator::Minus), p)),
                None => None,
            },
        }
    } else if level == 2 {
        match tag(inp, p0, "*") {
            Some(p) => Some((Operator::Binary(BinaryOperator::Times), p)),
            None => match tag(inp, p0, "/") {
                Some(p) => Some((Operator::Binary(BinaryOperator::Over), p)),
                None => match tag(inp, p0, "%") {
                    Some(p) => Some((Operator::Binary(BinaryOperator::Mod), p)),
                    None => None,
                },
            },
        }
    } else {
        match tag(inp, p0, "^") {
            Some(p) => Some((Operator::Binary(BinaryOperator::PowerOf), p)),
            None => None,
        }
    };
    match found {
        Some((op, p)) => Some((op, multispace0(inp, p))),
        None => None,
    }
}

/// The operand of binary level `level`.
fn operand(inp: &Input, pos: usize, level: u8) -> (r: Option<(Expression, usize)>)
    requires
        inp.wf(),
        pos <= inp.chars.len(),
        1 <= level <= 8,
    ensures
        view_pos(&r) == operand_at(inp.chars@, pos as nat, level as nat),
        r matches Some((_, p)) ==> pos <= p <= inp.chars.len(),
    decreases inp.chars.len() - pos, 20 + 2 * level,
{
    if level == 1 {
        expression_path(inp, pos)
    } else {
        binary_level(inp, pos, level - 1)
    }
}

fn combine(op: Operator, left: Expression, right: Expression) -> (r: Expression)
    ensures
        r@ == combine_spec(op@, left@, right@),
{
    let location = outer_location(&left, &right);
    let body = match op {
        Operator::Logical(operator) => ExpressionBody::Logical(LogicalExpression {
            operator,
            left: Box::new(left),
            right: Box::new(right),
        }),
        Operator::Binary(operator) => ExpressionBody::Binary(BinaryExpression {
            operator,
            left: Box::new(left),
            right: Box::new(right),
        }),
    };
    Expression::new_with_optional_location(body, location)
}

/// Binary operators by precedence, loosest first: `||` (level 8), `&&`,
/// `is` (at most once), `as`, comparisons and `in`, `+ -`, `* / %`, and `^`
/// (level 1); each level folds to the left over operands of the next.
#[verifier::loop_isolation(false)]
fn binary_level(inp: &Input, pos: usize, level: u8) -> (r: Option<(Expression, usize)>)
    requires
        inp.wf(),
        pos <= inp.chars.len(),
        1 <= level <= 8,
    ensures
        view_pos(&r) == binary_at(inp.chars@, pos as nat, level as nat),
        r matches Some((_, p)) ==> pos <= p <= inp.chars.len(),
    decreases inp.chars.len() - pos, 21 + 2 * level,
{
    let (init, p0) = match operand(inp, pos, level) {
        Some(x) => x,
        None => return None,
    };
    if level == 6 {
        let (op, p1) = match operator_at(inp, p0, 6) {
            Some(x) => x,
            None => return Some((init, p0)),
        };
        return match binary_level(inp, p1, 4) {
            Some((right, p2)) => Some((combine(op, init, right), p2)),
            None => Some((init, p0)),
        };
    }
    let ghost s = inp.chars@;
    let ghost total = binary_fold(s, init@, p0 as nat, level as nat);
    let mut acc = init;
    let mut cur = p0;
    loop
        invariant
            inp.wf(),
            s == inp.chars@,
            pos <= cur <= inp.chars.len(),
            1 <= level <= 8,
            binary_fold(s, acc@, cur as nat, level as nat) == total,
        decreases inp.chars.len() - cur,
    {
        let (op, q1) = match operator_at(inp, cur, level) {
            Some(x) => x,
            None => break,
        };
        let (right, q2) = match operand(inp, q1, level) {
            Some(x) => x,
            None => break,
        };
        acc = combine(op, acc, right);
        cur = q2;
    }
    Some((acc, cur))
}

/// The expression at `pos`, and the position after it.
pub fn expression(inp: &Input, pos: usize) -> (r: Option<(Expression, usize)>)
    requires
        inp.wf(),
        pos <= inp.chars.len(),
    ensures
        view_pos(&r) == expression_at(inp.chars@, pos as nat),
        r matches Some((_, p)) ==> pos <= p <= inp.chars.len(),
    decreases inp.chars.len() - pos, 40int,
{
    match expression_lambda_match_abstraction(inp, pos) {
        Some(x) => return Some(x),
        None => {},
    }
    match expression_lambda_abstraction(inp, pos) {
        Some(x) => return Some(x),
        None => {},
    }
    match expression_match(inp, pos) {
        Some(x) => return Some(x),
        None => {},
    }
    match expression_condition(inp, pos) {
        Some(x) => return Some(x),
        None => {},
    }
    binary_level(inp, pos, 8)
}

/// A whole text that is one expression.
pub fn expression_all_consuming(source: &str) -> (r: Option<Expression>)
    ensures
        (match r {
            Some(e) => Some(e@),
            None => None,
        }) == whole(expression_at(source@, 0), source@),
{
    let inp = Input::new(source);
    match expression(&inp, 0) {
        Some((e, end)) => if end == inp.len() { Some(e) } else { None },
        None => None,
    }
}

/// Expressions separated by `;`, at least `min` of them, with an optional
/// `;` at the end.
#[verifier::loop_isolation(false)]
fn expression_list(inp: &Input, pos: usize, min: usize) -> (r: Option<(ExpressionSet, usize)>)
    requires
        inp.wf(),
        pos <= inp.chars.len(),
    ensures
        view_pos(&r) == expression_list_at(inp.chars@, pos as nat, min as nat),
        r matches Some((_, p)) ==> pos <= p <= inp.chars.len(),
{
    proof {
        reveal(expression_list_at);
    }
    proof {
        reveal_strlit(";");
    }
    let ghost s = inp.chars@;
    let p0 = space0(inp, pos);
    let mut expressions: Vec<Expression> = Vec::new();
    let mut cur = p0;
    match expression(inp, p0) {
        Some((first, p)) => {
            let ghost total = expression_list_rest(s, p as nat);
            let ghost fv = first@;
            expressions.push(first);
            assert(exprs_view(&expressions) =~= seq![fv]);
            cur = p;
            loop
                invariant
                    inp.wf(),
                    s == inp.chars@,
                    pos <= p0 <= cur <= inp.chars.len(),
                    exprs_view(&expressions) + expression_list_rest(s, cur as nat).0 == seq![fv] + total.0,
                    expression_list_rest(s, cur as nat).1 == total.1,
                decreases inp.chars.len() - cur,
            {
                let q1 = match ws_tag(inp, cur, ";") {
                    Some(q) => q,
                    None => {
                        assert(exprs_view(&expressions) + Seq::<SExpr>::empty() =~= exprs_view(&expressions));
                        break;
                    },
                };
                match expression(inp, q1) {
                    Some((x, q2)) => {
                        let ghost before = exprs_view(&expressions);
                        let ghost xv = x@;
                        expressions.push(x);
                        assert(exprs_view(&expressions) =~= before.push(xv));
                        assert(before + expression_list_rest(s, cur as nat).0 =~= exprs_view(&expressions) + expression_list_rest(s, q2 as nat).0);
                        cur = q2;
                    },
                    None => {
                        assert(exprs_view(&expressions) + Seq::<SExpr>::empty() =~= exprs_view(&expressions));
                        break;
                    },
                }
            }
        },
        None => {
            assert(exprs_view(&expressions) =~= Seq::<SExpr>::empty());
        },
    }
    if expressions.len() < min {
        return None;
    }
    let end = if min > 0 {
        match ws_tag(inp, cur, ";") {
            Some(q) => q,
            None => cur,
        }
    } else {
        let q0 = multispace0(inp, cur);
        let q1 = match tag(inp, q0, ";") {
            Some(q) => q,
            None => q0,
        };
        multispace0(inp, q1)
    };
    let ghost ev = exprs_view(&expressions);
    let set = ExpressionSet { expressions };
    assert(set@ =~= ev);
    Some((set, end))
}

/// One or more expressions separated by `;`.
pub fn expression_many1(inp: &Input, pos: usize) -> (r: Option<(ExpressionSet, usize)>)
    requires
        inp.wf(),
        pos <= inp.chars.len(),
    ensures
        view_pos(&r) == expression_list_at(inp.chars@, pos as nat, 1),
        r matches Some((_, p)) ==> pos <= p <= inp.chars.len(),
{
    expression_list(inp, pos, 1)
}

/// Zero or more expressions separated by `;`.
pub fn expression_many0(inp: &Input, pos: usize) -> (r: Option<(ExpressionSet, usize)>)
    requires
        inp.wf(),
        pos <= inp.chars.len(),
    ensures
        view_pos(&r) == expression_list_at(inp.chars@, pos as nat, 0),
        r matches Some((_, p)) ==> pos <= p <= inp.chars.len(),
{
    expression_list(inp, pos, 0)
}

/// A whole text that is one or more expressions separated by `;`.
pub fn expression_many1_all_consuming(source: &str) -> (r: Option<ExpressionSet>)
    ensures
        (match r {
            Some(e) => Some(e@),
            None => None,
        }) == whole(expression_list_at(source@, 0, 1), source@),
{
    let inp = Input::new(source);
    match expression_many1(&inp, 0) {
        Some((e, end)) => if end == inp.len() { Some(e) } else { None },
        None => None,
    }
}

/// A whole text that is zero or more expressions separated by `;`.
pub fn expression_many0_all_consuming(source: &str) -> (r: Option<ExpressionSet>)
    ensures
        (match r {
            Some(e) => Some(e@),
            None => None,
        }) == whole(expression_list_at(source@, 0, 0), source@),
{
    let inp = Input::new(source);
    match expression_many0(&inp, 0) {
        Some((e, end)) => if end == inp.len() { Some(e) } else { None },
        None => None,
    }
}

} // verus!
