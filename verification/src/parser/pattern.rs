//! The parsers of patterns; each gives what its rule in `grammar` gives.
use vstd::prelude::*;
use crate::syntax::expression::PropertyKey;
use crate::syntax::pattern::{
    Pattern, PatternBody, PatternSet, Rest, ArrayPatternItem, ObjectPropertyPattern, PropertyPattern,
    SPattern, SObjectPropertyPattern, pattern_body_view, object_prop_patterns_view, array_pattern_items_view,
};
use crate::parser::input::{Input, ws_tag, tag, space0, multispace0, identifier, literal, value_type_at, span};
use crate::parser::expression::{expression, expression_identifier};
use crate::parser::grammar::{
    pat_at, view_pos, whole, pattern_discard_at, pattern_typed_discard_at, pattern_identifier_at,
    pattern_typed_identifier_at, pattern_atom_at, pattern_pinned_at, pattern_object_prop_at, pattern_rest_at,
    trailing_rest_at, pattern_props_rest, pattern_object_at, pattern_items_rest, pattern_array_at,
    pattern_capture_at, pattern_at, pattern_list_rest, pattern_list_at,
};

verus! {

/// The patterns of a list, in the model.
pub open spec fn patterns_view(v: &Vec<Pattern>) -> Seq<SPattern> {
    Seq::new(v.len() as nat, |i: int| v[i]@)
}

fn located(inp: &Input, start: usize, body: PatternBody, end: usize) -> (r: Pattern)
    requires
        inp.wf(),
        start <= inp.chars.len(),
        end <= inp.chars.len(),
    ensures
        r@ == pat_at(inp.chars@, start as nat, pattern_body_view(&body), end as nat),
{
    Pattern::new_with_location(body, inp.location(start, end))
}

fn pattern_discard(inp: &Input, pos: usize) -> (r: Option<(Pattern, usize)>)
    requires
        inp.wf(),
        pos <= inp.chars.len(),
    ensures
        view_pos(&r) == pattern_discard_at(inp.chars@, pos as nat),
        r matches Some((_, p)) ==> pos <= p <= inp.chars.len(),
{
    match tag(inp, pos, "_") {
        Some(p) => Some((located(inp, pos, PatternBody::Discard, p), p)),
        None => None,
    }
}

fn pattern_typed_discard(inp: &Input, pos: usize) -> (r: Option<(Pattern, usize)>)
    requires
        inp.wf(),
        pos <= inp.chars.len(),
    ensures
        view_pos(&r) == pattern_typed_discard_at(inp.chars@, pos as nat),
        r matches Some((_, p)) ==> pos <= p <= inp.chars.len(),
{
    let p1 = match ws_tag(inp, pos, "_ is ") {
        Some(p1) => p1,
        None => return None,
    };
    match value_type_at(inp, p1) {
        Some((t, p2)) => Some((located(inp, pos, PatternBody::TypedDiscard(t), p2), p2)),
        None => None,
    }
}

fn pattern_identifier(inp: &Input, pos: usize) -> (r: Option<(Pattern, usize)>)
    requires
        inp.wf(),
        pos <= inp.chars.len(),
    ensures
        view_pos(&r) == pattern_identifier_at(inp.chars@, pos as nat),
        r matches Some((_, p)) ==> pos <= p <= inp.chars.len(),
{
    match identifier(inp, pos) {
        Some((id, p)) => Some((located(inp, pos, PatternBody::Identifier(id), p), p)),
        None => None,
    }
}

fn pattern_typed_identifier(inp: &Input, pos: usize) -> (r: Option<(Pattern, usize)>)
    requires
        inp.wf(),
        pos <= inp.chars.len(),
    ensures
        view_pos(&r) == pattern_typed_identifier_at(inp.chars@, pos as nat),
        r matches Some((_, p)) ==> pos <= p <= inp.chars.len(),
{
    let (id, p1) = match identifier(inp, pos) {
        Some(x) => x,
        None => return None,
    };
    let p2 = match tag(inp, p1, " is ") {
        Some(p2) => p2,
        None => return None,
    };
    match value_type_at(inp, p2) {
        Some((t, p3)) => Some((located(inp, pos, PatternBody::TypedIdentifier(id, t), p3), p3)),
        None => None,
    }
}

fn pattern_atom(inp: &Input, pos: usize) -> (r: Option<(Pattern, usize)>)
    requires
        inp.wf(),
        pos <= inp.chars.len(),
    ensures
        view_pos(&r) == pattern_atom_at(inp.chars@, pos as nat),
        r matches Some((_, p)) ==> pos <= p <= inp.chars.len(),
{
    match literal(inp, pos) {
        Some((l, p)) => Some((located(inp, pos, PatternBody::Literal(l), p), p)),
        None => None,
    }
}

fn pattern_pinned_expression(inp: &Input, pos: usize) -> (r: Option<(Pattern, usize)>)
    requires
        inp.wf(),
        pos <= inp.chars.len(),
    ensures
        view_pos(&r) == pattern_pinned_at(inp.chars@, pos as nat),
        r matches Some((_, p)) ==> pos <= p <= inp.chars.len(),
    decreases inp.chars.len() - pos, 15int,
{
    proof {
        reveal_strlit("^");
        reveal_strlit("(");
    }
    let p1 = match ws_tag(inp, pos, "^") {
        Some(p1) => p1,
        None => return None,
    };
    let inner = match ws_tag(inp, p1, "(") {
        Some(p2) => match expression(inp, p2) {
            Some((e, p3)) => match ws_tag(inp, p3, ")") {
                Some(p4) => Some((e, p4)),
                None => None,
            },
            None => None,
        },
        None => None,
    };
    let (e, p5) = match inner {
        Some(x) => x,
        None => match expression_identifier(inp, p1) {
            Some(x) => x,
            None => return None,
        },
    };
    Some((located(inp, pos, PatternBody::PinnedExpression(Box::new(e)), p5), p5))
}

fn pattern_object_prop(inp: &Input, pos: usize) -> (r: Option<(ObjectPropertyPattern, usize)>)
    requires
        inp.wf(),
        pos <= inp.chars.len(),
    ensures
        view_pos(&r) == pattern_object_prop_at(inp.chars@, pos as nat),
        r matches Some((_, p)) ==> pos <= p <= inp.chars.len(),
    decreases inp.chars.len() - pos, 14int,
{
    proof {
        reveal_strlit("[");
    }
    match ws_tag(inp, pos, "[") {
        Some(p1) => match expression(inp, p1) {
            Some((key, p2)) => match ws_tag(inp, p2, "]") {
                Some(p3) => match ws_tag(inp, p3, ":") {
                    Some(p4) => match pattern(inp, p4) {
                        Some((value, p5)) => return Some((
                            ObjectPropertyPattern::Match(PropertyPattern { key: PropertyKey::Expression(key), value }),
                            p5,
                        )),
                        None => {},
                    },
                    None => {},
                },
                None => {},
            },
            None => {},
        },
        None => {},
    }
    let (id, p1) = match identifier(inp, pos) {
        Some(x) => x,
        None => return None,
    };
    match ws_tag(inp, p1, ":") {
        Some(p2) => match pattern(inp, p2) {
            Some((value, p3)) => return Some((
                ObjectPropertyPattern::Match(PropertyPattern { key: PropertyKey::Identifier(id), value }),
                p3,
            )),
            None => {},
        },
        None => {},
    }
    Some((ObjectPropertyPattern::Single(id), p1))
}

fn pattern_rest(inp: &Input, pos: usize) -> (r: Option<(Rest, usize)>)
    requires
        inp.wf(),
        pos <= inp.chars.len(),
    ensures
        view_pos(&r) == pattern_rest_at(inp.chars@, pos as nat),
        r matches Some((_, p)) ==> pos <= p <= inp.chars.len(),
    decreases inp.chars.len() - pos, 14int,
{
    proof {
        reveal_strlit("...");
    }
    let p1 = match ws_tag(inp, pos, "...") {
        Some(p1) => p1,
        None => return None,
    };
    match pattern(inp, p1) {
        Some((q, p2)) => Some((Rest::Collect(Box::new(q)), p2)),
        None => Some((Rest::Discard, p1)),
    }
}

/// After the items of a collection pattern: `,` and a rest pattern, or
/// nothing.
fn trailing_rest(inp: &Input, pos: usize) -> (r: (Rest, usize))
    requires
        inp.wf(),
        pos <= inp.chars.len(),
    ensures
        (r.0@, r.1 as nat) == trailing_rest_at(inp.chars@, pos as nat),
        pos <= r.1 <= inp.chars.len(),
    decreases inp.chars.len() - pos, 14int,
{
    proof {
        reveal_strlit(",");
    }
    match ws_tag(inp, pos, ",") {
        Some(p1) => match pattern_rest(inp, p1) {
            Some((rest, p2)) => (rest, p2),
            None => (Rest::Exact, p1),
        },
        None => (Rest::Exact, pos),
    }
}

#[verifier::loop_isolation(false)]
fn pattern_object(inp: &Input, pos: usize) -> (r: Option<(Pattern, usize)>)
    requires
        inp.wf(),
        pos <= inp.chars.len(),
    ensures
        view_pos(&r) == pattern_object_at(inp.chars@, pos as nat),
        r matches Some((_, p)) ==> pos <= p <= inp.chars.len(),
    decreases inp.chars.len() - pos, 15int,
{
    proof {
        reveal_strlit("{");
        reveal_strlit(",");
    }
    let ghost s = inp.chars@;
    let p1 = match ws_tag(inp, pos, "{") {
        Some(p1) => p1,
        None => return None,
    };
    let mut found: Option<(PatternBody, usize)> = None;
    match pattern_rest(inp, p1) {
        Some((rest, p2)) => {
            let empty: Vec<ObjectPropertyPattern> = Vec::new();
            assert(object_prop_patterns_view(&empty) =~= Seq::<SObjectPropertyPattern>::empty());
            found = Some((PatternBody::Object(empty, rest), p2));
        },
        None => {},
    }
    let (body, p3) = match found {
        Some(x) => x,
        None => {
            let mut props: Vec<ObjectPropertyPattern> = Vec::new();
            let mut cur = p1;
            match pattern_object_prop(inp, p1) {
                Some((first, p)) => {
                    let ghost total = pattern_props_rest(s, p as nat);
                    let ghost fv = first@;
                    props.push(first);
                    assert(object_prop_patterns_view(&props) =~= seq![fv]);
                    cur = p;
                    loop
                        invariant
                            inp.wf(),
                            s == inp.chars@,
                            p1 <= cur <= inp.chars.len(),
                            pos < p1,
                            object_prop_patterns_view(&props) + pattern_props_rest(s, cur as nat).0 == seq![fv] + total.0,
                            pattern_props_rest(s, cur as nat).1 == total.1,
                        decreases inp.chars.len() - cur,
                    {
                        let q1 = match ws_tag(inp, cur, ",") {
                            Some(q) => q,
                            None => {
                                assert(object_prop_patterns_view(&props) + Seq::<SObjectPropertyPattern>::empty()
                                    =~= object_prop_patterns_view(&props));
                                break;
                            },
                        };
                        match pattern_object_prop(inp, q1) {
                            Some((x, q2)) => {
                                let ghost before = object_prop_patterns_view(&props);
                                let ghost xv = x@;
                                props.push(x);
                                assert(object_prop_patterns_view(&props) =~= before.push(xv));
                                assert(before + pattern_props_rest(s, cur as nat).0
                                    =~= object_prop_patterns_view(&props) + pattern_props_rest(s, q2 as nat).0);
                                cur = q2;
                            },
                            None => {
                                assert(object_prop_patterns_view(&props) + Seq::<SObjectPropertyPattern>::empty()
                                    =~= object_prop_patterns_view(&props));
                                break;
                            },
                        }
                    }
                },
                None => {
                    assert(object_prop_patterns_view(&props) =~= Seq::<SObjectPropertyPattern>::empty());
                },
            }
            let (rest, p) = trailing_rest(inp, cur);
            (PatternBody::Object(props, rest), p)
        },
    };
    match ws_tag(inp, p3, "}") {
        Some(p4) => Some((located(inp, pos, body, p4), p4)),
        None => None,
    }
}

#[verifier::loop_isolation(false)]
fn pattern_array(inp: &Input, pos: usize) -> (r: Option<(Pattern, usize)>)
    requires
        inp.wf(),
        pos <= inp.chars.len(),
    ensures
        view_pos(&r) == pattern_array_at(inp.chars@, pos as nat),
        r matches Some((_, p)) ==> pos <= p <= inp.chars.len(),
    decreases inp.chars.len() - pos, 15int,
{
    proof {
        reveal_strlit("[");
        reveal_strlit(",");
    }
    let ghost s = inp.chars@;
    let p1 = match ws_tag(inp, pos, "[") {
        Some(p1) => p1,
        None => return None,
    };
    let mut found: Option<(PatternBody, usize)> = None;
    match pattern_rest(inp, p1) {
        Some((rest, p2)) => {
            let empty: Vec<ArrayPatternItem> = Vec::new();
            assert(array_pattern_items_view(&empty) =~= Seq::<SPattern>::empty());
            found = Some((PatternBody::Array(empty, rest), p2));
        },
        None => {},
    }
    let (body, p3) = match found {
        Some(x) => x,
        None => {
            let mut items: Vec<ArrayPatternItem> = Vec::new();
            let mut cur = p1;
            match pattern(inp, p1) {
                Some((first, p)) => {
                    let ghost total = pattern_items_rest(s, p as nat);
                    let ghost fv = first@;
                    items.push(ArrayPatternItem::Pattern(first));
                    assert(array_pattern_items_view(&items) =~= seq![fv]);
                    cur = p;
                    loop
                        invariant
                            inp.wf(),
                            s == inp.chars@,
                            p1 <= cur <= inp.chars.len(),
                            pos < p1,
                            array_pattern_items_view(&items) + pattern_items_rest(s, cur as nat).0 == seq![fv] + total.0,
                            pattern_items_rest(s, cur as nat).1 == total.1,
                        decreases inp.chars.len() - cur,
                    {
                        let q1 = match ws_tag(inp, cur, ",") {
                            Some(q) => q,
                            None => {
                                assert(array_pattern_items_view(&items) + Seq::<SPattern>::empty()
                                    =~= array_pattern_items_view(&items));
                                break;
                            },
                        };
                        match pattern(inp, q1) {
                            Some((x, q2)) => {
                                let ghost before = array_pattern_items_view(&items);
                                let ghost xv = x@;
                                items.push(ArrayPatternItem::Pattern(x));
                                assert(array_pattern_items_view(&items) =~= before.push(xv));
                                assert(before + pattern_items_rest(s, cur as nat).0
                                    =~= array_pattern_items_view(&items) + pattern_items_rest(s, q2 as nat).0);
                                cur = q2;
                            },
                            None => {
                                assert(array_pattern_items_view(&items) + Seq::<SPattern>::empty()
                                    =~= array_pattern_items_view(&items));
                                break;
                            },
                        }
                    }
                },
                None => {
                    assert(array_pattern_items_view(&items) =~= Seq::<SPattern>::empty());
                },
            }
            let (rest, p) = trailing_rest(inp, cur);
            (PatternBody::Array(items, rest), p)
        },
    };
    match ws_tag(inp, p3, "]") {
        Some(p4) => Some((located(inp, pos, body, p4), p4)),
        None => None,
    }
}

fn pattern_capture(inp: &Input, pos: usize) -> (r: Option<(Pattern, usize)>)
    requires
        inp.wf(),
        pos <= inp.chars.len(),
    ensures
        view_pos(&r) == pattern_capture_at(inp.chars@, pos as nat),
        r matches Some((_, p)) ==> pos <= p <= inp.chars.len(),
    decreases inp.chars.len() - pos, 15int,
{
    proof {
        reveal_strlit("@");
    }
    let p0 = multispace0(inp, pos);
    let (id, p1) = match identifier(inp, p0) {
        Some(x) => x,
        None => return None,
    };
    let p2 = multispace0(inp, p1);
    let p3 = match ws_tag(inp, p2, "@") {
        Some(p3) => p3,
        None => return None,
    };
    let inner = match pattern_atom(inp, p3) {
        Some(x) => Some(x),
        None => match pattern_array(inp, p3) {
            Some(x) => Some(x),
            None => match pattern_object(inp, p3) {
                Some(x) => Some(x),
                None => pattern_pinned_expression(inp, p3),
            },
        },
    };
    match inner {
        Some((q, p4)) => Some((located(inp, pos, PatternBody::Capture(id, Box::new(q)), p4), p4)),
        None => None,
    }
}

/// The pattern at `pos`, and the position after it.
pub fn pattern(inp: &Input, pos: usize) -> (r: Option<(Pattern, usize)>)
    requires
        inp.wf(),
        pos <= inp.chars.len(),
    ensures
        view_pos(&r) == pattern_at(inp.chars@, pos as nat),
        r matches Some((_, p)) ==> pos <= p <= inp.chars.len(),
    decreases inp.chars.len() - pos, 16int,
{
    match pattern_pinned_expression(inp, pos) {
        Some(x) => return Some(x),
        None => {},
    }
    match pattern_atom(inp, pos) {
        Some(x) => return Some(x),
        None => {},
    }
    match pattern_capture(inp, pos) {
        Some(x) => return Some(x),
        None => {},
    }
    match pattern_array(inp, pos) {
        Some(x) => return Some(x),
        None => {},
    }
    match pattern_typed_identifier(inp, pos) {
        Some(x) => return Some(x),
        None => {},
    }
    match pattern_typed_discard(inp, pos) {
        Some(x) => return Some(x),
        None => {},
    }
    match pattern_identifier(inp, pos) {
        Some(x) => return Some(x),
        None => {},
    }
    match pattern_discard(inp, pos) {
        Some(x) => return Some(x),
        None => {},
    }
    pattern_object(inp, pos)
}

/// A whole text that is one pattern.
pub fn pattern_all_consuming(source: &str) -> (r: Option<Pattern>)
    ensures
        (match r {
            Some(p) => Some(p@),
            None => None,
        }) == whole(pattern_at(source@, 0), source@),
{
    let inp = Input::new(source);
    match pattern(&inp, 0) {
        Some((p, end)) => if end == inp.len() { Some(p) } else { None },
        None => None,
    }
}

/// Patterns separated by `;` (at least `min` of them), with an optional
/// `;` at the end.
#[verifier::loop_isolation(false)]
fn pattern_list(inp: &Input, pos: usize, min: usize) -> (r: Option<(PatternSet, usize)>)
    requires
        inp.wf(),
        pos <= inp.chars.len(),
    ensures
        view_pos(&r) == pattern_list_at(inp.chars@, pos as nat, min as nat),
        r matches Some((_, p)) ==> pos <= p <= inp.chars.len(),
{
    proof {
        reveal_strlit(";");
    }
    let ghost s = inp.chars@;
    let p0 = space0(inp, pos);
    let mut patterns: Vec<Pattern> = Vec::new();
    let mut cur = p0;
    match pattern(inp, p0) {
        Some((first, p)) => {
            let ghost total = pattern_list_rest(s, p as nat);
            let ghost fv = first@;
            patterns.push(first);
            assert(patterns_view(&patterns) =~= seq![fv]);
            cur = p;
            loop
                invariant
                    inp.wf(),
                    s == inp.chars@,
                    pos <= p0 <= cur <= inp.chars.len(),
                    patterns_view(&patterns) + pattern_list_rest(s, cur as nat).0 == seq![fv] + total.0,
                    pattern_list_rest(s, cur as nat).1 == total.1,
                decreases inp.chars.len() - cur,
            {
                let q1 = match ws_tag(inp, cur, ";") {
                    Some(q) => q,
                    None => {
                        assert(patterns_view(&patterns) + Seq::<SPattern>::empty() =~= patterns_view(&patterns));
                        break;
                    },
                };
                match pattern(inp, q1) {
                    Some((x, q2)) => {
                        let ghost before = patterns_view(&patterns);
                        let ghost xv = x@;
                        patterns.push(x);
                        assert(patterns_view(&patterns) =~= before.push(xv));
                        assert(before + pattern_list_rest(s, cur as nat).0
                            =~= patterns_view(&patterns) + pattern_list_rest(s, q2 as nat).0);
                        cur = q2;
                    },
                    None => {
                        assert(patterns_view(&patterns) + Seq::<SPattern>::empty() =~= patterns_view(&patterns));
                        break;
                    },
                }
            }
        },
        None => {
            assert(patterns_view(&patterns) =~= Seq::<SPattern>::empty());
        },
    }
    if patterns.len() < min {
        return None;
    }
    let p1 = multispace0(inp, cur);
    let p2 = match tag(inp, p1, ";") {
        Some(p) => p,
        None => p1,
    };
    let p3 = multispace0(inp, p2);
    let ghost pv = patterns_view(&patterns);
    let set = PatternSet { patterns };
    assert(set@ =~= pv);
    Some((set, p3))
}

/// Zero or more patterns separated by `;`.
pub fn many0_pattern(inp: &Input, pos: usize) -> (r: Option<(PatternSet, usize)>)
    requires
        inp.wf(),
        pos <= inp.chars.len(),
    ensures
        view_pos(&r) == pattern_list_at(inp.chars@, pos as nat, 0),
        r matches Some((_, p)) ==> pos <= p <= inp.chars.len(),
{
    pattern_list(inp, pos, 0)
}

/// One or more patterns separated by `;`.
pub fn many1_pattern(inp: &Input, pos: usize) -> (r: Option<(PatternSet, usize)>)
    requires
        inp.wf(),
        pos <= inp.chars.len(),
    ensures
        view_pos(&r) == pattern_list_at(inp.chars@, pos as nat, 1),
        r matches Some((_, p)) ==> pos <= p <= inp.chars.len(),
{
    pattern_list(inp, pos, 1)
}

} // verus!
