//! The names that patterns bind and the names that expressions use.
//!
//! Both walk their tree depth first from a stack: a node's own names come
//! first, then those of its children, the child pushed last being visited
//! first.
use vstd::prelude::*;
use crate::identifier::{Identifier, ids_view, ids_contain};
use crate::syntax::expression::{array_items_view, object_props_view, template_parts_view, sources_view, match_cases_view, opt_expr_view, StringTemplatePart, ComprehensionSource, MatchCase, Expression, ExpressionBody, ArrayItem, ObjectProperty, PropertyKey, SExpr, SExprBody, SArrayItem, SObjectProperty, SPropertyKey, STemplatePart, SSource, SMatchCase};
use crate::syntax::pattern::{Pattern, PatternBody, Rest, ObjectPropertyPattern, ArrayPatternItem, SPattern, SPatternBody, SRest, SObjectPropertyPattern, object_prop_patterns_view, array_pattern_items_view};

verus! {

/// `s` without the names that occur in `bound`, order kept.
pub open spec fn remove_all(s: Seq<Seq<char>>, bound: Seq<Seq<char>>) -> Seq<Seq<char>>
    decreases s.len(),
{
    if s.len() == 0 {
        s
    } else if bound.contains(s[0]) {
        remove_all(s.drop_first(), bound)
    } else {
        seq![s[0]] + remove_all(s.drop_first(), bound)
    }
}

// ------------------------------- patterns ----------------------------------

/// The names a pattern node binds itself.
pub open spec fn pattern_node_ids(b: SPatternBody) -> Seq<Seq<char>> {
    match b {
        SPatternBody::Capture(id, _) => seq![id],
        SPatternBody::Identifier(id) => seq![id],
        SPatternBody::TypedIdentifier(id, _) => seq![id],
        SPatternBody::Object(props, _) => prop_pattern_keys(props),
        _ => Seq::empty(),
    }
}

/// Property names of an object pattern (the shorthand ones and those
/// written as `name: pattern`).
pub open spec fn prop_pattern_keys(props: Seq<SObjectPropertyPattern>) -> Seq<Seq<char>>
    decreases props.len(),
{
    if props.len() == 0 {
        Seq::empty()
    } else {
        let head = match props[0] {
            SObjectPropertyPattern::Single(id) => seq![id],
            SObjectPropertyPattern::Match(SPropertyKey::Identifier(id), _) => seq![id],
            _ => Seq::empty(),
        };
        head + prop_pattern_keys(props.drop_first())
    }
}

/// The names a pattern binds, as `Pattern::get_identifiers` yields them.
/// The inner pattern of a capture is not visited.
pub open spec fn pattern_ids(p: SPattern) -> Seq<Seq<char>>
    decreases p, 0int,
{
    pattern_node_ids(p.body) + match p.body {
        SPatternBody::Object(props, rest) => rest_ids(rest) + prop_patterns_ids_rev(props),
        SPatternBody::Array(items, rest) => rest_ids(rest) + patterns_ids_rev(items),
        _ => Seq::empty(),
    }
}

pub open spec fn rest_ids(r: SRest) -> Seq<Seq<char>>
    decreases r, 0int,
{
    match r {
        SRest::Collect(q) => pattern_ids(*q),
        _ => Seq::empty(),
    }
}

pub open spec fn prop_patterns_ids_rev(props: Seq<SObjectPropertyPattern>) -> Seq<Seq<char>>
    decreases props, 0int,
{
    if props.len() == 0 {
        Seq::empty()
    } else {
        prop_patterns_ids_rev(props.drop_first()) + match props[0] {
            SObjectPropertyPattern::Match(_, v) => pattern_ids(v),
            _ => Seq::empty(),
        }
    }
}

pub open spec fn patterns_ids_rev(items: Seq<SPattern>) -> Seq<Seq<char>>
    decreases items, 0int,
{
    if items.len() == 0 {
        Seq::empty()
    } else {
        patterns_ids_rev(items.drop_first()) + pattern_ids(items[0])
    }
}

/// The names used by the expressions inside a pattern (pinned expressions
/// and computed keys), in the order `Pattern::get_expressions` yields the
/// expressions.
pub open spec fn pattern_expr_ids(p: SPattern) -> Seq<Seq<char>>
    decreases p, 0int,
{
    match p.body {
        SPatternBody::PinnedExpression(e) => expr_ids(*e),
        SPatternBody::Object(props, rest) => prop_key_exprs_ids(props) + rest_expr_ids(rest)
            + prop_patterns_expr_ids_rev(props),
        SPatternBody::Array(items, rest) => rest_expr_ids(rest) + patterns_expr_ids_rev(items),
        _ => Seq::empty(),
    }
}

pub open spec fn prop_key_exprs_ids(props: Seq<SObjectPropertyPattern>) -> Seq<Seq<char>>
    decreases props, 0int,
{
    if props.len() == 0 {
        Seq::empty()
    } else {
        (match props[0] {
            SObjectPropertyPattern::Match(SPropertyKey::Expression(k), _) => expr_ids(*k),
            _ => Seq::empty(),
        }) + prop_key_exprs_ids(props.drop_first())
    }
}

pub open spec fn rest_expr_ids(r: SRest) -> Seq<Seq<char>>
    decreases r, 0int,
{
    match r {
        SRest::Collect(q) => pattern_expr_ids(*q),
        _ => Seq::empty(),
    }
}

pub open spec fn prop_patterns_expr_ids_rev(props: Seq<SObjectPropertyPattern>) -> Seq<Seq<char>>
    decreases props, 0int,
{
    if props.len() == 0 {
        Seq::empty()
    } else {
        prop_patterns_expr_ids_rev(props.drop_first()) + match props[0] {
            SObjectPropertyPattern::Match(_, v) => pattern_expr_ids(v),
            _ => Seq::empty(),
        }
    }
}

pub open spec fn patterns_expr_ids_rev(items: Seq<SPattern>) -> Seq<Seq<char>>
    decreases items, 0int,
{
    if items.len() == 0 {
        Seq::empty()
    } else {
        patterns_expr_ids_rev(items.drop_first()) + pattern_expr_ids(items[0])
    }
}

/// Like `pattern_expr_ids`, but visiting the expressions in the reverse
/// order (as a stack does that they were pushed onto in order).
pub open spec fn pattern_expr_ids_rev(p: SPattern) -> Seq<Seq<char>>
    decreases p, 0int,
{
    match p.body {
        SPatternBody::PinnedExpression(e) => expr_ids(*e),
        SPatternBody::Object(props, rest) => prop_patterns_expr_ids_fwd(props) + rest_expr_ids_rev(rest)
            + prop_key_exprs_ids_rev(props),
        SPatternBody::Array(items, rest) => patterns_expr_ids_fwd(items) + rest_expr_ids_rev(rest),
        _ => Seq::empty(),
    }
}

pub open spec fn prop_key_exprs_ids_rev(props: Seq<SObjectPropertyPattern>) -> Seq<Seq<char>>
    decreases props, 0int,
{
    if props.len() == 0 {
        Seq::empty()
    } else {
        prop_key_exprs_ids_rev(props.drop_first()) + match props[0] {
            SObjectPropertyPattern::Match(SPropertyKey::Expression(k), _) => expr_ids(*k),
            _ => Seq::empty(),
        }
    }
}

pub open spec fn rest_expr_ids_rev(r: SRest) -> Seq<Seq<char>>
    decreases r, 0int,
{
    match r {
        SRest::Collect(q) => pattern_expr_ids_rev(*q),
        _ => Seq::empty(),
    }
}

pub open spec fn prop_patterns_expr_ids_fwd(props: Seq<SObjectPropertyPattern>) -> Seq<Seq<char>>
    decreases props, 0int,
{
    if props.len() == 0 {
        Seq::empty()
    } else {
        (match props[0] {
            SObjectPropertyPattern::Match(_, v) => pattern_expr_ids_rev(v),
            _ => Seq::empty(),
        }) + prop_patterns_expr_ids_fwd(props.drop_first())
    }
}

pub open spec fn patterns_expr_ids_fwd(items: Seq<SPattern>) -> Seq<Seq<char>>
    decreases items, 0int,
{
    if items.len() == 0 {
        Seq::empty()
    } else {
        pattern_expr_ids_rev(items[0]) + patterns_expr_ids_fwd(items.drop_first())
    }
}

// ------------------------------ expressions --------------------------------

/// The free names of an expression, as `Expression::get_identifiers` yields
/// them (a name may occur more than once).
pub open spec fn expr_ids(e: SExpr) -> Seq<Seq<char>>
    decreases e, 0int,
{
    expr_node_ids(e.body) + expr_children_ids_rev(e.body)
}

pub open spec fn opt_expr_ids(e: Option<SExpr>) -> Seq<Seq<char>>
    decreases e, 0int,
{
    match e {
        Some(x) => expr_ids(x),
        None => Seq::empty(),
    }
}

pub open spec fn array_item_ids(i: SArrayItem) -> Seq<Seq<char>>
    decreases i, 0int,
{
    match i {
        SArrayItem::Single(e) => expr_ids(e),
        SArrayItem::Spread(e) => expr_ids(e),
    }
}

pub open spec fn array_items_ids(items: Seq<SArrayItem>) -> Seq<Seq<char>>
    decreases items, 0int,
{
    if items.len() == 0 {
        Seq::empty()
    } else {
        array_item_ids(items[0]) + array_items_ids(items.drop_first())
    }
}

pub open spec fn array_items_ids_rev(items: Seq<SArrayItem>) -> Seq<Seq<char>>
    decreases items, 0int,
{
    if items.len() == 0 {
        Seq::empty()
    } else {
        array_items_ids_rev(items.drop_first()) + array_item_ids(items[0])
    }
}

pub open spec fn single_props_ids(props: Seq<SObjectProperty>) -> Seq<Seq<char>>
    decreases props.len(),
{
    if props.len() == 0 {
        Seq::empty()
    } else {
        (match props[0] {
            SObjectProperty::Single(id) => seq![id],
            _ => Seq::empty(),
        }) + single_props_ids(props.drop_first())
    }
}

pub open spec fn object_props_ids_rev(props: Seq<SObjectProperty>) -> Seq<Seq<char>>
    decreases props, 0int,
{
    if props.len() == 0 {
        Seq::empty()
    } else {
        object_props_ids_rev(props.drop_first()) + match props[0] {
            SObjectProperty::Single(_) => Seq::empty(),
            SObjectProperty::Property(SPropertyKey::Identifier(_), v) => expr_ids(v),
            SObjectProperty::Property(SPropertyKey::Expression(k), v) => expr_ids(*k) + expr_ids(v),
            SObjectProperty::Spread(x) => expr_ids(x),
        }
    }
}

/// The names an object comprehension's projection uses, property names
/// included.
pub open spec fn projection_props_ids(props: Seq<SObjectProperty>) -> Seq<Seq<char>>
    decreases props, 0int,
{
    if props.len() == 0 {
        Seq::empty()
    } else {
        (match props[0] {
            SObjectProperty::Single(id) => seq![id],
            SObjectProperty::Property(SPropertyKey::Identifier(id), v) => seq![id] + expr_ids(v),
            SObjectProperty::Property(SPropertyKey::Expression(k), v) => expr_ids(*k) + expr_ids(v),
            SObjectProperty::Spread(x) => expr_ids(x),
        }) + projection_props_ids(props.drop_first())
    }
}

pub open spec fn template_parts_ids_rev(parts: Seq<STemplatePart>) -> Seq<Seq<char>>
    decreases parts, 0int,
{
    if parts.len() == 0 {
        Seq::empty()
    } else {
        template_parts_ids_rev(parts.drop_first()) + expr_ids(parts[0].dynamic_end)
    }
}

/// The free names of the comprehension sources, each source seeing the
/// names bound by the sources before it (`outer`).
pub open spec fn sources_ids(sources: Seq<SSource>, outer: Seq<Seq<char>>) -> Seq<Seq<char>>
    decreases sources, 0int,
{
    if sources.len() == 0 {
        Seq::empty()
    } else {
        let s = sources[0];
        let local = outer + pattern_ids(s.pattern);
        remove_all(expr_ids(s.collection), outer) + remove_all(opt_expr_ids(s.predicate), local)
            + remove_all(pattern_expr_ids(s.pattern), outer) + sources_ids(sources.drop_first(), local)
    }
}

/// The names bound by all comprehension sources, after `outer`.
pub open spec fn sources_bound(sources: Seq<SSource>, outer: Seq<Seq<char>>) -> Seq<Seq<char>>
    decreases sources.len(),
{
    if sources.len() == 0 {
        outer
    } else {
        sources_bound(sources.drop_first(), outer + pattern_ids(sources[0].pattern))
    }
}

pub open spec fn cases_body_ids(cases: Seq<SMatchCase>) -> Seq<Seq<char>>
    decreases cases, 0int,
{
    if cases.len() == 0 {
        Seq::empty()
    } else {
        remove_all(expr_ids(cases[0].body), pattern_ids(cases[0].pattern)) + cases_body_ids(cases.drop_first())
    }
}

pub open spec fn cases_pattern_ids_rev(cases: Seq<SMatchCase>) -> Seq<Seq<char>>
    decreases cases, 0int,
{
    if cases.len() == 0 {
        Seq::empty()
    } else {
        cases_pattern_ids_rev(cases.drop_first()) + pattern_expr_ids_rev(cases[0].pattern)
    }
}

/// The names an expression node contributes itself.
pub open spec fn expr_node_ids(b: SExprBody) -> Seq<Seq<char>>
    decreases b, 0int,
{
    match b {
        SExprBody::Object(props) => single_props_ids(props),
        SExprBody::Identifier(id) => seq![id],
        SExprBody::Abstraction(args, body) => remove_all(expr_ids(*body), pattern_ids(*args)),
        SExprBody::ArrayComp(sources, projection) => sources_ids(sources, Seq::empty())
            + remove_all(array_items_ids(projection), sources_bound(sources, Seq::empty())),
        SExprBody::ObjectComp(sources, projection) => sources_ids(sources, Seq::empty())
            + remove_all(projection_props_ids(projection), sources_bound(sources, Seq::empty())),
        SExprBody::Match(_, cases) => cases_body_ids(cases),
        _ => Seq::empty(),
    }
}

/// The names of the children an expression node pushes, visited last pushed
/// first.
pub open spec fn expr_children_ids_rev(b: SExprBody) -> Seq<Seq<char>>
    decreases b, 0int,
{
    match b {
        SExprBody::Array(items) => array_items_ids_rev(items),
        SExprBody::Binary(_, l, r) => expr_ids(*r) + expr_ids(*l),
        SExprBody::Logical(_, l, r) => expr_ids(*r) + expr_ids(*l),
        SExprBody::Member(o, p) => expr_ids(*p) + expr_ids(*o),
        SExprBody::Object(props) => object_props_ids_rev(props),
        SExprBody::Unary(_, a) => expr_ids(*a),
        SExprBody::Call(_, a) => expr_ids(*a),
        SExprBody::Template(parts, _) => template_parts_ids_rev(parts),
        SExprBody::Abstraction(args, _) => pattern_expr_ids_rev(*args),
        SExprBody::Application(l, p) => expr_ids(*p) + expr_ids(*l),
        SExprBody::Match(subject, cases) => cases_pattern_ids_rev(cases) + expr_ids(*subject),
        SExprBody::Condition(c, t, f) => (match f {
            Some(x) => expr_ids(*x),
            None => Seq::empty(),
        }) + expr_ids(*t) + expr_ids(*c),
        _ => Seq::empty(),
    }
}


// ------------------------------ computation --------------------------------

fn append_ids(a: &mut Vec<Identifier>, b: Vec<Identifier>)
    ensures
        ids_view(final(a)) == ids_view(old(a)) + ids_view(&b),
{
    let mut b = b;
    let ghost bv = ids_view(&b);
    a.append(&mut b);
    assert(ids_view(a) =~= ids_view(old(a)) + bv);
}

fn single_id(id: &Identifier) -> (r: Vec<Identifier>)
    ensures
        ids_view(&r) == seq![id@],
{
    let mut r: Vec<Identifier> = Vec::new();
    r.push(id.deep_clone());
    assert(ids_view(&r) =~= seq![id@]);
    r
}

fn no_ids() -> (r: Vec<Identifier>)
    ensures
        ids_view(&r) == Seq::<Seq<char>>::empty(),
{
    let r: Vec<Identifier> = Vec::new();
    assert(ids_view(&r) =~= Seq::<Seq<char>>::empty());
    r
}

/// `s` without the names that occur in `bound`, order kept.
pub fn remove_bound(s: &Vec<Identifier>, bound: &Vec<Identifier>) -> (r: Vec<Identifier>)
    ensures
        ids_view(&r) == remove_all(ids_view(s), ids_view(bound)),
{
    let mut r = no_ids();
    let mut i: usize = 0;
    let ghost sv = ids_view(s);
    assert(sv.skip(0) =~= sv);
    while i < s.len()
        invariant
            i <= s.len(),
            sv == ids_view(s),
            remove_all(sv, ids_view(bound)) == ids_view(&r) + remove_all(sv.skip(i as int), ids_view(bound)),
        decreases s.len() - i,
    {
        assert(sv.skip(i as int).drop_first() =~= sv.skip(i + 1));
        assert(sv.skip(i as int)[0] == s[i as int]@);
        let ghost before = ids_view(&r);
        if !ids_contain(bound, s[i].name.as_str()) {
            r.push(s[i].deep_clone());
            assert(ids_view(&r) =~= before + seq![s[i as int]@]);
        }
        i += 1;
    }
    assert(sv.skip(i as int) =~= Seq::<Seq<char>>::empty());
    assert(ids_view(&r) + Seq::<Seq<char>>::empty() =~= ids_view(&r));
    r
}

fn prop_pattern_keys_exec(props: &Vec<ObjectPropertyPattern>) -> (r: Vec<Identifier>)
    ensures
        ids_view(&r) == prop_pattern_keys(object_prop_patterns_view(props)),
{
    let ghost pv = object_prop_patterns_view(props);
    let mut r = no_ids();
    let mut i: usize = 0;
    assert(pv.skip(0) =~= pv);
    while i < props.len()
        invariant
            i <= props.len(),
            pv == object_prop_patterns_view(props),
            prop_pattern_keys(pv) == ids_view(&r) + prop_pattern_keys(pv.skip(i as int)),
        decreases props.len() - i,
    {
        assert(pv.skip(i as int).drop_first() =~= pv.skip(i + 1));
        assert(pv.skip(i as int)[0] == pv[i as int]);
        let ghost before = ids_view(&r);
        match &props[i] {
            ObjectPropertyPattern::Single(id) => {
                r.push(id.deep_clone());
                assert(ids_view(&r) =~= before + seq![id@]);
            },
            ObjectPropertyPattern::Match(m) => {
                match &m.key {
                    PropertyKey::Identifier(id) => {
                        r.push(id.deep_clone());
                        assert(ids_view(&r) =~= before + seq![id@]);
                    },
                    PropertyKey::Expression(_) => {},
                }
            },
        }
        i += 1;
    }
    assert(pv.skip(i as int) =~= Seq::<SObjectPropertyPattern>::empty());
    assert(ids_view(&r) + Seq::<Seq<char>>::empty() =~= ids_view(&r));
    r
}

fn rest_ids_exec(r: &Rest) -> (out: Vec<Identifier>)
    ensures
        ids_view(&out) == rest_ids(r@),
    decreases r, 0int,
{
    match r {
        Rest::Collect(p) => p.get_identifiers(),
        _ => no_ids(),
    }
}

fn prop_patterns_ids_rev_exec(props: &Vec<ObjectPropertyPattern>) -> (r: Vec<Identifier>)
    ensures
        ids_view(&r) == prop_patterns_ids_rev(object_prop_patterns_view(props)),
    decreases props, 0int,
{
    let ghost pv = object_prop_patterns_view(props);
    let mut r = no_ids();
    let mut i: usize = props.len();
    assert(pv.skip(props.len() as int) =~= Seq::<SObjectPropertyPattern>::empty());
    while i > 0
        invariant
            i <= props.len(),
            pv == object_prop_patterns_view(props),
            ids_view(&r) == prop_patterns_ids_rev(pv.skip(i as int)),
        decreases i,
    {
        i -= 1;
        assert(pv.skip(i as int).drop_first() =~= pv.skip(i + 1));
        assert(pv.skip(i as int)[0] == pv[i as int]);
        match &props[i] {
            ObjectPropertyPattern::Single(_) => {},
            ObjectPropertyPattern::Match(m) => {
                append_ids(&mut r, m.value.get_identifiers());
            },
        }
    }
    assert(pv.skip(0) =~= pv);
    r
}

fn patterns_ids_rev_exec(items: &Vec<ArrayPatternItem>) -> (r: Vec<Identifier>)
    ensures
        ids_view(&r) == patterns_ids_rev(array_pattern_items_view(items)),
    decreases items, 0int,
{
    let ghost pv = array_pattern_items_view(items);
    let mut r = no_ids();
    let mut i: usize = items.len();
    assert(pv.skip(items.len() as int) =~= Seq::<SPattern>::empty());
    while i > 0
        invariant
            i <= items.len(),
            pv == array_pattern_items_view(items),
            ids_view(&r) == patterns_ids_rev(pv.skip(i as int)),
        decreases i,
    {
        i -= 1;
        assert(pv.skip(i as int).drop_first() =~= pv.skip(i + 1));
        assert(pv.skip(i as int)[0] == pv[i as int]);
        match &items[i] {
            ArrayPatternItem::Pattern(p) => {
                append_ids(&mut r, p.get_identifiers());
            },
        }
    }
    assert(pv.skip(0) =~= pv);
    r
}

impl Pattern {
    /// The names this pattern binds, in the order of a depth-first walk
    /// (property names of object patterns included; the inner pattern of a
    /// capture is not visited).
    pub fn get_identifiers(&self) -> (r: Vec<Identifier>)
        ensures
            ids_view(&r) == pattern_ids(self@),
        decreases self, 0int,
    {
        let mut r = match &self.body {
            PatternBody::Capture(id, _) => single_id(id),
            PatternBody::Identifier(id) => single_id(id),
            PatternBody::TypedIdentifier(id, _) => single_id(id),
            PatternBody::Object(props, _) => prop_pattern_keys_exec(props),
            _ => no_ids(),
        };
        match &self.body {
            PatternBody::Object(props, rest) => {
                append_ids(&mut r, rest_ids_exec(rest));
                append_ids(&mut r, prop_patterns_ids_rev_exec(props));
                assert(ids_view(&r) =~= pattern_ids(self@));
            },
            PatternBody::Array(items, rest) => {
                append_ids(&mut r, rest_ids_exec(rest));
                append_ids(&mut r, patterns_ids_rev_exec(items));
                assert(ids_view(&r) =~= pattern_ids(self@));
            },
            _ => {
                assert(ids_view(&r) =~= pattern_ids(self@));
            },
        }
        r
    }
}


fn prop_key_exprs_ids_exec(v: &Vec<ObjectPropertyPattern>) -> (r: Vec<Identifier>)
    ensures
        ids_view(&r) == prop_key_exprs_ids(object_prop_patterns_view(v)),
    decreases v, 0int,
{
    let ghost pv = object_prop_patterns_view(v);
    let mut r = no_ids();
    let mut i: usize = 0;
    assert(pv.skip(0) =~= pv);
    while i < v.len()
        invariant
            i <= v.len(),
            pv == object_prop_patterns_view(v),
            prop_key_exprs_ids(pv) == ids_view(&r) + prop_key_exprs_ids(pv.skip(i as int)),
        decreases v.len() - i,
    {
        assert(pv.skip(i as int).drop_first() =~= pv.skip(i + 1));
        assert(pv.skip(i as int)[0] == pv[i as int]);
        let ghost before = ids_view(&r);
        match &v[i] {
            ObjectPropertyPattern::Match(m) => match &m.key {
                PropertyKey::Expression(k) => {
                    append_ids(&mut r, k.get_identifiers());
                },
                _ => {},
            },
            _ => {},
        }
        i += 1;
    }
    assert(pv.skip(i as int) =~= Seq::<SObjectPropertyPattern>::empty());
    assert(ids_view(&r) + Seq::<Seq<char>>::empty() =~= ids_view(&r));
    r
}

fn prop_key_exprs_ids_rev_exec(v: &Vec<ObjectPropertyPattern>) -> (r: Vec<Identifier>)
    ensures
        ids_view(&r) == prop_key_exprs_ids_rev(object_prop_patterns_view(v)),
    decreases v, 0int,
{
    let ghost pv = object_prop_patterns_view(v);
    let mut r = no_ids();
    let mut i: usize = v.len();
    assert(pv.skip(v.len() as int) =~= Seq::<SObjectPropertyPattern>::empty());
    while i > 0
        invariant
            i <= v.len(),
            pv == object_prop_patterns_view(v),
            ids_view(&r) == prop_key_exprs_ids_rev(pv.skip(i as int)),
        decreases i,
    {
        i -= 1;
        assert(pv.skip(i as int).drop_first() =~= pv.skip(i + 1));
        assert(pv.skip(i as int)[0] == pv[i as int]);
        match &v[i] {
            ObjectPropertyPattern::Match(m) => match &m.key {
                PropertyKey::Expression(k) => {
                    append_ids(&mut r, k.get_identifiers());
                },
                _ => {},
            },
            _ => {},
        }
    }
    assert(pv.skip(0) =~= pv);
    r
}

fn prop_patterns_expr_ids_rev_exec(v: &Vec<ObjectPropertyPattern>) -> (r: Vec<Identifier>)
    ensures
        ids_view(&r) == prop_patterns_expr_ids_rev(object_prop_patterns_view(v)),
    decreases v, 0int,
{
    let ghost pv = object_prop_patterns_view(v);
    let mut r = no_ids();
    let mut i: usize = v.len();
    assert(pv.skip(v.len() as int) =~= Seq::<SObjectPropertyPattern>::empty());
    while i > 0
        invariant
            i <= v.len(),
            pv == object_prop_patterns_view(v),
            ids_view(&r) == prop_patterns_expr_ids_rev(pv.skip(i as int)),
        decreases i,
    {
        i -= 1;
        assert(pv.skip(i as int).drop_first() =~= pv.skip(i + 1));
        assert(pv.skip(i as int)[0] == pv[i as int]);
        match &v[i] {
            ObjectPropertyPattern::Match(m) => {
                append_ids(&mut r, m.value.get_expression_identifiers());
            },
            _ => {},
        }
    }
    assert(pv.skip(0) =~= pv);
    r
}

fn prop_patterns_expr_ids_fwd_exec(v: &Vec<ObjectPropertyPattern>) -> (r: Vec<Identifier>)
    ensures
        ids_view(&r) == prop_patterns_expr_ids_fwd(object_prop_patterns_view(v)),
    decreases v, 0int,
{
    let ghost pv = object_prop_patterns_view(v);
    let mut r = no_ids();
    let mut i: usize = 0;
    assert(pv.skip(0) =~= pv);
    while i < v.len()
        invariant
            i <= v.len(),
            pv == object_prop_patterns_view(v),
            prop_patterns_expr_ids_fwd(pv) == ids_view(&r) + prop_patterns_expr_ids_fwd(pv.skip(i as int)),
        decreases v.len() - i,
    {
        assert(pv.skip(i as int).drop_first() =~= pv.skip(i + 1));
        assert(pv.skip(i as int)[0] == pv[i as int]);
        let ghost before = ids_view(&r);
        match &v[i] {
            ObjectPropertyPattern::Match(m) => {
                append_ids(&mut r, expression_identifiers_rev(&m.value));
            },
            _ => {},
        }
        i += 1;
    }
    assert(pv.skip(i as int) =~= Seq::<SObjectPropertyPattern>::empty());
    assert(ids_view(&r) + Seq::<Seq<char>>::empty() =~= ids_view(&r));
    r
}

fn patterns_expr_ids_rev_exec(v: &Vec<ArrayPatternItem>) -> (r: Vec<Identifier>)
    ensures
        ids_view(&r) == patterns_expr_ids_rev(array_pattern_items_view(v)),
    decreases v, 0int,
{
    let ghost pv = array_pattern_items_view(v);
    let mut r = no_ids();
    let mut i: usize = v.len();
    assert(pv.skip(v.len() as int) =~= Seq::<SPattern>::empty());
    while i > 0
        invariant
            i <= v.len(),
            pv == array_pattern_items_view(v),
            ids_view(&r) == patterns_expr_ids_rev(pv.skip(i as int)),
        decreases i,
    {
        i -= 1;
        assert(pv.skip(i as int).drop_first() =~= pv.skip(i + 1));
        assert(pv.skip(i as int)[0] == pv[i as int]);
        match &v[i] {
            ArrayPatternItem::Pattern(p) => {
                append_ids(&mut r, p.get_expression_identifiers());
            },
        }
    }
    assert(pv.skip(0) =~= pv);
    r
}

fn patterns_expr_ids_fwd_exec(v: &Vec<ArrayPatternItem>) -> (r: Vec<Identifier>)
    ensures
        ids_view(&r) == patterns_expr_ids_fwd(array_pattern_items_view(v)),
    decreases v, 0int,
{
    let ghost pv = array_pattern_items_view(v);
    let mut r = no_ids();
    let mut i: usize = 0;
    assert(pv.skip(0) =~= pv);
    while i < v.len()
        invariant
            i <= v.len(),
            pv == array_pattern_items_view(v),
            patterns_expr_ids_fwd(pv) == ids_view(&r) + patterns_expr_ids_fwd(pv.skip(i as int)),
        decreases v.len() - i,
    {
        assert(pv.skip(i as int).drop_first() =~= pv.skip(i + 1));
        assert(pv.skip(i as int)[0] == pv[i as int]);
        let ghost before = ids_view(&r);
        match &v[i] {
            ArrayPatternItem::Pattern(p) => {
                append_ids(&mut r, expression_identifiers_rev(p));
            },
        }
        i += 1;
    }
    assert(pv.skip(i as int) =~= Seq::<SPattern>::empty());
    assert(ids_view(&r) + Seq::<Seq<char>>::empty() =~= ids_view(&r));
    r
}

fn rest_expr_ids_exec(r: &Rest) -> (out: Vec<Identifier>)
    ensures
        ids_view(&out) == rest_expr_ids(r@),
    decreases r, 0int,
{
    match r {
        Rest::Collect(p) => p.get_expression_identifiers(),
        _ => no_ids(),
    }
}

fn rest_expr_ids_rev_exec(r: &Rest) -> (out: Vec<Identifier>)
    ensures
        ids_view(&out) == rest_expr_ids_rev(r@),
    decreases r, 0int,
{
    match r {
        Rest::Collect(p) => expression_identifiers_rev(p),
        _ => no_ids(),
    }
}

/// The names used by the expressions of a pattern, the expressions visited
/// last first.
fn expression_identifiers_rev(p: &Pattern) -> (r: Vec<Identifier>)
    ensures
        ids_view(&r) == pattern_expr_ids_rev(p@),
    decreases p, 0int,
{
    match &p.body {
        PatternBody::PinnedExpression(e) => e.get_identifiers(),
        PatternBody::Object(props, rest) => {
            let mut r = prop_patterns_expr_ids_fwd_exec(props);
            append_ids(&mut r, rest_expr_ids_rev_exec(rest));
            append_ids(&mut r, prop_key_exprs_ids_rev_exec(props));
            r
        },
        PatternBody::Array(items, rest) => {
            let mut r = patterns_expr_ids_fwd_exec(items);
            append_ids(&mut r, rest_expr_ids_rev_exec(rest));
            r
        },
        _ => no_ids(),
    }
}

impl Pattern {
    /// The names used by the expressions inside this pattern (pinned
    /// expressions and computed keys).
    pub fn get_expression_identifiers(&self) -> (r: Vec<Identifier>)
        ensures
            ids_view(&r) == pattern_expr_ids(self@),
        decreases self, 0int,
    {
        match &self.body {
            PatternBody::PinnedExpression(e) => e.get_identifiers(),
            PatternBody::Object(props, rest) => {
                let mut r = prop_key_exprs_ids_exec(props);
                append_ids(&mut r, rest_expr_ids_exec(rest));
                append_ids(&mut r, prop_patterns_expr_ids_rev_exec(props));
                r
            },
            PatternBody::Array(items, rest) => {
                let mut r = rest_expr_ids_exec(rest);
                append_ids(&mut r, patterns_expr_ids_rev_exec(items));
                r
            },
            _ => no_ids(),
        }
    }
}

fn array_items_ids_exec(v: &Vec<ArrayItem>) -> (r: Vec<Identifier>)
    ensures
        ids_view(&r) == array_items_ids(array_items_view(v)),
    decreases v, 0int,
{
    let ghost pv = array_items_view(v);
    let mut r = no_ids();
    let mut i: usize = 0;
    assert(pv.skip(0) =~= pv);
    while i < v.len()
        invariant
            i <= v.len(),
            pv == array_items_view(v),
            array_items_ids(pv) == ids_view(&r) + array_items_ids(pv.skip(i as int)),
        decreases v.len() - i,
    {
        assert(pv.skip(i as int).drop_first() =~= pv.skip(i + 1));
        assert(pv.skip(i as int)[0] == pv[i as int]);
        let ghost before = ids_view(&r);
        let ghost before_item = ids_view(&r);
        match &v[i] {
            ArrayItem::Single(e) => {
                append_ids(&mut r, e.get_identifiers());
            },
            ArrayItem::Spread(e) => {
                append_ids(&mut r, e.get_identifiers());
            },
        }
        assert(ids_view(&r) == before_item + array_item_ids(pv[i as int]));
        i += 1;
    }
    assert(pv.skip(i as int) =~= Seq::<SArrayItem>::empty());
    assert(ids_view(&r) + Seq::<Seq<char>>::empty() =~= ids_view(&r));
    r
}

fn array_items_ids_rev_exec(v: &Vec<ArrayItem>) -> (r: Vec<Identifier>)
    ensures
        ids_view(&r) == array_items_ids_rev(array_items_view(v)),
    decreases v, 0int,
{
    let ghost pv = array_items_view(v);
    let mut r = no_ids();
    let mut i: usize = v.len();
    assert(pv.skip(v.len() as int) =~= Seq::<SArrayItem>::empty());
    while i > 0
        invariant
            i <= v.len(),
            pv == array_items_view(v),
            ids_view(&r) == array_items_ids_rev(pv.skip(i as int)),
        decreases i,
    {
        i -= 1;
        assert(pv.skip(i as int).drop_first() =~= pv.skip(i + 1));
        assert(pv.skip(i as int)[0] == pv[i as int]);
        let ghost before_item = ids_view(&r);
        match &v[i] {
            ArrayItem::Single(e) => {
                append_ids(&mut r, e.get_identifiers());
            },
            ArrayItem::Spread(e) => {
                append_ids(&mut r, e.get_identifiers());
            },
        }
        assert(ids_view(&r) == before_item + array_item_ids(pv[i as int]));
    }
    assert(pv.skip(0) =~= pv);
    r
}

fn single_props_ids_exec(v: &Vec<ObjectProperty>) -> (r: Vec<Identifier>)
    ensures
        ids_view(&r) == single_props_ids(object_props_view(v)),
    decreases v, 0int,
{
    let ghost pv = object_props_view(v);
    let mut r = no_ids();
    let mut i: usize = 0;
    assert(pv.skip(0) =~= pv);
    while i < v.len()
        invariant
            i <= v.len(),
            pv == object_props_view(v),
            single_props_ids(pv) == ids_view(&r) + single_props_ids(pv.skip(i as int)),
        decreases v.len() - i,
    {
        assert(pv.skip(i as int).drop_first() =~= pv.skip(i + 1));
        assert(pv.skip(i as int)[0] == pv[i as int]);
        let ghost before = ids_view(&r);
        match &v[i] {
            ObjectProperty::Single(id) => {
                append_ids(&mut r, single_id(id));
            },
            _ => {},
        }
        i += 1;
    }
    assert(pv.skip(i as int) =~= Seq::<SObjectProperty>::empty());
    assert(ids_view(&r) + Seq::<Seq<char>>::empty() =~= ids_view(&r));
    r
}

fn object_props_ids_rev_exec(v: &Vec<ObjectProperty>) -> (r: Vec<Identifier>)
    ensures
        ids_view(&r) == object_props_ids_rev(object_props_view(v)),
    decreases v, 0int,
{
    let ghost pv = object_props_view(v);
    let mut r = no_ids();
    let mut i: usize = v.len();
    assert(pv.skip(v.len() as int) =~= Seq::<SObjectProperty>::empty());
    while i > 0
        invariant
            i <= v.len(),
            pv == object_props_view(v),
            ids_view(&r) == object_props_ids_rev(pv.skip(i as int)),
        decreases i,
    {
        i -= 1;
        assert(pv.skip(i as int).drop_first() =~= pv.skip(i + 1));
        assert(pv.skip(i as int)[0] == pv[i as int]);
        match &v[i] {
            ObjectProperty::Single(_) => {},
            ObjectProperty::Property(p) => {
                match &p.key {
                    PropertyKey::Identifier(_) => {},
                    PropertyKey::Expression(k) => {
                        append_ids(&mut r, k.get_identifiers());
                    },
                }
                append_ids(&mut r, p.value.get_identifiers());
            },
            ObjectProperty::Spread(x) => {
                append_ids(&mut r, x.get_identifiers());
            },
        }
    }
    assert(pv.skip(0) =~= pv);
    r
}

fn projection_props_ids_exec(v: &Vec<ObjectProperty>) -> (r: Vec<Identifier>)
    ensures
        ids_view(&r) == projection_props_ids(object_props_view(v)),
    decreases v, 0int,
{
    let ghost pv = object_props_view(v);
    let mut r = no_ids();
    let mut i: usize = 0;
    assert(pv.skip(0) =~= pv);
    while i < v.len()
        invariant
            i <= v.len(),
            pv == object_props_view(v),
            projection_props_ids(pv) == ids_view(&r) + projection_props_ids(pv.skip(i as int)),
        decreases v.len() - i,
    {
        assert(pv.skip(i as int).drop_first() =~= pv.skip(i + 1));
        assert(pv.skip(i as int)[0] == pv[i as int]);
        let ghost before = ids_view(&r);
        match &v[i] {
            ObjectProperty::Single(id) => {
                append_ids(&mut r, single_id(id));
            },
            ObjectProperty::Property(p) => {
                match &p.key {
                    PropertyKey::Identifier(id) => {
                        append_ids(&mut r, single_id(id));
                    },
                    PropertyKey::Expression(k) => {
                        append_ids(&mut r, k.get_identifiers());
                    },
                }
                append_ids(&mut r, p.value.get_identifiers());
            },
            ObjectProperty::Spread(x) => {
                append_ids(&mut r, x.get_identifiers());
            },
        }
        assert(ids_view(&r) =~= before + (match pv[i as int] {
            SObjectProperty::Single(id) => seq![id],
            SObjectProperty::Property(SPropertyKey::Identifier(id), v) => seq![id] + expr_ids(v),
            SObjectProperty::Property(SPropertyKey::Expression(k), v) => expr_ids(*k) + expr_ids(v),
            SObjectProperty::Spread(x) => expr_ids(x),
        }));
        i += 1;
    }
    assert(pv.skip(i as int) =~= Seq::<SObjectProperty>::empty());
    assert(ids_view(&r) + Seq::<Seq<char>>::empty() =~= ids_view(&r));
    r
}

fn template_parts_ids_rev_exec(v: &Vec<StringTemplatePart>) -> (r: Vec<Identifier>)
    ensures
        ids_view(&r) == template_parts_ids_rev(template_parts_view(v)),
    decreases v, 0int,
{
    let ghost pv = template_parts_view(v);
    let mut r = no_ids();
    let mut i: usize = v.len();
    assert(pv.skip(v.len() as int) =~= Seq::<STemplatePart>::empty());
    while i > 0
        invariant
            i <= v.len(),
            pv == template_parts_view(v),
            ids_view(&r) == template_parts_ids_rev(pv.skip(i as int)),
        decreases i,
    {
        i -= 1;
        assert(pv.skip(i as int).drop_first() =~= pv.skip(i + 1));
        assert(pv.skip(i as int)[0] == pv[i as int]);
        append_ids(&mut r, v[i].dynamic_end.get_identifiers());
    }
    assert(pv.skip(0) =~= pv);
    r
}

fn cases_body_ids_exec(v: &Vec<MatchCase>) -> (r: Vec<Identifier>)
    ensures
        ids_view(&r) == cases_body_ids(match_cases_view(v)),
    decreases v, 0int,
{
    let ghost pv = match_cases_view(v);
    let mut r = no_ids();
    let mut i: usize = 0;
    assert(pv.skip(0) =~= pv);
    while i < v.len()
        invariant
            i <= v.len(),
            pv == match_cases_view(v),
            cases_body_ids(pv) == ids_view(&r) + cases_body_ids(pv.skip(i as int)),
        decreases v.len() - i,
    {
        assert(pv.skip(i as int).drop_first() =~= pv.skip(i + 1));
        assert(pv.skip(i as int)[0] == pv[i as int]);
        let ghost before = ids_view(&r);
        let body_ids = v[i].body.get_identifiers();
        let bound = v[i].pattern.get_identifiers();
        append_ids(&mut r, remove_bound(&body_ids, &bound));
        i += 1;
    }
    assert(pv.skip(i as int) =~= Seq::<SMatchCase>::empty());
    assert(ids_view(&r) + Seq::<Seq<char>>::empty() =~= ids_view(&r));
    r
}

fn cases_pattern_ids_rev_exec(v: &Vec<MatchCase>) -> (r: Vec<Identifier>)
    ensures
        ids_view(&r) == cases_pattern_ids_rev(match_cases_view(v)),
    decreases v, 0int,
{
    let ghost pv = match_cases_view(v);
    let mut r = no_ids();
    let mut i: usize = v.len();
    assert(pv.skip(v.len() as int) =~= Seq::<SMatchCase>::empty());
    while i > 0
        invariant
            i <= v.len(),
            pv == match_cases_view(v),
            ids_view(&r) == cases_pattern_ids_rev(pv.skip(i as int)),
        decreases i,
    {
        i -= 1;
        assert(pv.skip(i as int).drop_first() =~= pv.skip(i + 1));
        assert(pv.skip(i as int)[0] == pv[i as int]);
        append_ids(&mut r, expression_identifiers_rev(&v[i].pattern));
    }
    assert(pv.skip(0) =~= pv);
    r
}

fn opt_expr_ids_exec(e: &Option<Box<Expression>>) -> (r: Vec<Identifier>)
    ensures
        ids_view(&r) == opt_expr_ids(opt_expr_view(e)),
    decreases e, 0int,
{
    match e {
        Some(x) => x.get_identifiers(),
        None => no_ids(),
    }
}

/// The free names of comprehension sources, and the names they bind.
fn sources_ids_exec(v: &Vec<ComprehensionSource>) -> (r: (Vec<Identifier>, Vec<Identifier>))
    ensures
        ids_view(&r.0) == sources_ids(sources_view(v), Seq::empty()),
        ids_view(&r.1) == sources_bound(sources_view(v), Seq::empty()),
    decreases v, 0int,
{
    let ghost pv = sources_view(v);
    let mut r = no_ids();
    let mut outer = no_ids();
    let mut i: usize = 0;
    assert(pv.skip(0) =~= pv);
    while i < v.len()
        invariant
            i <= v.len(),
            pv == sources_view(v),
            sources_ids(pv, Seq::empty()) == ids_view(&r) + sources_ids(pv.skip(i as int), ids_view(&outer)),
            sources_bound(pv, Seq::empty()) == sources_bound(pv.skip(i as int), ids_view(&outer)),
        decreases v.len() - i,
    {
        assert(pv.skip(i as int).drop_first() =~= pv.skip(i + 1));
        assert(pv.skip(i as int)[0] == pv[i as int]);
        let src = &v[i];
        let ghost outer_before = ids_view(&outer);
        let ghost r_before = ids_view(&r);
        let mut local = remove_bound(&outer, &no_ids());
        proof {
            assert(ids_view(&local) == remove_all(outer_before, Seq::empty()));
            lemma_remove_none(outer_before);
        }
        append_ids(&mut local, src.pattern.get_identifiers());
        let collection_ids = src.collection.get_identifiers();
        append_ids(&mut r, remove_bound(&collection_ids, &outer));
        let predicate_ids = opt_expr_ids_exec(&src.predicate);
        append_ids(&mut r, remove_bound(&predicate_ids, &local));
        let pattern_expr = src.pattern.get_expression_identifiers();
        append_ids(&mut r, remove_bound(&pattern_expr, &outer));
        outer = local;
        assert(ids_view(&r) =~= r_before + (remove_all(expr_ids(pv[i as int].collection), outer_before)
            + remove_all(opt_expr_ids(pv[i as int].predicate), ids_view(&outer))
            + remove_all(pattern_expr_ids(pv[i as int].pattern), outer_before)));
        i += 1;
    }
    assert(pv.skip(i as int) =~= Seq::<SSource>::empty());
    assert(ids_view(&r) + Seq::<Seq<char>>::empty() =~= ids_view(&r));
    (r, outer)
}

proof fn lemma_remove_none(s: Seq<Seq<char>>)
    ensures
        remove_all(s, Seq::empty()) == s,
    decreases s.len(),
{
    if s.len() > 0 {
        lemma_remove_none(s.drop_first());
        assert(seq![s[0]] + s.drop_first() =~= s);
    }
}

impl Expression {
    /// The free names of this expression, in the order of a depth-first
    /// walk (a name may occur more than once).
    pub fn get_identifiers(&self) -> (r: Vec<Identifier>)
        ensures
            ids_view(&r) == expr_ids(self@),
        decreases self, 0int,
    {
        let mut r = match &self.body {
            ExpressionBody::Object(props) => single_props_ids_exec(props),
            ExpressionBody::Identifier(id) => single_id(id),
            ExpressionBody::Abstraction(x) => {
                let inner = x.body.get_identifiers();
                let bound = x.arguments.get_identifiers();
                remove_bound(&inner, &bound)
            },
            ExpressionBody::ArrayComp(x) => {
                let (mut ids, bound) = sources_ids_exec(&x.sources);
                let projection = array_items_ids_exec(&x.projection);
                append_ids(&mut ids, remove_bound(&projection, &bound));
                ids
            },
            ExpressionBody::ObjectComp(x) => {
                let (mut ids, bound) = sources_ids_exec(&x.sources);
                let projection = projection_props_ids_exec(&x.projection);
                append_ids(&mut ids, remove_bound(&projection, &bound));
                ids
            },
            ExpressionBody::Match(x) => cases_body_ids_exec(&x.cases),
            _ => no_ids(),
        };
        assert(ids_view(&r) == expr_node_ids(self@.body));
        let children = match &self.body {
            ExpressionBody::Array(items) => array_items_ids_rev_exec(items),
            ExpressionBody::Binary(x) => {
                let mut c = x.right.get_identifiers();
                append_ids(&mut c, x.left.get_identifiers());
                c
            },
            ExpressionBody::Logical(x) => {
                let mut c = x.right.get_identifiers();
                append_ids(&mut c, x.left.get_identifiers());
                c
            },
            ExpressionBody::Member(x) => {
                let mut c = x.property.get_identifiers();
                append_ids(&mut c, x.object.get_identifiers());
                c
            },
            ExpressionBody::Object(props) => object_props_ids_rev_exec(props),
            ExpressionBody::Unary(x) => x.argument.get_identifiers(),
            ExpressionBody::Call(x) => x.argument.get_identifiers(),
            ExpressionBody::Template(t) => template_parts_ids_rev_exec(&t.parts),
            ExpressionBody::Abstraction(x) => expression_identifiers_rev(&x.arguments),
            ExpressionBody::Application(x) => {
                let mut c = x.parameter.get_identifiers();
                append_ids(&mut c, x.lambda.get_identifiers());
                c
            },
            ExpressionBody::Match(x) => {
                let mut c = cases_pattern_ids_rev_exec(&x.cases);
                append_ids(&mut c, x.subject.get_identifiers());
                c
            },
            ExpressionBody::Condition(x) => {
                let mut c = opt_expr_ids_exec(&x.false_branch);
                append_ids(&mut c, x.true_branch.get_identifiers());
                append_ids(&mut c, x.condition.get_identifiers());
                c
            },
            _ => no_ids(),
        };
        assert(ids_view(&children) == expr_children_ids_rev(self@.body));
        append_ids(&mut r, children);
        r
    }
}
} // verus!
