//! Walking the sub-patterns of a pattern and the sub-expressions of an
//! expression, depth first.
use vstd::prelude::*;
use crate::syntax::expression::{
    Expression, ExpressionBody, ArrayItem, ObjectProperty, PropertyKey, StringTemplatePart,
    ComprehensionSource, MatchCase, SExpr, SExprBody, SArrayItem, SObjectProperty, SPropertyKey,
    STemplatePart, SSource, SMatchCase, array_items_view, object_props_view, template_parts_view,
    sources_view, match_cases_view, array_item_view, object_property_view, template_part_view,
    source_view, match_case_view,
};
use crate::syntax::pattern::{
    Pattern, PatternBody, Rest, ArrayPatternItem, ObjectPropertyPattern, SPattern, SPatternBody,
    SRest, SObjectPropertyPattern, object_prop_patterns_view, array_pattern_items_view,
    object_prop_pattern_view, array_pattern_item_view,
};

verus! {

// ---------------------------------------------------------------------------
// Patterns.
// ---------------------------------------------------------------------------

/// The sub-patterns a walk visits after `p`, in the order they are put on
/// the stack (the last one is visited first).
pub open spec fn pattern_children(p: SPattern) -> Seq<SPattern> {
    match p.body {
        SPatternBody::Object(props, rest) => prop_values(props) + rest_patterns(rest),
        SPatternBody::Array(items, rest) => items + rest_patterns(rest),
        _ => Seq::empty(),
    }
}

pub open spec fn rest_patterns(r: SRest) -> Seq<SPattern> {
    match r {
        SRest::Collect(q) => seq![*q],
        _ => Seq::empty(),
    }
}

/// The patterns of the properties of an object pattern that have one.
pub open spec fn prop_values(props: Seq<SObjectPropertyPattern>) -> Seq<SPattern>
    decreases props.len(),
{
    if props.len() == 0 {
        Seq::empty()
    } else {
        (match props[0] {
            SObjectPropertyPattern::Match(_, v) => seq![v],
            _ => Seq::empty(),
        }) + prop_values(props.drop_first())
    }
}

/// The expressions of a pattern (pinned expressions and computed keys), in
/// the order a depth-first walk of the pattern meets them.
pub open spec fn pattern_expressions(p: SPattern) -> Seq<SExpr>
    decreases p, 0int,
{
    match p.body {
        SPatternBody::PinnedExpression(e) => seq![*e],
        SPatternBody::Object(props, rest) => prop_key_expressions(props) + rest_expressions(rest)
            + prop_patterns_expressions_rev(props),
        SPatternBody::Array(items, rest) => rest_expressions(rest) + patterns_expressions_rev(items),
        _ => Seq::empty(),
    }
}

pub open spec fn prop_key_expressions(props: Seq<SObjectPropertyPattern>) -> Seq<SExpr>
    decreases props.len(),
{
    if props.len() == 0 {
        Seq::empty()
    } else {
        (match props[0] {
            SObjectPropertyPattern::Match(SPropertyKey::Expression(k), _) => seq![*k],
            _ => Seq::empty(),
        }) + prop_key_expressions(props.drop_first())
    }
}

pub open spec fn rest_expressions(r: SRest) -> Seq<SExpr>
    decreases r, 0int,
{
    match r {
        SRest::Collect(q) => pattern_expressions(*q),
        _ => Seq::empty(),
    }
}

pub open spec fn prop_patterns_expressions_rev(props: Seq<SObjectPropertyPattern>) -> Seq<SExpr>
    decreases props, 0int,
{
    if props.len() == 0 {
        Seq::empty()
    } else {
        prop_patterns_expressions_rev(props.drop_first()) + match props[0] {
            SObjectPropertyPattern::Match(_, v) => pattern_expressions(v),
            _ => Seq::empty(),
        }
    }
}

pub open spec fn patterns_expressions_rev(items: Seq<SPattern>) -> Seq<SExpr>
    decreases items, 0int,
{
    if items.len() == 0 {
        Seq::empty()
    } else {
        patterns_expressions_rev(items.drop_first()) + pattern_expressions(items[0])
    }
}

pub open spec fn pattern_refs_view(v: &Vec<&Pattern>) -> Seq<SPattern> {
    Seq::new(v.len() as nat, |i: int| v[i]@)
}

pub open spec fn expr_refs_view(v: &Vec<&Expression>) -> Seq<SExpr> {
    Seq::new(v.len() as nat, |i: int| v[i]@)
}

fn push_expr<'e>(v: &mut Vec<&'e Expression>, e: &'e Expression)
    ensures
        expr_refs_view(final(v)) == expr_refs_view(old(v)).push(e@),
{
    v.push(e);
    assert(expr_refs_view(v) =~= expr_refs_view(old(v)).push(e@));
}

fn append_exprs<'e>(v: &mut Vec<&'e Expression>, w: Vec<&'e Expression>)
    ensures
        expr_refs_view(final(v)) == expr_refs_view(old(v)) + expr_refs_view(&w),
{
    let mut w = w;
    let ghost wv = expr_refs_view(&w);
    v.append(&mut w);
    assert(expr_refs_view(v) =~= expr_refs_view(old(v)) + wv);
}

fn push_pattern<'e>(v: &mut Vec<&'e Pattern>, p: &'e Pattern)
    ensures
        pattern_refs_view(final(v)) == pattern_refs_view(old(v)).push(p@),
{
    v.push(p);
    assert(pattern_refs_view(v) =~= pattern_refs_view(old(v)).push(p@));
}

fn rest_expressions_exec<'e>(r: &'e Rest) -> (out: Vec<&'e Expression>)
    ensures
        expr_refs_view(&out) == rest_expressions(crate::syntax::pattern::rest_view(r)),
    decreases r, 0int,
{
    match r {
        Rest::Collect(q) => q.get_expressions(),
        _ => {
            let out: Vec<&'e Expression> = Vec::new();
            assert(expr_refs_view(&out) =~= Seq::<SExpr>::empty());
            out
        },
    }
}

fn prop_key_expressions_exec<'e>(props: &'e Vec<ObjectPropertyPattern>) -> (out: Vec<&'e Expression>)
    ensures
        expr_refs_view(&out) == prop_key_expressions(object_prop_patterns_view(props)),
{
    let ghost all = object_prop_patterns_view(props);
    let mut out: Vec<&'e Expression> = Vec::new();
    let mut i: usize = 0;
    assert(all.skip(0) =~= all);
    assert(expr_refs_view(&out) + prop_key_expressions(all) =~= prop_key_expressions(all));
    while i < props.len()
        invariant
            i <= props.len(),
            all == object_prop_patterns_view(props),
            expr_refs_view(&out) + prop_key_expressions(all.skip(i as int)) == prop_key_expressions(all),
        decreases props.len() - i,
    {
        let ghost before = expr_refs_view(&out);
        let ghost rest = all.skip(i as int);
        assert(rest[0] == object_prop_pattern_view(&props[i as int]));
        assert(rest.drop_first() =~= all.skip(i + 1));
        match &props[i] {
            ObjectPropertyPattern::Match(m) => match &m.key {
                PropertyKey::Expression(k) => push_expr(&mut out, k),
                _ => {},
            },
            _ => {},
        }
        let ghost item = expr_refs_view(&out).subrange(before.len() as int, expr_refs_view(&out).len() as int);
        assert(expr_refs_view(&out) =~= before + item);
        assert(before + (item + prop_key_expressions(all.skip(i + 1))) =~= expr_refs_view(&out) + prop_key_expressions(all.skip(i + 1)));
        i += 1;
    }
    assert(all.skip(i as int) =~= Seq::<SObjectPropertyPattern>::empty());
    assert(expr_refs_view(&out) + Seq::<SExpr>::empty() =~= expr_refs_view(&out));
    out
}

fn prop_patterns_expressions_rev_exec<'e>(props: &'e Vec<ObjectPropertyPattern>) -> (out: Vec<&'e Expression>)
    ensures
        expr_refs_view(&out) == prop_patterns_expressions_rev(object_prop_patterns_view(props)),
    decreases props, 0int,
{
    let ghost all = object_prop_patterns_view(props);
    let mut out: Vec<&'e Expression> = Vec::new();
    let mut j: usize = props.len();
    assert(all.skip(j as int) =~= Seq::<SObjectPropertyPattern>::empty());
    assert(expr_refs_view(&out) =~= Seq::<SExpr>::empty());
    while j > 0
        invariant
            j <= props.len(),
            all == object_prop_patterns_view(props),
            expr_refs_view(&out) == prop_patterns_expressions_rev(all.skip(j as int)),
        decreases j,
    {
        j -= 1;
        let ghost rest = all.skip(j as int);
        assert(rest[0] == object_prop_pattern_view(&props[j as int]));
        assert(rest.drop_first() =~= all.skip(j + 1));
        match &props[j] {
            ObjectPropertyPattern::Match(m) => {
                let more = m.value.get_expressions();
                append_exprs(&mut out, more);
            },
            _ => {
                assert(expr_refs_view(&out) + Seq::<SExpr>::empty() =~= expr_refs_view(&out));
            },
        }
    }
    assert(all.skip(0) =~= all);
    out
}

fn patterns_expressions_rev_exec<'e>(items: &'e Vec<ArrayPatternItem>) -> (out: Vec<&'e Expression>)
    ensures
        expr_refs_view(&out) == patterns_expressions_rev(array_pattern_items_view(items)),
    decreases items, 0int,
{
    let ghost all = array_pattern_items_view(items);
    let mut out: Vec<&'e Expression> = Vec::new();
    let mut j: usize = items.len();
    assert(all.skip(j as int) =~= Seq::<SPattern>::empty());
    assert(expr_refs_view(&out) =~= Seq::<SExpr>::empty());
    while j > 0
        invariant
            j <= items.len(),
            all == array_pattern_items_view(items),
            expr_refs_view(&out) == patterns_expressions_rev(all.skip(j as int)),
        decreases j,
    {
        j -= 1;
        let ghost rest = all.skip(j as int);
        assert(rest[0] == array_pattern_item_view(&items[j as int]));
        assert(rest.drop_first() =~= all.skip(j + 1));
        match &items[j] {
            ArrayPatternItem::Pattern(q) => {
                let more = q.get_expressions();
                append_exprs(&mut out, more);
            },
        }
    }
    assert(all.skip(0) =~= all);
    out
}

impl Pattern {
    /// The expressions inside this pattern (pinned expressions and computed
    /// keys), in the order a depth-first walk meets them.
    pub fn get_expressions<'e>(&'e self) -> (r: Vec<&'e Expression>)
        ensures
            expr_refs_view(&r) == pattern_expressions(self@),
        decreases self, 0int,
    {
        match &self.body {
            PatternBody::PinnedExpression(e) => {
                let mut r: Vec<&'e Expression> = Vec::new();
                r.push(e);
                assert(expr_refs_view(&r) =~= seq![(**e)@]);
                r
            },
            PatternBody::Object(props, rest) => {
                let mut r = prop_key_expressions_exec(props);
                append_exprs(&mut r, rest_expressions_exec(rest));
                append_exprs(&mut r, prop_patterns_expressions_rev_exec(props));
                r
            },
            PatternBody::Array(items, rest) => {
                let mut r = rest_expressions_exec(rest);
                append_exprs(&mut r, patterns_expressions_rev_exec(items));
                r
            },
            _ => {
                let r: Vec<&'e Expression> = Vec::new();
                assert(expr_refs_view(&r) =~= Seq::<SExpr>::empty());
                r
            },
        }
    }
}

/// A depth-first walk over a pattern and its sub-patterns.
pub struct PatternIterator<'e> {
    /// The patterns still to visit; the last is visited next.
    pub pattern_stack: Vec<&'e Pattern>,
}

impl<'e> PatternIterator<'e> {
    pub fn new(pattern: &'e Pattern) -> (r: PatternIterator<'e>)
        ensures
            pattern_refs_view(&r.pattern_stack) == seq![pattern@],
    {
        let mut pattern_stack: Vec<&'e Pattern> = Vec::new();
        pattern_stack.push(pattern);
        assert(pattern_refs_view(&pattern_stack) =~= seq![pattern@]);
        PatternIterator { pattern_stack }
    }

    /// Puts the sub-patterns of `pattern` on the stack.
    pub fn push_children(&mut self, pattern: &'e Pattern)
        ensures
            pattern_refs_view(&final(self).pattern_stack) == pattern_refs_view(&old(self).pattern_stack) + pattern_children(pattern@),
    {
        let ghost start = pattern_refs_view(&self.pattern_stack);
        match &pattern.body {
            PatternBody::Object(props, rest) => {
                let ghost all = object_prop_patterns_view(props);
                let mut i: usize = 0;
                assert(all.skip(0) =~= all);
                assert(pattern_refs_view(&self.pattern_stack) + prop_values(all) =~= start + prop_values(all));
                while i < props.len()
                    invariant
                        i <= props.len(),
                        all == object_prop_patterns_view(props),
                        pattern_refs_view(&self.pattern_stack) + prop_values(all.skip(i as int)) == start + prop_values(all),
                    decreases props.len() - i,
                {
                    let ghost before = pattern_refs_view(&self.pattern_stack);
                    let ghost rest = all.skip(i as int);
                    assert(rest[0] == object_prop_pattern_view(&props[i as int]));
                    assert(rest.drop_first() =~= all.skip(i + 1));
                    match &props[i] {
                        ObjectPropertyPattern::Match(m) => push_pattern(&mut self.pattern_stack, &m.value),
                        _ => {},
                    }
                    let ghost cur = pattern_refs_view(&self.pattern_stack);
                    let ghost item = cur.subrange(before.len() as int, cur.len() as int);
                    assert(cur =~= before + item);
                    assert(before + (item + prop_values(all.skip(i + 1))) =~= cur + prop_values(all.skip(i + 1)));
                    i += 1;
                }
                assert(all.skip(i as int) =~= Seq::<SObjectPropertyPattern>::empty());
                let ghost mid = pattern_refs_view(&self.pattern_stack);
                assert(mid + Seq::<SPattern>::empty() =~= mid);
                assert(mid == start + prop_values(all));
                assert(pattern@.body == SPatternBody::Object(all, crate::syntax::pattern::rest_view(rest)));
                match rest {
                    Rest::Collect(q) => push_pattern(&mut self.pattern_stack, q),
                    _ => {},
                }
                assert(pattern_refs_view(&self.pattern_stack) =~= start + pattern_children(pattern@));
            },
            PatternBody::Array(items, rest) => {
                let ghost all = array_pattern_items_view(items);
                let mut i: usize = 0;
                while i < items.len()
                    invariant
                        i <= items.len(),
                        all == array_pattern_items_view(items),
                        pattern_refs_view(&self.pattern_stack) == start + all.take(i as int),
                    decreases items.len() - i,
                {
                    assert(all[i as int] == array_pattern_item_view(&items[i as int]));
                    match &items[i] {
                        ArrayPatternItem::Pattern(q) => push_pattern(&mut self.pattern_stack, q),
                    }
                    assert(all.take(i + 1) =~= all.take(i as int).push(all[i as int]));
                    i += 1;
                }
                assert(all.take(i as int) =~= all);
                assert(pattern@.body == SPatternBody::Array(all, crate::syntax::pattern::rest_view(rest)));
                match rest {
                    Rest::Collect(q) => push_pattern(&mut self.pattern_stack, q),
                    _ => {},
                }
                assert(pattern_refs_view(&self.pattern_stack) =~= start + pattern_children(pattern@));
            },
            _ => {
                assert(pattern_refs_view(&self.pattern_stack) =~= start + pattern_children(pattern@));
            },
        }
    }

    /// The next pattern of the walk, its sub-patterns put on the stack.
    pub fn next(&mut self) -> (r: Option<&'e Pattern>)
        ensures
            match r {
                None => pattern_refs_view(&old(self).pattern_stack).len() == 0
                    && pattern_refs_view(&final(self).pattern_stack) == pattern_refs_view(&old(self).pattern_stack),
                Some(p) => pattern_refs_view(&old(self).pattern_stack).len() > 0
                    && p@ == pattern_refs_view(&old(self).pattern_stack).last()
                    && pattern_refs_view(&final(self).pattern_stack)
                        == pattern_refs_view(&old(self).pattern_stack).drop_last() + pattern_children(p@),
            },
    {
        let ghost start = pattern_refs_view(&self.pattern_stack);
        match self.pattern_stack.pop() {
            None => None,
            Some(p) => {
                assert(pattern_refs_view(&self.pattern_stack) =~= start.drop_last());
                self.push_children(p);
                Some(p)
            },
        }
    }
}

// ---------------------------------------------------------------------------
// Expressions.
// ---------------------------------------------------------------------------

pub open spec fn array_items_exprs(items: Seq<SArrayItem>) -> Seq<SExpr>
    decreases items.len(),
{
    if items.len() == 0 {
        Seq::empty()
    } else {
        seq![match items[0] {
            SArrayItem::Single(x) => x,
            SArrayItem::Spread(x) => x,
        }] + array_items_exprs(items.drop_first())
    }
}

pub open spec fn object_props_exprs(props: Seq<SObjectProperty>) -> Seq<SExpr>
    decreases props.len(),
{
    if props.len() == 0 {
        Seq::empty()
    } else {
        (match props[0] {
            SObjectProperty::Single(_) => Seq::empty(),
            SObjectProperty::Property(key, value) => seq![value] + match key {
                SPropertyKey::Expression(k) => seq![*k],
                _ => Seq::empty(),
            },
            SObjectProperty::Spread(x) => seq![x],
        }) + object_props_exprs(props.drop_first())
    }
}

pub open spec fn template_parts_exprs(parts: Seq<STemplatePart>) -> Seq<SExpr>
    decreases parts.len(),
{
    if parts.len() == 0 {
        Seq::empty()
    } else {
        seq![parts[0].dynamic_end] + template_parts_exprs(parts.drop_first())
    }
}

pub open spec fn sources_exprs(sources: Seq<SSource>) -> Seq<SExpr>
    decreases sources.len(),
{
    if sources.len() == 0 {
        Seq::empty()
    } else {
        seq![sources[0].collection] + pattern_expressions(sources[0].pattern) + (match sources[0].predicate {
            Some(p) => seq![p],
            None => Seq::empty(),
        }) + sources_exprs(sources.drop_first())
    }
}

pub open spec fn cases_exprs(cases: Seq<SMatchCase>, deep: bool) -> Seq<SExpr>
    decreases cases.len(),
{
    if cases.len() == 0 {
        Seq::empty()
    } else {
        pattern_expressions(cases[0].pattern) + (if deep { seq![cases[0].body] } else { Seq::empty() })
            + cases_exprs(cases.drop_first(), deep)
    }
}

/// The sub-expressions a walk visits after `e`, in the order they are put
/// on the stack (the last one is visited first). A shallow walk does not
/// enter lambda bodies, comprehensions or the bodies of match cases.
pub open spec fn expr_children(e: SExpr, deep: bool) -> Seq<SExpr> {
    match e.body {
        SExprBody::Array(items) => array_items_exprs(items),
        SExprBody::Binary(_, l, r) => seq![*l, *r],
        SExprBody::Identifier(_) => Seq::empty(),
        SExprBody::Literal(_) => Seq::empty(),
        SExprBody::Logical(_, l, r) => seq![*l, *r],
        SExprBody::Member(o, p) => seq![*o, *p],
        SExprBody::Object(props) => object_props_exprs(props),
        SExprBody::Unary(_, a) => seq![*a],
        SExprBody::Call(_, a) => seq![*a],
        SExprBody::Template(parts, _) => template_parts_exprs(parts),
        SExprBody::Abstraction(args, body) => pattern_expressions(*args) + (if deep { seq![*body] } else { Seq::empty() }),
        SExprBody::Application(l, p) => seq![*l, *p],
        SExprBody::ArrayComp(sources, projection) => if deep {
            sources_exprs(sources) + array_items_exprs(projection)
        } else {
            Seq::empty()
        },
        SExprBody::ObjectComp(sources, projection) => if deep {
            sources_exprs(sources) + object_props_exprs(projection)
        } else {
            Seq::empty()
        },
        SExprBody::Match(subject, cases) => seq![*subject] + cases_exprs(cases, deep),
        SExprBody::Condition(c, t, f) => seq![*c, *t] + match f {
            Some(x) => seq![*x],
            None => Seq::empty(),
        },
    }
}

/// A depth-first walk over an expression and its sub-expressions.
pub struct ExpressionIterator<'e> {
    /// The expressions still to visit; the last is visited next.
    pub expression_stack: Vec<&'e Expression>,
    /// Whether the walk enters lambda bodies, comprehensions and the bodies
    /// of match cases.
    pub deep: bool,
}

impl<'e> ExpressionIterator<'e> {
    pub fn new(expression: &'e Expression, deep: bool) -> (r: ExpressionIterator<'e>)
        ensures
            expr_refs_view(&r.expression_stack) == seq![expression@],
            r.deep == deep,
    {
        let mut expression_stack: Vec<&'e Expression> = Vec::new();
        expression_stack.push(expression);
        assert(expr_refs_view(&expression_stack) =~= seq![expression@]);
        ExpressionIterator { expression_stack, deep }
    }

    fn push_array_items(&mut self, items: &'e Vec<ArrayItem>)
        ensures
            final(self).deep == old(self).deep,
            expr_refs_view(&final(self).expression_stack) == expr_refs_view(&old(self).expression_stack) + array_items_exprs(array_items_view(items)),
    {
        let ghost start = expr_refs_view(&self.expression_stack);
        let ghost all = array_items_view(items);
        let mut i: usize = 0;
        assert(all.skip(0) =~= all);
        while i < items.len()
            invariant
                i <= items.len(),
                self.deep == old(self).deep,
                all == array_items_view(items),
                expr_refs_view(&self.expression_stack) + array_items_exprs(all.skip(i as int)) == start + array_items_exprs(all),
            decreases items.len() - i,
        {
            let ghost before = expr_refs_view(&self.expression_stack);
            let ghost rest = all.skip(i as int);
            assert(rest[0] == array_item_view(&items[i as int]));
            assert(rest.drop_first() =~= all.skip(i + 1));
            match &items[i] {
                ArrayItem::Single(x) => push_expr(&mut self.expression_stack, x),
                ArrayItem::Spread(x) => push_expr(&mut self.expression_stack, x),
            }
            let ghost cur = expr_refs_view(&self.expression_stack);
            let ghost item = cur.subrange(before.len() as int, cur.len() as int);
            assert(cur =~= before + item);
            assert(before + (item + array_items_exprs(all.skip(i + 1))) =~= cur + array_items_exprs(all.skip(i + 1)));
            i += 1;
        }
        assert(all.skip(i as int) =~= Seq::<SArrayItem>::empty());
        assert(expr_refs_view(&self.expression_stack) + Seq::<SExpr>::empty() =~= expr_refs_view(&self.expression_stack));
    }

    fn push_object_props(&mut self, props: &'e Vec<ObjectProperty>)
        ensures
            final(self).deep == old(self).deep,
            expr_refs_view(&final(self).expression_stack) == expr_refs_view(&old(self).expression_stack) + object_props_exprs(object_props_view(props)),
    {
        let ghost start = expr_refs_view(&self.expression_stack);
        let ghost all = object_props_view(props);
        let mut i: usize = 0;
        assert(all.skip(0) =~= all);
        while i < props.len()
            invariant
                i <= props.len(),
                self.deep == old(self).deep,
                all == object_props_view(props),
                expr_refs_view(&self.expression_stack) + object_props_exprs(all.skip(i as int)) == start + object_props_exprs(all),
            decreases props.len() - i,
        {
            let ghost before = expr_refs_view(&self.expression_stack);
            let ghost rest = all.skip(i as int);
            assert(rest[0] == object_property_view(&props[i as int]));
            assert(rest.drop_first() =~= all.skip(i + 1));
            match &props[i] {
                ObjectProperty::Single(_) => {},
                ObjectProperty::Property(p) => {
                    push_expr(&mut self.expression_stack, &p.value);
                    match &p.key {
                        PropertyKey::Expression(k) => push_expr(&mut self.expression_stack, k),
                        _ => {},
                    }
                },
                ObjectProperty::Spread(x) => push_expr(&mut self.expression_stack, x),
            }
            let ghost cur = expr_refs_view(&self.expression_stack);
            let ghost item = cur.subrange(before.len() as int, cur.len() as int);
            assert(cur =~= before + item);
            assert(before + (item + object_props_exprs(all.skip(i + 1))) =~= cur + object_props_exprs(all.skip(i + 1)));
            i += 1;
        }
        assert(all.skip(i as int) =~= Seq::<SObjectProperty>::empty());
        assert(expr_refs_view(&self.expression_stack) + Seq::<SExpr>::empty() =~= expr_refs_view(&self.expression_stack));
    }

    fn push_sources(&mut self, sources: &'e Vec<ComprehensionSource>)
        ensures
            final(self).deep == old(self).deep,
            expr_refs_view(&final(self).expression_stack) == expr_refs_view(&old(self).expression_stack) + sources_exprs(sources_view(sources)),
    {
        let ghost start = expr_refs_view(&self.expression_stack);
        let ghost all = sources_view(sources);
        let mut i: usize = 0;
        assert(all.skip(0) =~= all);
        while i < sources.len()
            invariant
                i <= sources.len(),
                self.deep == old(self).deep,
                all == sources_view(sources),
                expr_refs_view(&self.expression_stack) + sources_exprs(all.skip(i as int)) == start + sources_exprs(all),
            decreases sources.len() - i,
        {
            let ghost before = expr_refs_view(&self.expression_stack);
            let ghost rest = all.skip(i as int);
            assert(rest[0] == source_view(&sources[i as int]));
            assert(rest.drop_first() =~= all.skip(i + 1));
            let src = &sources[i];
            push_expr(&mut self.expression_stack, &src.collection);
            append_exprs(&mut self.expression_stack, src.pattern.get_expressions());
            match &src.predicate {
                Some(p) => push_expr(&mut self.expression_stack, p),
                None => {},
            }
            let ghost cur = expr_refs_view(&self.expression_stack);
            let ghost item = cur.subrange(before.len() as int, cur.len() as int);
            assert(cur =~= before + item);
            assert(before + (item + sources_exprs(all.skip(i + 1))) =~= cur + sources_exprs(all.skip(i + 1)));
            i += 1;
        }
        assert(all.skip(i as int) =~= Seq::<SSource>::empty());
        assert(expr_refs_view(&self.expression_stack) + Seq::<SExpr>::empty() =~= expr_refs_view(&self.expression_stack));
    }

    fn push_cases(&mut self, cases: &'e Vec<MatchCase>)
        ensures
            final(self).deep == old(self).deep,
            expr_refs_view(&final(self).expression_stack) == expr_refs_view(&old(self).expression_stack) + cases_exprs(match_cases_view(cases), old(self).deep),
    {
        let ghost start = expr_refs_view(&self.expression_stack);
        let ghost all = match_cases_view(cases);
        let mut i: usize = 0;
        assert(all.skip(0) =~= all);
        while i < cases.len()
            invariant
                i <= cases.len(),
                self.deep == old(self).deep,
                all == match_cases_view(cases),
                expr_refs_view(&self.expression_stack) + cases_exprs(all.skip(i as int), self.deep) == start + cases_exprs(all, self.deep),
            decreases cases.len() - i,
        {
            let ghost before = expr_refs_view(&self.expression_stack);
            let ghost rest = all.skip(i as int);
            assert(rest[0] == match_case_view(&cases[i as int]));
            assert(rest.drop_first() =~= all.skip(i + 1));
            append_exprs(&mut self.expression_stack, cases[i].pattern.get_expressions());
            if self.deep {
                push_expr(&mut self.expression_stack, &cases[i].body);
            }
            let ghost cur = expr_refs_view(&self.expression_stack);
            let ghost item = cur.subrange(before.len() as int, cur.len() as int);
            assert(cur =~= before + item);
            assert(before + (item + cases_exprs(all.skip(i + 1), self.deep)) =~= cur + cases_exprs(all.skip(i + 1), self.deep));
            i += 1;
        }
        assert(all.skip(i as int) =~= Seq::<SMatchCase>::empty());
        assert(expr_refs_view(&self.expression_stack) + Seq::<SExpr>::empty() =~= expr_refs_view(&self.expression_stack));
    }

    fn push_template_parts(&mut self, parts: &'e Vec<StringTemplatePart>)
        ensures
            final(self).deep == old(self).deep,
            expr_refs_view(&final(self).expression_stack) == expr_refs_view(&old(self).expression_stack) + template_parts_exprs(template_parts_view(parts)),
    {
        let ghost start = expr_refs_view(&self.expression_stack);
        let ghost all = template_parts_view(parts);
        let mut i: usize = 0;
        assert(all.skip(0) =~= all);
        while i < parts.len()
            invariant
                i <= parts.len(),
                self.deep == old(self).deep,
                all == template_parts_view(parts),
                expr_refs_view(&self.expression_stack) + template_parts_exprs(all.skip(i as int)) == start + template_parts_exprs(all),
            decreases parts.len() - i,
        {
            let ghost before = expr_refs_view(&self.expression_stack);
            let ghost rest = all.skip(i as int);
            assert(rest[0] == template_part_view(&parts[i as int]));
            assert(rest.drop_first() =~= all.skip(i + 1));
            push_expr(&mut self.expression_stack, &parts[i].dynamic_end);
            let ghost cur = expr_refs_view(&self.expression_stack);
            assert(before + (seq![parts[i as int].dynamic_end@] + template_parts_exprs(all.skip(i + 1))) =~= cur + template_parts_exprs(all.skip(i + 1)));
            i += 1;
        }
        assert(all.skip(i as int) =~= Seq::<STemplatePart>::empty());
        assert(expr_refs_view(&self.expression_stack) + Seq::<SExpr>::empty() =~= expr_refs_view(&self.expression_stack));
    }

    /// Puts the sub-expressions of `expression` on the stack.
    pub fn push_children(&mut self, expression: &'e Expression)
        ensures
            final(self).deep == old(self).deep,
            expr_refs_view(&final(self).expression_stack) == expr_refs_view(&old(self).expression_stack) + expr_children(expression@, old(self).deep),
    {
        let ghost start = expr_refs_view(&self.expression_stack);
        match &expression.body {
            ExpressionBody::Array(items) => self.push_array_items(items),
            ExpressionBody::Binary(x) => {
                push_expr(&mut self.expression_stack, &x.left);
                push_expr(&mut self.expression_stack, &x.right);
            },
            ExpressionBody::Identifier(_) => {},
            ExpressionBody::Literal(_) => {},
            ExpressionBody::Logical(x) => {
                push_expr(&mut self.expression_stack, &x.left);
                push_expr(&mut self.expression_stack, &x.right);
            },
            ExpressionBody::Member(x) => {
                push_expr(&mut self.expression_stack, &x.object);
                push_expr(&mut self.expression_stack, &x.property);
            },
            ExpressionBody::Object(props) => self.push_object_props(props),
            ExpressionBody::Unary(x) => push_expr(&mut self.expression_stack, &x.argument),
            ExpressionBody::Call(x) => push_expr(&mut self.expression_stack, &x.argument),
            ExpressionBody::Template(t) => self.push_template_parts(&t.parts),
            ExpressionBody::Abstraction(x) => {
                append_exprs(&mut self.expression_stack, x.arguments.get_expressions());
                if self.deep {
                    push_expr(&mut self.expression_stack, &x.body);
                }
            },
            ExpressionBody::Application(x) => {
                push_expr(&mut self.expression_stack, &x.lambda);
                push_expr(&mut self.expression_stack, &x.parameter);
            },
            ExpressionBody::ArrayComp(x) => {
                if self.deep {
                    self.push_sources(&x.sources);
                    self.push_array_items(&x.projection);
                }
            },
            ExpressionBody::ObjectComp(x) => {
                if self.deep {
                    self.push_sources(&x.sources);
                    self.push_object_props(&x.projection);
                }
            },
            ExpressionBody::Match(x) => {
                push_expr(&mut self.expression_stack, &x.subject);
                self.push_cases(&x.cases);
            },
            ExpressionBody::Condition(x) => {
                push_expr(&mut self.expression_stack, &x.condition);
                push_expr(&mut self.expression_stack, &x.true_branch);
                match &x.false_branch {
                    Some(f) => push_expr(&mut self.expression_stack, f),
                    None => {},
                }
            },
        }
        assert(expr_refs_view(&self.expression_stack) =~= start + expr_children(expression@, old(self).deep));
    }

    /// The next expression of the walk, its sub-expressions put on the stack.
    pub fn next(&mut self) -> (r: Option<&'e Expression>)
        ensures
            final(self).deep == old(self).deep,
            match r {
                None => expr_refs_view(&old(self).expression_stack).len() == 0
                    && expr_refs_view(&final(self).expression_stack) == expr_refs_view(&old(self).expression_stack),
                Some(e) => expr_refs_view(&old(self).expression_stack).len() > 0
                    && e@ == expr_refs_view(&old(self).expression_stack).last()
                    && expr_refs_view(&final(self).expression_stack)
                        == expr_refs_view(&old(self).expression_stack).drop_last() + expr_children(e@, old(self).deep),
            },
    {
        let ghost start = expr_refs_view(&self.expression_stack);
        match self.expression_stack.pop() {
            None => None,
            Some(e) => {
                assert(expr_refs_view(&self.expression_stack) =~= start.drop_last());
                self.push_children(e);
                Some(e)
            },
        }
    }
}

} // verus!
