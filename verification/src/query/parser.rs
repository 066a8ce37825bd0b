//! The grammar of queries: bags of expressions, predicates, projections and
//! transformations.
use vstd::prelude::*;
use crate::identifier::Identifier;
use crate::literal::{Literal, SLiteral};
use crate::strings::{nat_digits, usize_to_string, chars_of, string_from_chars};
use crate::syntax::expression::{Expression, ExpressionBody, ExpressionSet, SExpr, SExprBody};
use crate::syntax::pattern::{Pattern, PatternBody, PatternSet, SPattern, SPatternBody};
use crate::parser::input::{Input, ws_tag, multispace0, ws_tag_at, skip_multispace};
use crate::parser::expression::{expression, expression_many0, expression_many1};
use crate::parser::pattern::many1_pattern;
use crate::parser::grammar::{expression_at, expression_list_at, pattern_list_at, view_pos, whole};
use crate::query::capture::MultiCapture;
use crate::query::predicate::MultiPredicate;
use crate::query::projection::MultiProjection;
use crate::query::transformation::Transformation;

verus! {

/// The name under which a projection captures the value at position `i`:
/// `$` and the decimal digits of `i`.
pub open spec fn capture_name(i: nat) -> Seq<char> {
    seq!['$'] + nat_digits(i)
}

/// Each pattern wrapped in a capture under the name of its position.
pub open spec fn auto_named_patterns(ps: Seq<SPattern>) -> Seq<SPattern> {
    Seq::new(ps.len(), |i: int| SPattern {
        body: SPatternBody::Capture(capture_name(i as nat), Box::new(ps[i])),
        location: None,
    })
}

/// The identifiers `$0`, `$1`, ... for `n` captured values.
pub open spec fn auto_projections(n: nat) -> Seq<SExpr> {
    Seq::new(n, |i: int| SExpr { body: SExprBody::Identifier(capture_name(i as nat)), location: None })
}

/// The literal `true` as an expression without location.
pub open spec fn true_expr() -> SExpr {
    SExpr { body: SExprBody::Literal(SLiteral::Boolean(true)), location: None }
}

/// The default projection: `$$` matched, guarded by `true`, and projected
/// as `$$`.
pub open spec fn default_projection() -> (Seq<SPattern>, SExpr, Seq<SExpr>) {
    (
        seq![SPattern { body: SPatternBody::Identifier("$$"@), location: None }],
        true_expr(),
        seq![SExpr { body: SExprBody::Identifier("$$"@), location: None }],
    )
}

/// The patterns, guard and projections of a projection.
pub open spec fn projection_view(p: &MultiProjection) -> (Seq<SPattern>, SExpr, Seq<SExpr>) {
    (p.predicate.capture.patterns@, p.predicate.guard@, p.projections@)
}

/// The bag, patterns, guard and projections of a transformation.
pub open spec fn transformation_view(t: &Transformation) -> (Seq<SExpr>, Seq<SPattern>, SExpr, Seq<SExpr>) {
    (t.bag@, t.projection.predicate.capture.patterns@, t.projection.predicate.guard@, t.projection.projections@)
}

/// The projection that the parts of a `|>` clause describe.
pub open spec fn auto_named(
    patterns: Option<Seq<SPattern>>,
    guard: Option<SExpr>,
    projections: Option<Seq<SExpr>>,
) -> (Seq<SPattern>, SExpr, Seq<SExpr>) {
    let pats = match patterns {
        Some(ps) => ps,
        None => seq![SPattern { body: SPatternBody::Discard, location: None }],
    };
    (
        auto_named_patterns(pats),
        match guard {
            Some(g) => g,
            None => true_expr(),
        },
        match projections {
            Some(p) => p,
            None => auto_projections(pats.len()),
        },
    )
}

/// `{`, expressions (at least `min` of them) separated by `;`, and `}`.
pub open spec fn query_bag_at(s: Seq<char>, pos: nat, min: nat) -> Option<(Seq<SExpr>, nat)> {
    match ws_tag_at(s, pos, "{"@) {
        Some(p1) => match expression_list_at(s, p1, min) {
            Some((set, p2)) => match ws_tag_at(s, p2, "}"@) {
                Some(p3) => Some((set, p3)),
                None => None,
            },
            None => None,
        },
        None => None,
    }
}

/// Patterns with blanks around them.
pub open spec fn ws_patterns_at(s: Seq<char>, pos: nat) -> Option<(Seq<SPattern>, nat)> {
    match pattern_list_at(s, skip_multispace(s, pos), 1) {
        Some((set, p1)) => Some((set, skip_multispace(s, p1))),
        None => None,
    }
}

/// A keyword and an expression, with blanks around both.
pub open spec fn keyword_expression_at(s: Seq<char>, pos: nat, keyword: Seq<char>) -> Option<(SExpr, nat)> {
    match ws_tag_at(s, pos, keyword) {
        Some(p1) => match expression_at(s, skip_multispace(s, p1)) {
            Some((e, p3)) => Some((e, skip_multispace(s, p3))),
            None => None,
        },
        None => None,
    }
}

/// Patterns and an optional `where` and guard.
pub open spec fn multi_predicate_at(s: Seq<char>, pos: nat) -> Option<((Seq<SPattern>, SExpr), nat)> {
    match ws_patterns_at(s, pos) {
        Some((patterns, p1)) => match keyword_expression_at(s, p1, "where"@) {
            Some((g, p2)) => Some(((patterns, g), p2)),
            None => Some(((patterns, true_expr()), p1)),
        },
        None => None,
    }
}

/// `|>`, then optionally `map` and patterns, `where` and a guard, and
/// `into` and expressions.
pub open spec fn projection_at(s: Seq<char>, pos: nat) -> Option<((Seq<SPattern>, SExpr, Seq<SExpr>), nat)> {
    match ws_tag_at(s, pos, "|>"@) {
        Some(p1) => {
            let (patterns, p2) = match ws_tag_at(s, p1, "map"@) {
                Some(q) => match ws_patterns_at(s, q) {
                    Some((set, q2)) => (Some(set), q2),
                    None => (None, p1),
                },
                None => (None, p1),
            };
            let (guard, p3) = match keyword_expression_at(s, p2, "where"@) {
                Some((g, q)) => (Some(g), q),
                None => (None, p2),
            };
            let (projections, p4) = match ws_tag_at(s, p3, "into"@) {
                Some(q) => match expression_list_at(s, skip_multispace(s, q), 1) {
                    Some((set, q2)) => (Some(set), skip_multispace(s, q2)),
                    None => (None, p3),
                },
                None => (None, p3),
            };
            Some((auto_named(patterns, guard, projections), p4))
        },
        None => None,
    }
}

/// A bag of expressions, and a projection or else the default one.
#[verifier::opaque]
pub open spec fn transformation_at(s: Seq<char>, pos: nat) -> Option<((Seq<SExpr>, Seq<SPattern>, SExpr, Seq<SExpr>), nat)> {
    match query_bag_at(s, pos, 1) {
        Some((bag, p1)) => {
            let (proj, p2) = match projection_at(s, p1) {
                Some(x) => x,
                None => (default_projection(), p1),
            };
            Some(((bag, proj.0, proj.1, proj.2), p2))
        },
        None => None,
    }
}

fn capture_identifier(i: usize) -> (r: Identifier)
    ensures
        r@ == capture_name(i as nat),
{
    let digits = usize_to_string(i);
    let mut chars: Vec<char> = Vec::new();
    chars.push('$');
    let mut tail = chars_of(digits.as_str());
    chars.append(&mut tail);
    assert(chars@ =~= capture_name(i as nat));
    Identifier::new_owned(string_from_chars(&chars))
}

fn true_literal() -> (r: Expression)
    ensures
        r@ == true_expr(),
{
    Expression::new(ExpressionBody::Literal(Literal::Boolean(true)))
}

/// The projection that a `|>` clause describes: its patterns (one `_` when
/// there are none) each captured under the name of its position, its
/// guard (`true` when there is none), and its expressions (when there are
/// none, the captured values in order).
pub fn auto_named_projection(
    patterns: Option<PatternSet>,
    guard: Option<Expression>,
    projections: Option<ExpressionSet>,
) -> (r: MultiProjection)
    ensures
        projection_view(&r) == auto_named(
            match patterns {
                Some(ps) => Some(ps@),
                None => None,
            },
            match guard {
                Some(g) => Some(g@),
                None => None,
            },
            match projections {
                Some(p) => Some(p@),
                None => None,
            },
        ),
{
    let mut source: Vec<Pattern> = match patterns {
        Some(ps) => ps.patterns,
        None => {
            let mut v: Vec<Pattern> = Vec::new();
            v.push(Pattern::new(PatternBody::Discard));
            v
        },
    };
    let ghost pats: Seq<SPattern> = Seq::new(source.len() as nat, |i: int| source[i]@);
    let n = source.len();
    let mut named: Vec<Pattern> = Vec::new();
    let mut i: usize = 0;
    while i < n
        invariant
            n == pats.len(),
            i <= n,
            source.len() == n - i,
            forall|k: int| 0 <= k < source.len() ==> #[trigger] source[k]@ == pats[i + k],
            named.len() == i,
            forall|k: int| 0 <= k < i ==> #[trigger] named[k]@ == auto_named_patterns(pats)[k],
        decreases n - i,
    {
        assert(source[0]@ == pats[i as int]);
        let p = source.remove(0);
        let id = capture_identifier(i);
        let wrapped = Pattern::new(PatternBody::Capture(id, Box::new(p)));
        assert(wrapped@ == auto_named_patterns(pats)[i as int]);
        named.push(wrapped);
        assert(forall|k: int| 0 <= k < source.len() ==> #[trigger] source[k]@ == pats[i + 1 + k]);
        i += 1;
    }
    let named_set = PatternSet { patterns: named };
    assert(named_set@ =~= auto_named_patterns(pats));
    let guard_expr = match guard {
        Some(g) => g,
        None => true_literal(),
    };
    let projection_set = match projections {
        Some(p) => p,
        None => {
            let mut exprs: Vec<Expression> = Vec::new();
            let mut j: usize = 0;
            while j < n
                invariant
                    j <= n,
                    exprs.len() == j,
                    forall|k: int| 0 <= k < j ==> #[trigger] exprs[k]@ == auto_projections(n as nat)[k],
                decreases n - j,
            {
                exprs.push(Expression::new(ExpressionBody::Identifier(capture_identifier(j))));
                j += 1;
            }
            let set = ExpressionSet { expressions: exprs };
            assert(set@ =~= auto_projections(n as nat));
            set
        },
    };
    MultiProjection {
        predicate: MultiPredicate { capture: MultiCapture { patterns: named_set }, guard: guard_expr },
        projections: projection_set,
    }
}

/// One or more expressions in `{` `}`.
pub fn query_bag(inp: &Input, pos: usize) -> (r: Option<(ExpressionSet, usize)>)
    requires
        inp.wf(),
        pos <= inp.chars.len(),
    ensures
        view_pos(&r) == query_bag_at(inp.chars@, pos as nat, 1),
        r matches Some((_, p)) ==> pos <= p <= inp.chars.len(),
{
    let p1 = match ws_tag(inp, pos, "{") {
        Some(p) => p,
        None => return None,
    };
    let (set, p2) = match expression_many1(inp, p1) {
        Some(x) => x,
        None => return None,
    };
    match ws_tag(inp, p2, "}") {
        Some(p3) => Some((set, p3)),
        None => None,
    }
}

/// Zero or more expressions in `{` `}`.
pub fn query_bag_allow_empty(inp: &Input, pos: usize) -> (r: Option<(ExpressionSet, usize)>)
    requires
        inp.wf(),
        pos <= inp.chars.len(),
    ensures
        view_pos(&r) == query_bag_at(inp.chars@, pos as nat, 0),
        r matches Some((_, p)) ==> pos <= p <= inp.chars.len(),
{
    let p1 = match ws_tag(inp, pos, "{") {
        Some(p) => p,
        None => return None,
    };
    let (set, p2) = match expression_many0(inp, p1) {
        Some(x) => x,
        None => return None,
    };
    match ws_tag(inp, p2, "}") {
        Some(p3) => Some((set, p3)),
        None => None,
    }
}

/// One or more patterns with spaces around them.
fn ws_patterns(inp: &Input, pos: usize) -> (r: Option<(PatternSet, usize)>)
    requires
        inp.wf(),
        pos <= inp.chars.len(),
    ensures
        view_pos(&r) == ws_patterns_at(inp.chars@, pos as nat),
        r matches Some((_, p)) ==> pos <= p <= inp.chars.len(),
{
    let p0 = multispace0(inp, pos);
    match many1_pattern(inp, p0) {
        Some((set, p1)) => Some((set, multispace0(inp, p1))),
        None => None,
    }
}

/// `keyword` and an expression, with spaces around both.
fn keyword_expression(inp: &Input, pos: usize, keyword: &str) -> (r: Option<(Expression, usize)>)
    requires
        inp.wf(),
        pos <= inp.chars.len(),
    ensures
        view_pos(&r) == keyword_expression_at(inp.chars@, pos as nat, keyword@),
        r matches Some((_, p)) ==> pos <= p <= inp.chars.len(),
{
    let p1 = match ws_tag(inp, pos, keyword) {
        Some(p) => p,
        None => return None,
    };
    let p2 = multispace0(inp, p1);
    match expression(inp, p2) {
        Some((e, p3)) => Some((e, multispace0(inp, p3))),
        None => None,
    }
}

/// Patterns, optionally followed by `where` and a guard (`true` when there
/// is none).
pub fn multi_predicate(inp: &Input, pos: usize) -> (r: Option<(MultiPredicate, usize)>)
    requires
        inp.wf(),
        pos <= inp.chars.len(),
    ensures
        (match r {
            Some((m, p)) => Some(((m.capture.patterns@, m.guard@), p as nat)),
            None => None,
        }) == multi_predicate_at(inp.chars@, pos as nat),
        r matches Some((_, p)) ==> pos <= p <= inp.chars.len(),
{
    let (patterns, p1) = match ws_patterns(inp, pos) {
        Some(x) => x,
        None => return None,
    };
    let (guard, p2) = match keyword_expression(inp, p1, "where") {
        Some((g, p)) => (g, p),
        None => (true_literal(), p1),
    };
    Some((MultiPredicate { capture: MultiCapture { patterns }, guard }, p2))
}

/// `|>`, then optionally `map` and patterns, `where` and a guard, and
/// `into` and expressions.
pub fn projection(inp: &Input, pos: usize) -> (r: Option<(MultiProjection, usize)>)
    requires
        inp.wf(),
        pos <= inp.chars.len(),
    ensures
        (match r {
            Some((m, p)) => Some((projection_view(&m), p as nat)),
            None => None,
        }) == projection_at(inp.chars@, pos as nat),
        r matches Some((_, p)) ==> pos <= p <= inp.chars.len(),
{
    let p1 = match ws_tag(inp, pos, "|>") {
        Some(p) => p,
        None => return None,
    };
    let (patterns, p2) = match ws_tag(inp, p1, "map") {
        Some(q) => match ws_patterns(inp, q) {
            Some((set, q2)) => (Some(set), q2),
            None => (None, p1),
        },
        None => (None, p1),
    };
    let (guard, p3) = match keyword_expression(inp, p2, "where") {
        Some((g, q)) => (Some(g), q),
        None => (None, p2),
    };
    let (projections, p4) = match ws_tag(inp, p3, "into") {
        Some(q) => {
            let q1 = multispace0(inp, q);
            match expression_many1(inp, q1) {
                Some((set, q2)) => (Some(set), multispace0(inp, q2)),
                None => (None, p3),
            }
        },
        None => (None, p3),
    };
    Some((auto_named_projection(patterns, guard, projections), p4))
}

/// A bag of expressions, optionally followed by a projection (by default
/// one that passes every value through).
pub fn transformation(inp: &Input, pos: usize) -> (r: Option<(Transformation, usize)>)
    requires
        inp.wf(),
        pos <= inp.chars.len(),
    ensures
        (match r {
            Some((t, p)) => Some((transformation_view(&t), p as nat)),
            None => None,
        }) == transformation_at(inp.chars@, pos as nat),
        r matches Some((_, p)) ==> pos <= p <= inp.chars.len(),
{
    proof {
        reveal(transformation_at);
    }
    let (bag, p1) = match query_bag(inp, pos) {
        Some(x) => x,
        None => return None,
    };
    let (proj, p2) = match projection(inp, p1) {
        Some(x) => x,
        None => (MultiProjection::default(), p1),
    };
    Some((Transformation { bag, projection: proj }, p2))
}

/// A whole text that is one transformation.
pub fn transformation_all_consuming(source: &str) -> (r: Option<Transformation>)
    ensures
        (match r {
            Some(t) => Some(transformation_view(&t)),
            None => None,
        }) == whole(transformation_at(source@, 0), source@),
{
    let inp = Input::new(source);
    match transformation(&inp, 0) {
        Some((t, end)) => if end == inp.len() { Some(t) } else { None },
        None => None,
    }
}

/// A whole text that is one bag of expressions in `{` `}`.
pub fn query_bag_all_consuming(source: &str) -> (r: Option<ExpressionSet>)
    ensures
        (match r {
            Some(b) => Some(b@),
            None => None,
        }) == whole(query_bag_at(source@, 0, 1), source@),
{
    let inp = Input::new(source);
    match query_bag(&inp, 0) {
        Some((s, end)) => if end == inp.len() { Some(s) } else { None },
        None => None,
    }
}

/// A whole text that is one bag of zero or more expressions in `{` `}`.
pub fn query_bag_allow_empty_all_consuming(source: &str) -> (r: Option<ExpressionSet>)
    ensures
        (match r {
            Some(b) => Some(b@),
            None => None,
        }) == whole(query_bag_at(source@, 0, 0), source@),
{
    let inp = Input::new(source);
    match query_bag_allow_empty(&inp, 0) {
        Some((s, end)) => if end == inp.len() { Some(s) } else { None },
        None => None,
    }
}

} // verus!
