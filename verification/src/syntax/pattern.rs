use vstd::prelude::*;
use crate::identifier::Identifier;
use crate::literal::{Literal, SLiteral};
use crate::value_type::ValueType;
use crate::syntax::location::Location;
use crate::syntax::expression::{Expression, SExpr, PropertyKey, SPropertyKey, expr_view, property_key_view, expr_eq, property_key_eq, strip_expr, strip_key};

verus! {

/// A pattern together with the source span it was parsed from.
#[derive(Debug)]
pub struct Pattern {
    pub body: PatternBody,
    pub location: Option<Location>,
}

#[derive(Debug)]
pub enum PatternBody {
    Discard,
    Capture(Identifier, Box<Pattern>),
    Identifier(Identifier),
    PinnedExpression(Box<Expression>),
    TypedDiscard(ValueType),
    TypedIdentifier(Identifier, ValueType),
    Literal(Literal),
    Object(Vec<ObjectPropertyPattern>, Rest),
    Array(Vec<ArrayPatternItem>, Rest),
}

/// A sequence of patterns, as written separated by `;`.
#[derive(Debug)]
pub struct PatternSet {
    pub patterns: Vec<Pattern>,
}

/// What a collection pattern does with the elements it does not name.
#[derive(Debug)]
pub enum Rest {
    Exact,
    Discard,
    Collect(Box<Pattern>),
}

#[derive(Debug)]
pub enum ArrayPatternItem {
    Pattern(Pattern),
}

#[derive(Debug)]
pub enum ObjectPropertyPattern {
    Single(Identifier),
    Match(PropertyPattern),
}

#[derive(Debug)]
pub struct PropertyPattern {
    pub key: PropertyKey,
    pub value: Pattern,
}

// ---------------------------------------------------------------------------
// The mathematical model of patterns.
// ---------------------------------------------------------------------------

pub struct SPattern {
    pub body: SPatternBody,
    pub location: Option<Location>,
}

pub enum SPatternBody {
    Discard,
    Capture(Seq<char>, Box<SPattern>),
    Identifier(Seq<char>),
    PinnedExpression(Box<SExpr>),
    TypedDiscard(ValueType),
    TypedIdentifier(Seq<char>, ValueType),
    Literal(SLiteral),
    Object(Seq<SObjectPropertyPattern>, SRest),
    Array(Seq<SPattern>, SRest),
}

pub enum SRest {
    Exact,
    Discard,
    Collect(Box<SPattern>),
}

pub enum SObjectPropertyPattern {
    Single(Seq<char>),
    Match(SPropertyKey, SPattern),
}

pub open spec fn pattern_view(p: &Pattern) -> SPattern
    decreases p, 0int,
{
    SPattern { body: pattern_body_view(&p.body), location: p.location }
}

pub open spec fn rest_view(r: &Rest) -> SRest
    decreases r, 0int,
{
    match r {
        Rest::Exact => SRest::Exact,
        Rest::Discard => SRest::Discard,
        Rest::Collect(p) => SRest::Collect(Box::new(pattern_view(p))),
    }
}

pub open spec fn object_prop_pattern_view(p: &ObjectPropertyPattern) -> SObjectPropertyPattern
    decreases p, 0int,
{
    match p {
        ObjectPropertyPattern::Single(id) => SObjectPropertyPattern::Single(id@),
        ObjectPropertyPattern::Match(m) => SObjectPropertyPattern::Match(
            property_key_view(&m.key),
            pattern_view(&m.value),
        ),
    }
}

pub open spec fn array_pattern_item_view(p: &ArrayPatternItem) -> SPattern
    decreases p, 0int,
{
    match p {
        ArrayPatternItem::Pattern(q) => pattern_view(q),
    }
}

pub open spec fn object_prop_patterns_view(v: &Vec<ObjectPropertyPattern>) -> Seq<SObjectPropertyPattern>
    decreases v, 0int,
{
    Seq::new(v.len() as nat, |i: int| if 0 <= i < v.len() { object_prop_pattern_view(&v[i]) } else { arbitrary() })
}

pub open spec fn array_pattern_items_view(v: &Vec<ArrayPatternItem>) -> Seq<SPattern>
    decreases v, 0int,
{
    Seq::new(v.len() as nat, |i: int| if 0 <= i < v.len() { array_pattern_item_view(&v[i]) } else { arbitrary() })
}

pub open spec fn pattern_body_view(b: &PatternBody) -> SPatternBody
    decreases b, 0int,
{
    match b {
        PatternBody::Discard => SPatternBody::Discard,
        PatternBody::Capture(id, p) => SPatternBody::Capture(id@, Box::new(pattern_view(p))),
        PatternBody::Identifier(id) => SPatternBody::Identifier(id@),
        PatternBody::PinnedExpression(e) => SPatternBody::PinnedExpression(Box::new(expr_view(e))),
        PatternBody::TypedDiscard(t) => SPatternBody::TypedDiscard(*t),
        PatternBody::TypedIdentifier(id, t) => SPatternBody::TypedIdentifier(id@, *t),
        PatternBody::Literal(l) => SPatternBody::Literal(l@),
        PatternBody::Object(props, rest) => SPatternBody::Object(
            object_prop_patterns_view(props),
            rest_view(rest),
        ),
        PatternBody::Array(items, rest) => SPatternBody::Array(
            array_pattern_items_view(items),
            rest_view(rest),
        ),
    }
}

// ---------------------------------------------------------------------------
// Patterns compare without their source locations.
// ---------------------------------------------------------------------------

/// The pattern with the location of every pattern in it dropped, nested
/// ones included (also those inside pinned expressions); the locations of
/// expressions stay. Two patterns are equal when these agree.
pub open spec fn strip_pattern(p: SPattern) -> SPattern
    decreases p,
{
    SPattern {
        body: match p.body {
            SPatternBody::Capture(id, q) => SPatternBody::Capture(id, Box::new(strip_pattern(*q))),
            SPatternBody::PinnedExpression(e) => SPatternBody::PinnedExpression(Box::new(strip_expr(*e))),
            SPatternBody::Object(props, rest) => SPatternBody::Object(strip_prop_patterns(props), strip_rest(rest)),
            SPatternBody::Array(items, rest) => SPatternBody::Array(strip_patterns(items), strip_rest(rest)),
            other => other,
        },
        location: None,
    }
}

pub open spec fn strip_rest(r: SRest) -> SRest
    decreases r,
{
    match r {
        SRest::Collect(p) => SRest::Collect(Box::new(strip_pattern(*p))),
        other => other,
    }
}

pub open spec fn strip_prop_pattern(p: SObjectPropertyPattern) -> SObjectPropertyPattern
    decreases p,
{
    match p {
        SObjectPropertyPattern::Match(k, q) => SObjectPropertyPattern::Match(strip_key(k), strip_pattern(q)),
        other => other,
    }
}

pub open spec fn strip_patterns(s: Seq<SPattern>) -> Seq<SPattern>
    decreases s,
{
    Seq::new(s.len(), |i: int| if 0 <= i < s.len() { strip_pattern(s[i]) } else { arbitrary() })
}

pub open spec fn strip_prop_patterns(s: Seq<SObjectPropertyPattern>) -> Seq<SObjectPropertyPattern>
    decreases s,
{
    Seq::new(s.len(), |i: int| if 0 <= i < s.len() { strip_prop_pattern(s[i]) } else { arbitrary() })
}

/// Whether two patterns are equal as the language compares them: by their
/// bodies, whatever their source locations.
pub open spec fn same_pattern(a: SPattern, b: SPattern) -> bool {
    strip_pattern(a) == strip_pattern(b)
}

impl View for Pattern {
    type V = SPattern;

    open spec fn view(&self) -> SPattern {
        pattern_view(self)
    }
}

impl View for Rest {
    type V = SRest;

    open spec fn view(&self) -> SRest {
        rest_view(self)
    }
}

impl View for ObjectPropertyPattern {
    type V = SObjectPropertyPattern;

    open spec fn view(&self) -> SObjectPropertyPattern {
        object_prop_pattern_view(self)
    }
}

impl View for ArrayPatternItem {
    type V = SPattern;

    open spec fn view(&self) -> SPattern {
        array_pattern_item_view(self)
    }
}

impl View for PatternSet {
    type V = Seq<SPattern>;

    open spec fn view(&self) -> Seq<SPattern> {
        Seq::new(self.patterns.len() as nat, |i: int| self.patterns[i]@)
    }
}

impl Pattern {
    /// A pattern without a source location.
    pub fn new(body: PatternBody) -> (r: Pattern)
        ensures
            r.body == body,
            r.location.is_none(),
    {
        Pattern { body, location: None }
    }

    /// A pattern with the given source location.
    pub fn new_with_location(body: PatternBody, location: Location) -> (r: Pattern)
        ensures
            r.body == body,
            r.location == Some(location),
    {
        Pattern { body, location: Some(location) }
    }
}


// ---------------------------------------------------------------------------
// Deep copies.
// ---------------------------------------------------------------------------

fn clone_object_prop_patterns(v: &Vec<ObjectPropertyPattern>) -> (r: Vec<ObjectPropertyPattern>)
    ensures
        object_prop_patterns_view(&r) == object_prop_patterns_view(v),
    decreases v, 0int,
{
    let mut r: Vec<ObjectPropertyPattern> = Vec::new();
    let mut i: usize = 0;
    while i < v.len()
        invariant
            i <= v.len(),
            r.len() == i,
            forall|j: int| 0 <= j < i ==> object_prop_pattern_view(&r[j]) == object_prop_pattern_view(&v[j]),
        decreases v.len() - i,
    {
        r.push(v[i].deep_clone());
        i += 1;
    }
    assert(object_prop_patterns_view(&r) =~= object_prop_patterns_view(v));
    r
}

fn clone_array_pattern_items(v: &Vec<ArrayPatternItem>) -> (r: Vec<ArrayPatternItem>)
    ensures
        array_pattern_items_view(&r) == array_pattern_items_view(v),
    decreases v, 0int,
{
    let mut r: Vec<ArrayPatternItem> = Vec::new();
    let mut i: usize = 0;
    while i < v.len()
        invariant
            i <= v.len(),
            r.len() == i,
            forall|j: int| 0 <= j < i ==> array_pattern_item_view(&r[j]) == array_pattern_item_view(&v[j]),
        decreases v.len() - i,
    {
        r.push(v[i].deep_clone());
        i += 1;
    }
    assert(array_pattern_items_view(&r) =~= array_pattern_items_view(v));
    r
}

impl Pattern {
    /// A copy of this pattern that owns all of its parts.
    pub fn deep_clone(&self) -> (r: Pattern)
        ensures
            r@ == self@,
        decreases self, 0int,
    {
        let body = match &self.body {
            PatternBody::Discard => PatternBody::Discard,
            PatternBody::Capture(i, p) => PatternBody::Capture(i.deep_clone(), Box::new(p.deep_clone())),
            PatternBody::Identifier(i) => PatternBody::Identifier(i.deep_clone()),
            PatternBody::TypedDiscard(t) => PatternBody::TypedDiscard(*t),
            PatternBody::TypedIdentifier(i, t) => PatternBody::TypedIdentifier(i.deep_clone(), *t),
            PatternBody::Literal(l) => PatternBody::Literal(l.deep_clone()),
            PatternBody::Object(pat, rst) => PatternBody::Object(
                clone_object_prop_patterns(pat),
                rst.deep_clone(),
            ),
            PatternBody::Array(pat, rst) => PatternBody::Array(
                clone_array_pattern_items(pat),
                rst.deep_clone(),
            ),
            PatternBody::PinnedExpression(e) => PatternBody::PinnedExpression(Box::new(e.deep_clone())),
        };
        Pattern { body, location: self.location }
    }
}

impl Rest {
    pub fn deep_clone(&self) -> (r: Rest)
        ensures
            r@ == self@,
        decreases self, 0int,
    {
        match self {
            Rest::Exact => Rest::Exact,
            Rest::Discard => Rest::Discard,
            Rest::Collect(p) => Rest::Collect(Box::new(p.deep_clone())),
        }
    }
}

impl ArrayPatternItem {
    pub fn deep_clone(&self) -> (r: ArrayPatternItem)
        ensures
            r@ == self@,
        decreases self, 0int,
    {
        match self {
            ArrayPatternItem::Pattern(p) => ArrayPatternItem::Pattern(p.deep_clone()),
        }
    }
}

impl ObjectPropertyPattern {
    pub fn deep_clone(&self) -> (r: ObjectPropertyPattern)
        ensures
            r@ == self@,
        decreases self, 0int,
    {
        match self {
            ObjectPropertyPattern::Single(s) => ObjectPropertyPattern::Single(s.deep_clone()),
            ObjectPropertyPattern::Match(m) => ObjectPropertyPattern::Match(m.deep_clone()),
        }
    }
}

impl PropertyPattern {
    pub fn deep_clone(&self) -> (r: PropertyPattern)
        ensures
            r.key@ == self.key@,
            r.value@ == self.value@,
        decreases self, 0int,
    {
        PropertyPattern { key: self.key.deep_clone(), value: self.value.deep_clone() }
    }
}


// ---------------------------------------------------------------------------
// Structural equality.
// ---------------------------------------------------------------------------

fn rest_eq(a: &Rest, b: &Rest) -> (r: bool)
    ensures
        r == (strip_rest(a@) == strip_rest(b@)),
    decreases a, 0int,
{
    match (a, b) {
        (Rest::Exact, Rest::Exact) => true,
        (Rest::Discard, Rest::Discard) => true,
        (Rest::Collect(x), Rest::Collect(y)) => pattern_eq(x, y),
        _ => false,
    }
}

fn object_prop_patterns_eq(a: &Vec<ObjectPropertyPattern>, b: &Vec<ObjectPropertyPattern>) -> (r: bool)
    ensures
        r == (strip_prop_patterns(object_prop_patterns_view(a)) == strip_prop_patterns(object_prop_patterns_view(b))),
    decreases a, 0int,
{
    let ghost av = object_prop_patterns_view(a);
    let ghost bv = object_prop_patterns_view(b);
    if a.len() != b.len() {
        assert(strip_prop_patterns(av).len() != strip_prop_patterns(bv).len());
        return false;
    }
    let mut i: usize = 0;
    while i < a.len()
        invariant
            i <= a.len(),
            a.len() == b.len(),
            av == object_prop_patterns_view(a),
            bv == object_prop_patterns_view(b),
            forall|j: int| 0 <= j < i ==> strip_prop_pattern(#[trigger] av[j]) == strip_prop_pattern(bv[j]),
        decreases a.len() - i,
    {
        let same = match (&a[i], &b[i]) {
            (ObjectPropertyPattern::Single(x), ObjectPropertyPattern::Single(y)) => x.name == y.name,
            (ObjectPropertyPattern::Match(x), ObjectPropertyPattern::Match(y)) => {
                property_key_eq(&x.key, &y.key) && pattern_eq(&x.value, &y.value)
            },
            _ => false,
        };
        assert(av[i as int] == object_prop_pattern_view(&a[i as int]));
        assert(bv[i as int] == object_prop_pattern_view(&b[i as int]));
        if !same {
            assert(strip_prop_patterns(av)[i as int] != strip_prop_patterns(bv)[i as int]);
            return false;
        }
        i += 1;
    }
    assert(strip_prop_patterns(av) =~= strip_prop_patterns(bv));
    true
}

fn array_pattern_items_eq(a: &Vec<ArrayPatternItem>, b: &Vec<ArrayPatternItem>) -> (r: bool)
    ensures
        r == (strip_patterns(array_pattern_items_view(a)) == strip_patterns(array_pattern_items_view(b))),
    decreases a, 0int,
{
    let ghost av = array_pattern_items_view(a);
    let ghost bv = array_pattern_items_view(b);
    if a.len() != b.len() {
        assert(strip_patterns(av).len() != strip_patterns(bv).len());
        return false;
    }
    let mut i: usize = 0;
    while i < a.len()
        invariant
            i <= a.len(),
            a.len() == b.len(),
            av == array_pattern_items_view(a),
            bv == array_pattern_items_view(b),
            forall|j: int| 0 <= j < i ==> strip_pattern(#[trigger] av[j]) == strip_pattern(bv[j]),
        decreases a.len() - i,
    {
        let same = match (&a[i], &b[i]) {
            (ArrayPatternItem::Pattern(x), ArrayPatternItem::Pattern(y)) => pattern_eq(x, y),
        };
        assert(av[i as int] == array_pattern_item_view(&a[i as int]));
        assert(bv[i as int] == array_pattern_item_view(&b[i as int]));
        if !same {
            assert(strip_patterns(av)[i as int] != strip_patterns(bv)[i as int]);
            return false;
        }
        i += 1;
    }
    assert(strip_patterns(av) =~= strip_patterns(bv));
    true
}

/// Whether two patterns are equal: their bodies are compared, their source
/// locations are not.
pub fn pattern_eq(a: &Pattern, b: &Pattern) -> (r: bool)
    ensures
        r == same_pattern(a@, b@),
    decreases a, 0int,
{
    match (&a.body, &b.body) {
        (PatternBody::Discard, PatternBody::Discard) => true,
        (PatternBody::Capture(i, p), PatternBody::Capture(j, q)) => i.name == j.name && pattern_eq(p, q),
        (PatternBody::Identifier(i), PatternBody::Identifier(j)) => i.name == j.name,
        (PatternBody::PinnedExpression(x), PatternBody::PinnedExpression(y)) => expr_eq(x, y),
        (PatternBody::TypedDiscard(s), PatternBody::TypedDiscard(t)) => *s == *t,
        (PatternBody::TypedIdentifier(i, s), PatternBody::TypedIdentifier(j, t)) => i.name == j.name && *s == *t,
        (PatternBody::Literal(x), PatternBody::Literal(y)) => x.eq(y),
        (PatternBody::Object(x, r), PatternBody::Object(y, s)) => object_prop_patterns_eq(x, y) && rest_eq(r, s),
        (PatternBody::Array(x, r), PatternBody::Array(y, s)) => array_pattern_items_eq(x, y) && rest_eq(r, s),
        _ => false,
    }
}

} // verus!
