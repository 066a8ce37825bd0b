use vstd::prelude::*;
use crate::identifier::Identifier;
use crate::literal::{Literal, SLiteral};
use crate::syntax::location::Location;
use crate::syntax::pattern::{Pattern, SPattern, pattern_view, pattern_eq, strip_pattern};

verus! {

/// An expression together with the source span it was parsed from.
#[derive(Debug)]
pub struct Expression {
    pub body: ExpressionBody,
    pub location: Option<Location>,
}

#[derive(Debug)]
pub enum ExpressionBody {
    Array(Vec<ArrayItem>),
    Binary(BinaryExpression),
    Identifier(Identifier),
    Literal(Literal),
    Logical(LogicalExpression),
    Member(MemberExpression),
    Object(Vec<ObjectProperty>),
    Unary(UnaryExpression),
    Call(CallExpression),
    Template(StringTemplate),
    Abstraction(LambdaAbstraction),
    Application(LambdaApplication),
    ArrayComp(ArrayComprehension),
    ObjectComp(ObjectComprehension),
    Condition(IfElseExpression),
    Match(MatchExpression),
}

/// A sequence of expressions, as written separated by `;`.
#[derive(Debug)]
pub struct ExpressionSet {
    pub expressions: Vec<Expression>,
}

#[derive(Debug)]
pub enum ArrayItem {
    Single(Expression),
    Spread(Expression),
}

#[derive(Debug)]
pub enum ObjectProperty {
    Single(Identifier),
    Property(Property),
    Spread(Expression),
}

#[derive(Debug)]
pub struct Property {
    pub key: PropertyKey,
    pub value: Expression,
}

#[derive(Debug)]
pub enum PropertyKey {
    Identifier(Identifier),
    Expression(Expression),
}

#[derive(Debug)]
pub struct CallExpression {
    pub function: Identifier,
    pub argument: Box<Expression>,
}

#[derive(Debug)]
pub struct StringTemplate {
    pub parts: Vec<StringTemplatePart>,
    pub suffix: String,
}

#[derive(Debug)]
pub struct StringTemplatePart {
    pub fixed_start: String,
    pub dynamic_end: Box<Expression>,
}

#[derive(Debug)]
pub struct LambdaAbstraction {
    pub arguments: Pattern,
    pub body: Box<Expression>,
}

#[derive(Debug)]
pub struct LambdaApplication {
    pub lambda: Box<Expression>,
    pub parameter: Box<Expression>,
}

#[derive(Debug)]
pub struct MatchCase {
    pub pattern: Pattern,
    pub guard: Option<Box<Expression>>,
    pub body: Box<Expression>,
}

#[derive(Debug)]
pub struct MatchExpression {
    pub subject: Box<Expression>,
    pub cases: Vec<MatchCase>,
}

#[derive(Debug)]
pub struct IfElseExpression {
    pub condition: Box<Expression>,
    pub true_branch: Box<Expression>,
    pub false_branch: Option<Box<Expression>>,
}

#[derive(Debug)]
pub struct ArrayComprehension {
    pub sources: Vec<ComprehensionSource>,
    pub projection: Vec<ArrayItem>,
}

#[derive(Debug)]
pub struct ObjectComprehension {
    pub sources: Vec<ComprehensionSource>,
    pub projection: Vec<ObjectProperty>,
}

#[derive(Debug)]
pub struct ComprehensionSource {
    pub collection: Box<Expression>,
    pub pattern: Pattern,
    pub strong_pattern: bool,
    pub predicate: Option<Box<Expression>>,
}

#[derive(Debug)]
pub struct UnaryExpression {
    pub operator: UnaryOperator,
    pub argument: Box<Expression>,
}

#[derive(Debug)]
pub struct BinaryExpression {
    pub operator: BinaryOperator,
    pub left: Box<Expression>,
    pub right: Box<Expression>,
}

#[derive(Debug)]
pub struct LogicalExpression {
    pub operator: LogicalOperator,
    pub left: Box<Expression>,
    pub right: Box<Expression>,
}

#[derive(Debug)]
pub struct MemberExpression {
    pub object: Box<Expression>,
    pub property: Box<Expression>,
}

#[derive(Clone, Copy, Debug, PartialEq, Eq, Structural, Hash)]
pub enum BinaryOperator {
    StrictEqual,
    StrictNotEqual,
    LessThan,
    GreaterThan,
    LessThanEqual,
    GreaterThanEqual,
    Plus,
    Minus,
    Times,
    Over,
    Mod,
    In,
    PowerOf,
    Is,
    Cast,
}

#[derive(Clone, Copy, Debug, PartialEq, Eq, Structural, Hash)]
pub enum LogicalOperator {
    Or,
    And,
}

#[derive(Clone, Copy, Debug, PartialEq, Eq, Structural, Hash)]
pub enum UnaryOperator {
    Minus,
    Plus,
    Not,
}

// ---------------------------------------------------------------------------
// The mathematical model of the syntax tree.
// ---------------------------------------------------------------------------

pub struct SExpr {
    pub body: SExprBody,
    pub location: Option<Location>,
}

pub enum SExprBody {
    Array(Seq<SArrayItem>),
    Binary(BinaryOperator, Box<SExpr>, Box<SExpr>),
    Identifier(Seq<char>),
    Literal(SLiteral),
    Logical(LogicalOperator, Box<SExpr>, Box<SExpr>),
    Member(Box<SExpr>, Box<SExpr>),
    Object(Seq<SObjectProperty>),
    Unary(UnaryOperator, Box<SExpr>),
    Call(Seq<char>, Box<SExpr>),
    Template(Seq<STemplatePart>, Seq<char>),
    Abstraction(Box<SPattern>, Box<SExpr>),
    Application(Box<SExpr>, Box<SExpr>),
    ArrayComp(Seq<SSource>, Seq<SArrayItem>),
    ObjectComp(Seq<SSource>, Seq<SObjectProperty>),
    Condition(Box<SExpr>, Box<SExpr>, Option<Box<SExpr>>),
    Match(Box<SExpr>, Seq<SMatchCase>),
}

pub enum SArrayItem {
    Single(SExpr),
    Spread(SExpr),
}

pub enum SObjectProperty {
    Single(Seq<char>),
    Property(SPropertyKey, SExpr),
    Spread(SExpr),
}

pub enum SPropertyKey {
    Identifier(Seq<char>),
    Expression(Box<SExpr>),
}

pub struct STemplatePart {
    pub fixed_start: Seq<char>,
    pub dynamic_end: SExpr,
}

pub struct SSource {
    pub collection: SExpr,
    pub pattern: SPattern,
    pub strong_pattern: bool,
    pub predicate: Option<SExpr>,
}

pub struct SMatchCase {
    pub pattern: SPattern,
    pub guard: Option<SExpr>,
    pub body: SExpr,
}

pub open spec fn expr_view(e: &Expression) -> SExpr
    decreases e, 0int,
{
    SExpr { body: body_view(&e.body), location: e.location }
}

pub open spec fn opt_expr_view(e: &Option<Box<Expression>>) -> Option<SExpr>
    decreases e, 0int,
{
    match e {
        Some(b) => Some(expr_view(b)),
        None => None,
    }
}

pub open spec fn array_item_view(i: &ArrayItem) -> SArrayItem
    decreases i, 0int,
{
    match i {
        ArrayItem::Single(e) => SArrayItem::Single(expr_view(e)),
        ArrayItem::Spread(e) => SArrayItem::Spread(expr_view(e)),
    }
}

pub open spec fn property_key_view(k: &PropertyKey) -> SPropertyKey
    decreases k, 0int,
{
    match k {
        PropertyKey::Identifier(id) => SPropertyKey::Identifier(id@),
        PropertyKey::Expression(e) => SPropertyKey::Expression(Box::new(expr_view(e))),
    }
}

pub open spec fn object_property_view(p: &ObjectProperty) -> SObjectProperty
    decreases p, 0int,
{
    match p {
        ObjectProperty::Single(id) => SObjectProperty::Single(id@),
        ObjectProperty::Property(prop) => SObjectProperty::Property(
            property_key_view(&prop.key),
            expr_view(&prop.value),
        ),
        ObjectProperty::Spread(e) => SObjectProperty::Spread(expr_view(e)),
    }
}

pub open spec fn source_view(s: &ComprehensionSource) -> SSource
    decreases s, 0int,
{
    SSource {
        collection: expr_view(&s.collection),
        pattern: pattern_view(&s.pattern),
        strong_pattern: s.strong_pattern,
        predicate: opt_expr_view(&s.predicate),
    }
}

pub open spec fn match_case_view(c: &MatchCase) -> SMatchCase
    decreases c, 0int,
{
    SMatchCase {
        pattern: pattern_view(&c.pattern),
        guard: opt_expr_view(&c.guard),
        body: expr_view(&c.body),
    }
}

pub open spec fn array_items_view(v: &Vec<ArrayItem>) -> Seq<SArrayItem>
    decreases v, 0int,
{
    Seq::new(v.len() as nat, |i: int| if 0 <= i < v.len() { array_item_view(&v[i]) } else { arbitrary() })
}

pub open spec fn object_props_view(v: &Vec<ObjectProperty>) -> Seq<SObjectProperty>
    decreases v, 0int,
{
    Seq::new(v.len() as nat, |i: int| if 0 <= i < v.len() { object_property_view(&v[i]) } else { arbitrary() })
}

pub open spec fn template_part_view(p: &StringTemplatePart) -> STemplatePart
    decreases p, 0int,
{
    STemplatePart { fixed_start: p.fixed_start@, dynamic_end: expr_view(&p.dynamic_end) }
}

pub open spec fn template_parts_view(v: &Vec<StringTemplatePart>) -> Seq<STemplatePart>
    decreases v, 0int,
{
    Seq::new(v.len() as nat, |i: int| if 0 <= i < v.len() { template_part_view(&v[i]) } else { arbitrary() })
}

pub open spec fn sources_view(v: &Vec<ComprehensionSource>) -> Seq<SSource>
    decreases v, 0int,
{
    Seq::new(v.len() as nat, |i: int| if 0 <= i < v.len() { source_view(&v[i]) } else { arbitrary() })
}

pub open spec fn match_cases_view(v: &Vec<MatchCase>) -> Seq<SMatchCase>
    decreases v, 0int,
{
    Seq::new(v.len() as nat, |i: int| if 0 <= i < v.len() { match_case_view(&v[i]) } else { arbitrary() })
}

pub open spec fn body_view(b: &ExpressionBody) -> SExprBody
    decreases b, 0int,
{
    match b {
        ExpressionBody::Array(items) => SExprBody::Array(array_items_view(items)),
        ExpressionBody::Binary(x) => SExprBody::Binary(
            x.operator,
            Box::new(expr_view(&x.left)),
            Box::new(expr_view(&x.right)),
        ),
        ExpressionBody::Identifier(id) => SExprBody::Identifier(id@),
        ExpressionBody::Literal(l) => SExprBody::Literal(l@),
        ExpressionBody::Logical(x) => SExprBody::Logical(
            x.operator,
            Box::new(expr_view(&x.left)),
            Box::new(expr_view(&x.right)),
        ),
        ExpressionBody::Member(x) => SExprBody::Member(
            Box::new(expr_view(&x.object)),
            Box::new(expr_view(&x.property)),
        ),
        ExpressionBody::Object(props) => SExprBody::Object(object_props_view(props)),
        ExpressionBody::Unary(x) => SExprBody::Unary(x.operator, Box::new(expr_view(&x.argument))),
        ExpressionBody::Call(x) => SExprBody::Call(x.function@, Box::new(expr_view(&x.argument))),
        ExpressionBody::Template(t) => SExprBody::Template(template_parts_view(&t.parts), t.suffix@),
        ExpressionBody::Abstraction(x) => SExprBody::Abstraction(
            Box::new(pattern_view(&x.arguments)),
            Box::new(expr_view(&x.body)),
        ),
        ExpressionBody::Application(x) => SExprBody::Application(
            Box::new(expr_view(&x.lambda)),
            Box::new(expr_view(&x.parameter)),
        ),
        ExpressionBody::ArrayComp(x) => SExprBody::ArrayComp(
            sources_view(&x.sources),
            array_items_view(&x.projection),
        ),
        ExpressionBody::ObjectComp(x) => SExprBody::ObjectComp(
            sources_view(&x.sources),
            object_props_view(&x.projection),
        ),
        ExpressionBody::Condition(x) => SExprBody::Condition(
            Box::new(expr_view(&x.condition)),
            Box::new(expr_view(&x.true_branch)),
            match &x.false_branch {
                Some(f) => Some(Box::new(expr_view(f))),
                None => None,
            },
        ),
        ExpressionBody::Match(x) => SExprBody::Match(
            Box::new(expr_view(&x.subject)),
            match_cases_view(&x.cases),
        ),
    }
}

// ---------------------------------------------------------------------------
// Expressions compare with their own locations but without those of the
// patterns inside them.
// ---------------------------------------------------------------------------

/// The expression with the location of every pattern inside it dropped;
/// its own location and those of its subexpressions stay.
pub open spec fn strip_expr(e: SExpr) -> SExpr
    decreases e,
{
    SExpr {
        body: match e.body {
            SExprBody::Array(items) => SExprBody::Array(strip_array_items(items)),
            SExprBody::Binary(op, l, r) => SExprBody::Binary(op, Box::new(strip_expr(*l)), Box::new(strip_expr(*r))),
            SExprBody::Logical(op, l, r) => SExprBody::Logical(op, Box::new(strip_expr(*l)), Box::new(strip_expr(*r))),
            SExprBody::Member(o, p) => SExprBody::Member(Box::new(strip_expr(*o)), Box::new(strip_expr(*p))),
            SExprBody::Object(props) => SExprBody::Object(strip_object_props(props)),
            SExprBody::Unary(op, a) => SExprBody::Unary(op, Box::new(strip_expr(*a))),
            SExprBody::Call(f, a) => SExprBody::Call(f, Box::new(strip_expr(*a))),
            SExprBody::Template(parts, suffix) => SExprBody::Template(strip_template_parts(parts), suffix),
            SExprBody::Abstraction(p, b) => SExprBody::Abstraction(Box::new(strip_pattern(*p)), Box::new(strip_expr(*b))),
            SExprBody::Application(l, a) => SExprBody::Application(Box::new(strip_expr(*l)), Box::new(strip_expr(*a))),
            SExprBody::ArrayComp(sources, items) => SExprBody::ArrayComp(strip_sources(sources), strip_array_items(items)),
            SExprBody::ObjectComp(sources, props) => SExprBody::ObjectComp(strip_sources(sources), strip_object_props(props)),
            SExprBody::Condition(c, t, f) => SExprBody::Condition(
                Box::new(strip_expr(*c)),
                Box::new(strip_expr(*t)),
                match f {
                    Some(x) => Some(Box::new(strip_expr(*x))),
                    None => None,
                },
            ),
            SExprBody::Match(subject, cases) => SExprBody::Match(Box::new(strip_expr(*subject)), strip_cases(cases)),
            other => other,
        },
        location: e.location,
    }
}

pub open spec fn strip_opt_expr(e: Option<SExpr>) -> Option<SExpr>
    decreases e,
{
    match e {
        Some(x) => Some(strip_expr(x)),
        None => None,
    }
}

pub open spec fn strip_array_item(i: SArrayItem) -> SArrayItem
    decreases i,
{
    match i {
        SArrayItem::Single(e) => SArrayItem::Single(strip_expr(e)),
        SArrayItem::Spread(e) => SArrayItem::Spread(strip_expr(e)),
    }
}

pub open spec fn strip_key(k: SPropertyKey) -> SPropertyKey
    decreases k,
{
    match k {
        SPropertyKey::Expression(e) => SPropertyKey::Expression(Box::new(strip_expr(*e))),
        other => other,
    }
}

pub open spec fn strip_object_prop(p: SObjectProperty) -> SObjectProperty
    decreases p,
{
    match p {
        SObjectProperty::Property(k, e) => SObjectProperty::Property(strip_key(k), strip_expr(e)),
        SObjectProperty::Spread(e) => SObjectProperty::Spread(strip_expr(e)),
        other => other,
    }
}

pub open spec fn strip_template_part(p: STemplatePart) -> STemplatePart
    decreases p,
{
    STemplatePart { fixed_start: p.fixed_start, dynamic_end: strip_expr(p.dynamic_end) }
}

pub open spec fn strip_source(s: SSource) -> SSource
    decreases s,
{
    SSource {
        collection: strip_expr(s.collection),
        pattern: strip_pattern(s.pattern),
        strong_pattern: s.strong_pattern,
        predicate: strip_opt_expr(s.predicate),
    }
}

pub open spec fn strip_case(c: SMatchCase) -> SMatchCase
    decreases c,
{
    SMatchCase { pattern: strip_pattern(c.pattern), guard: strip_opt_expr(c.guard), body: strip_expr(c.body) }
}

pub open spec fn strip_array_items(s: Seq<SArrayItem>) -> Seq<SArrayItem>
    decreases s,
{
    Seq::new(s.len(), |i: int| if 0 <= i < s.len() { strip_array_item(s[i]) } else { arbitrary() })
}

pub open spec fn strip_object_props(s: Seq<SObjectProperty>) -> Seq<SObjectProperty>
    decreases s,
{
    Seq::new(s.len(), |i: int| if 0 <= i < s.len() { strip_object_prop(s[i]) } else { arbitrary() })
}

pub open spec fn strip_template_parts(s: Seq<STemplatePart>) -> Seq<STemplatePart>
    decreases s,
{
    Seq::new(s.len(), |i: int| if 0 <= i < s.len() { strip_template_part(s[i]) } else { arbitrary() })
}

pub open spec fn strip_sources(s: Seq<SSource>) -> Seq<SSource>
    decreases s,
{
    Seq::new(s.len(), |i: int| if 0 <= i < s.len() { strip_source(s[i]) } else { arbitrary() })
}

pub open spec fn strip_cases(s: Seq<SMatchCase>) -> Seq<SMatchCase>
    decreases s,
{
    Seq::new(s.len(), |i: int| if 0 <= i < s.len() { strip_case(s[i]) } else { arbitrary() })
}

impl View for Expression {
    type V = SExpr;

    open spec fn view(&self) -> SExpr {
        expr_view(self)
    }
}

impl View for ArrayItem {
    type V = SArrayItem;

    open spec fn view(&self) -> SArrayItem {
        array_item_view(self)
    }
}

impl View for ObjectProperty {
    type V = SObjectProperty;

    open spec fn view(&self) -> SObjectProperty {
        object_property_view(self)
    }
}

impl View for PropertyKey {
    type V = SPropertyKey;

    open spec fn view(&self) -> SPropertyKey {
        property_key_view(self)
    }
}

impl View for ComprehensionSource {
    type V = SSource;

    open spec fn view(&self) -> SSource {
        source_view(self)
    }
}

impl View for MatchCase {
    type V = SMatchCase;

    open spec fn view(&self) -> SMatchCase {
        match_case_view(self)
    }
}

impl View for StringTemplatePart {
    type V = STemplatePart;

    open spec fn view(&self) -> STemplatePart {
        template_part_view(self)
    }
}

impl View for ExpressionSet {
    type V = Seq<SExpr>;

    open spec fn view(&self) -> Seq<SExpr> {
        Seq::new(self.expressions.len() as nat, |i: int| self.expressions[i]@)
    }
}

impl Expression {
    /// An expression without a source location.
    pub fn new(body: ExpressionBody) -> (r: Expression)
        ensures
            r.body == body,
            r.location.is_none(),
    {
        Expression { body, location: None }
    }

    /// An expression with the given source location.
    pub fn new_with_location(body: ExpressionBody, location: Location) -> (r: Expression)
        ensures
            r.body == body,
            r.location == Some(location),
    {
        Expression { body, location: Some(location) }
    }

    /// An expression with an optional source location.
    pub fn new_with_optional_location(body: ExpressionBody, location: Option<Location>) -> (r: Expression)
        ensures
            r.body == body,
            r.location == location,
    {
        Expression { body, location }
    }
}


// ---------------------------------------------------------------------------
// Deep copies.
// ---------------------------------------------------------------------------

fn clone_box(e: &Box<Expression>) -> (r: Box<Expression>)
    ensures
        expr_view(&r) == expr_view(e),
    decreases e, 1int,
{
    Box::new(e.deep_clone())
}

fn clone_opt_box(e: &Option<Box<Expression>>) -> (r: Option<Box<Expression>>)
    ensures
        opt_expr_view(&r) == opt_expr_view(e),
    decreases e, 0int,
{
    match e {
        Some(b) => Some(clone_box(b)),
        None => None,
    }
}

fn clone_array_items(v: &Vec<ArrayItem>) -> (r: Vec<ArrayItem>)
    ensures
        array_items_view(&r) == array_items_view(v),
    decreases v, 0int,
{
    let mut r: Vec<ArrayItem> = Vec::new();
    let mut i: usize = 0;
    while i < v.len()
        invariant
            i <= v.len(),
            r.len() == i,
            forall|j: int| 0 <= j < i ==> array_item_view(&r[j]) == array_item_view(&v[j]),
        decreases v.len() - i,
    {
        r.push(v[i].deep_clone());
        i += 1;
    }
    assert(array_items_view(&r) =~= array_items_view(v));
    r
}

fn clone_object_props(v: &Vec<ObjectProperty>) -> (r: Vec<ObjectProperty>)
    ensures
        object_props_view(&r) == object_props_view(v),
    decreases v, 0int,
{
    let mut r: Vec<ObjectProperty> = Vec::new();
    let mut i: usize = 0;
    while i < v.len()
        invariant
            i <= v.len(),
            r.len() == i,
            forall|j: int| 0 <= j < i ==> object_property_view(&r[j]) == object_property_view(&v[j]),
        decreases v.len() - i,
    {
        r.push(v[i].deep_clone());
        i += 1;
    }
    assert(object_props_view(&r) =~= object_props_view(v));
    r
}

fn clone_template_parts(v: &Vec<StringTemplatePart>) -> (r: Vec<StringTemplatePart>)
    ensures
        template_parts_view(&r) == template_parts_view(v),
    decreases v, 0int,
{
    let mut r: Vec<StringTemplatePart> = Vec::new();
    let mut i: usize = 0;
    while i < v.len()
        invariant
            i <= v.len(),
            r.len() == i,
            forall|j: int| 0 <= j < i ==> template_part_view(&r[j]) == template_part_view(&v[j]),
        decreases v.len() - i,
    {
        r.push(v[i].deep_clone());
        i += 1;
    }
    assert(template_parts_view(&r) =~= template_parts_view(v));
    r
}

fn clone_sources(v: &Vec<ComprehensionSource>) -> (r: Vec<ComprehensionSource>)
    ensures
        sources_view(&r) == sources_view(v),
    decreases v, 0int,
{
    let mut r: Vec<ComprehensionSource> = Vec::new();
    let mut i: usize = 0;
    while i < v.len()
        invariant
            i <= v.len(),
            r.len() == i,
            forall|j: int| 0 <= j < i ==> source_view(&r[j]) == source_view(&v[j]),
        decreases v.len() - i,
    {
        r.push(v[i].deep_clone());
        i += 1;
    }
    assert(sources_view(&r) =~= sources_view(v));
    r
}

fn clone_match_cases(v: &Vec<MatchCase>) -> (r: Vec<MatchCase>)
    ensures
        match_cases_view(&r) == match_cases_view(v),
    decreases v, 0int,
{
    let mut r: Vec<MatchCase> = Vec::new();
    let mut i: usize = 0;
    while i < v.len()
        invariant
            i <= v.len(),
            r.len() == i,
            forall|j: int| 0 <= j < i ==> match_case_view(&r[j]) == match_case_view(&v[j]),
        decreases v.len() - i,
    {
        r.push(v[i].deep_clone());
        i += 1;
    }
    assert(match_cases_view(&r) =~= match_cases_view(v));
    r
}

impl Expression {
    /// A copy of this expression that owns all of its parts.
    pub fn deep_clone(&self) -> (r: Expression)
        ensures
            r@ == self@,
        decreases self, 0int,
    {
        let body = match &self.body {
            ExpressionBody::Array(a) => ExpressionBody::Array(clone_array_items(a)),
            ExpressionBody::Binary(b) => ExpressionBody::Binary(b.deep_clone()),
            ExpressionBody::Identifier(i) => ExpressionBody::Identifier(i.deep_clone()),
            ExpressionBody::Literal(l) => ExpressionBody::Literal(l.deep_clone()),
            ExpressionBody::Logical(l) => ExpressionBody::Logical(l.deep_clone()),
            ExpressionBody::Member(x) => ExpressionBody::Member(x.deep_clone()),
            ExpressionBody::Object(x) => ExpressionBody::Object(clone_object_props(x)),
            ExpressionBody::Unary(x) => ExpressionBody::Unary(x.deep_clone()),
            ExpressionBody::Call(x) => ExpressionBody::Call(x.deep_clone()),
            ExpressionBody::Template(x) => ExpressionBody::Template(x.deep_clone()),
            ExpressionBody::Abstraction(x) => ExpressionBody::Abstraction(x.deep_clone()),
            ExpressionBody::Application(x) => ExpressionBody::Application(x.deep_clone()),
            ExpressionBody::ArrayComp(x) => ExpressionBody::ArrayComp(x.deep_clone()),
            ExpressionBody::ObjectComp(x) => ExpressionBody::ObjectComp(x.deep_clone()),
            ExpressionBody::Match(x) => ExpressionBody::Match(x.deep_clone()),
            ExpressionBody::Condition(x) => ExpressionBody::Condition(x.deep_clone()),
        };
        Expression { body, location: self.location }
    }
}

impl ArrayItem {
    pub fn deep_clone(&self) -> (r: ArrayItem)
        ensures
            r@ == self@,
        decreases self, 0int,
    {
        match self {
            ArrayItem::Single(inner) => ArrayItem::Single(inner.deep_clone()),
            ArrayItem::Spread(inner) => ArrayItem::Spread(inner.deep_clone()),
        }
    }
}

impl ObjectProperty {
    pub fn deep_clone(&self) -> (r: ObjectProperty)
        ensures
            r@ == self@,
        decreases self, 0int,
    {
        match self {
            ObjectProperty::Single(i) => ObjectProperty::Single(i.deep_clone()),
            ObjectProperty::Property(p) => ObjectProperty::Property(p.deep_clone()),
            ObjectProperty::Spread(e) => ObjectProperty::Spread(e.deep_clone()),
        }
    }
}

impl Property {
    pub fn deep_clone(&self) -> (r: Property)
        ensures
            property_key_view(&r.key) == property_key_view(&self.key),
            r.value@ == self.value@,
        decreases self, 0int,
    {
        Property { key: self.key.deep_clone(), value: self.value.deep_clone() }
    }
}

impl PropertyKey {
    pub fn deep_clone(&self) -> (r: PropertyKey)
        ensures
            r@ == self@,
        decreases self, 0int,
    {
        match self {
            PropertyKey::Identifier(i) => PropertyKey::Identifier(i.deep_clone()),
            PropertyKey::Expression(e) => PropertyKey::Expression(e.deep_clone()),
        }
    }
}

impl CallExpression {
    pub fn deep_clone(&self) -> (r: CallExpression)
        ensures
            r.function@ == self.function@,
            r.argument@ == self.argument@,
        decreases self, 0int,
    {
        CallExpression { function: self.function.deep_clone(), argument: clone_box(&self.argument) }
    }
}

impl StringTemplate {
    pub fn deep_clone(&self) -> (r: StringTemplate)
        ensures
            template_parts_view(&r.parts) == template_parts_view(&self.parts),
            r.suffix@ == self.suffix@,
        decreases self, 0int,
    {
        StringTemplate { parts: clone_template_parts(&self.parts), suffix: self.suffix.clone() }
    }
}

impl StringTemplatePart {
    pub fn deep_clone(&self) -> (r: StringTemplatePart)
        ensures
            r@ == self@,
        decreases self, 0int,
    {
        StringTemplatePart {
            fixed_start: self.fixed_start.clone(),
            dynamic_end: clone_box(&self.dynamic_end),
        }
    }
}

impl LambdaAbstraction {
    pub fn deep_clone(&self) -> (r: LambdaAbstraction)
        ensures
            r.arguments@ == self.arguments@,
            r.body@ == self.body@,
        decreases self, 0int,
    {
        LambdaAbstraction { arguments: self.arguments.deep_clone(), body: clone_box(&self.body) }
    }
}

impl LambdaApplication {
    pub fn deep_clone(&self) -> (r: LambdaApplication)
        ensures
            r.lambda@ == self.lambda@,
            r.parameter@ == self.parameter@,
        decreases self, 0int,
    {
        LambdaApplication { lambda: clone_box(&self.lambda), parameter: clone_box(&self.parameter) }
    }
}

impl MatchCase {
    pub fn deep_clone(&self) -> (r: MatchCase)
        ensures
            r@ == self@,
        decreases self, 0int,
    {
        MatchCase {
            pattern: self.pattern.deep_clone(),
            guard: clone_opt_box(&self.guard),
            body: clone_box(&self.body),
        }
    }
}

impl MatchExpression {
    pub fn deep_clone(&self) -> (r: MatchExpression)
        ensures
            r.subject@ == self.subject@,
            match_cases_view(&r.cases) == match_cases_view(&self.cases),
        decreases self, 0int,
    {
        MatchExpression { subject: clone_box(&self.subject), cases: clone_match_cases(&self.cases) }
    }
}

impl IfElseExpression {
    pub fn deep_clone(&self) -> (r: IfElseExpression)
        ensures
            r.condition@ == self.condition@,
            r.true_branch@ == self.true_branch@,
            opt_expr_view(&r.false_branch) == opt_expr_view(&self.false_branch),
        decreases self, 0int,
    {
        IfElseExpression {
            condition: clone_box(&self.condition),
            true_branch: clone_box(&self.true_branch),
            false_branch: clone_opt_box(&self.false_branch),
        }
    }
}

impl ArrayComprehension {
    pub fn deep_clone(&self) -> (r: ArrayComprehension)
        ensures
            sources_view(&r.sources) == sources_view(&self.sources),
            array_items_view(&r.projection) == array_items_view(&self.projection),
        decreases self, 0int,
    {
        ArrayComprehension {
            sources: clone_sources(&self.sources),
            projection: clone_array_items(&self.projection),
        }
    }
}

impl ObjectComprehension {
    pub fn deep_clone(&self) -> (r: ObjectComprehension)
        ensures
            sources_view(&r.sources) == sources_view(&self.sources),
            object_props_view(&r.projection) == object_props_view(&self.projection),
        decreases self, 0int,
    {
        ObjectComprehension {
            sources: clone_sources(&self.sources),
            projection: clone_object_props(&self.projection),
        }
    }
}

impl ComprehensionSource {
    pub fn deep_clone(&self) -> (r: ComprehensionSource)
        ensures
            r@ == self@,
        decreases self, 0int,
    {
        ComprehensionSource {
            collection: clone_box(&self.collection),
            pattern: self.pattern.deep_clone(),
            strong_pattern: self.strong_pattern,
            predicate: clone_opt_box(&self.predicate),
        }
    }
}

impl UnaryExpression {
    pub fn deep_clone(&self) -> (r: UnaryExpression)
        ensures
            r.operator == self.operator,
            r.argument@ == self.argument@,
        decreases self, 0int,
    {
        UnaryExpression { operator: self.operator, argument: clone_box(&self.argument) }
    }
}

impl BinaryExpression {
    pub fn deep_clone(&self) -> (r: BinaryExpression)
        ensures
            r.operator == self.operator,
            r.left@ == self.left@,
            r.right@ == self.right@,
        decreases self, 0int,
    {
        BinaryExpression {
            operator: self.operator,
            left: clone_box(&self.left),
            right: clone_box(&self.right),
        }
    }
}

impl LogicalExpression {
    pub fn deep_clone(&self) -> (r: LogicalExpression)
        ensures
            r.operator == self.operator,
            r.left@ == self.left@,
            r.right@ == self.right@,
        decreases self, 0int,
    {
        LogicalExpression {
            operator: self.operator,
            left: clone_box(&self.left),
            right: clone_box(&self.right),
        }
    }
}

impl MemberExpression {
    pub fn deep_clone(&self) -> (r: MemberExpression)
        ensures
            r.object@ == self.object@,
            r.property@ == self.property@,
        decreases self, 0int,
    {
        MemberExpression { object: clone_box(&self.object), property: clone_box(&self.property) }
    }
}

impl LogicalOperator {
    /// Whether the left operand alone decides the result: `||` stops on
    /// `true`, `&&` stops on `false`.
    pub fn short_circuit_on(&self, b: bool) -> (r: bool)
        ensures
            r == (match *self {
                LogicalOperator::Or => b,
                LogicalOperator::And => !b,
            }),
    {
        match self {
            LogicalOperator::Or => b,
            LogicalOperator::And => !b,
        }
    }
}


// ---------------------------------------------------------------------------
// Structural equality.
// ---------------------------------------------------------------------------

fn opt_location_eq(a: &Option<Location>, b: &Option<Location>) -> (r: bool)
    ensures
        r == (*a == *b),
{
    match (a, b) {
        (None, None) => true,
        (Some(x), Some(y)) => x.start == y.start && x.end == y.end,
        _ => false,
    }
}

pub(crate) fn opt_box_eq(a: &Option<Box<Expression>>, b: &Option<Box<Expression>>) -> (r: bool)
    ensures
        r == (strip_opt_expr(opt_expr_view(a)) == strip_opt_expr(opt_expr_view(b))),
    decreases a, 0int,
{
    match (a, b) {
        (None, None) => true,
        (Some(x), Some(y)) => expr_eq(x, y),
        _ => false,
    }
}

pub(crate) fn property_key_eq(a: &PropertyKey, b: &PropertyKey) -> (r: bool)
    ensures
        r == (strip_key(a@) == strip_key(b@)),
    decreases a, 0int,
{
    match (a, b) {
        (PropertyKey::Identifier(x), PropertyKey::Identifier(y)) => x.name == y.name,
        (PropertyKey::Expression(x), PropertyKey::Expression(y)) => expr_eq(x, y),
        _ => false,
    }
}

fn array_items_eq(a: &Vec<ArrayItem>, b: &Vec<ArrayItem>) -> (r: bool)
    ensures
        r == (strip_array_items(array_items_view(a)) == strip_array_items(array_items_view(b))),
    decreases a, 0int,
{
    let ghost av = array_items_view(a);
    let ghost bv = array_items_view(b);
    if a.len() != b.len() {
        assert(strip_array_items(av).len() != strip_array_items(bv).len());
        return false;
    }
    let mut i: usize = 0;
    while i < a.len()
        invariant
            i <= a.len(),
            a.len() == b.len(),
            av == array_items_view(a),
            bv == array_items_view(b),
            forall|j: int| 0 <= j < i ==> strip_array_item(#[trigger] av[j]) == strip_array_item(bv[j]),
        decreases a.len() - i,
    {
        let same = match (&a[i], &b[i]) {
            (ArrayItem::Single(x), ArrayItem::Single(y)) => expr_eq(x, y),
            (ArrayItem::Spread(x), ArrayItem::Spread(y)) => expr_eq(x, y),
            _ => false,
        };
        assert(av[i as int] == array_item_view(&a[i as int]));
        assert(bv[i as int] == array_item_view(&b[i as int]));
        if !same {
            assert(strip_array_items(av)[i as int] != strip_array_items(bv)[i as int]);
            return false;
        }
        i += 1;
    }
    assert(strip_array_items(av) =~= strip_array_items(bv));
    true
}

fn object_props_eq(a: &Vec<ObjectProperty>, b: &Vec<ObjectProperty>) -> (r: bool)
    ensures
        r == (strip_object_props(object_props_view(a)) == strip_object_props(object_props_view(b))),
    decreases a, 0int,
{
    let ghost av = object_props_view(a);
    let ghost bv = object_props_view(b);
    if a.len() != b.len() {
        assert(strip_object_props(av).len() != strip_object_props(bv).len());
        return false;
    }
    let mut i: usize = 0;
    while i < a.len()
        invariant
            i <= a.len(),
            a.len() == b.len(),
            av == object_props_view(a),
            bv == object_props_view(b),
            forall|j: int| 0 <= j < i ==> strip_object_prop(#[trigger] av[j]) == strip_object_prop(bv[j]),
        decreases a.len() - i,
    {
        let same = match (&a[i], &b[i]) {
            (ObjectProperty::Single(x), ObjectProperty::Single(y)) => x.name == y.name,
            (ObjectProperty::Property(x), ObjectProperty::Property(y)) => {
                property_key_eq(&x.key, &y.key) && expr_eq(&x.value, &y.value)
            },
            (ObjectProperty::Spread(x), ObjectProperty::Spread(y)) => expr_eq(x, y),
            _ => false,
        };
        assert(av[i as int] == object_property_view(&a[i as int]));
        assert(bv[i as int] == object_property_view(&b[i as int]));
        if !same {
            assert(strip_object_props(av)[i as int] != strip_object_props(bv)[i as int]);
            return false;
        }
        i += 1;
    }
    assert(strip_object_props(av) =~= strip_object_props(bv));
    true
}

fn template_parts_eq(a: &Vec<StringTemplatePart>, b: &Vec<StringTemplatePart>) -> (r: bool)
    ensures
        r == (strip_template_parts(template_parts_view(a)) == strip_template_parts(template_parts_view(b))),
    decreases a, 0int,
{
    let ghost av = template_parts_view(a);
    let ghost bv = template_parts_view(b);
    if a.len() != b.len() {
        assert(strip_template_parts(av).len() != strip_template_parts(bv).len());
        return false;
    }
    let mut i: usize = 0;
    while i < a.len()
        invariant
            i <= a.len(),
            a.len() == b.len(),
            av == template_parts_view(a),
            bv == template_parts_view(b),
            forall|j: int| 0 <= j < i ==> strip_template_part(#[trigger] av[j]) == strip_template_part(bv[j]),
        decreases a.len() - i,
    {
        let same = a[i].fixed_start == b[i].fixed_start && expr_eq(&a[i].dynamic_end, &b[i].dynamic_end);
        assert(av[i as int] == template_part_view(&a[i as int]));
        assert(bv[i as int] == template_part_view(&b[i as int]));
        if !same {
            assert(strip_template_parts(av)[i as int] != strip_template_parts(bv)[i as int]);
            return false;
        }
        i += 1;
    }
    assert(strip_template_parts(av) =~= strip_template_parts(bv));
    true
}

fn sources_eq(a: &Vec<ComprehensionSource>, b: &Vec<ComprehensionSource>) -> (r: bool)
    ensures
        r == (strip_sources(sources_view(a)) == strip_sources(sources_view(b))),
    decreases a, 0int,
{
    let ghost av = sources_view(a);
    let ghost bv = sources_view(b);
    if a.len() != b.len() {
        assert(strip_sources(av).len() != strip_sources(bv).len());
        return false;
    }
    let mut i: usize = 0;
    while i < a.len()
        invariant
            i <= a.len(),
            a.len() == b.len(),
            av == sources_view(a),
            bv == sources_view(b),
            forall|j: int| 0 <= j < i ==> strip_source(#[trigger] av[j]) == strip_source(bv[j]),
        decreases a.len() - i,
    {
        let x = &a[i];
        let y = &b[i];
        let same = expr_eq(&x.collection, &y.collection) && pattern_eq(&x.pattern, &y.pattern)
            && x.strong_pattern == y.strong_pattern && opt_box_eq(&x.predicate, &y.predicate);
        assert(av[i as int] == source_view(&a[i as int]));
        assert(bv[i as int] == source_view(&b[i as int]));
        if !same {
            assert(strip_sources(av)[i as int] != strip_sources(bv)[i as int]);
            return false;
        }
        i += 1;
    }
    assert(strip_sources(av) =~= strip_sources(bv));
    true
}

fn match_cases_eq(a: &Vec<MatchCase>, b: &Vec<MatchCase>) -> (r: bool)
    ensures
        r == (strip_cases(match_cases_view(a)) == strip_cases(match_cases_view(b))),
    decreases a, 0int,
{
    let ghost av = match_cases_view(a);
    let ghost bv = match_cases_view(b);
    if a.len() != b.len() {
        assert(strip_cases(av).len() != strip_cases(bv).len());
        return false;
    }
    let mut i: usize = 0;
    while i < a.len()
        invariant
            i <= a.len(),
            a.len() == b.len(),
            av == match_cases_view(a),
            bv == match_cases_view(b),
            forall|j: int| 0 <= j < i ==> strip_case(#[trigger] av[j]) == strip_case(bv[j]),
        decreases a.len() - i,
    {
        let x = &a[i];
        let y = &b[i];
        let same = pattern_eq(&x.pattern, &y.pattern) && opt_box_eq(&x.guard, &y.guard)
            && expr_eq(&x.body, &y.body);
        assert(av[i as int] == match_case_view(&a[i as int]));
        assert(bv[i as int] == match_case_view(&b[i as int]));
        if !same {
            assert(strip_cases(av)[i as int] != strip_cases(bv)[i as int]);
            return false;
        }
        i += 1;
    }
    assert(strip_cases(av) =~= strip_cases(bv));
    true
}

/// Whether two expressions are equal: their own source locations are
/// compared, those of the patterns inside them are not.
pub fn expr_eq(a: &Expression, b: &Expression) -> (r: bool)
    ensures
        r == (strip_expr(a@) == strip_expr(b@)),
    decreases a, 0int,
{
    if !opt_location_eq(&a.location, &b.location) {
        return false;
    }
    match (&a.body, &b.body) {
        (ExpressionBody::Array(x), ExpressionBody::Array(y)) => array_items_eq(x, y),
        (ExpressionBody::Binary(x), ExpressionBody::Binary(y)) => {
            x.operator == y.operator && expr_eq(&x.left, &y.left) && expr_eq(&x.right, &y.right)
        },
        (ExpressionBody::Identifier(x), ExpressionBody::Identifier(y)) => x.name == y.name,
        (ExpressionBody::Literal(x), ExpressionBody::Literal(y)) => x.eq(y),
        (ExpressionBody::Logical(x), ExpressionBody::Logical(y)) => {
            x.operator == y.operator && expr_eq(&x.left, &y.left) && expr_eq(&x.right, &y.right)
        },
        (ExpressionBody::Member(x), ExpressionBody::Member(y)) => {
            expr_eq(&x.object, &y.object) && expr_eq(&x.property, &y.property)
        },
        (ExpressionBody::Object(x), ExpressionBody::Object(y)) => object_props_eq(x, y),
        (ExpressionBody::Unary(x), ExpressionBody::Unary(y)) => {
            x.operator == y.operator && expr_eq(&x.argument, &y.argument)
        },
        (ExpressionBody::Call(x), ExpressionBody::Call(y)) => {
            x.function.name == y.function.name && expr_eq(&x.argument, &y.argument)
        },
        (ExpressionBody::Template(x), ExpressionBody::Template(y)) => {
            template_parts_eq(&x.parts, &y.parts) && x.suffix == y.suffix
        },
        (ExpressionBody::Abstraction(x), ExpressionBody::Abstraction(y)) => {
            pattern_eq(&x.arguments, &y.arguments) && expr_eq(&x.body, &y.body)
        },
        (ExpressionBody::Application(x), ExpressionBody::Application(y)) => {
            expr_eq(&x.lambda, &y.lambda) && expr_eq(&x.parameter, &y.parameter)
        },
        (ExpressionBody::ArrayComp(x), ExpressionBody::ArrayComp(y)) => {
            sources_eq(&x.sources, &y.sources) && array_items_eq(&x.projection, &y.projection)
        },
        (ExpressionBody::ObjectComp(x), ExpressionBody::ObjectComp(y)) => {
            sources_eq(&x.sources, &y.sources) && object_props_eq(&x.projection, &y.projection)
        },
        (ExpressionBody::Condition(x), ExpressionBody::Condition(y)) => {
            expr_eq(&x.condition, &y.condition) && expr_eq(&x.true_branch, &y.true_branch)
                && opt_box_eq(&x.false_branch, &y.false_branch)
        },
        (ExpressionBody::Match(x), ExpressionBody::Match(y)) => {
            expr_eq(&x.subject, &y.subject) && match_cases_eq(&x.cases, &y.cases)
        },
        _ => false,
    }
}

} // verus!
