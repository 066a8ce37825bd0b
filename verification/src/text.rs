//! How literals, patterns, expressions, values and environments are
//! written out as text.
use vstd::prelude::*;
use crate::value_type::{ValueType, value_type_name};
use crate::identifier::Identifier;
use crate::literal::{Literal, SLiteral};
use crate::strings::{int_decimal, bool_text, i64_to_string, bool_to_string, chars_of};
use crate::syntax::expression::{
    Expression, ExpressionBody, ArrayItem, ObjectProperty, PropertyKey, StringTemplatePart,
    ComprehensionSource, MatchCase, BinaryOperator, LogicalOperator, UnaryOperator,
    SExpr, SExprBody, SArrayItem, SObjectProperty, SPropertyKey, STemplatePart, SSource, SMatchCase,
    array_items_view, object_props_view, template_parts_view, sources_view, match_cases_view,
    array_item_view, object_property_view, template_part_view, source_view, match_case_view,
};
use crate::syntax::pattern::{
    Pattern, PatternBody, Rest, ArrayPatternItem, ObjectPropertyPattern, SPattern, SPatternBody, SRest,
    SObjectPropertyPattern, object_prop_patterns_view, array_pattern_items_view, rest_view,
    object_prop_pattern_view, array_pattern_item_view,
};
use crate::syntax::assignment::Assignment;
use crate::value::{Value, ValueBag, ValueMap, LambdaBinding, SValue, values_view, map_view, entry_view};
use crate::runtime::env::Environment;
use crate::repl::io::{ReplOutput, SReplOutput};

verus! {

// ---------------------------------------------------------------------------
// Literals and operators.
// ---------------------------------------------------------------------------

pub open spec fn literal_text(l: SLiteral) -> Seq<char> {
    match l {
        SLiteral::Null => "null"@,
        SLiteral::String(s) => "\""@ + s + "\""@,
        SLiteral::Number(n) => n,
        SLiteral::Boolean(b) => bool_text(b),
        SLiteral::Type(t) => value_type_name(t),
    }
}

pub open spec fn binary_op_text(op: BinaryOperator) -> Seq<char> {
    match op {
        BinaryOperator::StrictEqual => "=="@,
        BinaryOperator::StrictNotEqual => "!="@,
        BinaryOperator::LessThan => "<"@,
        BinaryOperator::GreaterThan => ">"@,
        BinaryOperator::LessThanEqual => "<="@,
        BinaryOperator::GreaterThanEqual => ">="@,
        BinaryOperator::Plus => "+"@,
        BinaryOperator::Minus => "-"@,
        BinaryOperator::Times => "*"@,
        BinaryOperator::Over => "/"@,
        BinaryOperator::Mod => "%"@,
        BinaryOperator::In => "in"@,
        BinaryOperator::PowerOf => "^"@,
        BinaryOperator::Is => "is"@,
        BinaryOperator::Cast => "cast"@,
    }
}

pub open spec fn logical_op_text(op: LogicalOperator) -> Seq<char> {
    match op {
        LogicalOperator::Or => "||"@,
        LogicalOperator::And => "&&"@,
    }
}

pub open spec fn unary_op_text(op: UnaryOperator) -> Seq<char> {
    match op {
        UnaryOperator::Minus => "-"@,
        UnaryOperator::Plus => "+"@,
        UnaryOperator::Not => "!"@,
    }
}

// ---------------------------------------------------------------------------
// Patterns and expressions.
// ---------------------------------------------------------------------------

pub open spec fn pattern_text(p: SPattern) -> Seq<char>
    decreases p, 0int,
{
    match p.body {
        SPatternBody::Discard => "_"@,
        SPatternBody::Literal(l) => literal_text(l),
        SPatternBody::Capture(id, inner) => id + " @ "@ + pattern_text(*inner),
        SPatternBody::TypedDiscard(t) => "_ is "@ + value_type_name(t),
        SPatternBody::Identifier(id) => id,
        SPatternBody::PinnedExpression(e) => "^"@ + expr_text(*e),
        SPatternBody::TypedIdentifier(id, t) => id + " is "@ + value_type_name(t),
        SPatternBody::Object(props, rest) => "{"@ + prop_patterns_text(props) + rest_text(rest) + "}"@,
        SPatternBody::Array(items, rest) => "["@ + item_patterns_text(items) + rest_text(rest) + "]"@,
    }
}

pub open spec fn rest_text(r: SRest) -> Seq<char>
    decreases r, 0int,
{
    match r {
        SRest::Exact => Seq::empty(),
        SRest::Discard => "..."@,
        SRest::Collect(p) => "..."@ + pattern_text(*p),
    }
}

pub open spec fn prop_patterns_text(props: Seq<SObjectPropertyPattern>) -> Seq<char>
    decreases props, 0int,
{
    if props.len() == 0 {
        Seq::empty()
    } else {
        (match props[0] {
            SObjectPropertyPattern::Single(id) => id,
            SObjectPropertyPattern::Match(key, value) => (match key {
                SPropertyKey::Identifier(id) => id,
                SPropertyKey::Expression(e) => expr_text(*e),
            }) + ": "@ + pattern_text(value),
        }) + ","@ + prop_patterns_text(props.drop_first())
    }
}

pub open spec fn item_patterns_text(items: Seq<SPattern>) -> Seq<char>
    decreases items, 0int,
{
    if items.len() == 0 {
        Seq::empty()
    } else {
        pattern_text(items[0]) + ","@ + item_patterns_text(items.drop_first())
    }
}

pub open spec fn expr_text(e: SExpr) -> Seq<char>
    decreases e, 0int,
{
    match e.body {
        SExprBody::Literal(l) => literal_text(l),
        SExprBody::Array(items) => "["@ + array_items_text(items) + "["@,
        SExprBody::Binary(op, l, r) => "("@ + expr_text(*l) + " "@ + binary_op_text(op) + " "@ + expr_text(*r) + ")"@,
        SExprBody::Identifier(id) => id,
        SExprBody::Logical(op, l, r) => "("@ + expr_text(*l) + " "@ + logical_op_text(op) + " "@ + expr_text(*r) + ")"@,
        SExprBody::Member(o, p) => expr_text(*o) + "["@ + expr_text(*p) + "]"@,
        SExprBody::Object(props) => "{"@ + object_props_text(props) + "}"@,
        SExprBody::Unary(op, a) => "("@ + unary_op_text(op) + " "@ + expr_text(*a) + ")"@,
        SExprBody::Call(f, a) => f + "("@ + expr_text(*a) + ")"@,
        SExprBody::Template(parts, suffix) => "$`"@ + template_parts_text(parts) + suffix + "`"@,
        SExprBody::Abstraction(args, body) => "fn ("@ + pattern_text(*args) + ") => "@ + expr_text(*body),
        SExprBody::Application(l, p) => expr_text(*l) + "("@ + expr_text(*p) + ")"@,
        SExprBody::Match(subject, cases) => "match ("@ + expr_text(*subject) + ") {"@ + match_cases_text(cases) + "}"@,
        SExprBody::Condition(c, t, f) => "if ("@ + expr_text(*c) + ") { "@ + expr_text(*t) + " }"@ + (match f {
            Some(fb) => "else { "@ + expr_text(*fb) + " }"@,
            None => Seq::empty(),
        }),
        SExprBody::ArrayComp(sources, projection) => "["@ + array_items_text(projection) + sources_text(sources) + "["@,
        SExprBody::ObjectComp(sources, projection) => "{"@ + object_props_text(projection) + sources_text(sources) + "}"@,
    }
}

pub open spec fn array_items_text(items: Seq<SArrayItem>) -> Seq<char>
    decreases items, 0int,
{
    if items.len() == 0 {
        Seq::empty()
    } else {
        (match items[0] {
            SArrayItem::Single(x) => expr_text(x) + ","@,
            SArrayItem::Spread(x) => "...("@ + expr_text(x) + "),"@,
        }) + array_items_text(items.drop_first())
    }
}

pub open spec fn object_props_text(props: Seq<SObjectProperty>) -> Seq<char>
    decreases props, 0int,
{
    if props.len() == 0 {
        Seq::empty()
    } else {
        (match props[0] {
            SObjectProperty::Single(id) => id + ","@,
            SObjectProperty::Property(key, value) => (match key {
                SPropertyKey::Identifier(id) => id + ": "@ + expr_text(value) + ","@,
                SPropertyKey::Expression(k) => "["@ + expr_text(*k) + "]: "@ + expr_text(value) + ","@,
            }),
            SObjectProperty::Spread(x) => "...("@ + expr_text(x) + "),"@,
        }) + object_props_text(props.drop_first())
    }
}

pub open spec fn template_parts_text(parts: Seq<STemplatePart>) -> Seq<char>
    decreases parts, 0int,
{
    if parts.len() == 0 {
        Seq::empty()
    } else {
        parts[0].fixed_start + "${"@ + expr_text(parts[0].dynamic_end) + "}"@ + template_parts_text(parts.drop_first())
    }
}

pub open spec fn match_cases_text(cases: Seq<SMatchCase>) -> Seq<char>
    decreases cases, 0int,
{
    if cases.len() == 0 {
        Seq::empty()
    } else {
        "("@ + pattern_text(cases[0].pattern) + ")  => "@ + expr_text(cases[0].body) + match_cases_text(cases.drop_first())
    }
}

pub open spec fn sources_text(sources: Seq<SSource>) -> Seq<char>
    decreases sources, 0int,
{
    if sources.len() == 0 {
        Seq::empty()
    } else {
        let s = sources[0];
        (if s.strong_pattern { "for "@ } else { "for match "@ }) + pattern_text(s.pattern) + " in "@ + expr_text(s.collection)
            + (match s.predicate {
                Some(p) => " if "@ + expr_text(p),
                None => Seq::empty(),
            }) + sources_text(sources.drop_first())
    }
}

// ---------------------------------------------------------------------------
// Values.
// ---------------------------------------------------------------------------

/// Names whether std's `char::is_alphabetic` holds of a character.
pub uninterp spec fn char_is_alphabetic(c: char) -> bool;

/// Names whether std's `char::is_alphanumeric` holds of a character.
pub uninterp spec fn char_is_alphanumeric(c: char) -> bool;

/// `char::is_alphabetic`: whether the character has Unicode's Alphabetic
/// property; what that is, is named rather than stated.
#[verifier::external_body]
fn is_alphabetic(c: char) -> (r: bool)
    ensures
        r == char_is_alphabetic(c),
{
    c.is_alphabetic()
}

/// `char::is_alphanumeric`: whether the character is alphabetic or numeric
/// in Unicode's sense; named rather than stated.
#[verifier::external_body]
fn is_alphanumeric(c: char) -> (r: bool)
    ensures
        r == char_is_alphanumeric(c),
{
    c.is_alphanumeric()
}

/// A key that can be written without quotes: a letter followed by letters
/// and digits.
pub open spec fn is_plain_key(k: Seq<char>) -> bool {
    k.len() > 0 && char_is_alphabetic(k[0]) && forall|i: int| 0 <= i < k.len() ==> char_is_alphanumeric(#[trigger] k[i])
}

/// `k` with every `"` preceded by a backslash.
pub open spec fn escape_quotes(k: Seq<char>) -> Seq<char>
    decreases k.len(),
{
    if k.len() == 0 {
        Seq::empty()
    } else {
        (if k[0] == '"' { seq!['\\', '"'] } else { seq![k[0]] }) + escape_quotes(k.drop_first())
    }
}

pub open spec fn value_text(v: SValue) -> Seq<char>
    decreases v, 0int,
{
    match v {
        SValue::Null => "null"@,
        SValue::String(s) => "\""@ + s + "\""@,
        SValue::Integer(i) => int_decimal(i as int),
        SValue::Boolean(b) => bool_text(b),
        SValue::Array(a) => "["@ + values_text(a) + "]"@,
        SValue::Object(o) => "{"@ + entries_text(o) + "}"@,
        SValue::Type(t) => value_type_name(t),
        SValue::Lambda(env, pattern, body) => "fn ("@ + pattern_text(pattern) + ") => "@ + expr_text(body)
            + (if env.len() == 0 { Seq::empty() } else { " with "@ + bindings_text(env, true) }),
    }
}

pub open spec fn values_text(a: Seq<SValue>) -> Seq<char>
    decreases a, 0int,
{
    if a.len() == 0 {
        Seq::empty()
    } else {
        value_text(a[0]) + ", "@ + values_text(a.drop_first())
    }
}

pub open spec fn entries_text(o: Seq<(Seq<char>, SValue)>) -> Seq<char>
    decreases o, 0int,
{
    if o.len() == 0 {
        Seq::empty()
    } else {
        (if is_plain_key(o[0].0) { o[0].0 } else { "\""@ + escape_quotes(o[0].0) + "\""@ })
            + ": "@ + value_text(o[0].1) + ","@ + entries_text(o.drop_first())
    }
}

/// The captured bindings of a lambda, separated by `; `.
pub open spec fn bindings_text(env: Seq<(Seq<char>, SValue)>, first: bool) -> Seq<char>
    decreases env, 0int,
{
    if env.len() == 0 {
        Seq::empty()
    } else {
        (if first { Seq::empty() } else { "; "@ }) + env[0].0 + "="@ + value_text(env[0].1) + bindings_text(env.drop_first(), false)
    }
}

/// Bindings one per line, as `name = value;`.
pub open spec fn env_text(env: Seq<(Seq<char>, SValue)>) -> Seq<char>
    decreases env.len(),
{
    if env.len() == 0 {
        Seq::empty()
    } else {
        env[0].0 + " = "@ + value_text(env[0].1) + ";\n"@ + env_text(env.drop_first())
    }
}

/// Values one per line, each followed by `;`.
pub open spec fn bag_text(values: Seq<SValue>) -> Seq<char>
    decreases values.len(),
{
    if values.len() == 0 {
        Seq::empty()
    } else {
        value_text(values[0]) + ";\n"@ + bag_text(values.drop_first())
    }
}

// ---------------------------------------------------------------------------
// Writing text.
// ---------------------------------------------------------------------------

fn literal_str(l: &Literal) -> (r: String)
    ensures
        r@ == literal_text(l@),
{
    match l {
        Literal::Null => "null".to_string(),
        Literal::String(s) => {
            let mut out = "\"".to_string();
            out.append(s.as_str());
            out.append("\"");
            out
        },
        Literal::Number(n) => n.clone(),
        Literal::Boolean(b) => bool_to_string(*b),
        Literal::Type(t) => t.name(),
    }
}

fn binary_op_str(op: &BinaryOperator) -> (r: &'static str)
    ensures
        r@ == binary_op_text(*op),
{
    match op {
        BinaryOperator::StrictEqual => "==",
        BinaryOperator::StrictNotEqual => "!=",
        BinaryOperator::LessThan => "<",
        BinaryOperator::GreaterThan => ">",
        BinaryOperator::LessThanEqual => "<=",
        BinaryOperator::GreaterThanEqual => ">=",
        BinaryOperator::Plus => "+",
        BinaryOperator::Minus => "-",
        BinaryOperator::Times => "*",
        BinaryOperator::Over => "/",
        BinaryOperator::Mod => "%",
        BinaryOperator::In => "in",
        BinaryOperator::PowerOf => "^",
        BinaryOperator::Is => "is",
        BinaryOperator::Cast => "cast",
    }
}

fn write_pattern(out: &mut String, p: &Pattern)
    ensures
        final(out)@ == old(out)@ + pattern_text(p@),
    decreases p, 0int,
{
    let ghost start = out@;
    match &p.body {
        PatternBody::Discard => out.append("_"),
        PatternBody::Literal(l) => out.append(literal_str(l).as_str()),
        PatternBody::Capture(id, inner) => {
            out.append(id.name.as_str());
            out.append(" @ ");
            write_pattern(out, inner);
        },
        PatternBody::TypedDiscard(t) => {
            out.append("_ is ");
            out.append(t.name().as_str());
        },
        PatternBody::Identifier(id) => out.append(id.name.as_str()),
        PatternBody::PinnedExpression(e) => {
            out.append("^");
            write_expr(out, e);
        },
        PatternBody::TypedIdentifier(id, t) => {
            out.append(id.name.as_str());
            out.append(" is ");
            out.append(t.name().as_str());
        },
        PatternBody::Object(props, rest) => {
            out.append("{");
            write_prop_patterns(out, props);
            write_rest(out, rest);
            out.append("}");
        },
        PatternBody::Array(items, rest) => {
            out.append("[");
            write_item_patterns(out, items);
            write_rest(out, rest);
            out.append("]");
        },
    }
    assert(out@ =~= start + pattern_text(p@));
}

fn write_rest(out: &mut String, r: &Rest)
    ensures
        final(out)@ == old(out)@ + rest_text(rest_view(r)),
    decreases r, 0int,
{
    let ghost start = out@;
    match r {
        Rest::Exact => {},
        Rest::Discard => out.append("..."),
        Rest::Collect(p) => {
            out.append("...");
            write_pattern(out, p);
        },
    }
    assert(out@ =~= start + rest_text(rest_view(r)));
}

fn write_prop_patterns(out: &mut String, props: &Vec<ObjectPropertyPattern>)
    ensures
        final(out)@ == old(out)@ + prop_patterns_text(object_prop_patterns_view(props)),
    decreases props, 0int,
{
    let ghost start = out@;
    let ghost all = object_prop_patterns_view(props);
    let mut i: usize = 0;
    assert(all.skip(0) =~= all);
    assert(out@ + prop_patterns_text(all) =~= start + prop_patterns_text(all));
    while i < props.len()
        invariant
            i <= props.len(),
            all == object_prop_patterns_view(props),
            out@ + prop_patterns_text(all.skip(i as int)) == start + prop_patterns_text(all),
        decreases props.len() - i,
    {
        let ghost before = out@;
        let ghost rest = all.skip(i as int);
        assert(rest[0] == object_prop_pattern_view(&props[i as int]));
        assert(rest.drop_first() =~= all.skip(i + 1));
        match &props[i] {
            ObjectPropertyPattern::Single(id) => out.append(id.name.as_str()),
            ObjectPropertyPattern::Match(m) => {
                match &m.key {
                    PropertyKey::Identifier(id) => out.append(id.name.as_str()),
                    PropertyKey::Expression(e) => write_expr(out, e),
                }
                out.append(": ");
                write_pattern(out, &m.value);
            },
        }
        out.append(",");
        let ghost item = out@.subrange(before.len() as int, out@.len() as int);
        assert(out@ =~= before + item);
        assert(before + (item + prop_patterns_text(all.skip(i + 1))) =~= out@ + prop_patterns_text(all.skip(i + 1)));
        i += 1;
    }
    assert(all.skip(i as int) =~= Seq::<SObjectPropertyPattern>::empty());
    assert(out@ + Seq::<char>::empty() =~= out@);
}

fn write_item_patterns(out: &mut String, items: &Vec<ArrayPatternItem>)
    ensures
        final(out)@ == old(out)@ + item_patterns_text(array_pattern_items_view(items)),
    decreases items, 0int,
{
    let ghost start = out@;
    let ghost all = array_pattern_items_view(items);
    let mut i: usize = 0;
    assert(all.skip(0) =~= all);
    while i < items.len()
        invariant
            i <= items.len(),
            all == array_pattern_items_view(items),
            out@ + item_patterns_text(all.skip(i as int)) == start + item_patterns_text(all),
        decreases items.len() - i,
    {
        let ghost before = out@;
        let ghost rest = all.skip(i as int);
        assert(rest[0] == array_pattern_item_view(&items[i as int]));
        assert(rest.drop_first() =~= all.skip(i + 1));
        match &items[i] {
            ArrayPatternItem::Pattern(q) => write_pattern(out, q),
        }
        out.append(",");
        let ghost item = out@.subrange(before.len() as int, out@.len() as int);
        assert(out@ =~= before + item);
        assert(before + (item + item_patterns_text(all.skip(i + 1))) =~= out@ + item_patterns_text(all.skip(i + 1)));
        i += 1;
    }
    assert(all.skip(i as int) =~= Seq::<SPattern>::empty());
    assert(out@ + Seq::<char>::empty() =~= out@);
}

#[verifier::rlimit(60)]
#[verifier::spinoff_prover]
fn write_expr(out: &mut String, e: &Expression)
    ensures
        final(out)@ == old(out)@ + expr_text(e@),
    decreases e, 0int,
{
    let ghost start = out@;
    match &e.body {
        ExpressionBody::Literal(l) => out.append(literal_str(l).as_str()),
        ExpressionBody::Array(items) => {
            out.append("[");
            write_array_items(out, items);
            out.append("[");
        },
        ExpressionBody::Binary(x) => {
            out.append("(");
            write_expr(out, &x.left);
            out.append(" ");
            out.append(binary_op_str(&x.operator));
            out.append(" ");
            write_expr(out, &x.right);
            out.append(")");
        },
        ExpressionBody::Identifier(id) => out.append(id.name.as_str()),
        ExpressionBody::Logical(x) => {
            out.append("(");
            write_expr(out, &x.left);
            out.append(" ");
            match x.operator {
                LogicalOperator::Or => out.append("||"),
                LogicalOperator::And => out.append("&&"),
            }
            out.append(" ");
            write_expr(out, &x.right);
            out.append(")");
        },
        ExpressionBody::Member(x) => {
            write_expr(out, &x.object);
            out.append("[");
            write_expr(out, &x.property);
            out.append("]");
        },
        ExpressionBody::Object(props) => {
            out.append("{");
            write_object_props(out, props);
            out.append("}");
        },
        ExpressionBody::Unary(x) => {
            out.append("(");
            match x.operator {
                UnaryOperator::Minus => out.append("-"),
                UnaryOperator::Plus => out.append("+"),
                UnaryOperator::Not => out.append("!"),
            }
            out.append(" ");
            write_expr(out, &x.argument);
            out.append(")");
        },
        ExpressionBody::Call(x) => {
            out.append(x.function.name.as_str());
            out.append("(");
            write_expr(out, &x.argument);
            out.append(")");
        },
        ExpressionBody::Template(t) => {
            out.append("$`");
            write_template_parts(out, &t.parts);
            out.append(t.suffix.as_str());
            out.append("`");
        },
        ExpressionBody::Abstraction(x) => {
            out.append("fn (");
            write_pattern(out, &x.arguments);
            out.append(") => ");
            write_expr(out, &x.body);
        },
        ExpressionBody::Application(x) => {
            write_expr(out, &x.lambda);
            out.append("(");
            write_expr(out, &x.parameter);
            out.append(")");
        },
        ExpressionBody::Match(x) => {
            out.append("match (");
            write_expr(out, &x.subject);
            out.append(") {");
            write_match_cases(out, &x.cases);
            out.append("}");
        },
        ExpressionBody::Condition(x) => {
            out.append("if (");
            write_expr(out, &x.condition);
            out.append(") { ");
            write_expr(out, &x.true_branch);
            out.append(" }");
            match &x.false_branch {
                Some(fb) => {
                    out.append("else { ");
                    write_expr(out, fb);
                    out.append(" }");
                },
                None => {},
            }
        },
        ExpressionBody::ArrayComp(x) => {
            out.append("[");
            write_array_items(out, &x.projection);
            write_sources(out, &x.sources);
            out.append("[");
        },
        ExpressionBody::ObjectComp(x) => {
            out.append("{");
            write_object_props(out, &x.projection);
            write_sources(out, &x.sources);
            out.append("}");
        },
    }
    assert(out@ =~= start + expr_text(e@));
}

fn write_array_items(out: &mut String, items: &Vec<ArrayItem>)
    ensures
        final(out)@ == old(out)@ + array_items_text(array_items_view(items)),
    decreases items, 0int,
{
    let ghost start = out@;
    let ghost all = array_items_view(items);
    let mut i: usize = 0;
    assert(all.skip(0) =~= all);
    while i < items.len()
        invariant
            i <= items.len(),
            all == array_items_view(items),
            out@ + array_items_text(all.skip(i as int)) == start + array_items_text(all),
        decreases items.len() - i,
    {
        let ghost before = out@;
        let ghost rest = all.skip(i as int);
        assert(rest[0] == array_item_view(&items[i as int]));
        assert(rest.drop_first() =~= all.skip(i + 1));
        match &items[i] {
            ArrayItem::Single(x) => {
                write_expr(out, x);
                out.append(",");
            },
            ArrayItem::Spread(x) => {
                out.append("...(");
                write_expr(out, x);
                out.append("),");
            },
        }
        let ghost item = out@.subrange(before.len() as int, out@.len() as int);
        assert(out@ =~= before + item);
        assert(before + (item + array_items_text(all.skip(i + 1))) =~= out@ + array_items_text(all.skip(i + 1)));
        i += 1;
    }
    assert(all.skip(i as int) =~= Seq::<SArrayItem>::empty());
    assert(out@ + Seq::<char>::empty() =~= out@);
}

fn write_object_props(out: &mut String, props: &Vec<ObjectProperty>)
    ensures
        final(out)@ == old(out)@ + object_props_text(object_props_view(props)),
    decreases props, 0int,
{
    let ghost start = out@;
    let ghost all = object_props_view(props);
    let mut i: usize = 0;
    assert(all.skip(0) =~= all);
    while i < props.len()
        invariant
            i <= props.len(),
            all == object_props_view(props),
            out@ + object_props_text(all.skip(i as int)) == start + object_props_text(all),
        decreases props.len() - i,
    {
        let ghost before = out@;
        let ghost rest = all.skip(i as int);
        assert(rest[0] == object_property_view(&props[i as int]));
        assert(rest.drop_first() =~= all.skip(i + 1));
        match &props[i] {
            ObjectProperty::Single(id) => {
                out.append(id.name.as_str());
                out.append(",");
            },
            ObjectProperty::Property(p) => {
                match &p.key {
                    PropertyKey::Identifier(id) => {
                        out.append(id.name.as_str());
                        out.append(": ");
                    },
                    PropertyKey::Expression(k) => {
                        out.append("[");
                        write_expr(out, k);
                        out.append("]: ");
                    },
                }
                write_expr(out, &p.value);
                out.append(",");
            },
            ObjectProperty::Spread(x) => {
                out.append("...(");
                write_expr(out, x);
                out.append("),");
            },
        }
        let ghost item = out@.subrange(before.len() as int, out@.len() as int);
        assert(out@ =~= before + item);
        assert(before + (item + object_props_text(all.skip(i + 1))) =~= out@ + object_props_text(all.skip(i + 1)));
        i += 1;
    }
    assert(all.skip(i as int) =~= Seq::<SObjectProperty>::empty());
    assert(out@ + Seq::<char>::empty() =~= out@);
}

fn write_template_parts(out: &mut String, parts: &Vec<StringTemplatePart>)
    ensures
        final(out)@ == old(out)@ + template_parts_text(template_parts_view(parts)),
    decreases parts, 0int,
{
    let ghost start = out@;
    let ghost all = template_parts_view(parts);
    let mut i: usize = 0;
    assert(all.skip(0) =~= all);
    while i < parts.len()
        invariant
            i <= parts.len(),
            all == template_parts_view(parts),
            out@ + template_parts_text(all.skip(i as int)) == start + template_parts_text(all),
        decreases parts.len() - i,
    {
        let ghost before = out@;
        let ghost rest = all.skip(i as int);
        assert(rest[0] == template_part_view(&parts[i as int]));
        assert(rest.drop_first() =~= all.skip(i + 1));
        out.append(parts[i].fixed_start.as_str());
        out.append("${");
        write_expr(out, &parts[i].dynamic_end);
        out.append("}");
        let ghost item = out@.subrange(before.len() as int, out@.len() as int);
        assert(out@ =~= before + item);
        assert(before + (item + template_parts_text(all.skip(i + 1))) =~= out@ + template_parts_text(all.skip(i + 1)));
        i += 1;
    }
    assert(all.skip(i as int) =~= Seq::<STemplatePart>::empty());
    assert(out@ + Seq::<char>::empty() =~= out@);
}

fn write_match_cases(out: &mut String, cases: &Vec<MatchCase>)
    ensures
        final(out)@ == old(out)@ + match_cases_text(match_cases_view(cases)),
    decreases cases, 0int,
{
    let ghost start = out@;
    let ghost all = match_cases_view(cases);
    let mut i: usize = 0;
    assert(all.skip(0) =~= all);
    while i < cases.len()
        invariant
            i <= cases.len(),
            all == match_cases_view(cases),
            out@ + match_cases_text(all.skip(i as int)) == start + match_cases_text(all),
        decreases cases.len() - i,
    {
        let ghost before = out@;
        let ghost rest = all.skip(i as int);
        assert(rest[0] == match_case_view(&cases[i as int]));
        assert(rest.drop_first() =~= all.skip(i + 1));
        out.append("(");
        write_pattern(out, &cases[i].pattern);
        out.append(")  => ");
        write_expr(out, &cases[i].body);
        let ghost item = out@.subrange(before.len() as int, out@.len() as int);
        assert(out@ =~= before + item);
        assert(before + (item + match_cases_text(all.skip(i + 1))) =~= out@ + match_cases_text(all.skip(i + 1)));
        i += 1;
    }
    assert(all.skip(i as int) =~= Seq::<SMatchCase>::empty());
    assert(out@ + Seq::<char>::empty() =~= out@);
}

fn write_sources(out: &mut String, sources: &Vec<ComprehensionSource>)
    ensures
        final(out)@ == old(out)@ + sources_text(sources_view(sources)),
    decreases sources, 0int,
{
    let ghost start = out@;
    let ghost all = sources_view(sources);
    let mut i: usize = 0;
    assert(all.skip(0) =~= all);
    while i < sources.len()
        invariant
            i <= sources.len(),
            all == sources_view(sources),
            out@ + sources_text(all.skip(i as int)) == start + sources_text(all),
        decreases sources.len() - i,
    {
        let ghost before = out@;
        let ghost rest = all.skip(i as int);
        assert(rest[0] == source_view(&sources[i as int]));
        assert(rest.drop_first() =~= all.skip(i + 1));
        let source = &sources[i];
        if source.strong_pattern {
            out.append("for ");
        } else {
            out.append("for match ");
        }
        write_pattern(out, &source.pattern);
        out.append(" in ");
        write_expr(out, &source.collection);
        match &source.predicate {
            Some(p) => {
                out.append(" if ");
                write_expr(out, p);
            },
            None => {},
        }
        let ghost item = out@.subrange(before.len() as int, out@.len() as int);
        assert(out@ =~= before + item);
        assert(before + (item + sources_text(all.skip(i + 1))) =~= out@ + sources_text(all.skip(i + 1)));
        i += 1;
    }
    assert(all.skip(i as int) =~= Seq::<SSource>::empty());
    assert(out@ + Seq::<char>::empty() =~= out@);
}

fn plain_key(k: &str) -> (r: bool)
    ensures
        r == is_plain_key(k@),
{
    let cs = chars_of(k);
    if cs.len() == 0 {
        return false;
    }
    if !is_alphabetic(cs[0]) {
        return false;
    }
    let mut i: usize = 0;
    while i < cs.len()
        invariant
            i <= cs.len(),
            cs@ == k@,
            forall|j: int| 0 <= j < i ==> char_is_alphanumeric(#[trigger] k@[j]),
        decreases cs.len() - i,
    {
        if !is_alphanumeric(cs[i]) {
            return false;
        }
        i += 1;
    }
    true
}

fn escape_quotes_str(k: &str) -> (r: String)
    ensures
        r@ == escape_quotes(k@),
{
    let cs = chars_of(k);
    let mut out: Vec<char> = Vec::new();
    let mut i: usize = 0;
    assert(cs@.skip(0) =~= cs@);
    while i < cs.len()
        invariant
            i <= cs.len(),
            cs@ == k@,
            out@ + escape_quotes(cs@.skip(i as int)) == escape_quotes(k@),
        decreases cs.len() - i,
    {
        let ghost before = out@;
        let ghost rest = cs@.skip(i as int);
        assert(rest[0] == cs@[i as int]);
        assert(rest.drop_first() =~= cs@.skip(i + 1));
        if cs[i] == '"' {
            out.push('\\');
            out.push('"');
            assert(out@ =~= before + seq!['\\', '"']);
        } else {
            out.push(cs[i]);
            assert(out@ =~= before + seq![cs@[i as int]]);
        }
        assert(before + ((if cs@[i as int] == '"' { seq!['\\', '"'] } else { seq![cs@[i as int]] }) + escape_quotes(cs@.skip(i + 1)))
            =~= out@ + escape_quotes(cs@.skip(i + 1)));
        i += 1;
    }
    assert(cs@.skip(i as int) =~= Seq::<char>::empty());
    assert(out@ + Seq::<char>::empty() =~= out@);
    crate::strings::string_from_chars(&out)
}

fn write_value(out: &mut String, v: &Value)
    ensures
        final(out)@ == old(out)@ + value_text(v@),
    decreases v, 0int,
{
    let ghost start = out@;
    match v {
        Value::Null => out.append("null"),
        Value::String(s) => {
            out.append("\"");
            out.append(s.as_str());
            out.append("\"");
        },
        Value::Integer(i) => out.append(i64_to_string(*i).as_str()),
        Value::Boolean(b) => out.append(bool_to_string(*b).as_str()),
        Value::Array(a) => {
            out.append("[");
            write_values(out, a);
            out.append("]");
        },
        Value::Object(o) => {
            out.append("{");
            write_entries(out, o);
            out.append("}");
        },
        Value::Type(t) => out.append(t.name().as_str()),
        Value::Lambda(env, pattern, body) => {
            out.append("fn (");
            write_pattern(out, pattern);
            out.append(") => ");
            write_expr(out, body);
            if !env.bindings.is_empty() {
                out.append(" with ");
                write_bindings(out, &env.bindings);
            }
        },
    }
    assert(out@ =~= start + value_text(v@));
}

fn write_values(out: &mut String, a: &Vec<Value>)
    ensures
        final(out)@ == old(out)@ + values_text(values_view(a)),
    decreases a, 0int,
{
    let ghost start = out@;
    let ghost all = values_view(a);
    let mut i: usize = 0;
    assert(all.skip(0) =~= all);
    while i < a.len()
        invariant
            i <= a.len(),
            all == values_view(a),
            out@ + values_text(all.skip(i as int)) == start + values_text(all),
        decreases a.len() - i,
    {
        let ghost before = out@;
        let ghost rest = all.skip(i as int);
        assert(rest[0] == a[i as int]@);
        assert(rest.drop_first() =~= all.skip(i + 1));
        write_value(out, &a[i]);
        out.append(", ");
        let ghost item = out@.subrange(before.len() as int, out@.len() as int);
        assert(out@ =~= before + item);
        assert(before + (item + values_text(all.skip(i + 1))) =~= out@ + values_text(all.skip(i + 1)));
        i += 1;
    }
    assert(all.skip(i as int) =~= Seq::<SValue>::empty());
    assert(out@ + Seq::<char>::empty() =~= out@);
}

fn write_entries(out: &mut String, o: &ValueMap)
    ensures
        final(out)@ == old(out)@ + entries_text(o@),
    decreases o, 0int,
{
    let ghost start = out@;
    let ghost all = o@;
    let mut i: usize = 0;
    assert(all.skip(0) =~= all);
    while i < o.entries.len()
        invariant
            i <= o.entries.len(),
            all == o@,
            out@ + entries_text(all.skip(i as int)) == start + entries_text(all),
        decreases o.entries.len() - i,
    {
        let ghost before = out@;
        let ghost rest = all.skip(i as int);
        assert(rest[0] == entry_view(&o.entries[i as int]));
        assert(rest.drop_first() =~= all.skip(i + 1));
        let key = o.entries[i].0.as_str();
        if plain_key(key) {
            out.append(key);
        } else {
            out.append("\"");
            out.append(escape_quotes_str(key).as_str());
            out.append("\"");
        }
        out.append(": ");
        write_value(out, &o.entries[i].1);
        out.append(",");
        let ghost item = out@.subrange(before.len() as int, out@.len() as int);
        assert(out@ =~= before + item);
        assert(before + (item + entries_text(all.skip(i + 1))) =~= out@ + entries_text(all.skip(i + 1)));
        i += 1;
    }
    assert(all.skip(i as int) =~= Seq::<(Seq<char>, SValue)>::empty());
    assert(out@ + Seq::<char>::empty() =~= out@);
}

fn write_bindings(out: &mut String, env: &ValueMap)
    ensures
        final(out)@ == old(out)@ + bindings_text(env@, true),
    decreases env, 0int,
{
    let ghost start = out@;
    let ghost all = env@;
    let mut i: usize = 0;
    assert(all.skip(0) =~= all);
    while i < env.entries.len()
        invariant
            i <= env.entries.len(),
            all == env@,
            out@ + bindings_text(all.skip(i as int), i == 0) == start + bindings_text(all, true),
        decreases env.entries.len() - i,
    {
        let ghost before = out@;
        let ghost rest = all.skip(i as int);
        assert(rest[0] == entry_view(&env.entries[i as int]));
        assert(rest.drop_first() =~= all.skip(i + 1));
        if i > 0 {
            out.append("; ");
        }
        out.append(env.entries[i].0.as_str());
        out.append("=");
        write_value(out, &env.entries[i].1);
        let ghost item = out@.subrange(before.len() as int, out@.len() as int);
        assert(out@ =~= before + item);
        assert(before + (item + bindings_text(all.skip(i + 1), false)) =~= out@ + bindings_text(all.skip(i + 1), false));
        i += 1;
    }
    assert(all.skip(i as int) =~= Seq::<(Seq<char>, SValue)>::empty());
    assert(out@ + Seq::<char>::empty() =~= out@);
}

fn write_env(out: &mut String, env: &ValueMap)
    ensures
        final(out)@ == old(out)@ + env_text(env@),
{
    let ghost start = out@;
    let ghost all = env@;
    let mut i: usize = 0;
    assert(all.skip(0) =~= all);
    while i < env.entries.len()
        invariant
            i <= env.entries.len(),
            all == env@,
            out@ + env_text(all.skip(i as int)) == start + env_text(all),
        decreases env.entries.len() - i,
    {
        let ghost before = out@;
        let ghost rest = all.skip(i as int);
        assert(rest[0] == entry_view(&env.entries[i as int]));
        assert(rest.drop_first() =~= all.skip(i + 1));
        out.append(env.entries[i].0.as_str());
        out.append(" = ");
        write_value(out, &env.entries[i].1);
        out.append(";\n");
        let ghost item = out@.subrange(before.len() as int, out@.len() as int);
        assert(out@ =~= before + item);
        assert(before + (item + env_text(all.skip(i + 1))) =~= out@ + env_text(all.skip(i + 1)));
        i += 1;
    }
    assert(all.skip(i as int) =~= Seq::<(Seq<char>, SValue)>::empty());
    assert(out@ + Seq::<char>::empty() =~= out@);
}

// ---------------------------------------------------------------------------
// The text of each kind of thing.
// ---------------------------------------------------------------------------

impl Identifier {
    pub fn to_string(&self) -> (r: String)
        ensures
            r@ == self@,
    {
        self.name.clone()
    }
}

impl Literal {
    pub fn to_string(&self) -> (r: String)
        ensures
            r@ == literal_text(self@),
    {
        literal_str(self)
    }
}

impl Pattern {
    pub fn to_string(&self) -> (r: String)
        ensures
            r@ == pattern_text(self@),
    {
        let mut out = String::new();
        write_pattern(&mut out, self);
        assert(out@ =~= pattern_text(self@));
        out
    }
}

impl Expression {
    pub fn to_string(&self) -> (r: String)
        ensures
            r@ == expr_text(self@),
    {
        let mut out = String::new();
        write_expr(&mut out, self);
        assert(out@ =~= expr_text(self@));
        out
    }
}

impl Assignment {
    /// `pattern = expression;`
    pub fn to_string(&self) -> (r: String)
        ensures
            r@ == pattern_text(self.pattern@) + " = "@ + expr_text(self.expression@) + ";"@,
    {
        let mut out = String::new();
        write_pattern(&mut out, &self.pattern);
        out.append(" = ");
        write_expr(&mut out, &self.expression);
        out.append(";");
        assert(out@ =~= pattern_text(self.pattern@) + " = "@ + expr_text(self.expression@) + ";"@);
        out
    }
}

impl Value {
    pub fn to_string(&self) -> (r: String)
        ensures
            r@ == value_text(self@),
    {
        let mut out = String::new();
        write_value(&mut out, self);
        assert(out@ =~= value_text(self@));
        out
    }
}

impl ValueBag {
    /// Each value on a line of its own, followed by `;`.
    pub fn to_string(&self) -> (r: String)
        ensures
            r@ == bag_text(self@),
    {
        let ghost all = self@;
        let mut out = String::new();
        let mut i: usize = 0;
        assert(all.skip(0) =~= all);
        assert(out@ + bag_text(all) =~= bag_text(all));
        while i < self.values.len()
            invariant
                i <= self.values.len(),
                all == self@,
                out@ + bag_text(all.skip(i as int)) == bag_text(all),
            decreases self.values.len() - i,
        {
            let ghost before = out@;
            let ghost rest = all.skip(i as int);
            assert(rest[0] == self.values[i as int]@);
            assert(rest.drop_first() =~= all.skip(i + 1));
            write_value(&mut out, &self.values[i]);
            out.append(";\n");
            let ghost item = out@.subrange(before.len() as int, out@.len() as int);
            assert(out@ =~= before + item);
            assert(before + (item + bag_text(all.skip(i + 1))) =~= out@ + bag_text(all.skip(i + 1)));
            i += 1;
        }
        assert(all.skip(i as int) =~= Seq::<SValue>::empty());
        assert(out@ + Seq::<char>::empty() =~= out@);
        out
    }
}

impl Environment {
    /// Each binding on a line of its own, as `name = value;`.
    pub fn to_string(&self) -> (r: String)
        ensures
            r@ == env_text(self@),
    {
        let mut out = String::new();
        write_env(&mut out, &self.bindings);
        assert(out@ =~= env_text(self@));
        out
    }
}

impl LambdaBinding {
    /// Each binding on a line of its own, as `name = value;`.
    pub fn to_string(&self) -> (r: String)
        ensures
            r@ == env_text(self@),
    {
        let mut out = String::new();
        write_env(&mut out, &self.bindings);
        assert(out@ =~= env_text(self@));
        out
    }
}

impl ValueType {
    pub fn to_string(&self) -> (r: String)
        ensures
            r@ == value_type_name(*self),
    {
        self.name()
    }
}


/// The printed form of a REPL answer, ending in a line break unless the
/// answer ends the session.
pub open spec fn repl_output_text(o: SReplOutput) -> Seq<char> {
    match o {
        SReplOutput::Success => "OK.\n"@,
        SReplOutput::Write(msg) => msg + "\n"@,
        SReplOutput::Values(vals) => bag_text(vals) + "\n"@,
        SReplOutput::Bindings(env) => env_text(env) + "\n"@,
        SReplOutput::Exit => Seq::<char>::empty(),
    }
}

impl ReplOutput {
    pub fn to_string(&self) -> (r: String)
        ensures
            r@ == repl_output_text(self@),
    {
        let mut out = match self {
            ReplOutput::Success => String::from_str("OK."),
            ReplOutput::Write(msg) => msg.clone(),
            ReplOutput::Values(vals) => vals.to_string(),
            ReplOutput::Bindings(env) => env.to_string(),
            ReplOutput::Exit => return String::new(),
        };
        out.append("\n");
        proof {
            reveal_strlit("OK.");
            reveal_strlit("OK.\n");
            reveal_strlit("\n");
        }
        out
    }
}

} // verus!
