//! The grammar of patterns and expressions, as spec functions: each rule
//! gives what it reads at a position of the text and the position after
//! it. Where a rule reads on from a position that another rule gave, it
//! checks that the position lies in the text (and, where it must, after
//! the start); the rules' positions always do, and the checks make the
//! rules' termination plain.
use vstd::prelude::*;
use crate::literal::SLiteral;
use crate::value_type::ValueType;
use crate::syntax::location::Location;
use crate::syntax::expression::{
    SExpr, SExprBody, SArrayItem, SObjectProperty, SPropertyKey, STemplatePart, SSource, SMatchCase,
    UnaryOperator, BinaryOperator, LogicalOperator,
};
use crate::syntax::pattern::{SPattern, SPatternBody, SRest, SObjectPropertyPattern};
use crate::parser::input::{
    span, ws_tag_at, tag_end, skip_multispace, skip_space, identifier_spec, literal_spec, string_literal_spec,
    type_name_at, is_ascii_alpha,
};

verus! {

/// `a <= b`, within the text.
pub open spec fn within(s: Seq<char>, a: nat, b: nat) -> bool {
    a <= b <= s.len()
}

/// `a < b`, within the text.
pub open spec fn beyond(s: Seq<char>, a: nat, b: nat) -> bool {
    a < b <= s.len()
}

pub open spec fn pat_at(s: Seq<char>, start: nat, body: SPatternBody, end: nat) -> SPattern {
    SPattern { body, location: Some(span(s, start, end)) }
}

pub open spec fn expr_at(s: Seq<char>, start: nat, body: SExprBody, end: nat) -> SExpr {
    SExpr { body, location: Some(span(s, start, end)) }
}

// ---------------------------------------------------------------------------
// Patterns.
// ---------------------------------------------------------------------------

pub open spec fn pattern_discard_at(s: Seq<char>, pos: nat) -> Option<(SPattern, nat)> {
    match tag_end(s, pos, "_"@) {
        Some(p) => Some((pat_at(s, pos, SPatternBody::Discard, p), p)),
        None => None,
    }
}

pub open spec fn pattern_typed_discard_at(s: Seq<char>, pos: nat) -> Option<(SPattern, nat)> {
    match ws_tag_at(s, pos, "_ is "@) {
        Some(p1) => match type_name_at(s, p1, 0) {
            Some((t, p2)) => Some((pat_at(s, pos, SPatternBody::TypedDiscard(t), p2), p2)),
            None => None,
        },
        None => None,
    }
}

pub open spec fn pattern_identifier_at(s: Seq<char>, pos: nat) -> Option<(SPattern, nat)> {
    match identifier_spec(s, pos) {
        Some((id, p)) => Some((pat_at(s, pos, SPatternBody::Identifier(id), p), p)),
        None => None,
    }
}

pub open spec fn pattern_typed_identifier_at(s: Seq<char>, pos: nat) -> Option<(SPattern, nat)> {
    match identifier_spec(s, pos) {
        Some((id, p1)) => match tag_end(s, p1, " is "@) {
            Some(p2) => match type_name_at(s, p2, 0) {
                Some((t, p3)) => Some((pat_at(s, pos, SPatternBody::TypedIdentifier(id, t), p3), p3)),
                None => None,
            },
            None => None,
        },
        None => None,
    }
}

pub open spec fn pattern_atom_at(s: Seq<char>, pos: nat) -> Option<(SPattern, nat)> {
    match literal_spec(s, pos) {
        Some((l, p)) => Some((pat_at(s, pos, SPatternBody::Literal(l), p), p)),
        None => None,
    }
}

/// `^` and an expression in `(` `)`, or `^` and an identifier.
pub open spec fn pattern_pinned_at(s: Seq<char>, pos: nat) -> Option<(SPattern, nat)>
    decreases s.len() - pos, 30nat,
{
    match ws_tag_at(s, pos, "^"@) {
        Some(p1) => if beyond(s, pos, p1) {
            let inner = match ws_tag_at(s, p1, "("@) {
                Some(p2) => if beyond(s, pos, p2) {
                    match expression_at(s, p2) {
                        Some((e, p3)) => if within(s, p2, p3) {
                            match ws_tag_at(s, p3, ")"@) {
                                Some(p4) => Some((e, p4)),
                                None => None,
                            }
                        } else {
                            None
                        },
                        None => None,
                    }
                } else {
                    None
                },
                None => None,
            };
            let alt = match inner {
                Some(x) => Some(x),
                None => expression_identifier_at(s, p1),
            };
            match alt {
                Some((e, p5)) => Some((pat_at(s, pos, SPatternBody::PinnedExpression(Box::new(e)), p5), p5)),
                None => None,
            }
        } else {
            None
        },
        None => None,
    }
}

/// A property of an object pattern: `[expression]: pattern`,
/// `name: pattern`, or a name alone.
pub open spec fn pattern_object_prop_at(s: Seq<char>, pos: nat) -> Option<(SObjectPropertyPattern, nat)>
    decreases s.len() - pos, 28nat,
{
    let keyed = match ws_tag_at(s, pos, "["@) {
        Some(p1) => if beyond(s, pos, p1) {
            match expression_at(s, p1) {
                Some((key, p2)) => if within(s, p1, p2) {
                    match ws_tag_at(s, p2, "]"@) {
                        Some(p3) => match ws_tag_at(s, p3, ":"@) {
                            Some(p4) => if beyond(s, pos, p4) {
                                match pattern_at(s, p4) {
                                    Some((value, p5)) => Some((
                                        SObjectPropertyPattern::Match(SPropertyKey::Expression(Box::new(key)), value),
                                        p5,
                                    )),
                                    None => None,
                                }
                            } else {
                                None
                            },
                            None => None,
                        },
                        None => None,
                    }
                } else {
                    None
                },
                None => None,
            }
        } else {
            None
        },
        None => None,
    };
    match keyed {
        Some(x) => Some(x),
        None => match identifier_spec(s, pos) {
            Some((id, p1)) => {
                let named = match ws_tag_at(s, p1, ":"@) {
                    Some(p2) => if beyond(s, pos, p2) {
                        match pattern_at(s, p2) {
                            Some((value, p3)) => Some((
                                SObjectPropertyPattern::Match(SPropertyKey::Identifier(id), value),
                                p3,
                            )),
                            None => None,
                        }
                    } else {
                        None
                    },
                    None => None,
                };
                match named {
                    Some(x) => Some(x),
                    None => Some((SObjectPropertyPattern::Single(id), p1)),
                }
            },
            None => None,
        },
    }
}

/// `...` with an optional pattern that collects the rest.
pub open spec fn pattern_rest_at(s: Seq<char>, pos: nat) -> Option<(SRest, nat)>
    decreases s.len() - pos, 28nat,
{
    match ws_tag_at(s, pos, "..."@) {
        Some(p1) => if beyond(s, pos, p1) {
            match pattern_at(s, p1) {
                Some((q, p2)) => Some((SRest::Collect(Box::new(q)), p2)),
                None => Some((SRest::Discard, p1)),
            }
        } else {
            None
        },
        None => None,
    }
}

/// After the items of a collection pattern: `,` and a rest, or nothing.
pub open spec fn trailing_rest_at(s: Seq<char>, pos: nat) -> (SRest, nat)
    decreases s.len() - pos, 28nat,
{
    match ws_tag_at(s, pos, ","@) {
        Some(p1) => if beyond(s, pos, p1) {
            match pattern_rest_at(s, p1) {
                Some((rest, p2)) => (rest, p2),
                None => (SRest::Exact, p1),
            }
        } else {
            (SRest::Exact, pos)
        },
        None => (SRest::Exact, pos),
    }
}

/// The properties of an object pattern after the first one.
pub open spec fn pattern_props_rest(s: Seq<char>, cur: nat) -> (Seq<SObjectPropertyPattern>, nat)
    decreases s.len() - cur, 29nat,
{
    match ws_tag_at(s, cur, ","@) {
        Some(q1) => if beyond(s, cur, q1) {
            match pattern_object_prop_at(s, q1) {
                Some((x, q2)) => if within(s, q1, q2) {
                    let (rest, e) = pattern_props_rest(s, q2);
                    (seq![x] + rest, e)
                } else {
                    (Seq::empty(), cur)
                },
                None => (Seq::empty(), cur),
            }
        } else {
            (Seq::empty(), cur)
        },
        None => (Seq::empty(), cur),
    }
}

pub open spec fn pattern_object_at(s: Seq<char>, pos: nat) -> Option<(SPattern, nat)>
    decreases s.len() - pos, 30nat,
{
    match ws_tag_at(s, pos, "{"@) {
        Some(p1) => if beyond(s, pos, p1) {
            let (body, p3) = match pattern_rest_at(s, p1) {
                Some((rest, p2)) => (SPatternBody::Object(Seq::empty(), rest), p2),
                None => {
                    let (props, cur) = match pattern_object_prop_at(s, p1) {
                        Some((first, p)) => if within(s, p1, p) {
                            let (rest, e) = pattern_props_rest(s, p);
                            (seq![first] + rest, e)
                        } else {
                            (Seq::empty(), p1)
                        },
                        None => (Seq::empty(), p1),
                    };
                    if within(s, p1, cur) {
                        let (rest, p) = trailing_rest_at(s, cur);
                        (SPatternBody::Object(props, rest), p)
                    } else {
                        (SPatternBody::Object(props, SRest::Exact), cur)
                    }
                },
            };
            match ws_tag_at(s, p3, "}"@) {
                Some(p4) => Some((pat_at(s, pos, body, p4), p4)),
                None => None,
            }
        } else {
            None
        },
        None => None,
    }
}

/// The items of an array pattern after the first one.
pub open spec fn pattern_items_rest(s: Seq<char>, cur: nat) -> (Seq<SPattern>, nat)
    decreases s.len() - cur, 29nat,
{
    match ws_tag_at(s, cur, ","@) {
        Some(q1) => if beyond(s, cur, q1) {
            match pattern_at(s, q1) {
                Some((x, q2)) => if within(s, q1, q2) {
                    let (rest, e) = pattern_items_rest(s, q2);
                    (seq![x] + rest, e)
                } else {
                    (Seq::empty(), cur)
                },
                None => (Seq::empty(), cur),
            }
        } else {
            (Seq::empty(), cur)
        },
        None => (Seq::empty(), cur),
    }
}

pub open spec fn pattern_array_at(s: Seq<char>, pos: nat) -> Option<(SPattern, nat)>
    decreases s.len() - pos, 30nat,
{
    match ws_tag_at(s, pos, "["@) {
        Some(p1) => if beyond(s, pos, p1) {
            let (body, p3) = match pattern_rest_at(s, p1) {
                Some((rest, p2)) => (SPatternBody::Array(Seq::empty(), rest), p2),
                None => {
                    let (items, cur) = match pattern_at(s, p1) {
                        Some((first, p)) => if within(s, p1, p) {
                            let (rest, e) = pattern_items_rest(s, p);
                            (seq![first] + rest, e)
                        } else {
                            (Seq::empty(), p1)
                        },
                        None => (Seq::empty(), p1),
                    };
                    if within(s, p1, cur) {
                        let (rest, p) = trailing_rest_at(s, cur);
                        (SPatternBody::Array(items, rest), p)
                    } else {
                        (SPatternBody::Array(items, SRest::Exact), cur)
                    }
                },
            };
            match ws_tag_at(s, p3, "]"@) {
                Some(p4) => Some((pat_at(s, pos, body, p4), p4)),
                None => None,
            }
        } else {
            None
        },
        None => None,
    }
}

/// `name @` and a literal, array, object or pinned pattern.
pub open spec fn pattern_capture_at(s: Seq<char>, pos: nat) -> Option<(SPattern, nat)>
    decreases s.len() - pos, 30nat,
{
    let p0 = skip_multispace(s, pos);
    match identifier_spec(s, p0) {
        Some((id, p1)) => {
            let p2 = skip_multispace(s, p1);
            match ws_tag_at(s, p2, "@"@) {
                Some(p3) => if beyond(s, pos, p3) {
                    let inner = match pattern_atom_at(s, p3) {
                        Some(x) => Some(x),
                        None => match pattern_array_at(s, p3) {
                            Some(x) => Some(x),
                            None => match pattern_object_at(s, p3) {
                                Some(x) => Some(x),
                                None => pattern_pinned_at(s, p3),
                            },
                        },
                    };
                    match inner {
                        Some((q, p4)) => Some((pat_at(s, pos, SPatternBody::Capture(id, Box::new(q)), p4), p4)),
                        None => None,
                    }
                } else {
                    None
                },
                None => None,
            }
        },
        None => None,
    }
}

/// A pattern: the kinds of pattern tried in a fixed order.
pub open spec fn pattern_at(s: Seq<char>, pos: nat) -> Option<(SPattern, nat)>
    decreases s.len() - pos, 32nat,
{
    if pos > s.len() {
        None
    } else if pattern_pinned_at(s, pos) is Some {
        pattern_pinned_at(s, pos)
    } else if pattern_atom_at(s, pos) is Some {
        pattern_atom_at(s, pos)
    } else if pattern_capture_at(s, pos) is Some {
        pattern_capture_at(s, pos)
    } else if pattern_array_at(s, pos) is Some {
        pattern_array_at(s, pos)
    } else if pattern_typed_identifier_at(s, pos) is Some {
        pattern_typed_identifier_at(s, pos)
    } else if pattern_typed_discard_at(s, pos) is Some {
        pattern_typed_discard_at(s, pos)
    } else if pattern_identifier_at(s, pos) is Some {
        pattern_identifier_at(s, pos)
    } else if pattern_discard_at(s, pos) is Some {
        pattern_discard_at(s, pos)
    } else {
        pattern_object_at(s, pos)
    }
}

// ---------------------------------------------------------------------------
// Expressions.
// ---------------------------------------------------------------------------

pub open spec fn expression_atom_at(s: Seq<char>, pos: nat) -> Option<(SExpr, nat)> {
    match literal_spec(s, pos) {
        Some((l, p)) => Some((expr_at(s, pos, SExprBody::Literal(l), p), p)),
        None => None,
    }
}

pub open spec fn expression_identifier_at(s: Seq<char>, pos: nat) -> Option<(SExpr, nat)> {
    match identifier_spec(s, pos) {
        Some((id, p)) => Some((expr_at(s, pos, SExprBody::Identifier(id), p), p)),
        None => None,
    }
}

/// An expression between `open` and `close`, each with blanks around it.
pub open spec fn enclosed_at(s: Seq<char>, pos: nat, open: Seq<char>, close: Seq<char>) -> Option<(SExpr, nat)>
    decreases s.len() - pos, 36nat,
{
    match ws_tag_at(s, pos, open) {
        Some(p1) => if beyond(s, pos, p1) {
            match expression_at(s, p1) {
                Some((e, p2)) => match ws_tag_at(s, p2, close) {
                    Some(p3) => Some((e, p3)),
                    None => None,
                },
                None => None,
            }
        } else {
            None
        },
        None => None,
    }
}

/// An item of an array: `...` and an expression, or an expression.
pub open spec fn array_item_at(s: Seq<char>, pos: nat) -> Option<(SArrayItem, nat)>
    decreases s.len() - pos, 82nat,
{
    let spread = match ws_tag_at(s, pos, "..."@) {
        Some(p1) => if beyond(s, pos, p1) {
            match expression_at(s, p1) {
                Some((e, p2)) => Some((SArrayItem::Spread(e), p2)),
                None => None,
            }
        } else {
            None
        },
        None => None,
    };
    match spread {
        Some(x) => Some(x),
        None => if pos <= s.len() {
            match expression_at(s, pos) {
                Some((e, p)) => Some((SArrayItem::Single(e), p)),
                None => None,
            }
        } else {
            None
        },
    }
}

pub open spec fn array_items_rest(s: Seq<char>, cur: nat) -> (Seq<SArrayItem>, nat)
    decreases s.len() - cur, 83nat,
{
    match ws_tag_at(s, cur, ","@) {
        Some(q1) => if beyond(s, cur, q1) {
            match array_item_at(s, q1) {
                Some((x, q2)) => if within(s, q1, q2) {
                    let (rest, e) = array_items_rest(s, q2);
                    (seq![x] + rest, e)
                } else {
                    (Seq::empty(), cur)
                },
                None => (Seq::empty(), cur),
            }
        } else {
            (Seq::empty(), cur)
        },
        None => (Seq::empty(), cur),
    }
}

/// Array items separated by `,`, at least one, with an optional `,`.
#[verifier::opaque]
pub open spec fn array_items_at(s: Seq<char>, pos: nat) -> Option<(Seq<SArrayItem>, nat)>
    decreases s.len() - pos, 84nat,
{
    match array_item_at(s, pos) {
        Some((first, p)) => if within(s, pos, p) {
            let (rest, cur) = array_items_rest(s, p);
            let end = match ws_tag_at(s, cur, ","@) {
                Some(q) => q,
                None => cur,
            };
            Some((seq![first] + rest, end))
        } else {
            None
        },
        None => None,
    }
}

/// `key` `:` and an expression, for a key read up to `p1`.
pub open spec fn keyed_value_at(s: Seq<char>, pos: nat, key: SPropertyKey, p1: nat) -> Option<(SObjectProperty, nat)>
    decreases s.len() - pos, 81nat,
{
    match ws_tag_at(s, p1, ":"@) {
        Some(p2) => if beyond(s, pos, p2) {
            match expression_at(s, p2) {
                Some((value, p3)) => Some((SObjectProperty::Property(key, value), p3)),
                None => None,
            }
        } else {
            None
        },
        None => None,
    }
}

/// A property of an object: `[key]: value`, `name: value`,
/// `"name": value`, `...` and an expression, or a name alone.
pub open spec fn object_property_at(s: Seq<char>, pos: nat) -> Option<(SObjectProperty, nat)>
    decreases s.len() - pos, 82nat,
{
    let computed = match ws_tag_at(s, pos, "["@) {
        Some(p1) => if beyond(s, pos, p1) {
            match expression_at(s, p1) {
                Some((key, p2)) => match ws_tag_at(s, p2, "]"@) {
                    Some(p3) => keyed_value_at(s, pos, SPropertyKey::Expression(Box::new(key)), p3),
                    None => None,
                },
                None => None,
            }
        } else {
            None
        },
        None => None,
    };
    let named = match identifier_spec(s, pos) {
        Some((id, p1)) => keyed_value_at(s, pos, SPropertyKey::Identifier(id), p1),
        None => None,
    };
    let quoted = match string_literal_spec(s, pos) {
        Some((name, p1)) => keyed_value_at(s, pos, SPropertyKey::Identifier(name), p1),
        None => None,
    };
    let spread = match ws_tag_at(s, pos, "..."@) {
        Some(p1) => if beyond(s, pos, p1) {
            match expression_at(s, p1) {
                Some((e, p2)) => Some((SObjectProperty::Spread(e), p2)),
                None => None,
            }
        } else {
            None
        },
        None => None,
    };
    if computed is Some {
        computed
    } else if named is Some {
        named
    } else if quoted is Some {
        quoted
    } else if spread is Some {
        spread
    } else {
        match identifier_spec(s, pos) {
            Some((id, p)) => Some((SObjectProperty::Single(id), p)),
            None => None,
        }
    }
}

pub open spec fn object_props_rest(s: Seq<char>, cur: nat) -> (Seq<SObjectProperty>, nat)
    decreases s.len() - cur, 83nat,
{
    match ws_tag_at(s, cur, ","@) {
        Some(q1) => if beyond(s, cur, q1) {
            match object_property_at(s, q1) {
                Some((x, q2)) => if within(s, q1, q2) {
                    let (rest, e) = object_props_rest(s, q2);
                    (seq![x] + rest, e)
                } else {
                    (Seq::empty(), cur)
                },
                None => (Seq::empty(), cur),
            }
        } else {
            (Seq::empty(), cur)
        },
        None => (Seq::empty(), cur),
    }
}

/// Object properties separated by `,`, at least one, with an optional `,`.
#[verifier::opaque]
pub open spec fn object_props_at(s: Seq<char>, pos: nat) -> Option<(Seq<SObjectProperty>, nat)>
    decreases s.len() - pos, 84nat,
{
    match object_property_at(s, pos) {
        Some((first, p)) => if within(s, pos, p) {
            let (rest, cur) = object_props_rest(s, p);
            let end = match ws_tag_at(s, cur, ","@) {
                Some(q) => q,
                None => cur,
            };
            Some((seq![first] + rest, end))
        } else {
            None
        },
        None => None,
    }
}

/// A call: a function name and an argument in `(` `)`.
pub open spec fn call_at(s: Seq<char>, pos: nat) -> Option<(SExpr, nat)>
    decreases s.len() - pos, 34nat,
{
    match identifier_spec(s, pos) {
        Some((f, p1)) => if beyond(s, pos, p1) {
            match enclosed_at(s, p1, "("@, ")"@) {
                Some((arg, p2)) => Some((expr_at(s, pos, SExprBody::Call(f, Box::new(arg)), p2), p2)),
                None => None,
            }
        } else {
            None
        },
        None => None,
    }
}

pub open spec fn array_at(s: Seq<char>, pos: nat) -> Option<(SExpr, nat)>
    decreases s.len() - pos, 34nat,
{
    match ws_tag_at(s, pos, "["@) {
        Some(p1) => if beyond(s, pos, p1) {
            let (items, p2) = match array_items_at(s, p1) {
                Some(x) => x,
                None => (Seq::empty(), p1),
            };
            match ws_tag_at(s, p2, "]"@) {
                Some(p3) => Some((expr_at(s, pos, SExprBody::Array(items), p3), p3)),
                None => None,
            }
        } else {
            None
        },
        None => None,
    }
}

/// A source of a comprehension: `for`, an optional `match`, a pattern,
/// `in`, a collection, and an optional `if` with a predicate.
#[verifier::opaque]
pub open spec fn source_at(s: Seq<char>, cur: nat) -> Option<(SSource, nat)>
    decreases s.len() - cur, 33nat,
{
    match ws_tag_at(s, cur, "for"@) {
        Some(p1) => if beyond(s, cur, p1) {
            let (weak, p2) = match ws_tag_at(s, p1, "match"@) {
                Some(p) => (true, p),
                None => (false, p1),
            };
            if !within(s, p1, p2) {
                None
            } else {
                match pattern_at(s, p2) {
                    Some((pat, p3)) => match ws_tag_at(s, p3, "in"@) {
                        Some(p4) => if beyond(s, cur, p4) {
                            match expression_at(s, p4) {
                                Some((collection, p5)) => {
                                    let (predicate, p6) = match ws_tag_at(s, p5, "if"@) {
                                        Some(p) => if beyond(s, cur, p) {
                                            match expression_at(s, p) {
                                                Some((e, q)) => (Some(e), q),
                                                None => (None, p5),
                                            }
                                        } else {
                                            (None, p5)
                                        },
                                        None => (None, p5),
                                    };
                                    Some((SSource { collection, pattern: pat, strong_pattern: !weak, predicate }, p6))
                                },
                                None => None,
                            }
                        } else {
                            None
                        },
                        None => None,
                    },
                    None => None,
                }
            }
        } else {
            None
        },
        None => None,
    }
}

/// Sources of a comprehension, as many as there are.
pub open spec fn sources_from(s: Seq<char>, cur: nat) -> (Seq<SSource>, nat)
    decreases s.len() - cur, 34nat,
{
    match source_at(s, cur) {
        Some((source, p6)) => if beyond(s, cur, p6) {
            let (rest, e) = sources_from(s, p6);
            (seq![source] + rest, e)
        } else {
            (Seq::empty(), cur)
        },
        None => (Seq::empty(), cur),
    }
}

/// At least one source of a comprehension.
#[verifier::opaque]
pub open spec fn comprehension_sources_at(s: Seq<char>, pos: nat) -> Option<(Seq<SSource>, nat)>
    decreases s.len() - pos, 35nat,
{
    let (sources, cur) = sources_from(s, pos);
    if sources.len() == 0 { None } else { Some((sources, cur)) }
}

pub open spec fn array_comprehension_at(s: Seq<char>, pos: nat) -> Option<(SExpr, nat)>
    decreases s.len() - pos, 34nat,
{
    match ws_tag_at(s, pos, "["@) {
        Some(p1) => if beyond(s, pos, p1) {
            match array_items_at(s, p1) {
                Some((projection, p2)) => if within(s, p1, p2) {
                    match comprehension_sources_at(s, p2) {
                        Some((sources, p3)) => match ws_tag_at(s, p3, "]"@) {
                            Some(p4) => Some((expr_at(s, pos, SExprBody::ArrayComp(sources, projection), p4), p4)),
                            None => None,
                        },
                        None => None,
                    }
                } else {
                    None
                },
                None => None,
            }
        } else {
            None
        },
        None => None,
    }
}

pub open spec fn object_at(s: Seq<char>, pos: nat) -> Option<(SExpr, nat)>
    decreases s.len() - pos, 34nat,
{
    match ws_tag_at(s, pos, "{"@) {
        Some(p1) => if beyond(s, pos, p1) {
            let (props, p2) = match object_props_at(s, p1) {
                Some(x) => x,
                None => (Seq::empty(), p1),
            };
            match ws_tag_at(s, p2, "}"@) {
                Some(p3) => Some((expr_at(s, pos, SExprBody::Object(props), p3), p3)),
                None => None,
            }
        } else {
            None
        },
        None => None,
    }
}

pub open spec fn object_comprehension_at(s: Seq<char>, pos: nat) -> Option<(SExpr, nat)>
    decreases s.len() - pos, 34nat,
{
    match ws_tag_at(s, pos, "{"@) {
        Some(p1) => if beyond(s, pos, p1) {
            match object_props_at(s, p1) {
                Some((projection, p2)) => if within(s, p1, p2) {
                    match comprehension_sources_at(s, p2) {
                        Some((sources, p3)) => match ws_tag_at(s, p3, "}"@) {
                            Some(p4) => Some((expr_at(s, pos, SExprBody::ObjectComp(sources, projection), p4), p4)),
                            None => None,
                        },
                        None => None,
                    }
                } else {
                    None
                },
                None => None,
            }
        } else {
            None
        },
        None => None,
    }
}

/// A pattern, possibly between `(` and `)`.
pub open spec fn pattern_maybe_parenthesized_at(s: Seq<char>, pos: nat) -> Option<(SPattern, nat)>
    decreases s.len() - pos, 34nat,
{
    let enclosed = match ws_tag_at(s, pos, "("@) {
        Some(p1) => if beyond(s, pos, p1) {
            match pattern_at(s, p1) {
                Some((pat, p2)) => match ws_tag_at(s, p2, ")"@) {
                    Some(p3) => Some((pat, p3)),
                    None => None,
                },
                None => None,
            }
        } else {
            None
        },
        None => None,
    };
    match enclosed {
        Some(x) => Some(x),
        None => pattern_at(s, pos),
    }
}

/// `fn`, a parameter pattern, `=>` and a body.
pub open spec fn lambda_at(s: Seq<char>, pos: nat) -> Option<(SExpr, nat)>
    decreases s.len() - pos, 78nat,
{
    match ws_tag_at(s, pos, "fn"@) {
        Some(p1) => if beyond(s, pos, p1) {
            match pattern_maybe_parenthesized_at(s, p1) {
                Some((arguments, p2)) => match ws_tag_at(s, p2, "=>"@) {
                    Some(p3) => if beyond(s, pos, p3) {
                        match expression_at(s, p3) {
                            Some((body, p4)) => Some((
                                expr_at(s, pos, SExprBody::Abstraction(Box::new(arguments), Box::new(body)), p4),
                                p4,
                            )),
                            None => None,
                        }
                    } else {
                        None
                    },
                    None => None,
                },
                None => None,
            }
        } else {
            None
        },
        None => None,
    }
}

/// An arm of a match: a pattern, an optional `if` and guard, `=>` and a
/// body.
pub open spec fn match_arm_at(s: Seq<char>, pos: nat) -> Option<(SMatchCase, nat)>
    decreases s.len() - pos, 36nat,
{
    match pattern_maybe_parenthesized_at(s, pos) {
        Some((pat, p1)) => if within(s, pos, p1) {
            let (guard, p2) = match ws_tag_at(s, p1, "if"@) {
                Some(p) => if beyond(s, pos, p) {
                    match expression_at(s, p) {
                        Some((g, q)) => (Some(g), q),
                        None => (None, p1),
                    }
                } else {
                    (None, p1)
                },
                None => (None, p1),
            };
            match ws_tag_at(s, p2, "=>"@) {
                Some(p3) => if beyond(s, pos, p3) {
                    match expression_at(s, p3) {
                        Some((body, p4)) => Some((SMatchCase { pattern: pat, guard, body }, p4)),
                        None => None,
                    }
                } else {
                    None
                },
                None => None,
            }
        } else {
            None
        },
        None => None,
    }
}

pub open spec fn match_arms_rest(s: Seq<char>, cur: nat) -> (Seq<SMatchCase>, nat)
    decreases s.len() - cur, 37nat,
{
    match ws_tag_at(s, cur, ","@) {
        Some(q1) => if beyond(s, cur, q1) {
            match match_arm_at(s, q1) {
                Some((x, q2)) => if within(s, q1, q2) {
                    let (rest, e) = match_arms_rest(s, q2);
                    (seq![x] + rest, e)
                } else {
                    (Seq::empty(), cur)
                },
                None => (Seq::empty(), cur),
            }
        } else {
            (Seq::empty(), cur)
        },
        None => (Seq::empty(), cur),
    }
}

/// Match arms between `{` and `}`, separated by `,`, with an optional `,`
/// after the last.
pub open spec fn match_arms_at(s: Seq<char>, pos: nat) -> Option<(Seq<SMatchCase>, nat)>
    decreases s.len() - pos, 38nat,
{
    match ws_tag_at(s, pos, "{"@) {
        Some(p1) => if beyond(s, pos, p1) {
            let (cases, cur) = match match_arm_at(s, p1) {
                Some((first, p)) => if within(s, p1, p) {
                    let (rest, c) = match_arms_rest(s, p);
                    let c2 = match ws_tag_at(s, c, ","@) {
                        Some(q) => q,
                        None => c,
                    };
                    (seq![first] + rest, c2)
                } else {
                    (Seq::empty(), p1)
                },
                None => (Seq::empty(), p1),
            };
            match ws_tag_at(s, cur, "}"@) {
                Some(p) => Some((cases, p)),
                None => None,
            }
        } else {
            None
        },
        None => None,
    }
}

/// An expression in `(` `)`, or else an expression: the subject of a match
/// or the condition of an `if`.
pub open spec fn subject_at(s: Seq<char>, pos: nat) -> Option<(SExpr, nat)>
    decreases s.len() - pos, 81nat,
{
    match enclosed_at(s, pos, "("@, ")"@) {
        Some(x) => Some(x),
        None => if pos <= s.len() { expression_at(s, pos) } else { None },
    }
}

pub open spec fn match_at(s: Seq<char>, pos: nat) -> Option<(SExpr, nat)>
    decreases s.len() - pos, 78nat,
{
    match ws_tag_at(s, pos, "match"@) {
        Some(p1) => if beyond(s, pos, p1) {
            match subject_at(s, p1) {
                Some((subject, p2)) => if within(s, p1, p2) {
                    match match_arms_at(s, p2) {
                        Some((cases, p3)) => Some((
                            expr_at(s, pos, SExprBody::Match(Box::new(subject), cases), p3),
                            p3,
                        )),
                        None => None,
                    }
                } else {
                    None
                },
                None => None,
            }
        } else {
            None
        },
        None => None,
    }
}

pub open spec fn condition_at(s: Seq<char>, pos: nat) -> Option<(SExpr, nat)>
    decreases s.len() - pos, 78nat,
{
    match ws_tag_at(s, pos, "if"@) {
        Some(p1) => if beyond(s, pos, p1) {
            match subject_at(s, p1) {
                Some((condition, p2)) => if within(s, p1, p2) {
                    match enclosed_at(s, p2, "{"@, "}"@) {
                        Some((true_branch, p3)) => {
                            let (false_branch, p4) = match ws_tag_at(s, p3, "else"@) {
                                Some(p) => if within(s, pos, p) {
                                    match enclosed_at(s, p, "{"@, "}"@) {
                                        Some((f, q)) => (Some(Box::new(f)), q),
                                        None => (None, p3),
                                    }
                                } else {
                                    (None, p3)
                                },
                                None => (None, p3),
                            };
                            Some((
                                expr_at(s, pos, SExprBody::Condition(Box::new(condition), Box::new(true_branch), false_branch), p4),
                                p4,
                            ))
                        },
                        None => None,
                    }
                } else {
                    None
                },
                None => None,
            }
        } else {
            None
        },
        None => None,
    }
}

/// The name a `fn match` lambda binds its argument to.
pub open spec fn lambda_match_local() -> Seq<char> {
    "___local"@
}

pub open spec fn lambda_match_at(s: Seq<char>, pos: nat) -> Option<(SExpr, nat)>
    decreases s.len() - pos, 78nat,
{
    match ws_tag_at(s, pos, "fn match"@) {
        Some(p1) => if within(s, pos, p1) {
            match match_arms_at(s, p1) {
                Some((cases, p2)) => {
                    let arguments = SPattern { body: SPatternBody::Identifier(lambda_match_local()), location: None };
                    let subject = SExpr { body: SExprBody::Identifier(lambda_match_local()), location: None };
                    let body = SExpr { body: SExprBody::Match(Box::new(subject), cases), location: None };
                    Some((expr_at(s, pos, SExprBody::Abstraction(Box::new(arguments), Box::new(body)), p2), p2))
                },
                None => None,
            }
        } else {
            None
        },
        None => None,
    }
}

/// The first position from `pos` on where `${` begins.
pub open spec fn interpolation_from(s: Seq<char>, pos: nat) -> Option<nat>
    decreases s.len() - pos,
{
    if pos + 1 >= s.len() {
        None
    } else if s[pos as int] == '$' && s[(pos + 1) as int] == '{' {
        Some(pos)
    } else {
        interpolation_from(s, pos + 1)
    }
}

/// The first position from `pos` on that holds a backtick, or the end.
pub open spec fn backtick_from(s: Seq<char>, pos: nat) -> nat
    decreases s.len() - pos,
{
    if pos >= s.len() || s[pos as int] == '`' {
        pos
    } else {
        backtick_from(s, pos + 1)
    }
}

/// Fixed text up to `${`, and an expression up to `}`.
pub open spec fn template_part_at(s: Seq<char>, pos: nat) -> Option<(STemplatePart, nat)>
    decreases s.len() - pos, 34nat,
{
    match interpolation_from(s, pos) {
        Some(q) => if pos <= q && q + 2 <= s.len() {
            match expression_at(s, q + 2) {
                Some((e, p1)) => match tag_end(s, p1, "}"@) {
                    Some(p2) => Some((STemplatePart { fixed_start: s.subrange(pos as int, q as int), dynamic_end: e }, p2)),
                    None => None,
                },
                None => None,
            }
        } else {
            None
        },
        None => None,
    }
}

pub open spec fn template_parts_from(s: Seq<char>, cur: nat) -> (Seq<STemplatePart>, nat)
    decreases s.len() - cur, 35nat,
{
    match template_part_at(s, cur) {
        Some((part, q)) => if beyond(s, cur, q) {
            let (rest, e) = template_parts_from(s, q);
            (seq![part] + rest, e)
        } else {
            (Seq::empty(), cur)
        },
        None => (Seq::empty(), cur),
    }
}

/// A template in backticks: fixed text and `${expression}` parts, then the
/// fixed text up to the closing backtick.
pub open spec fn string_template_at(s: Seq<char>, pos: nat) -> Option<(SExpr, nat)>
    decreases s.len() - pos, 34nat,
{
    match tag_end(s, pos, "`"@) {
        Some(p1) => if beyond(s, pos, p1) {
            let (parts, cur) = template_parts_from(s, p1);
            let end = backtick_from(s, cur);
            match tag_end(s, end, "`"@) {
                Some(p2) => Some((expr_at(s, pos, SExprBody::Template(parts, s.subrange(cur as int, end as int)), p2), p2)),
                None => None,
            }
        } else {
            None
        },
        None => None,
    }
}

/// An object, an array, an array or object comprehension, a template, a
/// call or a literal, tried in that order.
pub open spec fn expression_literal_at(s: Seq<char>, pos: nat) -> Option<(SExpr, nat)>
    decreases s.len() - pos, 36nat,
{
    if object_at(s, pos) is Some {
        object_at(s, pos)
    } else if array_at(s, pos) is Some {
        array_at(s, pos)
    } else if array_comprehension_at(s, pos) is Some {
        array_comprehension_at(s, pos)
    } else if object_comprehension_at(s, pos) is Some {
        object_comprehension_at(s, pos)
    } else if string_template_at(s, pos) is Some {
        string_template_at(s, pos)
    } else if call_at(s, pos) is Some {
        call_at(s, pos)
    } else {
        expression_atom_at(s, pos)
    }
}

/// An expression right after `(` and right before `)`.
pub open spec fn with_paren_at(s: Seq<char>, pos: nat) -> Option<(SExpr, nat)>
    decreases s.len() - pos, 36nat,
{
    match tag_end(s, pos, "("@) {
        Some(p1) => if beyond(s, pos, p1) {
            match expression_at(s, p1) {
                Some((e, p2)) => match tag_end(s, p2, ")"@) {
                    Some(p3) => Some((e, p3)),
                    None => None,
                },
                None => None,
            }
        } else {
            None
        },
        None => None,
    }
}

/// `!` and a primary expression, or `-` or `+` and a path.
pub open spec fn unary_at(s: Seq<char>, pos: nat) -> Option<(SExpr, nat)>
    decreases s.len() - pos, 36nat,
{
    let not = match ws_tag_at(s, pos, "!"@) {
        Some(p1) => if beyond(s, pos, p1) {
            match primary_at(s, p1) {
                Some((argument, p2)) => Some((
                    expr_at(s, pos, SExprBody::Unary(UnaryOperator::Not, Box::new(argument)), p2),
                    p2,
                )),
                None => None,
            }
        } else {
            None
        },
        None => None,
    };
    match not {
        Some(x) => Some(x),
        None => {
            let signed = match ws_tag_at(s, pos, "-"@) {
                Some(p) => Some((UnaryOperator::Minus, p)),
                None => match ws_tag_at(s, pos, "+"@) {
                    Some(p) => Some((UnaryOperator::Plus, p)),
                    None => None,
                },
            };
            match signed {
                Some((operator, p1)) => if beyond(s, pos, p1) {
                    match path_at(s, p1) {
                        Some((argument, p2)) => Some((
                            expr_at(s, pos, SExprBody::Unary(operator, Box::new(argument)), p2),
                            p2,
                        )),
                        None => None,
                    }
                } else {
                    None
                },
                None => None,
            }
        },
    }
}

/// An expression in parentheses, a literal, an identifier or a unary
/// expression, tried in that order.
pub open spec fn primary_at(s: Seq<char>, pos: nat) -> Option<(SExpr, nat)>
    decreases s.len() - pos, 38nat,
{
    if with_paren_at(s, pos) is Some {
        with_paren_at(s, pos)
    } else if expression_literal_at(s, pos) is Some {
        expression_literal_at(s, pos)
    } else if expression_identifier_at(s, pos) is Some {
        expression_identifier_at(s, pos)
    } else {
        unary_at(s, pos)
    }
}

/// What follows a path: an index, a property or an application, with its
/// span.
pub enum SSegment {
    Application(SExpr, Location),
    Index(SExpr, Location),
    Prop(Seq<char>, Location),
}

pub open spec fn path_segment_at(s: Seq<char>, pos: nat) -> Option<(SSegment, nat)>
    decreases s.len() - pos, 38nat,
{
    let index = match ws_tag_at(s, pos, "["@) {
        Some(p1) => if beyond(s, pos, p1) {
            match expression_at(s, p1) {
                Some((e, p2)) => match ws_tag_at(s, p2, "]"@) {
                    Some(p3) => Some((SSegment::Index(e, span(s, pos, p3)), p3)),
                    None => None,
                },
                None => None,
            }
        } else {
            None
        },
        None => None,
    };
    let prop = match ws_tag_at(s, pos, "."@) {
        Some(p1) => match identifier_spec(s, p1) {
            Some((id, p2)) => Some((SSegment::Prop(id, span(s, p1, p2)), p2)),
            None => None,
        },
        None => None,
    };
    if index is Some {
        index
    } else if prop is Some {
        prop
    } else {
        let ls = skip_multispace(s, pos);
        match tag_end(s, ls, "."@) {
            Some(p1) => {
                let p2 = skip_multispace(s, p1);
                if within(s, pos, p2) {
                    match with_paren_at(s, p2) {
                        Some((e, p3)) => Some((SSegment::Application(e, span(s, ls, p3)), p3)),
                        None => None,
                    }
                } else {
                    None
                }
            },
            None => None,
        }
    }
}

/// A path with one more segment.
pub open spec fn extend_path(acc: SExpr, segment: SSegment) -> SExpr {
    let right = match segment {
        SSegment::Application(_, loc) => loc,
        SSegment::Index(_, loc) => loc,
        SSegment::Prop(_, loc) => loc,
    };
    let outer = match acc.location {
        Some(l) => Some(Location { start: l.start, end: right.end }),
        None => None,
    };
    let body = match segment {
        SSegment::Application(param, _) => SExprBody::Application(Box::new(acc), Box::new(param)),
        SSegment::Index(e, _) => SExprBody::Member(Box::new(acc), Box::new(e)),
        SSegment::Prop(id, loc) => SExprBody::Member(
            Box::new(acc),
            Box::new(SExpr { body: SExprBody::Literal(SLiteral::String(id)), location: Some(loc) }),
        ),
    };
    SExpr { body, location: outer }
}

/// The segments that follow a path from `cur` on, folded onto `acc`.
pub open spec fn path_fold(s: Seq<char>, acc: SExpr, cur: nat) -> (SExpr, nat)
    decreases s.len() - cur, 39nat,
{
    match path_segment_at(s, cur) {
        Some((segment, q)) => if beyond(s, cur, q) {
            path_fold(s, extend_path(acc, segment), q)
        } else {
            (acc, cur)
        },
        None => (acc, cur),
    }
}

/// A primary expression followed by indices, properties and applications.
pub open spec fn path_at(s: Seq<char>, pos: nat) -> Option<(SExpr, nat)>
    decreases s.len() - pos, 40nat,
{
    match primary_at(s, pos) {
        Some((init, p0)) => if within(s, pos, p0) {
            Some(path_fold(s, init, p0))
        } else {
            None
        },
        None => None,
    }
}

/// A binary or logical operator.
pub enum SOperator {
    Logical(LogicalOperator),
    Binary(BinaryOperator),
}

/// The first of the operators at `p0` that occurs there.
pub open spec fn first_operator(s: Seq<char>, p0: nat, ops: Seq<(Seq<char>, SOperator)>) -> Option<(SOperator, nat)>
    decreases ops.len(),
{
    if ops.len() == 0 {
        None
    } else if tag_end(s, p0, ops[0].0) is Some {
        Some((ops[0].1, tag_end(s, p0, ops[0].0)->Some_0))
    } else {
        first_operator(s, p0, ops.drop_first())
    }
}

/// The operators of a binary level, in the order they are tried.
pub open spec fn level_operators(level: nat) -> Seq<(Seq<char>, SOperator)> {
    if level == 8 {
        seq![("||"@, SOperator::Logical(LogicalOperator::Or))]
    } else if level == 7 {
        seq![("&&"@, SOperator::Logical(LogicalOperator::And))]
    } else if level == 6 {
        seq![("is"@, SOperator::Binary(BinaryOperator::Is))]
    } else if level == 5 {
        seq![("as"@, SOperator::Binary(BinaryOperator::Cast))]
    } else if level == 4 {
        seq![
            (">="@, SOperator::Binary(BinaryOperator::GreaterThanEqual)),
            ("<="@, SOperator::Binary(BinaryOperator::LessThanEqual)),
            ("<"@, SOperator::Binary(BinaryOperator::LessThan)),
            (">"@, SOperator::Binary(BinaryOperator::GreaterThan)),
            ("=="@, SOperator::Binary(BinaryOperator::StrictEqual)),
            ("!="@, SOperator::Binary(BinaryOperator::StrictNotEqual)),
            ("in"@, SOperator::Binary(BinaryOperator::In)),
        ]
    } else if level == 3 {
        seq![
            ("+"@, SOperator::Binary(BinaryOperator::Plus)),
            ("-"@, SOperator::Binary(BinaryOperator::Minus)),
        ]
    } else if level == 2 {
        seq![
            ("*"@, SOperator::Binary(BinaryOperator::Times)),
            ("/"@, SOperator::Binary(BinaryOperator::Over)),
            ("%"@, SOperator::Binary(BinaryOperator::Mod)),
        ]
    } else {
        seq![("^"@, SOperator::Binary(BinaryOperator::PowerOf))]
    }
}

/// The operator of a level after the blanks at `pos`, and the position
/// after it and the blanks that follow; `in` must not run on into a
/// letter.
pub open spec fn operator_spec(s: Seq<char>, pos: nat, level: nat) -> Option<(SOperator, nat)> {
    let p0 = skip_multispace(s, pos);
    match first_operator(s, p0, level_operators(level)) {
        Some((op, p)) => if op == SOperator::Binary(BinaryOperator::In) && p < s.len() && is_ascii_alpha(s[p as int]) {
            None
        } else {
            Some((op, skip_multispace(s, p)))
        },
        None => None,
    }
}

/// The span from the start of one expression to the end of another, when
/// both have one.
pub open spec fn outer_span(left: Option<Location>, right: Option<Location>) -> Option<Location> {
    match (left, right) {
        (Some(l), Some(r)) => Some(Location { start: l.start, end: r.end }),
        _ => None,
    }
}

pub open spec fn combine_spec(op: SOperator, left: SExpr, right: SExpr) -> SExpr {
    let location = outer_span(left.location, right.location);
    let body = match op {
        SOperator::Logical(o) => SExprBody::Logical(o, Box::new(left), Box::new(right)),
        SOperator::Binary(o) => SExprBody::Binary(o, Box::new(left), Box::new(right)),
    };
    SExpr { body, location }
}

/// The operand of a binary level: a path for the tightest level, the next
/// tighter level otherwise.
pub open spec fn operand_at(s: Seq<char>, pos: nat, level: nat) -> Option<(SExpr, nat)>
    decreases s.len() - pos, 41 + 4 * level,
{
    if level <= 1 {
        path_at(s, pos)
    } else {
        binary_at(s, pos, (level - 1) as nat)
    }
}

/// Operators and operands of a level from `cur` on, folded onto `acc` to
/// the left.
pub open spec fn binary_fold(s: Seq<char>, acc: SExpr, cur: nat, level: nat) -> (SExpr, nat)
    decreases s.len() - cur, 42 + 4 * level,
{
    match operator_spec(s, cur, level) {
        Some((op, q1)) => if beyond(s, cur, q1) {
            match operand_at(s, q1, level) {
                Some((right, q2)) => if within(s, q1, q2) {
                    binary_fold(s, combine_spec(op, acc, right), q2, level)
                } else {
                    (acc, cur)
                },
                None => (acc, cur),
            }
        } else {
            (acc, cur)
        },
        None => (acc, cur),
    }
}

/// A binary level: operands of the next level joined by the level's
/// operators, to the left; `is` joins at most two operands, the second of
/// the comparison level.
pub open spec fn binary_at(s: Seq<char>, pos: nat, level: nat) -> Option<(SExpr, nat)>
    decreases s.len() - pos, 43 + 4 * level,
{
    match operand_at(s, pos, level) {
        Some((init, p0)) => if within(s, pos, p0) {
            if level == 6 {
                match operator_spec(s, p0, 6) {
                    Some((op, p1)) => if beyond(s, pos, p1) {
                        match binary_at(s, p1, 4) {
                            Some((right, p2)) => Some((combine_spec(op, init, right), p2)),
                            None => Some((init, p0)),
                        }
                    } else {
                        Some((init, p0))
                    },
                    None => Some((init, p0)),
                }
            } else {
                Some(binary_fold(s, init, p0, level))
            }
        } else {
            None
        },
        None => None,
    }
}

/// An expression: a `fn match` lambda, a lambda, a match, an `if`, or
/// binary operations, tried in that order.
pub open spec fn expression_at(s: Seq<char>, pos: nat) -> Option<(SExpr, nat)>
    decreases s.len() - pos, 80nat,
{
    if pos > s.len() {
        None
    } else if lambda_match_at(s, pos) is Some {
        lambda_match_at(s, pos)
    } else if lambda_at(s, pos) is Some {
        lambda_at(s, pos)
    } else if match_at(s, pos) is Some {
        match_at(s, pos)
    } else if condition_at(s, pos) is Some {
        condition_at(s, pos)
    } else {
        binary_at(s, pos, 8)
    }
}


// ---------------------------------------------------------------------------
// Lists of patterns and of expressions.
// ---------------------------------------------------------------------------

pub open spec fn pattern_list_rest(s: Seq<char>, cur: nat) -> (Seq<SPattern>, nat)
    decreases s.len() - cur,
{
    match ws_tag_at(s, cur, ";"@) {
        Some(q1) => if beyond(s, cur, q1) {
            match pattern_at(s, q1) {
                Some((x, q2)) => if within(s, q1, q2) {
                    let (rest, e) = pattern_list_rest(s, q2);
                    (seq![x] + rest, e)
                } else {
                    (Seq::empty(), cur)
                },
                None => (Seq::empty(), cur),
            }
        } else {
            (Seq::empty(), cur)
        },
        None => (Seq::empty(), cur),
    }
}

/// Optional spaces, patterns separated by `;` (at least `min` of them),
/// and an optional `;` with blanks around it.
pub open spec fn pattern_list_at(s: Seq<char>, pos: nat, min: nat) -> Option<(Seq<SPattern>, nat)> {
    let p0 = skip_space(s, pos);
    let (pats, cur) = match pattern_at(s, p0) {
        Some((first, p)) => if within(s, p0, p) {
            let (rest, e) = pattern_list_rest(s, p);
            (seq![first] + rest, e)
        } else {
            (Seq::empty(), p0)
        },
        None => (Seq::empty(), p0),
    };
    if pats.len() < min {
        None
    } else {
        let p1 = skip_multispace(s, cur);
        let p2 = match tag_end(s, p1, ";"@) {
            Some(p) => p,
            None => p1,
        };
        Some((pats, skip_multispace(s, p2)))
    }
}

pub open spec fn expression_list_rest(s: Seq<char>, cur: nat) -> (Seq<SExpr>, nat)
    decreases s.len() - cur,
{
    match ws_tag_at(s, cur, ";"@) {
        Some(q1) => if beyond(s, cur, q1) {
            match expression_at(s, q1) {
                Some((x, q2)) => if within(s, q1, q2) {
                    let (rest, e) = expression_list_rest(s, q2);
                    (seq![x] + rest, e)
                } else {
                    (Seq::empty(), cur)
                },
                None => (Seq::empty(), cur),
            }
        } else {
            (Seq::empty(), cur)
        },
        None => (Seq::empty(), cur),
    }
}

/// Optional spaces, expressions separated by `;` (at least `min` of them),
/// and an optional `;` with blanks around it.
#[verifier::opaque]
pub open spec fn expression_list_at(s: Seq<char>, pos: nat, min: nat) -> Option<(Seq<SExpr>, nat)> {
    let p0 = skip_space(s, pos);
    let (exprs, cur) = match expression_at(s, p0) {
        Some((first, p)) => if within(s, p0, p) {
            let (rest, e) = expression_list_rest(s, p);
            (seq![first] + rest, e)
        } else {
            (Seq::empty(), p0)
        },
        None => (Seq::empty(), p0),
    };
    if exprs.len() < min {
        None
    } else if min > 0 {
        match ws_tag_at(s, cur, ";"@) {
            Some(q) => Some((exprs, q)),
            None => Some((exprs, cur)),
        }
    } else {
        let q0 = skip_multispace(s, cur);
        let q1 = match tag_end(s, q0, ";"@) {
            Some(q) => q,
            None => q0,
        };
        Some((exprs, skip_multispace(s, q1)))
    }
}

/// What a whole text holds, when one rule reads all of it.
pub open spec fn whole<T>(r: Option<(T, nat)>, s: Seq<char>) -> Option<T> {
    match r {
        Some((x, e)) => if e == s.len() { Some(x) } else { None },
        None => None,
    }
}


/// A parser's result as a value of the model and a position.
pub open spec fn view_pos<T: View>(r: &Option<(T, usize)>) -> Option<(T::V, nat)> {
    match r {
        Some((x, p)) => Some((x@, *p as nat)),
        None => None,
    }
}

} // verus!
