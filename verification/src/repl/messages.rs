//! The messages that explain why an expression has no value, why a
//! pattern did not match, and which assignments depend on each other.
use vstd::prelude::*;
use crate::identifier::Identifier;
use crate::value::{Value, ValueMap, SValue, svalue_type};
use crate::value_type::value_type_name;
use crate::strings::{nat_digits, usize_to_string};
use crate::runtime::evaluation::EvalError;
use crate::runtime::matching::PatternFailReason;
use crate::runtime::semantics::{SEvalError, SPatternFailReason};
use crate::text::value_text;

verus! {

/// The items joined by `", "`.
pub open spec fn comma_joined(items: Seq<Seq<char>>) -> Seq<char>
    decreases items.len(),
{
    if items.len() == 0 {
        Seq::empty()
    } else if items.len() == 1 {
        items[0]
    } else {
        items[0] + ", "@ + comma_joined(items.drop_first())
    }
}

/// The message for an expression that has no value.
pub open spec fn eval_error_text(e: SEvalError) -> Seq<char> {
    match e {
        SEvalError::KindError(v) => "Expected a type, but found "@ + value_text(v) + "."@,
        SEvalError::TypeError(t, v) => "Expected a value of type "@ + value_type_name(t) + " but found "@
            + value_text(v) + " of type "@ + value_type_name(svalue_type(v)) + "."@,
        SEvalError::CollectionTypeError(v) => "Value must be an Array, Object or String, but was "@
            + value_text(v) + " of type "@ + value_type_name(svalue_type(v)) + "."@,
        SEvalError::CastError(t, v) => "Value "@ + value_text(v) + " of type "@ + value_type_name(svalue_type(v))
            + " can not be converted into "@ + value_type_name(t) + ".."@,
        SEvalError::UnknownIdentifier(id) => "Unknown identifier "@ + id + "."@,
        SEvalError::InvalidNumber(lit) => "Literal "@ + lit + " is not a valid number."@,
        SEvalError::MathDivisionByZero => "Division By Zero"@,
        SEvalError::KeyNotDefined(object, key) => "Object "@ + value_text(object) + " has no key "@ + value_text(key) + "."@,
        SEvalError::OutOfBound(len, index) => "Tried to access index "@ + nat_digits(index as nat)
            + " of value that has a length of "@ + nat_digits(len as nat) + "."@,
        SEvalError::IntegerOverflow => "Integer overflow"@,
        SEvalError::UnknownFunction(f) => "Function of name "@ + f + " does not exist."@,
        SEvalError::PatternError(_) => "A pattern failed to match during evaluation."@,
        SEvalError::PatternExhaustionError(v) => "None of the provided cases was a match for value "@ + value_text(v) + "."@,
        SEvalError::RecursionLimit => "Too many nested lambda applications."@,
    }
}

/// The keys of a map's entries.
pub open spec fn entry_keys(m: Seq<(Seq<char>, SValue)>) -> Seq<Seq<char>> {
    Seq::new(m.len(), |i: int| m[i].0)
}

/// The message for a pattern that did not match.
pub open spec fn pattern_fail_text(r: SPatternFailReason) -> Seq<char> {
    match r {
        SPatternFailReason::IdentifierConflict { identifier, expected, actual } => "Identifier "@ + identifier
            + " is already bound to "@ + value_text(expected) + " but is now matched against "@ + value_text(actual) + "."@,
        SPatternFailReason::ArrayLengthMismatch { expected, actual } => "Array is expected to be of length "@
            + nat_digits(expected as nat) + ". But has actual length "@ + nat_digits(actual as nat) + "."@,
        SPatternFailReason::ArrayMinimumLengthMismatch { expected, actual } => "Array is expected to be at least of length "@
            + nat_digits(expected as nat) + ". But has actual length "@ + nat_digits(actual as nat) + "."@,
        SPatternFailReason::TypeMismatch { expected, actual } => "Value was expected to be of type "@
            + value_type_name(expected) + " but the actual type is "@ + value_text(actual) + "."@,
        SPatternFailReason::ObjectLengthMismatch { expected, actual } => "Object is expected to have "@
            + nat_digits(expected as nat) + " different fields. But the actual number of fields is "@ + nat_digits(actual as nat) + "."@,
        SPatternFailReason::ObjectKeyMismatch { expected, actual } => "The object was expected to have a key "@
            + expected + ", but has only keys: "@ + comma_joined(entry_keys(actual)) + "."@,
        SPatternFailReason::EvalError(_) => "During the pattern matching an evaulation error occured."@,
        SPatternFailReason::LiteralMismatch => "The value does not match the expected literal."@,
        SPatternFailReason::ExpressionMissmatch { expected, actual } => "The value is expected to be "@
            + value_text(expected) + " but actually was "@ + value_text(actual) + "."@,
    }
}

/// The message for assignments that depend on each other in a cycle.
pub open spec fn cycle_text(names: Seq<Seq<char>>) -> Seq<char> {
    "These defintions cyclicly depend on each other: "@ + comma_joined(names)
}

/// Appends the items joined by `", "`.
fn append_joined(out: &mut String, items: &Vec<String>)
    ensures
        final(out)@ == old(out)@ + comma_joined(Seq::new(items.len() as nat, |i: int| items[i]@)),
{
    let ghost all = Seq::new(items.len() as nat, |i: int| items[i]@);
    let ghost start = out@;
    let mut i: usize = 0;
    while i < items.len()
        invariant
            i <= items.len(),
            all == Seq::new(items.len() as nat, |k: int| items[k]@),
            i == 0 ==> out@ == start,
            i > 0 ==> out@ + (if i < items.len() { ", "@ + comma_joined(all.skip(i as int)) } else { Seq::<char>::empty() })
                == start + comma_joined(all),
        decreases items.len() - i,
    {
        let ghost before = out@;
        if i > 0 {
            out.append(", ");
        }
        out.append(items[i].as_str());
        proof {
            let rest = all.skip(i as int);
            assert(rest[0] == items[i as int]@);
            assert(rest.drop_first() =~= all.skip(i + 1));
            if i + 1 < items.len() {
                assert(comma_joined(rest) == rest[0] + ", "@ + comma_joined(rest.drop_first()));
            } else {
                assert(rest.len() == 1);
                assert(comma_joined(rest) == rest[0]);
            }
            if i == 0 {
                assert(all.skip(0) =~= all);
            }
        }
        i += 1;
        proof {
            if i == items.len() {
                assert(out@ + Seq::<char>::empty() =~= out@);
            }
        }
    }
    proof {
        if items.len() == 0 {
            assert(comma_joined(all) =~= Seq::<char>::empty());
            assert(out@ =~= start + comma_joined(all));
        }
    }
}

fn value_string(v: &Value) -> (r: String)
    ensures
        r@ == value_text(v@),
{
    v.to_string()
}

/// The message for an expression that has no value.
pub fn eval_error_message(e: &EvalError) -> (r: String)
    ensures
        r@ == eval_error_text(e@),
{
    let mut out = String::new();
    match e {
        EvalError::KindError(v) => {
            out.append("Expected a type, but found ");
            out.append(value_string(v).as_str());
            out.append(".");
        },
        EvalError::TypeError(t, v) => {
            out.append("Expected a value of type ");
            out.append(t.name().as_str());
            out.append(" but found ");
            out.append(value_string(v).as_str());
            out.append(" of type ");
            out.append(v.get_type().name().as_str());
            out.append(".");
        },
        EvalError::CollectionTypeError(v) => {
            out.append("Value must be an Array, Object or String, but was ");
            out.append(value_string(v).as_str());
            out.append(" of type ");
            out.append(v.get_type().name().as_str());
            out.append(".");
        },
        EvalError::CastError(t, v) => {
            out.append("Value ");
            out.append(value_string(v).as_str());
            out.append(" of type ");
            out.append(v.get_type().name().as_str());
            out.append(" can not be converted into ");
            out.append(t.name().as_str());
            out.append("..");
        },
        EvalError::UnknownIdentifier(id) => {
            out.append("Unknown identifier ");
            out.append(id.name.as_str());
            out.append(".");
        },
        EvalError::InvalidNumber(lit) => {
            out.append("Literal ");
            out.append(lit.as_str());
            out.append(" is not a valid number.");
        },
        EvalError::MathDivisionByZero => out.append("Division By Zero"),
        EvalError::KeyNotDefined(object, key) => {
            out.append("Object ");
            out.append(value_string(object).as_str());
            out.append(" has no key ");
            out.append(value_string(key).as_str());
            out.append(".");
        },
        EvalError::OutOfBound(len, index) => {
            out.append("Tried to access index ");
            out.append(usize_to_string(*index).as_str());
            out.append(" of value that has a length of ");
            out.append(usize_to_string(*len).as_str());
            out.append(".");
        },
        EvalError::IntegerOverflow => out.append("Integer overflow"),
        EvalError::UnknownFunction(f) => {
            out.append("Function of name ");
            out.append(f.name.as_str());
            out.append(" does not exist.");
        },
        EvalError::PatternError(_) => out.append("A pattern failed to match during evaluation."),
        EvalError::PatternExhaustionError(v) => {
            out.append("None of the provided cases was a match for value ");
            out.append(value_string(v).as_str());
            out.append(".");
        },
        EvalError::RecursionLimit => out.append("Too many nested lambda applications."),
    }
    assert(out@ =~= eval_error_text(e@));
    out
}

/// The message for a pattern that did not match.
pub fn pattern_fail_message(reason: &PatternFailReason) -> (r: String)
    ensures
        r@ == pattern_fail_text(reason@),
{
    let mut out = String::new();
    match reason {
        PatternFailReason::IdentifierConflict { identifier, expected, actual } => {
            out.append("Identifier ");
            out.append(identifier.name.as_str());
            out.append(" is already bound to ");
            out.append(value_string(expected).as_str());
            out.append(" but is now matched against ");
            out.append(value_string(actual).as_str());
            out.append(".");
        },
        PatternFailReason::ArrayLengthMismatch { expected, actual } => {
            out.append("Array is expected to be of length ");
            out.append(usize_to_string(*expected).as_str());
            out.append(". But has actual length ");
            out.append(usize_to_string(*actual).as_str());
            out.append(".");
        },
        PatternFailReason::ArrayMinimumLengthMismatch { expected, actual } => {
            out.append("Array is expected to be at least of length ");
            out.append(usize_to_string(*expected).as_str());
            out.append(". But has actual length ");
            out.append(usize_to_string(*actual).as_str());
            out.append(".");
        },
        PatternFailReason::TypeMismatch { expected, actual } => {
            out.append("Value was expected to be of type ");
            out.append(expected.name().as_str());
            out.append(" but the actual type is ");
            out.append(value_string(actual).as_str());
            out.append(".");
        },
        PatternFailReason::ObjectLengthMismatch { expected, actual } => {
            out.append("Object is expected to have ");
            out.append(usize_to_string(*expected).as_str());
            out.append(" different fields. But the actual number of fields is ");
            out.append(usize_to_string(*actual).as_str());
            out.append(".");
        },
        PatternFailReason::ObjectKeyMismatch { expected, actual } => {
            out.append("The object was expected to have a key ");
            out.append(expected.as_str());
            out.append(", but has only keys: ");
            let keys = actual.keys();
            assert(Seq::new(keys.len() as nat, |i: int| keys[i]@) =~= entry_keys(actual@));
            append_joined(&mut out, &keys);
            out.append(".");
        },
        PatternFailReason::EvalError(_) => out.append("During the pattern matching an evaulation error occured."),
        PatternFailReason::LiteralMismatch => out.append("The value does not match the expected literal."),
        PatternFailReason::ExpressionMissmatch { expected, actual } => {
            out.append("The value is expected to be ");
            out.append(value_string(expected).as_str());
            out.append(" but actually was ");
            out.append(value_string(actual).as_str());
            out.append(".");
        },
    }
    assert(out@ =~= pattern_fail_text(reason@));
    out
}

/// The message for assignments that depend on each other in a cycle.
pub fn cycle_message(names: &Vec<Identifier>) -> (r: String)
    ensures
        r@ == cycle_text(crate::identifier::ids_view(names)),
{
    let mut out = String::new();
    out.append("These defintions cyclicly depend on each other: ");
    let mut texts: Vec<String> = Vec::new();
    let mut i: usize = 0;
    while i < names.len()
        invariant
            i <= names.len(),
            texts.len() == i,
            forall|k: int| 0 <= k < i ==> #[trigger] texts[k]@ == names[k]@,
        decreases names.len() - i,
    {
        texts.push(names[i].name.clone());
        i += 1;
    }
    assert(Seq::new(texts.len() as nat, |k: int| texts[k]@) =~= crate::identifier::ids_view(names));
    append_joined(&mut out, &texts);
    out
}

} // verus!
