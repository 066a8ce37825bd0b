//! The grammar of values written as literals: atoms, arrays and objects.
use vstd::prelude::*;
use crate::literal::{Literal, SLiteral};
use crate::value::{Value, ValueMap, ValueBag, SValue, values_view, smap_insert};
use crate::strings::{parse_i64, parse_i64_spec};
use crate::parser::input::{
    Input, ws_tag, tag, space0, identifier, literal, literal_spec, identifier_spec, ws_tag_at,
    tag_end, skip_space,
};

verus! {

// ---------------------------------------------------------------------------
// The grammar. Each rule gives what it reads at a position and the position
// after it; the bounds checked along the way always hold of the positions
// that the rules give, and make the rules' termination plain.
// ---------------------------------------------------------------------------

/// The value that a literal denotes.
pub open spec fn atom_value(l: SLiteral) -> Option<SValue> {
    match l {
        SLiteral::Null => Some(SValue::Null),
        SLiteral::String(t) => Some(SValue::String(t)),
        SLiteral::Number(t) => match parse_i64_spec(t) {
            Some(i) => Some(SValue::Integer(i)),
            None => None,
        },
        SLiteral::Boolean(b) => Some(SValue::Boolean(b)),
        SLiteral::Type(t) => Some(SValue::Type(t)),
    }
}

/// A literal, read as a value.
pub open spec fn value_atom_at(s: Seq<char>, pos: nat) -> Option<(SValue, nat)> {
    match literal_spec(s, pos) {
        Some((l, p)) => match atom_value(l) {
            Some(v) => Some((v, p)),
            None => None,
        },
        None => None,
    }
}

/// Whether `p` lies after `pos` and within the text.
pub open spec fn advances(s: Seq<char>, pos: nat, p: nat) -> bool {
    pos < p <= s.len()
}

/// A value: an object, an array or a literal, tried in that order.
pub open spec fn value_at(s: Seq<char>, pos: nat) -> Option<(SValue, nat)>
    decreases s.len() - pos, 3nat,
{
    if pos > s.len() {
        None
    } else {
        match value_object_at(s, pos) {
            Some(x) => Some(x),
            None => match value_array_at(s, pos) {
                Some(x) => Some(x),
                None => value_atom_at(s, pos),
            },
        }
    }
}

/// The items after the first one of an array: each after a `,`, as long
/// as a value follows it.
pub open spec fn value_items_rest(s: Seq<char>, cur: nat) -> (Seq<SValue>, nat)
    decreases s.len() - cur, 1nat,
{
    match ws_tag_at(s, cur, ","@) {
        Some(q1) => if advances(s, cur, q1) {
            match value_at(s, q1) {
                Some((v, q2)) => if advances(s, q1, q2) {
                    let (rest, e) = value_items_rest(s, q2);
                    (seq![v] + rest, e)
                } else {
                    (Seq::empty(), cur)
                },
                None => (Seq::empty(), cur),
            }
        } else {
            (Seq::empty(), cur)
        },
        None => (Seq::empty(), cur),
    }
}

/// An array: `[`, values separated by `,`, an optional `,`, and `]`.
pub open spec fn value_array_at(s: Seq<char>, pos: nat) -> Option<(SValue, nat)>
    decreases s.len() - pos, 2nat,
{
    match ws_tag_at(s, pos, "["@) {
        Some(p1) => if advances(s, pos, p1) {
            let (items, cur) = match value_at(s, p1) {
                Some((v, p)) => if advances(s, p1, p) {
                    let (rest, e) = value_items_rest(s, p);
                    (seq![v] + rest, e)
                } else {
                    (Seq::empty(), p1)
                },
                None => (Seq::empty(), p1),
            };
            let p2 = match ws_tag_at(s, cur, ","@) {
                Some(q) => q,
                None => cur,
            };
            match ws_tag_at(s, p2, "]"@) {
                Some(p3) => Some((SValue::Array(items), p3)),
                None => None,
            }
        } else {
            None
        },
        None => None,
    }
}

/// An entry of an object: a name, `:` right after it, and a value.
pub open spec fn value_entry_at(s: Seq<char>, pos: nat) -> Option<(Seq<char>, SValue, nat)>
    decreases s.len() - pos, 1nat,
{
    match identifier_spec(s, pos) {
        Some((name, p1)) => if advances(s, pos, p1) {
            match tag_end(s, p1, ":"@) {
                Some(p2) => if advances(s, p1, p2) {
                    match value_at(s, p2) {
                        Some((v, p3)) => Some((name, v, p3)),
                        None => None,
                    }
                } else {
                    None
                },
                None => None,
            }
        } else {
            None
        },
        None => None,
    }
}

/// The entries after the first one of an object: each after a `,`, as
/// long as an entry follows it.
pub open spec fn value_entries_rest(s: Seq<char>, cur: nat) -> (Seq<(Seq<char>, SValue)>, nat)
    decreases s.len() - cur, 1nat,
{
    match ws_tag_at(s, cur, ","@) {
        Some(q1) => if advances(s, cur, q1) {
            match value_entry_at(s, q1) {
                Some((k, v, q2)) => if advances(s, q1, q2) {
                    let (rest, e) = value_entries_rest(s, q2);
                    (seq![(k, v)] + rest, e)
                } else {
                    (Seq::empty(), cur)
                },
                None => (Seq::empty(), cur),
            }
        } else {
            (Seq::empty(), cur)
        },
        None => (Seq::empty(), cur),
    }
}

/// The bindings of entries taken in order: a later entry for a name
/// replaces an earlier one.
pub open spec fn entries_map(entries: Seq<(Seq<char>, SValue)>) -> Seq<(Seq<char>, SValue)>
    decreases entries.len(),
{
    if entries.len() == 0 {
        Seq::empty()
    } else {
        let last = entries.last();
        smap_insert(entries_map(entries.drop_last()), last.0, last.1)
    }
}

/// An object: `{`, entries separated by `,`, an optional `,`, and `}`.
pub open spec fn value_object_at(s: Seq<char>, pos: nat) -> Option<(SValue, nat)>
    decreases s.len() - pos, 2nat,
{
    match ws_tag_at(s, pos, "{"@) {
        Some(p1) => if advances(s, pos, p1) {
            let (entries, cur) = match value_entry_at(s, p1) {
                Some((k, v, p)) => if advances(s, p1, p) {
                    let (rest, e) = value_entries_rest(s, p);
                    (seq![(k, v)] + rest, e)
                } else {
                    (Seq::empty(), p1)
                },
                None => (Seq::empty(), p1),
            };
            let p2 = match ws_tag_at(s, cur, ","@) {
                Some(q) => q,
                None => cur,
            };
            match ws_tag_at(s, p2, "}"@) {
                Some(p3) => Some((SValue::Object(entries_map(entries)), p3)),
                None => None,
            }
        } else {
            None
        },
        None => None,
    }
}

/// The values after the first one of a bag: each after a `;`, as long as a
/// value follows it.
pub open spec fn bag_rest(s: Seq<char>, cur: nat) -> (Seq<SValue>, nat)
    decreases s.len() - cur,
{
    match ws_tag_at(s, cur, ";"@) {
        Some(q1) => if advances(s, cur, q1) {
            match value_at(s, q1) {
                Some((v, q2)) => if advances(s, q1, q2) {
                    let (rest, e) = bag_rest(s, q2);
                    (seq![v] + rest, e)
                } else {
                    (Seq::empty(), cur)
                },
                None => (Seq::empty(), cur),
            }
        } else {
            (Seq::empty(), cur)
        },
        None => (Seq::empty(), cur),
    }
}

/// A bag: optional spaces, values separated by `;`, and a `;` or spaces.
pub open spec fn value_bag_at(s: Seq<char>, pos: nat) -> Option<(Seq<SValue>, nat)> {
    let p0 = skip_space(s, pos);
    match value_at(s, p0) {
        Some((first, p)) => if advances(s, p0, p) {
            let (rest, cur) = bag_rest(s, p);
            let end = match ws_tag_at(s, cur, ";"@) {
                Some(q) => q,
                None => skip_space(s, cur),
            };
            Some((seq![first] + rest, end))
        } else {
            None
        },
        None => None,
    }
}

/// The value that a whole text is.
pub open spec fn whole_value(s: Seq<char>) -> Option<SValue> {
    match value_at(s, 0) {
        Some((v, e)) => if e == s.len() { Some(v) } else { None },
        None => None,
    }
}

/// The values that a whole text is.
pub open spec fn whole_bag(s: Seq<char>) -> Option<Seq<SValue>> {
    match value_bag_at(s, 0) {
        Some((b, e)) => if e == s.len() { Some(b) } else { None },
        None => None,
    }
}

pub open spec fn opt_value_pos(r: &Option<(Value, usize)>) -> Option<(SValue, nat)> {
    match r {
        Some((v, p)) => Some((v@, *p as nat)),
        None => None,
    }
}

// ---------------------------------------------------------------------------
// The parsers.
// ---------------------------------------------------------------------------

/// A literal as a value.
fn value_atom(inp: &Input, pos: usize) -> (r: Option<(Value, usize)>)
    requires
        inp.wf(),
        pos <= inp.chars.len(),
    ensures
        opt_value_pos(&r) == value_atom_at(inp.chars@, pos as nat),
        r matches Some((_, p)) ==> pos < p <= inp.chars.len(),
{
    let (l, p) = match literal(inp, pos) {
        Some(x) => x,
        None => return None,
    };
    let v = match l {
        Literal::Null => Value::Null,
        Literal::String(s) => Value::String(s),
        Literal::Number(n) => match parse_i64(n.as_str()) {
            Some(i) => Value::Integer(i),
            None => return None,
        },
        Literal::Boolean(b) => Value::Boolean(b),
        Literal::Type(t) => Value::Type(t),
    };
    Some((v, p))
}

/// An array of values in `[` `]`, separated by `,`, with an optional `,`
/// at the end.
#[verifier::loop_isolation(false)]
fn value_array(inp: &Input, pos: usize) -> (r: Option<(Value, usize)>)
    requires
        inp.wf(),
        pos <= inp.chars.len(),
    ensures
        opt_value_pos(&r) == value_array_at(inp.chars@, pos as nat),
        r matches Some((_, p)) ==> pos < p <= inp.chars.len(),
    decreases inp.chars.len() - pos, 2int,
{
    proof {
        reveal_strlit("[");
        reveal_strlit("]");
        reveal_strlit(",");
    }
    let ghost s = inp.chars@;
    let p1 = match ws_tag(inp, pos, "[") {
        Some(p) => p,
        None => return None,
    };
    let mut items: Vec<Value> = Vec::new();
    let mut cur = p1;
    match value_literal(inp, p1) {
        Some((first, p)) => {
            let ghost total = value_items_rest(s, p as nat);
            items.push(first);
            cur = p;
            assert(values_view(&items) =~= seq![first@]);
            loop
                invariant
                    inp.wf(),
                    s == inp.chars@,
                    pos < p1 <= cur <= inp.chars.len(),
                    values_view(&items) + value_items_rest(s, cur as nat).0 == seq![first@] + total.0,
                    value_items_rest(s, cur as nat).1 == total.1,
                decreases inp.chars.len() - cur,
            {
                let q1 = match ws_tag(inp, cur, ",") {
                    Some(q) => q,
                    None => {
                        assert(value_items_rest(s, cur as nat).0 =~= Seq::<SValue>::empty());
                        assert(values_view(&items) + Seq::<SValue>::empty() =~= values_view(&items));
                        break;
                    },
                };
                match value_literal(inp, q1) {
                    Some((x, q2)) => {
                        let ghost before = values_view(&items);
                        let ghost xv = x@;
                        items.push(x);
                        assert(values_view(&items) =~= before.push(xv));
                        assert(before + value_items_rest(s, cur as nat).0 =~= values_view(&items) + value_items_rest(s, q2 as nat).0);
                        cur = q2;
                    },
                    None => {
                        assert(values_view(&items) + Seq::<SValue>::empty() =~= values_view(&items));
                        break;
                    },
                }
            }
        },
        None => {
            assert(values_view(&items) =~= Seq::<SValue>::empty());
        },
    }
    let p2 = match ws_tag(inp, cur, ",") {
        Some(q) => q,
        None => cur,
    };
    match ws_tag(inp, p2, "]") {
        Some(p3) => Some((Value::Array(items), p3)),
        None => None,
    }
}

/// A `name:value` entry of an object.
fn value_entry(inp: &Input, pos: usize) -> (r: Option<(String, Value, usize)>)
    requires
        inp.wf(),
        pos <= inp.chars.len(),
    ensures
        (match r {
            Some((k, v, p)) => Some((k@, v@, p as nat)),
            None => None,
        }) == value_entry_at(inp.chars@, pos as nat),
        r matches Some((_, _, p)) ==> pos < p <= inp.chars.len(),
    decreases inp.chars.len() - pos, 1int,
{
    proof {
        reveal_strlit(":");
    }
    let (id, p1) = match identifier(inp, pos) {
        Some(x) => x,
        None => return None,
    };
    let p2 = match tag(inp, p1, ":") {
        Some(p) => p,
        None => return None,
    };
    match value_literal(inp, p2) {
        Some((v, p3)) => Some((id.name, v, p3)),
        None => None,
    }
}

/// An object in `{` `}` of `name:value` entries separated by `,`, with an
/// optional `,` at the end; a later entry for a name replaces an earlier
/// one.
#[verifier::loop_isolation(false)]
fn value_object(inp: &Input, pos: usize) -> (r: Option<(Value, usize)>)
    requires
        inp.wf(),
        pos <= inp.chars.len(),
    ensures
        opt_value_pos(&r) == value_object_at(inp.chars@, pos as nat),
        r matches Some((_, p)) ==> pos < p <= inp.chars.len(),
    decreases inp.chars.len() - pos, 2int,
{
    proof {
        reveal_strlit("{");
        reveal_strlit("}");
        reveal_strlit(",");
    }
    let ghost s = inp.chars@;
    let p1 = match ws_tag(inp, pos, "{") {
        Some(p) => p,
        None => return None,
    };
    let mut props = ValueMap::new();
    let ghost mut entries: Seq<(Seq<char>, SValue)> = Seq::empty();
    let ghost mut whole: Seq<(Seq<char>, SValue)> = Seq::empty();
    let mut cur = p1;
    match value_entry(inp, p1) {
        Some((k, v, p)) => {
            let ghost kv = (k@, v@);
            proof {
                whole = seq![kv] + value_entries_rest(s, p as nat).0;
                entries = seq![kv];
                assert(entries.drop_last() =~= Seq::<(Seq<char>, SValue)>::empty());
                assert(entries_map(Seq::<(Seq<char>, SValue)>::empty()) == Seq::<(Seq<char>, SValue)>::empty());
                assert(entries.last() == kv);
                assert(entries_map(entries) == smap_insert(Seq::empty(), kv.0, kv.1));
            }
            props.insert(k, v);
            cur = p;
            loop
                invariant
                    inp.wf(),
                    s == inp.chars@,
                    pos < p1 <= cur <= inp.chars.len(),
                    props@ == entries_map(entries),
                    entries + value_entries_rest(s, cur as nat).0 == whole,
                    value_entries_rest(s, cur as nat).1 == value_entries_rest(s, p as nat).1,
                decreases inp.chars.len() - cur,
            {
                let q1 = match ws_tag(inp, cur, ",") {
                    Some(q) => q,
                    None => {
                        assert(entries + Seq::<(Seq<char>, SValue)>::empty() =~= entries);
                        break;
                    },
                };
                match value_entry(inp, q1) {
                    Some((k, v, q2)) => {
                        proof {
                            let before = entries;
                            entries = entries.push((k@, v@));
                            assert(entries.drop_last() =~= before);
                            assert(before + value_entries_rest(s, cur as nat).0 =~= entries + value_entries_rest(s, q2 as nat).0);
                        }
                        props.insert(k, v);
                        cur = q2;
                    },
                    None => {
                        assert(entries + Seq::<(Seq<char>, SValue)>::empty() =~= entries);
                        break;
                    },
                }
            }
        },
        None => {},
    }
    let p2 = match ws_tag(inp, cur, ",") {
        Some(q) => q,
        None => cur,
    };
    match ws_tag(inp, p2, "}") {
        Some(p3) => Some((Value::Object(props), p3)),
        None => None,
    }
}

/// The value written at `pos`: an object, an array or a literal, tried in
/// that order.
pub fn value_literal(inp: &Input, pos: usize) -> (r: Option<(Value, usize)>)
    requires
        inp.wf(),
        pos <= inp.chars.len(),
    ensures
        opt_value_pos(&r) == value_at(inp.chars@, pos as nat),
        r matches Some((_, p)) ==> pos < p <= inp.chars.len(),
    decreases inp.chars.len() - pos, 3int,
{
    match value_object(inp, pos) {
        Some(x) => return Some(x),
        None => {},
    }
    match value_array(inp, pos) {
        Some(x) => return Some(x),
        None => {},
    }
    value_atom(inp, pos)
}

/// A whole text that is one value.
pub fn single_value(source: &str) -> (r: Option<Value>)
    ensures
        (match r {
            Some(v) => Some(v@),
            None => None,
        }) == whole_value(source@),
{
    let inp = Input::new(source);
    match value_literal(&inp, 0) {
        Some((v, end)) => if end == inp.len() { Some(v) } else { None },
        None => None,
    }
}

/// One or more values separated by `;`, after optional spaces, followed by
/// a `;` or by spaces.
#[verifier::loop_isolation(false)]
pub fn value_bag(inp: &Input, pos: usize) -> (r: Option<(ValueBag, usize)>)
    requires
        inp.wf(),
        pos <= inp.chars.len(),
    ensures
        (match r {
            Some((b, p)) => Some((b@, p as nat)),
            None => None,
        }) == value_bag_at(inp.chars@, pos as nat),
        r matches Some((_, p)) ==> pos < p <= inp.chars.len(),
        r matches Some((b, _)) ==> b.values.len() >= 1,
{
    proof {
        reveal_strlit(";");
    }
    let ghost s = inp.chars@;
    let p0 = space0(inp, pos);
    let mut values: Vec<Value> = Vec::new();
    let (first, p) = match value_literal(inp, p0) {
        Some(x) => x,
        None => return None,
    };
    let ghost total = bag_rest(s, p as nat);
    let ghost fv = first@;
    values.push(first);
    assert(values_view(&values) =~= seq![fv]);
    let mut cur = p;
    loop
        invariant
            inp.wf(),
            s == inp.chars@,
            pos <= p0 < cur <= inp.chars.len(),
            values.len() >= 1,
            values_view(&values) + bag_rest(s, cur as nat).0 == seq![fv] + total.0,
            bag_rest(s, cur as nat).1 == total.1,
        decreases inp.chars.len() - cur,
    {
        let q1 = match ws_tag(inp, cur, ";") {
            Some(q) => q,
            None => {
                assert(values_view(&values) + Seq::<SValue>::empty() =~= values_view(&values));
                break;
            },
        };
        match value_literal(inp, q1) {
            Some((x, q2)) => {
                let ghost before = values_view(&values);
                let ghost xv = x@;
                values.push(x);
                assert(values_view(&values) =~= before.push(xv));
                assert(before + bag_rest(s, cur as nat).0 =~= values_view(&values) + bag_rest(s, q2 as nat).0);
                cur = q2;
            },
            None => {
                assert(values_view(&values) + Seq::<SValue>::empty() =~= values_view(&values));
                break;
            },
        }
    }
    let end = match ws_tag(inp, cur, ";") {
        Some(q) => q,
        None => space0(inp, cur),
    };
    Some((ValueBag::new(values), end))
}

/// A whole text that is one or more values separated by `;`.
pub fn value_bag_all_consuming(source: &str) -> (r: Option<ValueBag>)
    ensures
        (match r {
            Some(b) => Some(b@),
            None => None,
        }) == whole_bag(source@),
        r matches Some(b) ==> b.values.len() >= 1,
{
    let inp = Input::new(source);
    match value_bag(&inp, 0) {
        Some((b, end)) => if end == inp.len() { Some(b) } else { None },
        None => None,
    }
}

} // verus!
