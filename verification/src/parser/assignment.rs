//! The grammar of assignments `pattern = expression`.
use vstd::prelude::*;
use crate::syntax::assignment::{Assignment, AssignmentSet, SAssignment};
use crate::parser::input::{Input, ws_tag, space0, ws_tag_at, skip_space};
use crate::parser::pattern::pattern;
use crate::parser::expression::expression;
use crate::parser::grammar::{pattern_at, expression_at, within, beyond, view_pos, whole};

verus! {

/// A pattern, `=` with blanks around it, and an expression.
pub open spec fn assignment_at(s: Seq<char>, pos: nat) -> Option<(SAssignment, nat)> {
    match pattern_at(s, pos) {
        Some((pat, p1)) => match ws_tag_at(s, p1, "="@) {
            Some(p2) => match expression_at(s, p2) {
                Some((e, p3)) => Some((SAssignment { pattern: pat, expression: e }, p3)),
                None => None,
            },
            None => None,
        },
        None => None,
    }
}

pub open spec fn assignment_list_rest(s: Seq<char>, cur: nat) -> (Seq<SAssignment>, nat)
    decreases s.len() - cur,
{
    match ws_tag_at(s, cur, ";"@) {
        Some(q1) => if beyond(s, cur, q1) {
            match assignment_at(s, q1) {
                Some((x, q2)) => if within(s, q1, q2) {
                    let (rest, e) = assignment_list_rest(s, q2);
                    (seq![x] + rest, e)
                } else {
                    (Seq::empty(), cur)
                },
                None => (Seq::empty(), cur),
            }
        } else {
            (Seq::empty(), cur)
        },
        None => (Seq::empty(), cur),
    }
}

/// Assignments separated by `;` (at least `min` of them), followed by a
/// `;` with blanks around it or by spaces.
#[verifier::opaque]
pub open spec fn assignment_list_at(s: Seq<char>, pos: nat, min: nat) -> Option<(Seq<SAssignment>, nat)> {
    let (asgs, cur) = match assignment_at(s, pos) {
        Some((first, p)) => if within(s, pos, p) {
            let (rest, e) = assignment_list_rest(s, p);
            (seq![first] + rest, e)
        } else {
            (Seq::empty(), pos)
        },
        None => (Seq::empty(), pos),
    };
    if asgs.len() < min {
        None
    } else {
        match ws_tag_at(s, cur, ";"@) {
            Some(q) => Some((asgs, q)),
            None => Some((asgs, skip_space(s, cur))),
        }
    }
}

/// The assignments of a list, in the model.
pub open spec fn assignments_view(v: &Vec<Assignment>) -> Seq<SAssignment> {
    Seq::new(v.len() as nat, |i: int| v[i]@)
}

/// The assignment at `pos`, and the position after it.
pub fn assignment(inp: &Input, pos: usize) -> (r: Option<(Assignment, usize)>)
    requires
        inp.wf(),
        pos <= inp.chars.len(),
    ensures
        view_pos(&r) == assignment_at(inp.chars@, pos as nat),
        r matches Some((_, p)) ==> pos <= p <= inp.chars.len(),
{
    let (pat, p1) = match pattern(inp, pos) {
        Some(x) => x,
        None => return None,
    };
    let p2 = match ws_tag(inp, p1, "=") {
        Some(p) => p,
        None => return None,
    };
    match expression(inp, p2) {
        Some((e, p3)) => Some((Assignment { pattern: pat, expression: e }, p3)),
        None => None,
    }
}

/// Assignments separated by `;`, at least `min` of them, followed by a `;`
/// or by spaces.
#[verifier::loop_isolation(false)]
fn assignment_list(inp: &Input, pos: usize, min: usize) -> (r: Option<(AssignmentSet, usize)>)
    requires
        inp.wf(),
        pos <= inp.chars.len(),
    ensures
        view_pos(&r) == assignment_list_at(inp.chars@, pos as nat, min as nat),
        r matches Some((_, p)) ==> pos <= p <= inp.chars.len(),
        r matches Some((s, _)) ==> s.assignments.len() >= min,
{
    proof {
        reveal(assignment_list_at);
    }
    proof {
        reveal_strlit(";");
    }
    let ghost s = inp.chars@;
    let mut assignments: Vec<Assignment> = Vec::new();
    let mut cur = pos;
    match assignment(inp, pos) {
        Some((first, p)) => {
            let ghost total = assignment_list_rest(s, p as nat);
            let ghost fv = first@;
            assignments.push(first);
            assert(assignments_view(&assignments) =~= seq![fv]);
            cur = p;
            loop
                invariant
                    inp.wf(),
                    s == inp.chars@,
                    pos <= cur <= inp.chars.len(),
                    assignments_view(&assignments) + assignment_list_rest(s, cur as nat).0 == seq![fv] + total.0,
                    assignment_list_rest(s, cur as nat).1 == total.1,
                decreases inp.chars.len() - cur,
            {
                let q1 = match ws_tag(inp, cur, ";") {
                    Some(q) => q,
                    None => {
                        assert(assignments_view(&assignments) + Seq::<SAssignment>::empty() =~= assignments_view(&assignments));
                        break;
                    },
                };
                match assignment(inp, q1) {
                    Some((x, q2)) => {
                        let ghost before = assignments_view(&assignments);
                        let ghost xv = x@;
                        assignments.push(x);
                        assert(assignments_view(&assignments) =~= before.push(xv));
                        assert(before + assignment_list_rest(s, cur as nat).0 =~= assignments_view(&assignments) + assignment_list_rest(s, q2 as nat).0);
                        cur = q2;
                    },
                    None => {
                        assert(assignments_view(&assignments) + Seq::<SAssignment>::empty() =~= assignments_view(&assignments));
                        break;
                    },
                }
            }
        },
        None => {
            assert(assignments_view(&assignments) =~= Seq::<SAssignment>::empty());
        },
    }
    if assignments.len() < min {
        return None;
    }
    let end = match ws_tag(inp, cur, ";") {
        Some(q) => q,
        None => space0(inp, cur),
    };
    let ghost av = assignments_view(&assignments);
    let set = AssignmentSet { assignments };
    assert(set@ =~= av);
    Some((set, end))
}

/// Zero or more assignments separated by `;`.
pub fn assignment_set0(inp: &Input, pos: usize) -> (r: Option<(AssignmentSet, usize)>)
    requires
        inp.wf(),
        pos <= inp.chars.len(),
    ensures
        view_pos(&r) == assignment_list_at(inp.chars@, pos as nat, 0),
        r matches Some((_, p)) ==> pos <= p <= inp.chars.len(),
{
    assignment_list(inp, pos, 0)
}

/// One or more assignments separated by `;`.
pub fn assignment_set1(inp: &Input, pos: usize) -> (r: Option<(AssignmentSet, usize)>)
    requires
        inp.wf(),
        pos <= inp.chars.len(),
    ensures
        view_pos(&r) == assignment_list_at(inp.chars@, pos as nat, 1),
        r matches Some((_, p)) ==> pos <= p <= inp.chars.len(),
        r matches Some((s, _)) ==> s.assignments.len() >= 1,
{
    assignment_list(inp, pos, 1)
}

/// A whole text that is one assignment.
pub fn assignment_all_consuming(source: &str) -> (r: Option<Assignment>)
    ensures
        (match r {
            Some(a) => Some(a@),
            None => None,
        }) == whole(assignment_at(source@, 0), source@),
{
    let inp = Input::new(source);
    match assignment(&inp, 0) {
        Some((a, end)) => if end == inp.len() { Some(a) } else { None },
        None => None,
    }
}

/// A whole text that is one or more assignments separated by `;`.
pub fn assignment_set1_all_consuming(source: &str) -> (r: Option<AssignmentSet>)
    ensures
        (match r {
            Some(a) => Some(a@),
            None => None,
        }) == whole(assignment_list_at(source@, 0, 1), source@),
        r matches Some(s) ==> s.assignments.len() >= 1,
{
    let inp = Input::new(source);
    match assignment_set1(&inp, 0) {
        Some((s, end)) => if end == inp.len() { Some(s) } else { None },
        None => None,
    }
}

} // verus!
