//! Assignments `pattern = expression;` and sets of them.
use vstd::prelude::*;
use crate::identifier::{Identifier, ids_view};
use crate::syntax::expression::{Expression, SExpr};
use crate::syntax::pattern::{Pattern, SPattern};
use crate::syntax::identifiers::{pattern_ids, pattern_expr_ids, expr_ids};
use crate::topology::{Node, SNode, TopologyError, nodes_view, sort_topological, topological_order, cycle_identifiers};

verus! {

/// Binds the names of `pattern` by matching it against the value of
/// `expression`.
#[derive(Debug)]
pub struct Assignment {
    pub pattern: Pattern,
    pub expression: Expression,
}

pub struct SAssignment {
    pub pattern: SPattern,
    pub expression: SExpr,
}

impl View for Assignment {
    type V = SAssignment;

    open spec fn view(&self) -> SAssignment {
        SAssignment { pattern: self.pattern@, expression: self.expression@ }
    }
}

/// A list of assignments, evaluated in an order that respects what each
/// reads and binds.
#[derive(Debug)]
pub struct AssignmentSet {
    pub assignments: Vec<Assignment>,
}

impl View for AssignmentSet {
    type V = Seq<SAssignment>;

    open spec fn view(&self) -> Seq<SAssignment> {
        Seq::new(self.assignments.len() as nat, |i: int| self.assignments[i]@)
    }
}

/// What an assignment binds and what it reads: the names of its pattern,
/// and the names used by the expressions of its pattern and by its
/// expression.
pub open spec fn assignment_node(a: SAssignment) -> SNode {
    SNode { outputs: pattern_ids(a.pattern), inputs: pattern_expr_ids(a.pattern) + expr_ids(a.expression) }
}

pub open spec fn assignment_nodes(s: Seq<SAssignment>) -> Seq<SNode> {
    Seq::new(s.len(), |i: int| assignment_node(s[i]))
}

/// The assignments taken in the given order.
pub open spec fn permuted(s: Seq<SAssignment>, order: Seq<usize>) -> Seq<SAssignment> {
    Seq::new(order.len(), |k: int| s[order[k] as int])
}

impl Assignment {
    /// The names this assignment binds.
    pub fn output_identifiers(&self) -> (r: Vec<Identifier>)
        ensures
            ids_view(&r) == assignment_node(self@).outputs,
    {
        self.pattern.get_identifiers()
    }

    /// The names this assignment reads.
    pub fn input_identifiers(&self) -> (r: Vec<Identifier>)
        ensures
            ids_view(&r) == assignment_node(self@).inputs,
    {
        let mut r = self.pattern.get_expression_identifiers();
        let mut rest = self.expression.get_identifiers();
        let ghost a = ids_view(&r);
        let ghost b = ids_view(&rest);
        r.append(&mut rest);
        assert(ids_view(&r) =~= a + b);
        r
    }

    pub fn deep_clone(&self) -> (r: Assignment)
        ensures
            r@ == self@,
    {
        Assignment { pattern: self.pattern.deep_clone(), expression: self.expression.deep_clone() }
    }
}

impl Default for AssignmentSet {
    fn default() -> (r: AssignmentSet)
        ensures
            r@ == Seq::<SAssignment>::empty(),
    {
        let r = AssignmentSet { assignments: Vec::new() };
        assert(r@ =~= Seq::<SAssignment>::empty());
        r
    }
}

impl AssignmentSet {
    /// The assignments reordered so that each comes after the assignments
    /// that bind the names it reads; names in `external_ids` count as bound
    /// already. Fails when no such order exists.
    pub fn sort_topological(self, external_ids: &Vec<Identifier>) -> (r: Result<AssignmentSet, TopologyError>)
        ensures
            match r {
                Ok(sorted) => topological_order(assignment_nodes(self@), ids_view(external_ids)) matches Some(order)
                    && sorted@ == permuted(self@, order),
                Err(TopologyError::Cycle(ids)) => topological_order(assignment_nodes(self@), ids_view(external_ids)) is None
                    && ids_view(&ids) == cycle_identifiers(assignment_nodes(self@), ids_view(external_ids)),
            },
    {
        let mut nodes: Vec<Node> = Vec::new();
        let mut i: usize = 0;
        while i < self.assignments.len()
            invariant
                i <= self.assignments.len(),
                nodes.len() == i,
                forall|j: int| 0 <= j < i ==> #[trigger] nodes[j]@ == assignment_node(self.assignments[j]@),
            decreases self.assignments.len() - i,
        {
            let a = &self.assignments[i];
            nodes.push(Node { outputs: a.output_identifiers(), inputs: a.input_identifiers() });
            i += 1;
        }
        assert(nodes_view(&nodes) =~= assignment_nodes(self@));
        match sort_topological(&nodes, external_ids) {
            Err(e) => Err(e),
            Ok(order) => {
                let ghost nv = nodes_view(&nodes);
                proof {
                    crate::topology::lemma_topological_order_respects_dependencies(nv, ids_view(external_ids));
                }
                let mut sorted: Vec<Assignment> = Vec::new();
                let mut k: usize = 0;
                while k < order.len()
                    invariant
                        k <= order.len(),
                        nv == nodes_view(&nodes),
                        nodes.len() == self.assignments.len(),
                        forall|j: int| 0 <= j < order.len() ==> order[j] < nodes.len(),
                        sorted.len() == k,
                        forall|j: int| 0 <= j < k ==> #[trigger] sorted[j]@ == self.assignments[order[j] as int]@,
                    decreases order.len() - k,
                {
                    sorted.push(self.assignments[order[k]].deep_clone());
                    k += 1;
                }
                let r = AssignmentSet { assignments: sorted };
                assert(r@ =~= permuted(self@, order@));
                Ok(r)
            },
        }
    }
}

} // verus!
