//! Ordering steps so that each step comes after the steps that bind the
//! names it reads.
use vstd::prelude::*;
use crate::identifier::{Identifier, ids_view, ids_contain};

verus! {

/// The names a step binds and the names it reads.
#[derive(Debug)]
pub struct Node {
    pub outputs: Vec<Identifier>,
    pub inputs: Vec<Identifier>,
}

pub struct SNode {
    pub outputs: Seq<Seq<char>>,
    pub inputs: Seq<Seq<char>>,
}

impl View for Node {
    type V = SNode;

    open spec fn view(&self) -> SNode {
        SNode { outputs: ids_view(&self.outputs), inputs: ids_view(&self.inputs) }
    }
}

pub open spec fn nodes_view(v: &Vec<Node>) -> Seq<SNode> {
    Seq::new(v.len() as nat, |i: int| v[i]@)
}

/// The steps could not be ordered; the names are those bound by the steps
/// that were left over.
#[derive(Debug)]
pub enum TopologyError {
    Cycle(Vec<Identifier>),
}

// ---------------------------------------------------------------------------
// What a dependency-respecting order is.
// ---------------------------------------------------------------------------

/// Some step binds `d`.
pub open spec fn produced(nodes: Seq<SNode>, d: Seq<char>) -> bool {
    exists|k: int| 0 <= k < nodes.len() && #[trigger] nodes[k].outputs.contains(d)
}

/// A step that reads `d` must wait for the steps that bind it, unless `d`
/// comes from outside.
pub open spec fn is_dependency(nodes: Seq<SNode>, external: Seq<Seq<char>>, d: Seq<char>) -> bool {
    produced(nodes, d) && !external.contains(d)
}

/// `order` lists each of the `n` step indices exactly once.
pub open spec fn is_order(order: Seq<usize>, n: nat) -> bool {
    &&& forall|j: int| 0 <= j < order.len() ==> order[j] < n
    &&& forall|j: int, k: int| 0 <= j < k < order.len() ==> order[j] != order[k]
    &&& forall|i: usize| i < n ==> #[trigger] order.contains(i)
}

/// Every dependency of every listed step is bound by a step listed before it.
pub open spec fn prefix_valid(nodes: Seq<SNode>, external: Seq<Seq<char>>, order: Seq<usize>) -> bool {
    forall|j: int, d: Seq<char>|
        0 <= j < order.len() && #[trigger] nodes[order[j] as int].inputs.contains(d) && is_dependency(nodes, external, d)
            ==> exists|k: int| 0 <= k < j && #[trigger] nodes[order[k] as int].outputs.contains(d)
}

/// `order` is an order of all steps in which each step comes after the
/// steps that bind what it depends on.
pub open spec fn respects_dependencies(nodes: Seq<SNode>, external: Seq<Seq<char>>, order: Seq<usize>) -> bool {
    is_order(order, nodes.len()) && prefix_valid(nodes, external, order)
}

// ---------------------------------------------------------------------------
// The order this library picks: repeated passes over the steps, each
// placing, in turn, every step whose dependencies are bound by the steps
// placed so far.
// ---------------------------------------------------------------------------

/// Some step placed in `order` binds `d`.
pub open spec fn produced_before(nodes: Seq<SNode>, order: Seq<usize>, d: Seq<char>) -> bool {
    exists|k: int| 0 <= k < order.len() && #[trigger] nodes[order[k] as int].outputs.contains(d)
}

/// Step `i` can be placed after the steps in `order`.
pub open spec fn ready(nodes: Seq<SNode>, external: Seq<Seq<char>>, order: Seq<usize>, i: int) -> bool {
    forall|d: Seq<char>| #[trigger] nodes[i].inputs.contains(d) && is_dependency(nodes, external, d)
        ==> produced_before(nodes, order, d)
}

/// One pass over the steps from the `i`-th on.
pub open spec fn scan(nodes: Seq<SNode>, external: Seq<Seq<char>>, placed: Seq<bool>, order: Seq<usize>, i: nat) -> (Seq<bool>, Seq<usize>)
    decreases nodes.len() - i,
{
    if i >= nodes.len() {
        (placed, order)
    } else if !placed[i as int] && ready(nodes, external, order, i as int) {
        scan(nodes, external, placed.update(i as int, true), order.push(i as usize), i + 1)
    } else {
        scan(nodes, external, placed, order, i + 1)
    }
}

pub open spec fn count_unplaced(placed: Seq<bool>) -> nat
    decreases placed.len(),
{
    if placed.len() == 0 {
        0
    } else {
        (if placed[0] { 0nat } else { 1nat }) + count_unplaced(placed.drop_first())
    }
}

/// Passes until one places nothing.
pub open spec fn sort_from(nodes: Seq<SNode>, external: Seq<Seq<char>>, placed: Seq<bool>, order: Seq<usize>) -> (Seq<bool>, Seq<usize>)
    decreases count_unplaced(placed),
{
    let next = scan(nodes, external, placed, order, 0);
    if count_unplaced(next.0) < count_unplaced(placed) {
        sort_from(nodes, external, next.0, next.1)
    } else {
        (placed, order)
    }
}

pub open spec fn sort_outcome(nodes: Seq<SNode>, external: Seq<Seq<char>>) -> (Seq<bool>, Seq<usize>) {
    sort_from(nodes, external, Seq::new(nodes.len(), |i: int| false), Seq::empty())
}

/// The order of the steps, when every step could be placed.
pub open spec fn topological_order(nodes: Seq<SNode>, external: Seq<Seq<char>>) -> Option<Seq<usize>> {
    let outcome = sort_outcome(nodes, external);
    if forall|i: int| 0 <= i < nodes.len() ==> outcome.0[i] {
        Some(outcome.1)
    } else {
        None
    }
}

/// The names bound by the steps from the `i`-th on that are not placed.
pub open spec fn unplaced_outputs(nodes: Seq<SNode>, placed: Seq<bool>, i: nat) -> Seq<Seq<char>>
    decreases nodes.len() - i,
{
    if i >= nodes.len() {
        Seq::empty()
    } else if placed[i as int] {
        unplaced_outputs(nodes, placed, i + 1)
    } else {
        nodes[i as int].outputs + unplaced_outputs(nodes, placed, i + 1)
    }
}

/// The names reported when the steps cannot be ordered.
pub open spec fn cycle_identifiers(nodes: Seq<SNode>, external: Seq<Seq<char>>) -> Seq<Seq<char>> {
    unplaced_outputs(nodes, sort_outcome(nodes, external).0, 0)
}

// ---------------------------------------------------------------------------
// Proofs about the passes.
// ---------------------------------------------------------------------------

/// What holds of the placed steps at every point of the passes.
pub open spec fn wf_state(nodes: Seq<SNode>, external: Seq<Seq<char>>, placed: Seq<bool>, order: Seq<usize>) -> bool {
    &&& placed.len() == nodes.len()
    &&& nodes.len() <= usize::MAX
    &&& forall|j: int| 0 <= j < order.len() ==> (#[trigger] order[j]) < nodes.len() && placed[order[j] as int]
    &&& forall|j: int, k: int| 0 <= j < k < order.len() ==> order[j] != order[k]
    &&& forall|i: int| 0 <= i < nodes.len() && #[trigger] placed[i] ==> order.contains(i as usize)
    &&& prefix_valid(nodes, external, order)
}

proof fn lemma_count_update(placed: Seq<bool>, i: int)
    requires
        0 <= i < placed.len(),
        !placed[i],
    ensures
        count_unplaced(placed.update(i, true)) + 1 == count_unplaced(placed),
    decreases placed.len(),
{
    if i > 0 {
        assert(placed.update(i, true).drop_first() =~= placed.drop_first().update(i - 1, true));
        lemma_count_update(placed.drop_first(), i - 1);
    } else {
        assert(placed.update(i, true).drop_first() =~= placed.drop_first());
    }
}

proof fn lemma_place_wf(nodes: Seq<SNode>, external: Seq<Seq<char>>, placed: Seq<bool>, order: Seq<usize>, i: int)
    requires
        wf_state(nodes, external, placed, order),
        0 <= i < nodes.len(),
        !placed[i],
        ready(nodes, external, order, i),
    ensures
        wf_state(nodes, external, placed.update(i, true), order.push(i as usize)),
{
    let p2 = placed.update(i, true);
    let o2 = order.push(i as usize);
    assert forall|j: int| 0 <= j < o2.len() implies (#[trigger] o2[j]) < nodes.len() && p2[o2[j] as int] by {
        if j < order.len() {
            assert(o2[j] == order[j]);
            assert(placed[order[j] as int]);
            assert(p2[order[j] as int]);
        } else {
            assert(o2[j] == i as usize);
            assert(p2[i]);
        }
    }
    assert forall|j: int, k: int| 0 <= j < k < o2.len() implies o2[j] != o2[k] by {
        if k < order.len() {
            assert(o2[j] == order[j] && o2[k] == order[k]);
        } else {
            assert(placed[order[j] as int]);
        }
    }
    assert forall|x: int| 0 <= x < nodes.len() && #[trigger] p2[x] implies o2.contains(x as usize) by {
        if x == i {
            assert(o2[order.len() as int] == i as usize);
        } else {
            assert(order.contains(x as usize));
            let j = choose|j: int| 0 <= j < order.len() && order[j] == x as usize;
            assert(o2[j] == x as usize);
        }
    }
    assert forall|j: int, d: Seq<char>|
        0 <= j < o2.len() && #[trigger] nodes[o2[j] as int].inputs.contains(d) && is_dependency(nodes, external, d)
        implies exists|k: int| 0 <= k < j && #[trigger] nodes[o2[k] as int].outputs.contains(d) by {
        if j < order.len() {
            assert(o2[j] == order[j]);
            let k = choose|k: int| 0 <= k < j && #[trigger] nodes[order[k] as int].outputs.contains(d);
            assert(o2[k] == order[k]);
        } else {
            assert(o2[j] == i as usize);
            assert(produced_before(nodes, order, d));
            let k = choose|k: int| 0 <= k < order.len() && #[trigger] nodes[order[k] as int].outputs.contains(d);
            assert(o2[k] == order[k]);
        }
    }
    assert(prefix_valid(nodes, external, o2));
    assert(p2.len() == nodes.len());
}

proof fn lemma_scan(nodes: Seq<SNode>, external: Seq<Seq<char>>, placed: Seq<bool>, order: Seq<usize>, i: nat)
    requires
        wf_state(nodes, external, placed, order),
    ensures
        wf_state(nodes, external, scan(nodes, external, placed, order, i).0, scan(nodes, external, placed, order, i).1),
        count_unplaced(scan(nodes, external, placed, order, i).0) <= count_unplaced(placed),
        count_unplaced(scan(nodes, external, placed, order, i).0) == count_unplaced(placed) ==> {
            &&& scan(nodes, external, placed, order, i) == (placed, order)
            &&& forall|x: int| i <= x < nodes.len() && !placed[x] ==> !ready(nodes, external, order, x)
        },
    decreases nodes.len() - i,
{
    if i < nodes.len() {
        if !placed[i as int] && ready(nodes, external, order, i as int) {
            lemma_place_wf(nodes, external, placed, order, i as int);
            lemma_count_update(placed, i as int);
            lemma_scan(nodes, external, placed.update(i as int, true), order.push(i as usize), i + 1);
        } else {
            lemma_scan(nodes, external, placed, order, i + 1);
        }
    }
}

proof fn lemma_sort_from(nodes: Seq<SNode>, external: Seq<Seq<char>>, placed: Seq<bool>, order: Seq<usize>)
    requires
        wf_state(nodes, external, placed, order),
    ensures
        wf_state(nodes, external, sort_from(nodes, external, placed, order).0, sort_from(nodes, external, placed, order).1),
        forall|x: int| 0 <= x < nodes.len() && !(#[trigger] sort_from(nodes, external, placed, order).0[x])
            ==> !ready(nodes, external, sort_from(nodes, external, placed, order).1, x),
    decreases count_unplaced(placed),
{
    lemma_scan(nodes, external, placed, order, 0);
    let next = scan(nodes, external, placed, order, 0);
    if count_unplaced(next.0) < count_unplaced(placed) {
        lemma_sort_from(nodes, external, next.0, next.1);
    }
}

/// The first position of `order2` at or before `j` that holds a step not
/// placed.
proof fn lemma_first_unplaced(order2: Seq<usize>, placed: Seq<bool>, j: int) -> (j0: int)
    requires
        0 <= j < order2.len(),
        forall|k: int| 0 <= k < order2.len() ==> order2[k] < placed.len(),
        !placed[order2[j] as int],
    ensures
        0 <= j0 <= j,
        !placed[order2[j0] as int],
        forall|k: int| 0 <= k < j0 ==> placed[order2[k] as int],
    decreases j,
{
    if exists|k: int| 0 <= k < j && !placed[order2[k] as int] {
        let k = choose|k: int| 0 <= k < j && !placed[order2[k] as int];
        lemma_first_unplaced(order2, placed, k)
    } else {
        j
    }
}

proof fn lemma_stuck_no_order(nodes: Seq<SNode>, external: Seq<Seq<char>>, placed: Seq<bool>, order: Seq<usize>, x: int, order2: Seq<usize>)
    requires
        wf_state(nodes, external, placed, order),
        forall|y: int| 0 <= y < nodes.len() && !(#[trigger] placed[y]) ==> !ready(nodes, external, order, y),
        0 <= x < nodes.len(),
        !placed[x],
    ensures
        !respects_dependencies(nodes, external, order2),
{
    if respects_dependencies(nodes, external, order2) {
        assert(order2.contains(x as usize));
        let j = choose|j: int| 0 <= j < order2.len() && order2[j] == x as usize;
        let j0 = lemma_first_unplaced(order2, placed, j);
        let y = order2[j0] as int;
        assert(!ready(nodes, external, order, y));
        let d = choose|d: Seq<char>| #[trigger] nodes[y].inputs.contains(d) && is_dependency(nodes, external, d)
            && !produced_before(nodes, order, d);
        let k = choose|k: int| 0 <= k < j0 && #[trigger] nodes[order2[k] as int].outputs.contains(d);
        assert(placed[order2[k] as int]);
        assert(order.contains(order2[k]));
        let k2 = choose|k2: int| 0 <= k2 < order.len() && order[k2] == order2[k];
        assert(nodes[order[k2] as int].outputs.contains(d));
        assert(produced_before(nodes, order, d));
    }
}

proof fn lemma_start_wf(nodes: Seq<SNode>, external: Seq<Seq<char>>)
    requires
        nodes.len() <= usize::MAX,
    ensures
        wf_state(nodes, external, Seq::new(nodes.len(), |i: int| false), Seq::empty()),
{
}

/// Law: the order found lists every step once, and places each step after
/// the steps that bind the names it depends on.
pub proof fn lemma_topological_order_respects_dependencies(nodes: Seq<SNode>, external: Seq<Seq<char>>)
    requires
        nodes.len() <= usize::MAX,
    ensures
        topological_order(nodes, external) matches Some(order) ==> respects_dependencies(nodes, external, order),
{
    lemma_start_wf(nodes, external);
    lemma_sort_from(nodes, external, Seq::new(nodes.len(), |i: int| false), Seq::empty());
    let outcome = sort_outcome(nodes, external);
    assert(wf_state(nodes, external, outcome.0, outcome.1));
    if forall|i: int| 0 <= i < nodes.len() ==> outcome.0[i] {
        assert forall|i: usize| i < nodes.len() implies #[trigger] outcome.1.contains(i) by {
            assert(outcome.0[i as int]);
        }
        assert(respects_dependencies(nodes, external, outcome.1));
    }
}

/// Law: the steps are ordered exactly when some order of them respects
/// their dependencies.
pub proof fn lemma_topological_order_complete(nodes: Seq<SNode>, external: Seq<Seq<char>>)
    requires
        nodes.len() <= usize::MAX,
    ensures
        topological_order(nodes, external) is Some <==> exists|order: Seq<usize>| respects_dependencies(nodes, external, order),
{
    lemma_topological_order_respects_dependencies(nodes, external);
    let outcome = sort_outcome(nodes, external);
    if topological_order(nodes, external) is None {
        lemma_start_wf(nodes, external);
        lemma_sort_from(nodes, external, Seq::new(nodes.len(), |i: int| false), Seq::empty());
        let x = choose|x: int| 0 <= x < nodes.len() && !outcome.0[x];
        assert forall|order2: Seq<usize>| !respects_dependencies(nodes, external, order2) by {
            lemma_stuck_no_order(nodes, external, outcome.0, outcome.1, x, order2);
        }
    }
}

// ---------------------------------------------------------------------------
// The passes, executed.
// ---------------------------------------------------------------------------

/// Whether some step binds `d`.
fn produced_exec(nodes: &Vec<Node>, d: &str) -> (r: bool)
    ensures
        r == produced(nodes_view(nodes), d@),
{
    let mut k: usize = 0;
    while k < nodes.len()
        invariant
            k <= nodes.len(),
            forall|j: int| 0 <= j < k ==> !(#[trigger] nodes_view(nodes)[j]).outputs.contains(d@),
        decreases nodes.len() - k,
    {
        if ids_contain(&nodes[k].outputs, d) {
            assert(nodes_view(nodes)[k as int].outputs.contains(d@));
            return true;
        }
        assert(nodes_view(nodes)[k as int] == nodes[k as int]@);
        k += 1;
    }
    false
}

/// Whether step `i` can be placed once the names in `defined` are bound.
fn ready_exec(nodes: &Vec<Node>, external: &Vec<Identifier>, defined: &Vec<Identifier>, i: usize) -> (r: bool)
    requires
        i < nodes.len(),
    ensures
        r == (forall|d: Seq<char>| #[trigger] nodes_view(nodes)[i as int].inputs.contains(d)
            && is_dependency(nodes_view(nodes), ids_view(external), d) ==> ids_view(defined).contains(d)),
{
    let inputs = &nodes[i].inputs;
    assert(nodes_view(nodes)[i as int].inputs == ids_view(inputs));
    let mut j: usize = 0;
    while j < inputs.len()
        invariant
            j <= inputs.len(),
            nodes_view(nodes)[i as int].inputs == ids_view(inputs),
            forall|t: int| 0 <= t < j && is_dependency(nodes_view(nodes), ids_view(external), #[trigger] ids_view(inputs)[t])
                ==> ids_view(defined).contains(ids_view(inputs)[t]),
        decreases inputs.len() - j,
    {
        let d = inputs[j].name.as_str();
        assert(ids_view(inputs)[j as int] == d@);
        if produced_exec(nodes, d) && !ids_contain(external, d) && !ids_contain(defined, d) {
            assert(nodes_view(nodes)[i as int].inputs.contains(d@));
            return false;
        }
        j += 1;
    }
    assert forall|d: Seq<char>| #[trigger] nodes_view(nodes)[i as int].inputs.contains(d)
        && is_dependency(nodes_view(nodes), ids_view(external), d) implies ids_view(defined).contains(d) by {
        let t = choose|t: int| 0 <= t < ids_view(inputs).len() && ids_view(inputs)[t] == d;
    }
    true
}

/// Orders the steps so that each comes after the steps that bind what it
/// reads, keeping their given order where that allows. A name in
/// `external_ids` is taken to be bound already.
pub fn sort_topological(nodes: &Vec<Node>, external_ids: &Vec<Identifier>) -> (r: Result<Vec<usize>, TopologyError>)
    ensures
        match r {
            Ok(order) => topological_order(nodes_view(nodes), ids_view(external_ids)) == Some(order@),
            Err(TopologyError::Cycle(ids)) => topological_order(nodes_view(nodes), ids_view(external_ids)) is None
                && ids_view(&ids) == cycle_identifiers(nodes_view(nodes), ids_view(external_ids)),
        },
{
    let ghost nv = nodes_view(nodes);
    let ghost ev = ids_view(external_ids);
    let n = nodes.len();
    let mut placed: Vec<bool> = Vec::new();
    while placed.len() < n
        invariant
            placed.len() <= n,
            placed@ =~= Seq::new(placed@.len(), |i: int| false),
        decreases n - placed.len(),
    {
        placed.push(false);
    }
    assert(placed@ =~= Seq::new(nv.len(), |i: int| false));
    let mut order: Vec<usize> = Vec::new();
    let mut defined: Vec<Identifier> = Vec::new();
    proof {
        lemma_start_wf(nv, ev);
    }
    let ghost outcome = sort_from(nv, ev, placed@, order@);
    let mut progress = true;
    while progress
        invariant
            n == nv.len(),
            nv == nodes_view(nodes),
            ev == ids_view(external_ids),
            outcome == (if progress { sort_from(nv, ev, placed@, order@) } else { (placed@, order@) }),
            wf_state(nv, ev, placed@, order@),
            forall|d: Seq<char>| ids_view(&defined).contains(d) <==> produced_before(nv, order@, d),
        decreases count_unplaced(placed@) + (if progress { 1nat } else { 0nat }),
    {
        let ghost p0 = placed@;
        let ghost o0 = order@;
        let mut placed_any = false;
        let mut i: usize = 0;
        while i < n
            invariant
                n == nv.len(),
                nv == nodes_view(nodes),
                ev == ids_view(external_ids),
                i <= n,
                scan(nv, ev, p0, o0, 0) == scan(nv, ev, placed@, order@, i as nat),
                wf_state(nv, ev, placed@, order@),
                forall|d: Seq<char>| ids_view(&defined).contains(d) <==> produced_before(nv, order@, d),
                !placed_any ==> placed@ == p0 && order@ == o0,
                placed_any ==> count_unplaced(placed@) < count_unplaced(p0),
                count_unplaced(placed@) <= count_unplaced(p0),
            decreases n - i,
        {
            if !placed[i] && ready_exec(nodes, external_ids, &defined, i) {
                assert(ready(nv, ev, order@, i as int));
                proof {
                    lemma_place_wf(nv, ev, placed@, order@, i as int);
                    lemma_count_update(placed@, i as int);
                }
                let ghost old_order = order@;
                let ghost old_defined = ids_view(&defined);
                placed.set(i, true);
                order.push(i);
                let outputs = &nodes[i].outputs;
                assert(nv[i as int].outputs == ids_view(outputs));
                let mut t: usize = 0;
                while t < outputs.len()
                    invariant
                        t <= outputs.len(),
                        nv[i as int].outputs == ids_view(outputs),
                        ids_view(&defined) == old_defined + ids_view(outputs).take(t as int),
                    decreases outputs.len() - t,
                {
                    let ghost prev = ids_view(&defined);
                    defined.push(outputs[t].deep_clone());
                    assert(ids_view(&defined) =~= prev.push(outputs[t as int]@));
                    assert(ids_view(outputs).take(t + 1) =~= ids_view(outputs).take(t as int).push(outputs[t as int]@));
                    assert(ids_view(&defined) =~= old_defined + ids_view(outputs).take(t + 1));
                    t += 1;
                }
                assert(ids_view(outputs).take(t as int) =~= ids_view(outputs));
                assert forall|d: Seq<char>| ids_view(&defined).contains(d) <==> produced_before(nv, order@, d) by {
                    if ids_view(&defined).contains(d) {
                        let w = choose|w: int| 0 <= w < ids_view(&defined).len() && ids_view(&defined)[w] == d;
                        if w < old_defined.len() {
                            assert(old_defined[w] == d);
                            assert(old_defined.contains(d));
                            assert(produced_before(nv, old_order, d));
                            let k = choose|k: int| 0 <= k < old_order.len() && #[trigger] nv[old_order[k] as int].outputs.contains(d);
                            assert(order@[k] == old_order[k]);
                        } else {
                            assert(ids_view(outputs)[w - old_defined.len()] == d);
                            assert(order@[old_order.len() as int] == i);
                            assert(nv[order@[old_order.len() as int] as int].outputs.contains(d));
                        }
                    }
                    if produced_before(nv, order@, d) {
                        let k = choose|k: int| 0 <= k < order@.len() && #[trigger] nv[order@[k] as int].outputs.contains(d);
                        if k < old_order.len() {
                            assert(order@[k] == old_order[k]);
                            assert(produced_before(nv, old_order, d));
                            assert(old_defined.contains(d));
                            let w = choose|w: int| 0 <= w < old_defined.len() && old_defined[w] == d;
                            assert(ids_view(&defined)[w] == d);
                        } else {
                            assert(ids_view(outputs).contains(d));
                            let w = choose|w: int| 0 <= w < ids_view(outputs).len() && ids_view(outputs)[w] == d;
                            assert(ids_view(&defined)[old_defined.len() + w] == d);
                        }
                    }
                }
                placed_any = true;
            }
            i += 1;
        }
        proof {
            lemma_scan(nv, ev, p0, o0, 0);
        }
        progress = placed_any;
    }
    proof {
        lemma_sort_from(nv, ev, Seq::new(nv.len(), |i: int| false), Seq::empty());
    }
    let mut all = true;
    let mut i: usize = 0;
    while i < n
        invariant
            i <= n,
            n == placed@.len(),
            all == (forall|x: int| 0 <= x < i ==> placed@[x]),
        decreases n - i,
    {
        if !placed[i] {
            all = false;
        }
        i += 1;
    }
    if all {
        return Ok(order);
    }
    let mut ids: Vec<Identifier> = Vec::new();
    let mut i: usize = 0;
    assert(unplaced_outputs(nv, placed@, 0) == ids_view(&ids) + unplaced_outputs(nv, placed@, 0));
    while i < n
        invariant
            i <= n,
            n == nv.len(),
            nv == nodes_view(nodes),
            placed@.len() == n,
            unplaced_outputs(nv, placed@, 0) == ids_view(&ids) + unplaced_outputs(nv, placed@, i as nat),
        decreases n - i,
    {
        if !placed[i] {
            let outputs = &nodes[i].outputs;
            assert(nv[i as int].outputs == ids_view(outputs));
            let ghost before = ids_view(&ids);
            let mut t: usize = 0;
            while t < outputs.len()
                invariant
                    t <= outputs.len(),
                    ids_view(&ids) == before + ids_view(outputs).take(t as int),
                decreases outputs.len() - t,
            {
                let ghost prev = ids_view(&ids);
                ids.push(outputs[t].deep_clone());
                assert(ids_view(&ids) =~= prev.push(outputs[t as int]@));
                assert(ids_view(outputs).take(t + 1) =~= ids_view(outputs).take(t as int).push(outputs[t as int]@));
                assert(ids_view(&ids) =~= before + ids_view(outputs).take(t + 1));
                t += 1;
            }
            assert(ids_view(outputs).take(t as int) =~= ids_view(outputs));
            assert(before + (ids_view(outputs) + unplaced_outputs(nv, placed@, (i + 1) as nat))
                =~= (before + ids_view(outputs)) + unplaced_outputs(nv, placed@, (i + 1) as nat));
        }
        i += 1;
    }
    assert(ids_view(&ids) + Seq::<Seq<char>>::empty() =~= ids_view(&ids));
    Err(TopologyError::Cycle(ids))
}

} // verus!
