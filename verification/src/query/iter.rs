//! Running predicates and projections over sequences of values, one
//! result at a time.
use vstd::prelude::*;
use itertools::Itertools;
use crate::value::{Value, SValue, values_view};
use crate::syntax::expression::SExpr;
use crate::syntax::pattern::SPattern;
use crate::runtime::env::Environment;
use crate::runtime::evaluation::MAX_DEPTH;
use crate::query::predicate::{Predicate, MultiPredicate, PredicateError, predicate_spec, multi_predicate_spec};
use crate::query::projection::{Projection, MultiProjection, ProjectionError, projection_spec, multi_projection_spec};

verus! {

/// The `k`-permutations of the positions `0..n`, in lexicographic order.
pub open spec fn index_permutations(n: usize, k: usize) -> Seq<Seq<usize>> {
    perms_extending(n, k, Seq::empty())
}

/// The `k`-permutations of `0..n` that begin with `prefix`, in
/// lexicographic order.
pub open spec fn perms_extending(n: usize, k: usize, prefix: Seq<usize>) -> Seq<Seq<usize>>
    decreases k - prefix.len(), n + 1,
{
    if prefix.len() >= k {
        seq![prefix]
    } else {
        perms_choosing_from(n, k, prefix, 0)
    }
}

/// Those permutations that begin with `prefix` followed by a position of
/// `x..n`, grouped by that position in increasing order.
pub open spec fn perms_choosing_from(n: usize, k: usize, prefix: Seq<usize>, x: nat) -> Seq<Seq<usize>>
    decreases k - prefix.len(), n - x,
{
    if x >= n || prefix.len() >= k {
        Seq::empty()
    } else {
        (if prefix.contains(x as usize) { Seq::empty() } else { perms_extending(n, k, prefix.push(x as usize)) })
            + perms_choosing_from(n, k, prefix, x + 1)
    }
}

pub open spec fn perms_view(v: &Vec<Vec<usize>>) -> Seq<Seq<usize>> {
    Seq::new(v.len() as nat, |j: int| v[j]@)
}

/// `k` distinct positions below `n`.
pub open spec fn is_k_permutation(p: Seq<usize>, n: usize, k: usize) -> bool {
    &&& p.len() == k
    &&& forall|t: int| 0 <= t < k ==> #[trigger] p[t] < n
    &&& forall|s: int, t: int| 0 <= s < t < k ==> #[trigger] p[s] != #[trigger] p[t]
}

/// `Itertools::permutations` applied to the positions `0..n`: each
/// `k`-permutation of the positions once, in lexicographic order (none when
/// `k` exceeds `n`, one empty one when `k` is 0), as the crate's
/// documentation and its index-based implementation give them.
#[verifier::external_body]
fn permutations_of_positions(n: usize, k: usize) -> (r: Vec<Vec<usize>>)
    ensures
        perms_view(&r) == index_permutations(n, k),
        forall|j: int| 0 <= j < r.len() ==> (#[trigger] r[j]).len() == k,
        forall|j: int, t: int| 0 <= j < r.len() && 0 <= t < k ==> (#[trigger] r[j][t]) < n,
        forall|j: int, s: int, t: int| 0 <= j < r.len() && 0 <= s < t < k ==> (#[trigger] r[j][s]) != (#[trigger] r[j][t]),
        forall|p: Seq<usize>| #[trigger] is_k_permutation(p, n, k) ==> perms_view(&r).contains(p),
        perms_view(&r).no_duplicates(),
        k > n ==> r.len() == 0,
{
    (0..n).permutations(k).collect()
}

/// The items at the given positions.
pub open spec fn pick(items: Seq<SValue>, positions: Seq<usize>) -> Seq<SValue> {
    Seq::new(positions.len(), |t: int| items[positions[t] as int])
}

fn pick_exec(items: &Vec<Value>, positions: &Vec<usize>) -> (r: Vec<Value>)
    requires
        forall|t: int| 0 <= t < positions.len() ==> positions[t] < items.len(),
    ensures
        values_view(&r) == pick(values_view(items), positions@),
{
    let mut r: Vec<Value> = Vec::new();
    let mut t: usize = 0;
    while t < positions.len()
        invariant
            t <= positions.len(),
            forall|s: int| 0 <= s < positions.len() ==> positions[s] < items.len(),
            r.len() == t,
            forall|s: int| 0 <= s < t ==> r[s]@ == items[positions[s] as int]@,
        decreases positions.len() - t,
    {
        r.push(items[positions[t]].deep_clone());
        t += 1;
    }
    assert(values_view(&r) =~= pick(values_view(items), positions@));
    r
}

// ---------------------------------------------------------------------------
// The results each kind of iterator gives next, from a position on.
// ---------------------------------------------------------------------------

/// The next item from position `pos` on that passes, and the position
/// after it.
pub open spec fn predicate_scan(fuel: nat, env: Seq<(Seq<char>, SValue)>, pattern: SPattern, guard: SExpr, items: Seq<SValue>, pos: nat) -> (Option<Result<SValue, PredicateError>>, nat)
    decreases items.len() - pos,
{
    if pos >= items.len() {
        (None, pos)
    } else {
        match predicate_spec(fuel, env, pattern, guard, items[pos as int]) {
            Ok(true) => (Some(Ok(items[pos as int])), pos + 1),
            Ok(false) => predicate_scan(fuel, env, pattern, guard, items, pos + 1),
            Err(e) => (Some(Err(e)), pos + 1),
        }
    }
}

/// Like `predicate_scan`, reporting each item's index.
pub open spec fn indexed_scan(fuel: nat, env: Seq<(Seq<char>, SValue)>, pattern: SPattern, guard: SExpr, items: Seq<(usize, SValue)>, pos: nat) -> (Option<Result<(usize, SValue), (usize, PredicateError)>>, nat)
    decreases items.len() - pos,
{
    if pos >= items.len() {
        (None, pos)
    } else {
        match predicate_spec(fuel, env, pattern, guard, items[pos as int].1) {
            Ok(true) => (Some(Ok(items[pos as int])), pos + 1),
            Ok(false) => indexed_scan(fuel, env, pattern, guard, items, pos + 1),
            Err(e) => (Some(Err((items[pos as int].0, e))), pos + 1),
        }
    }
}

/// The next projected value from position `pos` on.
pub open spec fn projection_scan(fuel: nat, env: Seq<(Seq<char>, SValue)>, pattern: SPattern, guard: SExpr, projection: SExpr, items: Seq<SValue>, pos: nat) -> (Option<Result<SValue, ProjectionError>>, nat)
    decreases items.len() - pos,
{
    if pos >= items.len() {
        (None, pos)
    } else {
        match projection_spec(fuel, env, pattern, guard, projection, items[pos as int]) {
            Ok(Some(v)) => (Some(Ok(v)), pos + 1),
            Ok(None) => projection_scan(fuel, env, pattern, guard, projection, items, pos + 1),
            Err(e) => (Some(Err(e)), pos + 1),
        }
    }
}

/// The next permutation of the items (from the `pos`-th on) that passes.
pub open spec fn multi_predicate_scan(fuel: nat, env: Seq<(Seq<char>, SValue)>, patterns: Seq<SPattern>, guard: SExpr, items: Seq<SValue>, perms: Seq<Seq<usize>>, pos: nat) -> (Option<Result<Seq<SValue>, PredicateError>>, nat)
    decreases perms.len() - pos,
{
    if pos >= perms.len() {
        (None, pos)
    } else {
        let tuple = pick(items, perms[pos as int]);
        match multi_predicate_spec(fuel, env, patterns, guard, tuple) {
            Ok(true) => (Some(Ok(tuple)), pos + 1),
            Ok(false) => multi_predicate_scan(fuel, env, patterns, guard, items, perms, pos + 1),
            Err(e) => (Some(Err(e)), pos + 1),
        }
    }
}

/// The projected values of the next permutation of the items (from the
/// `pos`-th on) that passes.
pub open spec fn multi_projection_scan(fuel: nat, env: Seq<(Seq<char>, SValue)>, patterns: Seq<SPattern>, guard: SExpr, projections: Seq<SExpr>, items: Seq<SValue>, perms: Seq<Seq<usize>>, pos: nat) -> (Option<Result<Seq<SValue>, ProjectionError>>, nat)
    decreases perms.len() - pos,
{
    if pos >= perms.len() {
        (None, pos)
    } else {
        match multi_projection_spec(fuel, env, patterns, guard, projections, pick(items, perms[pos as int])) {
            Ok(Some(vs)) => (Some(Ok(vs)), pos + 1),
            Ok(None) => multi_projection_scan(fuel, env, patterns, guard, projections, items, perms, pos + 1),
            Err(e) => (Some(Err(e)), pos + 1),
        }
    }
}

/// The permutations hold positions of the items.
pub open spec fn positions_in_range(perms: Seq<Seq<usize>>, n: nat) -> bool {
    forall|j: int, t: int| 0 <= j < perms.len() && 0 <= t < perms[j].len() ==> (#[trigger] perms[j][t]) < n
}

// ---------------------------------------------------------------------------
// The iterators.
// ---------------------------------------------------------------------------

/// Gives, one at a time, the items that pass a predicate.
pub struct PredicateIterator {
    pub env: Environment,
    pub predicate: Predicate,
    pub items: Vec<Value>,
    pub position: usize,
}

/// Gives, one at a time, the items (with their indices) that pass a
/// predicate, or the index of the item whose test failed.
pub struct IndexedPredicateIterator {
    pub env: Environment,
    pub predicate: Predicate,
    pub items: Vec<(usize, Value)>,
    pub position: usize,
}

/// Gives, one at a time, the projections of the items that pass.
pub struct ProjectionIterator {
    pub env: Environment,
    pub projection: Projection,
    pub items: Vec<Value>,
    pub position: usize,
}

/// Gives, one at a time, the permutations of the items (as many items as
/// the predicate has patterns) that pass a predicate.
pub struct MultiPredicateIterator {
    pub env: Environment,
    pub predicate: MultiPredicate,
    pub items: Vec<Value>,
    pub permutations: Vec<Vec<usize>>,
    pub position: usize,
}

/// Gives, one at a time, the projections of the permutations of the items
/// (as many items as the projection has patterns) that pass.
pub struct MultiProjectionIterator {
    pub env: Environment,
    pub projection: MultiProjection,
    pub items: Vec<Value>,
    pub permutations: Vec<Vec<usize>>,
    pub position: usize,
}

pub open spec fn indexed_view(items: &Vec<(usize, Value)>) -> Seq<(usize, SValue)> {
    Seq::new(items.len() as nat, |i: int| (items[i].0, items[i].1@))
}

pub open spec fn opt_result_view<E>(r: &Option<Result<Value, E>>) -> Option<Result<SValue, E>>
    where E: Copy,
{
    match r {
        Some(Ok(v)) => Some(Ok(v@)),
        Some(Err(e)) => Some(Err(*e)),
        None => None,
    }
}

pub open spec fn opt_results_view<E>(r: &Option<Result<Vec<Value>, E>>) -> Option<Result<Seq<SValue>, E>>
    where E: Copy,
{
    match r {
        Some(Ok(v)) => Some(Ok(values_view(v))),
        Some(Err(e)) => Some(Err(*e)),
        None => None,
    }
}

impl PredicateIterator {
    pub fn new(env: Environment, predicate: Predicate, items: Vec<Value>) -> (r: PredicateIterator)
        ensures
            r.env == env,
            r.predicate == predicate,
            r.items == items,
            r.position == 0,
    {
        PredicateIterator { env, predicate, items, position: 0 }
    }

    /// The next item that passes, or the failure of the test of the next
    /// item; `None` once the items are used up.
    #[verifier::loop_isolation(false)]
    pub fn next(&mut self) -> (r: Option<Result<Value, PredicateError>>)
        ensures
            final(self).env == old(self).env,
            final(self).predicate == old(self).predicate,
            final(self).items == old(self).items,
            (opt_result_view(&r), final(self).position as nat) == predicate_scan(MAX_DEPTH as nat, old(self).env@,
                old(self).predicate.capture.pattern@, old(self).predicate.guard@, values_view(&old(self).items), old(self).position as nat),
    {
        let ghost goal = predicate_scan(MAX_DEPTH as nat, self.env@, self.predicate.capture.pattern@, self.predicate.guard@, values_view(&self.items), self.position as nat);
        while self.position < self.items.len()
            invariant
                self.env == old(self).env,
                self.predicate == old(self).predicate,
                self.items == old(self).items,
                goal == predicate_scan(MAX_DEPTH as nat, self.env@, self.predicate.capture.pattern@, self.predicate.guard@, values_view(&self.items), self.position as nat),
            decreases self.items.len() - self.position,
        {
            let pos = self.position;
            assert(values_view(&self.items)[pos as int] == self.items[pos as int]@);
            self.position = pos + 1;
            match self.predicate.apply(&self.env, &self.items[pos]) {
                Ok(true) => return Some(Ok(self.items[pos].deep_clone())),
                Ok(false) => {},
                Err(e) => return Some(Err(e)),
            }
        }
        None
    }
}

impl IndexedPredicateIterator {
    pub fn new(env: Environment, predicate: Predicate, items: Vec<(usize, Value)>) -> (r: IndexedPredicateIterator)
        ensures
            r.env == env,
            r.predicate == predicate,
            r.items == items,
            r.position == 0,
    {
        IndexedPredicateIterator { env, predicate, items, position: 0 }
    }

    /// The next item (with its index) that passes, or the index of the next
    /// item whose test failed and the failure.
    #[verifier::loop_isolation(false)]
    pub fn next(&mut self) -> (r: Option<Result<(usize, Value), (usize, PredicateError)>>)
        ensures
            final(self).env == old(self).env,
            final(self).predicate == old(self).predicate,
            final(self).items == old(self).items,
            ((match r {
                Some(Ok((i, v))) => Some(Ok((i, v@))),
                Some(Err(e)) => Some(Err(e)),
                None => None,
            }), final(self).position as nat) == indexed_scan(MAX_DEPTH as nat, old(self).env@,
                old(self).predicate.capture.pattern@, old(self).predicate.guard@, indexed_view(&old(self).items), old(self).position as nat),
    {
        let ghost goal = indexed_scan(MAX_DEPTH as nat, self.env@, self.predicate.capture.pattern@, self.predicate.guard@, indexed_view(&self.items), self.position as nat);
        while self.position < self.items.len()
            invariant
                self.env == old(self).env,
                self.predicate == old(self).predicate,
                self.items == old(self).items,
                goal == indexed_scan(MAX_DEPTH as nat, self.env@, self.predicate.capture.pattern@, self.predicate.guard@, indexed_view(&self.items), self.position as nat),
            decreases self.items.len() - self.position,
        {
            let pos = self.position;
            assert(indexed_view(&self.items)[pos as int] == (self.items[pos as int].0, self.items[pos as int].1@));
            self.position = pos + 1;
            let index = self.items[pos].0;
            match self.predicate.apply(&self.env, &self.items[pos].1) {
                Ok(true) => return Some(Ok((index, self.items[pos].1.deep_clone()))),
                Ok(false) => {},
                Err(e) => return Some(Err((index, e))),
            }
        }
        None
    }
}

impl ProjectionIterator {
    pub fn new(env: Environment, projection: Projection, items: Vec<Value>) -> (r: ProjectionIterator)
        ensures
            r.env == env,
            r.projection == projection,
            r.items == items,
            r.position == 0,
    {
        ProjectionIterator { env, projection, items, position: 0 }
    }

    /// The projection of the next item that passes, or the failure of the
    /// next item; `None` once the items are used up.
    #[verifier::loop_isolation(false)]
    pub fn next(&mut self) -> (r: Option<Result<Value, ProjectionError>>)
        ensures
            final(self).env == old(self).env,
            final(self).projection == old(self).projection,
            final(self).items == old(self).items,
            (opt_result_view(&r), final(self).position as nat) == projection_scan(MAX_DEPTH as nat, old(self).env@,
                old(self).projection.predicate.capture.pattern@, old(self).projection.predicate.guard@,
                old(self).projection.projection@, values_view(&old(self).items), old(self).position as nat),
    {
        let ghost goal = projection_scan(MAX_DEPTH as nat, self.env@, self.projection.predicate.capture.pattern@,
            self.projection.predicate.guard@, self.projection.projection@, values_view(&self.items), self.position as nat);
        while self.position < self.items.len()
            invariant
                self.env == old(self).env,
                self.projection == old(self).projection,
                self.items == old(self).items,
                goal == projection_scan(MAX_DEPTH as nat, self.env@, self.projection.predicate.capture.pattern@,
                    self.projection.predicate.guard@, self.projection.projection@, values_view(&self.items), self.position as nat),
            decreases self.items.len() - self.position,
        {
            let pos = self.position;
            assert(values_view(&self.items)[pos as int] == self.items[pos as int]@);
            self.position = pos + 1;
            match self.projection.apply(&self.env, &self.items[pos]) {
                Ok(Some(v)) => return Some(Ok(v)),
                Ok(None) => {},
                Err(e) => return Some(Err(e)),
            }
        }
        None
    }
}

impl MultiPredicateIterator {
    /// Tests the permutations of `items` with as many items as the
    /// predicate has patterns.
    pub fn new(env: Environment, predicate: MultiPredicate, items: Vec<Value>) -> (r: MultiPredicateIterator)
        ensures
            r.env == env,
            r.predicate == predicate,
            r.items == items,
            perms_view(&r.permutations) == index_permutations(items.len(), predicate.capture.patterns.patterns.len()),
            positions_in_range(perms_view(&r.permutations), items.len() as nat),
            r.position == 0,
    {
        let permutations = permutations_of_positions(items.len(), predicate.capture.patterns.patterns.len());
        let r = MultiPredicateIterator { env, predicate, items, permutations, position: 0 };
        assert(positions_in_range(perms_view(&r.permutations), r.items.len() as nat)) by {
            assert forall|j: int, t: int| 0 <= j < perms_view(&r.permutations).len() && 0 <= t < perms_view(&r.permutations)[j].len()
                implies (#[trigger] perms_view(&r.permutations)[j][t]) < r.items.len() by {
                assert(r.permutations[j][t] < r.items.len());
            }
        }
        r
    }

    /// The next permutation that passes, or the failure of the test of the
    /// next one; `None` once they are used up.
    #[verifier::loop_isolation(false)]
    pub fn next(&mut self) -> (r: Option<Result<Vec<Value>, PredicateError>>)
        requires
            positions_in_range(perms_view(&old(self).permutations), old(self).items.len() as nat),
        ensures
            final(self).env == old(self).env,
            final(self).predicate == old(self).predicate,
            final(self).items == old(self).items,
            final(self).permutations == old(self).permutations,
            (opt_results_view(&r), final(self).position as nat) == multi_predicate_scan(MAX_DEPTH as nat, old(self).env@,
                old(self).predicate.capture.patterns@, old(self).predicate.guard@, values_view(&old(self).items),
                perms_view(&old(self).permutations), old(self).position as nat),
    {
        let ghost goal = multi_predicate_scan(MAX_DEPTH as nat, self.env@, self.predicate.capture.patterns@,
            self.predicate.guard@, values_view(&self.items), perms_view(&self.permutations), self.position as nat);
        while self.position < self.permutations.len()
            invariant
                self.env == old(self).env,
                self.predicate == old(self).predicate,
                self.items == old(self).items,
                self.permutations == old(self).permutations,
                positions_in_range(perms_view(&self.permutations), self.items.len() as nat),
                goal == multi_predicate_scan(MAX_DEPTH as nat, self.env@, self.predicate.capture.patterns@,
                    self.predicate.guard@, values_view(&self.items), perms_view(&self.permutations), self.position as nat),
            decreases self.permutations.len() - self.position,
        {
            let pos = self.position;
            assert(perms_view(&self.permutations)[pos as int] == self.permutations[pos as int]@);
            assert forall|t: int| 0 <= t < self.permutations[pos as int].len() implies self.permutations[pos as int][t] < self.items.len() by {
                assert(perms_view(&self.permutations)[pos as int][t] == self.permutations[pos as int][t]);
            }
            self.position = pos + 1;
            let tuple = pick_exec(&self.items, &self.permutations[pos]);
            match self.predicate.apply(&self.env, &tuple) {
                Ok(true) => return Some(Ok(tuple)),
                Ok(false) => {},
                Err(e) => return Some(Err(e)),
            }
        }
        None
    }
}

impl MultiProjectionIterator {
    /// Projects the permutations of `items` with as many items as the
    /// projection has patterns.
    pub fn new(env: Environment, projection: MultiProjection, items: Vec<Value>) -> (r: MultiProjectionIterator)
        ensures
            r.env == env,
            r.projection == projection,
            r.items == items,
            perms_view(&r.permutations) == index_permutations(items.len(), projection.predicate.capture.patterns.patterns.len()),
            positions_in_range(perms_view(&r.permutations), items.len() as nat),
            r.position == 0,
    {
        let permutations = permutations_of_positions(items.len(), projection.predicate.capture.patterns.patterns.len());
        let r = MultiProjectionIterator { env, projection, items, permutations, position: 0 };
        assert(positions_in_range(perms_view(&r.permutations), r.items.len() as nat)) by {
            assert forall|j: int, t: int| 0 <= j < perms_view(&r.permutations).len() && 0 <= t < perms_view(&r.permutations)[j].len()
                implies (#[trigger] perms_view(&r.permutations)[j][t]) < r.items.len() by {
                assert(r.permutations[j][t] < r.items.len());
            }
        }
        r
    }

    /// The projected values of the next permutation that passes, or the
    /// failure of the next one; `None` once they are used up.
    #[verifier::loop_isolation(false)]
    pub fn next(&mut self) -> (r: Option<Result<Vec<Value>, ProjectionError>>)
        requires
            positions_in_range(perms_view(&old(self).permutations), old(self).items.len() as nat),
        ensures
            final(self).env == old(self).env,
            final(self).projection == old(self).projection,
            final(self).items == old(self).items,
            final(self).permutations == old(self).permutations,
            (opt_results_view(&r), final(self).position as nat) == multi_projection_scan(MAX_DEPTH as nat, old(self).env@,
                old(self).projection.predicate.capture.patterns@, old(self).projection.predicate.guard@,
                old(self).projection.projections@, values_view(&old(self).items),
                perms_view(&old(self).permutations), old(self).position as nat),
    {
        let ghost goal = multi_projection_scan(MAX_DEPTH as nat, self.env@, self.projection.predicate.capture.patterns@,
            self.projection.predicate.guard@, self.projection.projections@, values_view(&self.items),
            perms_view(&self.permutations), self.position as nat);
        while self.position < self.permutations.len()
            invariant
                self.env == old(self).env,
                self.projection == old(self).projection,
                self.items == old(self).items,
                self.permutations == old(self).permutations,
                positions_in_range(perms_view(&self.permutations), self.items.len() as nat),
                goal == multi_projection_scan(MAX_DEPTH as nat, self.env@, self.projection.predicate.capture.patterns@,
                    self.projection.predicate.guard@, self.projection.projections@, values_view(&self.items),
                    perms_view(&self.permutations), self.position as nat),
            decreases self.permutations.len() - self.position,
        {
            let pos = self.position;
            assert(perms_view(&self.permutations)[pos as int] == self.permutations[pos as int]@);
            assert forall|t: int| 0 <= t < self.permutations[pos as int].len() implies self.permutations[pos as int][t] < self.items.len() by {
                assert(perms_view(&self.permutations)[pos as int][t] == self.permutations[pos as int][t]);
            }
            self.position = pos + 1;
            let tuple = pick_exec(&self.items, &self.permutations[pos]);
            match self.projection.apply(&self.env, &tuple) {
                Ok(Some(vs)) => return Some(Ok(vs)),
                Ok(None) => {},
                Err(e) => return Some(Err(e)),
            }
        }
        None
    }
}

} // verus!
