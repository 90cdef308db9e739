//! The branch-and-bound driver: a state machine over search nodes. Each node
//! is a copy of the column bounds, tightened relative to its parent. The
//! caller solves the LP relaxation of the node that `select` hands out and
//! reports the outcome; the driver prunes, accepts integral solutions into the
//! incumbent, or branches on the most fractional integer column.
//!
//! Relaxation values are exact rationals over a fixed denominator `scale`: the
//! value `v` stands for `v / scale`.
use vstd::prelude::*;

use crate::bnb::{improves, Incumbent, IncumbentModel};
use crate::kinds::SolveStatus;
use crate::model::copied;

verus! {

/// The distance of `v / d` to the nearest integer, times `d`.
pub open spec fn frac_dist(v: int, d: int) -> int {
    if v % d <= d - v % d {
        v % d
    } else {
        d - v % d
    }
}

/// Whether `j` is the most fractional integer column of `values` (the
/// lowest such index on ties), farther than `eps` from an integer.
pub open spec fn is_most_fractional(values: Seq<i64>, integer: Seq<bool>, d: int, eps: int, j: int) -> bool {
    &&& 0 <= j < values.len()
    &&& integer[j]
    &&& frac_dist(values[j] as int, d) > eps
    &&& forall|k: int| 0 <= k < values.len() && #[trigger] integer[k] ==> frac_dist(values[k] as int, d) <= frac_dist(values[j] as int, d)
    &&& forall|k: int| 0 <= k < j && #[trigger] integer[k] ==> frac_dist(values[k] as int, d) < frac_dist(values[j] as int, d)
}

/// The floor of `n / d` and the remainder, both as the mathematical (floor)
/// division gives them.
fn floor_div_rem(n: i64, d: i64) -> (r: (i64, i64))
    requires
        d > 0,
    ensures
        r.0 == n as int / d as int,
        r.1 == n as int % d as int,
{
    if n >= 0 {
        let q = (n as u64) / (d as u64);
        let m = (n as u64) % (d as u64);
        proof {
            vstd::arithmetic::div_mod::lemma_fundamental_div_mod(n as int, d as int);
        }
        (q as i64, m as i64)
    } else {
        let m: u64 = (-(n + 1)) as u64;
        let qm = m / (d as u64);
        let rm = m % (d as u64);
        proof {
            vstd::arithmetic::div_mod::lemma_fundamental_div_mod(m as int, d as int);
            assert(m as int == (d as int) * (qm as int) + rm as int);
            assert(qm as int <= m as int) by (nonlinear_arith)
                requires
                    m as int == qm as int * d as int + rm as int,
                    d > 0,
                    rm >= 0,
                    qm >= 0,
            ;
            let q: int = -(qm as int) - 1;
            let r: int = d - 1 - rm;
            assert(n as int == q * d + r) by (nonlinear_arith)
                requires
                    n as int == -(m as int) - 1,
                    m as int == qm as int * d as int + rm as int,
                    q == -(qm as int) - 1,
                    r == d - 1 - rm,
            ;
            vstd::arithmetic::div_mod::lemma_fundamental_div_mod_converse(n as int, d as int, q, r);
        }
        (-(qm as i64) - 1, d - 1 - (rm as i64))
    }
}

/// The most fractional integer column of `values` (the lowest index on
/// ties), or `None` where every integer column is integral: within `eps`
/// (times `scale`) of an integer.
pub fn most_fractional(values: &[i64], integer: &[bool], scale: i64, eps: i64) -> (r: Option<usize>)
    requires
        scale > 0,
        eps >= 0,
        values@.len() == integer@.len(),
    ensures
        r is None <==> (forall|k: int| 0 <= k < values@.len() && #[trigger] integer@[k] ==> frac_dist(values@[k] as int, scale as int) <= eps),
        r matches Some(j) ==> is_most_fractional(values@, integer@, scale as int, eps as int, j as int),
{
    let mut best: Option<usize> = None;
    let mut best_dist: i64 = eps;
    let mut i: usize = 0;
    while i < values.len()
        invariant
            scale > 0,
            eps >= 0,
            values@.len() == integer@.len(),
            i <= values@.len(),
            best is None ==> best_dist == eps,
            best matches Some(b) ==> b < i && integer@[b as int] && best_dist == frac_dist(values@[b as int] as int, scale as int) && best_dist > eps,
            forall|k: int| 0 <= k < i && #[trigger] integer@[k] ==> frac_dist(values@[k] as int, scale as int) <= best_dist,
            best matches Some(b) ==> forall|k: int| 0 <= k < b && #[trigger] integer@[k] ==> frac_dist(values@[k] as int, scale as int) < best_dist,
        decreases values@.len() - i,
    {
        if integer[i] {
            let (_, rem) = floor_div_rem(values[i], scale);
            let dist = if rem <= scale - rem { rem } else { scale - rem };
            if dist > best_dist {
                best = Some(i);
                best_dist = dist;
            }
        }
        i = i + 1;
    }
    best
}

/// One node of the search: bounds for every column, and the relaxation bound
/// of its parent (a bound on every solution below it).
pub struct Node {
    pub lower: Vec<i64>,
    pub upper: Vec<i64>,
    pub bound: i64,
}

pub ghost struct NodeModel {
    pub lower: Seq<i64>,
    pub upper: Seq<i64>,
    pub bound: i64,
}

impl View for Node {
    type V = NodeModel;

    open spec fn view(&self) -> NodeModel {
        NodeModel { lower: self.lower@, upper: self.upper@, bound: self.bound }
    }
}

/// What the LP relaxation of a node came to.
pub enum Relaxation {
    Infeasible,
    Unbounded,
    /// Optimal, with its objective and column values, each times `scale`.
    Solved { objective: i64, values: Vec<i64> },
}

/// What became of a reported node.
#[derive(Debug, PartialEq, Eq, Structural, Clone, Copy)]
pub enum NodeOutcome {
    /// Infeasible, or not able to improve on the incumbent.
    Pruned,
    /// Every integer column integral: offered to the incumbent.
    Integral,
    /// Split on the given column into two children.
    Branched(usize),
    /// The relaxation is unbounded, and so the search ends.
    Unbounded,
}

pub ghost struct SearchModel {
    pub maximize: bool,
    pub scale: i64,
    pub epsilon: i64,
    pub integer: Seq<bool>,
    pub frontier: Seq<NodeModel>,
    pub incumbent: IncumbentModel,
    pub unbounded: bool,
    pub aborted: bool,
}

impl SearchModel {
    pub open spec fn wf(self) -> bool {
        &&& self.scale > 0
        &&& self.epsilon >= 0
        &&& self.incumbent.maximize == self.maximize
        &&& forall|i: int| 0 <= i < self.frontier.len() ==> {
            &&& (#[trigger] self.frontier[i]).lower.len() == self.integer.len()
            &&& self.frontier[i].upper.len() == self.integer.len()
        }
    }

    /// Whether `n` is a node of the frontier with the most favourable bound.
    pub open spec fn is_best(self, n: NodeModel) -> bool {
        forall|k: int| 0 <= k < self.frontier.len() ==> !improves(self.maximize, (#[trigger] self.frontier[k]).bound, n.bound)
    }

    /// Whether `i` is the node that selection takes: one with the most
    /// favourable bound, every later node being strictly worse.
    pub open spec fn is_chosen(self, i: int) -> bool {
        &&& 0 <= i < self.frontier.len()
        &&& self.is_best(self.frontier[i])
        &&& forall|k: int| i < k < self.frontier.len() ==> improves(self.maximize, self.frontier[i].bound, (#[trigger] self.frontier[k]).bound)
    }

    /// The two children of `n` split on column `j` at value `v / scale`:
    /// first with `x_j <= floor`, then with `x_j >= floor + 1`.
    pub open spec fn children(self, n: NodeModel, j: int, v: i64, bound: i64) -> Seq<NodeModel> {
        let f = v as int / self.scale as int;
        seq![
            NodeModel { upper: n.upper.update(j, f as i64), bound, ..n },
            NodeModel { lower: n.lower.update(j, (f + 1) as i64), bound, ..n },
        ]
    }
}

/// A branch-and-bound search in progress.
pub struct Search {
    maximize: bool,
    scale: i64,
    epsilon: i64,
    integer: Vec<bool>,
    frontier: Vec<Node>,
    incumbent: Incumbent,
    unbounded: bool,
    aborted: bool,
}

impl View for Search {
    type V = SearchModel;

    closed spec fn view(&self) -> SearchModel {
        SearchModel {
            maximize: self.maximize,
            scale: self.scale,
            epsilon: self.epsilon,
            integer: self.integer@,
            frontier: self.frontier@.map_values(|n: Node| n@),
            incumbent: self.incumbent@,
            unbounded: self.unbounded,
            aborted: self.aborted,
        }
    }
}

impl Search {
    pub open spec fn wf(&self) -> bool {
        self@.wf()
    }

    /// A search whose only node is the root, with the given column bounds and
    /// integer columns; a value within `epsilon / scale` of an integer counts
    /// as integral.
    pub fn new(maximize: bool, scale: i64, epsilon: i64, lower: Vec<i64>, upper: Vec<i64>, integer: Vec<bool>) -> (r: Search)
        requires
            scale > 0,
            epsilon >= 0,
            lower@.len() == integer@.len(),
            upper@.len() == integer@.len(),
        ensures
            r.wf(),
            r@.maximize == maximize,
            r@.scale == scale,
            r@.epsilon == epsilon,
            r@.integer == integer@,
            r@.frontier == seq![NodeModel {
                lower: lower@,
                upper: upper@,
                bound: if maximize { i64::MAX } else { i64::MIN },
            }],
            r@.incumbent == (IncumbentModel { maximize, best: None }),
            !r@.unbounded,
            !r@.aborted,
    {
        let bound = if maximize { i64::MAX } else { i64::MIN };
        let mut frontier: Vec<Node> = Vec::new();
        let ghost root = NodeModel { lower: lower@, upper: upper@, bound };
        frontier.push(Node { lower, upper, bound });
        let s = Search {
            maximize,
            scale,
            epsilon,
            integer,
            frontier,
            incumbent: Incumbent::new(maximize),
            unbounded: false,
            aborted: false,
        };
        assert(s@.frontier =~= seq![root]);
        s
    }

    /// Whether the search has ended: no node is left, a relaxation was
    /// unbounded, or the search was cancelled.
    pub fn is_done(&self) -> (r: bool)
        ensures
            r <==> (self@.frontier.len() == 0 || self@.unbounded || self@.aborted),
    {
        self.unbounded || self.aborted || self.frontier.len() == 0
    }

    /// Cancels the search; the incumbent found so far stays.
    pub fn cancel(&mut self)
        requires
            old(self).wf(),
        ensures
            final(self).wf(),
            final(self)@ == (SearchModel { aborted: true, ..old(self)@ }),
    {
        self.aborted = true;
    }

    /// The best solution found so far.
    pub fn incumbent(&self) -> (r: &Incumbent)
        ensures
            r@ == self@.incumbent,
    {
        &self.incumbent
    }

    /// Takes the pending node with the most favourable bound off the frontier
    /// (the latest on ties, so that the search goes deep first).
    pub fn select(&mut self) -> (r: Option<Node>)
        requires
            old(self).wf(),
        ensures
            final(self).wf(),
            r is None <==> old(self)@.frontier.len() == 0,
            r is None ==> final(self)@ == old(self)@,
            r matches Some(n) ==> exists|i: int| old(self)@.is_chosen(i)
                && old(self)@.frontier[i] == n@
                && final(self)@ == (SearchModel { frontier: old(self)@.frontier.remove(i), ..old(self)@ }),
            r matches Some(n) ==> old(self)@.is_best(n@),
    {
        if self.frontier.len() == 0 {
            return None;
        }
        let ghost pre = self@;
        let mut best: usize = 0;
        let mut i: usize = 1;
        while i < self.frontier.len()
            invariant
                self@ == pre,
                1 <= i <= self.frontier@.len(),
                best < i,
                forall|k: int| 0 <= k < i ==> !improves(pre.maximize, (#[trigger] pre.frontier[k]).bound, pre.frontier[best as int].bound),
                forall|k: int| best < k < i ==> improves(pre.maximize, pre.frontier[best as int].bound, (#[trigger] pre.frontier[k]).bound),
            decreases self.frontier@.len() - i,
        {
            let b = self.frontier[best].bound;
            let c = self.frontier[i].bound;
            let not_worse = if self.maximize { c >= b } else { c <= b };
            if not_worse {
                best = i;
            }
            i = i + 1;
        }
        let n = self.frontier.remove(best);
        assert(self@.frontier =~= pre.frontier.remove(best as int));
        assert(pre.frontier[best as int] == n@);
        assert(pre.is_chosen(best as int));
        Some(n)
    }

    /// Takes the outcome of the relaxation of `node` (a node that `select`
    /// handed out) and prunes it, accepts it, or branches on it.
    pub fn report(&mut self, node: &Node, outcome: Relaxation) -> (r: NodeOutcome)
        requires
            old(self).wf(),
            node@.lower.len() == old(self)@.integer.len(),
            node@.upper.len() == old(self)@.integer.len(),
            outcome matches Relaxation::Solved { values, .. } ==> values@.len() == old(self)@.integer.len(),
        ensures
            final(self).wf(),
            final(self)@.incumbent.no_worse_than(old(self)@.incumbent),
            outcome is Infeasible ==> r == NodeOutcome::Pruned && final(self)@ == old(self)@,
            outcome is Unbounded ==> r == NodeOutcome::Unbounded && final(self)@ == (SearchModel { unbounded: true, ..old(self)@ }),
            outcome matches Relaxation::Solved { objective, values } ==> {
                let s = old(self)@;
                let prunable = s.incumbent.best matches Some((b, _)) && !improves(s.maximize, objective, b);
                let integral = forall|k: int| 0 <= k < values@.len() && #[trigger] s.integer[k] ==> frac_dist(values@[k] as int, s.scale as int) <= s.epsilon;
                &&& prunable ==> r == NodeOutcome::Pruned && final(self)@ == s
                &&& !prunable && integral ==> r == NodeOutcome::Integral && final(self)@ == (SearchModel {
                    incumbent: s.incumbent.offered(objective, values@),
                    ..s
                })
                &&& !prunable && !integral ==> (r matches NodeOutcome::Branched(j) && is_most_fractional(values@, s.integer, s.scale as int, s.epsilon as int, j as int)
                    && final(self)@ == (SearchModel {
                        frontier: s.frontier + s.children(node@, j as int, values@[j as int], objective),
                        ..s
                    }))
            },
    {
        match outcome {
            Relaxation::Infeasible => NodeOutcome::Pruned,
            Relaxation::Unbounded => {
                self.unbounded = true;
                NodeOutcome::Unbounded
            },
            Relaxation::Solved { objective, values } => {
                if self.incumbent.can_prune(objective) {
                    return NodeOutcome::Pruned;
                }
                match most_fractional(values.as_slice(), self.integer.as_slice(), self.scale, self.epsilon) {
                    None => {
                        self.incumbent.offer(objective, values);
                        NodeOutcome::Integral
                    },
                    Some(j) => {
                        let ghost pre = self@;
                        let (f, rem) = floor_div_rem(values[j], self.scale);
                        proof {
                            let v = values@[j as int] as int;
                            let d = self.scale as int;
                            vstd::arithmetic::div_mod::lemma_fundamental_div_mod(v, d);
                            assert(d >= 2);
                            assert(f < i64::MAX) by (nonlinear_arith)
                                requires
                                    v == d * f + rem,
                                    0 <= rem,
                                    d >= 2,
                                    v <= i64::MAX,
                            ;
                        }
                        let mut down = Node { lower: copied(node.lower.as_slice()), upper: copied(node.upper.as_slice()), bound: objective };
                        down.upper.set(j, f);
                        let mut up = Node { lower: copied(node.lower.as_slice()), upper: copied(node.upper.as_slice()), bound: objective };
                        up.lower.set(j, f + 1);
                        self.frontier.push(down);
                        self.frontier.push(up);
                        assert(self@.frontier =~= pre.frontier + pre.children(node@, j as int, values@[j as int], objective));
                        NodeOutcome::Branched(j)
                    },
                }
            },
        }
    }

    /// How the search stands: `UserAbort` once cancelled; `Unbounded` after an
    /// unbounded relaxation; with
    /// no node left, `Optimal` where an incumbent was found and `Infeasible`
    /// where none was; stopped early with nodes left, `Suboptimal` with an
    /// incumbent and `Timeout` without.
    pub fn status(&self) -> (r: SolveStatus)
        ensures
            self@.aborted ==> r == SolveStatus::UserAbort,
            !self@.aborted && self@.unbounded ==> r == SolveStatus::Unbounded,
            !self@.aborted && !self@.unbounded && self@.frontier.len() == 0 ==> r == (if self@.incumbent.best is Some {
                SolveStatus::Optimal
            } else {
                SolveStatus::Infeasible
            }),
            !self@.aborted && !self@.unbounded && self@.frontier.len() > 0 ==> r == (if self@.incumbent.best is Some {
                SolveStatus::Suboptimal
            } else {
                SolveStatus::Timeout
            }),
    {
        let found = self.incumbent.objective().is_some();
        if self.aborted {
            SolveStatus::UserAbort
        } else if self.unbounded {
            SolveStatus::Unbounded
        } else if self.frontier.len() == 0 {
            if found {
                SolveStatus::Optimal
            } else {
                SolveStatus::Infeasible
            }
        } else if found {
            SolveStatus::Suboptimal
        } else {
            SolveStatus::Timeout
        }
    }
}

/// Selection is determined by the frontier: at most one node is the chosen
/// one. With `lemma_branching_is_determined` and the exact contract of
/// `report`, each step of a search is a function of its state and of the
/// relaxation outcome, so the same model and outcomes give the same search.
pub proof fn lemma_selection_is_determined(s: SearchModel, i1: int, i2: int)
    requires
        s.is_chosen(i1),
        s.is_chosen(i2),
    ensures
        i1 == i2,
{
    if i1 < i2 {
        assert(improves(s.maximize, s.frontier[i1].bound, s.frontier[i2].bound));
        assert(!improves(s.maximize, s.frontier[i1].bound, s.frontier[i2].bound));
    } else if i2 < i1 {
        assert(improves(s.maximize, s.frontier[i2].bound, s.frontier[i1].bound));
        assert(!improves(s.maximize, s.frontier[i2].bound, s.frontier[i1].bound));
    }
}

/// Branching is determined by the relaxation values: at most one column is
/// the most fractional one.
pub proof fn lemma_branching_is_determined(values: Seq<i64>, integer: Seq<bool>, d: int, eps: int, j1: int, j2: int)
    requires
        values.len() == integer.len(),
        is_most_fractional(values, integer, d, eps, j1),
        is_most_fractional(values, integer, d, eps, j2),
    ensures
        j1 == j2,
{
    if j1 < j2 {
        assert(integer[j1]);
    } else if j2 < j1 {
        assert(integer[j2]);
    }
}

} // verus!
