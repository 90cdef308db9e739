//! The incumbent of a branch-and-bound search: the best integer-feasible
//! solution found so far, replaced only by a strictly better one.
use vstd::prelude::*;

verus! {

/// Whether objective `a` is strictly better than `b` in the given direction.
pub open spec fn improves(maximize: bool, a: i64, b: i64) -> bool {
    if maximize {
        a > b
    } else {
        a < b
    }
}

/// The content of an incumbent: the direction of the search and the best
/// solution so far (objective and variable values), if any.
pub ghost struct IncumbentModel {
    pub maximize: bool,
    pub best: Option<(i64, Seq<i64>)>,
}

impl IncumbentModel {
    /// The incumbent after a solution with objective `obj` and values `vals`
    /// was offered.
    pub open spec fn offered(self, obj: i64, vals: Seq<i64>) -> IncumbentModel {
        match self.best {
            Some((b, _)) if !improves(self.maximize, obj, b) => self,
            _ => IncumbentModel { best: Some((obj, vals)), ..self },
        }
    }

    /// The incumbent after the first `n` of `offers`, in order.
    pub open spec fn after(self, offers: Seq<(i64, Seq<i64>)>, n: int) -> IncumbentModel
        decreases n,
    {
        if n <= 0 {
            self
        } else {
            self.after(offers, n - 1).offered(offers[n - 1].0, offers[n - 1].1)
        }
    }

    /// Whether `self` is at least as good as `other`: it has a solution where
    /// `other` has one, and its objective is not worse.
    pub open spec fn no_worse_than(self, other: IncumbentModel) -> bool {
        match other.best {
            None => true,
            Some((b, _)) => match self.best {
                None => false,
                Some((a, _)) => a == b || improves(self.maximize, a, b),
            },
        }
    }
}

/// The best solution found so far by a search in one direction.
pub struct Incumbent {
    maximize: bool,
    objective: Option<i64>,
    values: Vec<i64>,
}

impl View for Incumbent {
    type V = IncumbentModel;

    closed spec fn view(&self) -> IncumbentModel {
        IncumbentModel {
            maximize: self.maximize,
            best: match self.objective {
                Some(o) => Some((o, self.values@)),
                None => None,
            },
        }
    }
}

impl Incumbent {
    /// An incumbent with no solution yet.
    pub fn new(maximize: bool) -> (r: Incumbent)
        ensures
            r@ == (IncumbentModel { maximize, best: None }),
    {
        Incumbent { maximize, objective: None, values: Vec::new() }
    }

    /// Offers an integer-feasible solution; it becomes the incumbent only where
    /// there is none yet or it is strictly better. Returns whether it did.
    pub fn offer(&mut self, objective: i64, values: Vec<i64>) -> (replaced: bool)
        ensures
            final(self)@ == old(self)@.offered(objective, values@),
            replaced <==> (old(self)@.best is None || improves(old(self)@.maximize, objective, old(self)@.best.unwrap().0)),
            final(self)@.no_worse_than(old(self)@),
    {
        let replace = match self.objective {
            None => true,
            Some(b) => if self.maximize {
                objective > b
            } else {
                objective < b
            },
        };
        if replace {
            self.objective = Some(objective);
            self.values = values;
        }
        replace
    }

    /// Whether a subtree whose relaxation is worth at best `bound` can be
    /// pruned: there is an incumbent and `bound` does not improve on it.
    pub fn can_prune(&self, bound: i64) -> (r: bool)
        ensures
            r <==> (self@.best matches Some((b, _)) && !improves(self@.maximize, bound, b)),
    {
        match self.objective {
            None => false,
            Some(b) => if self.maximize {
                !(bound > b)
            } else {
                !(bound < b)
            },
        }
    }

    /// The objective of the incumbent, if there is one.
    pub fn objective(&self) -> (r: Option<i64>)
        ensures
            r is None <==> self@.best is None,
            r matches Some(o) ==> o == self@.best.unwrap().0,
    {
        self.objective
    }

    /// The variable values of the incumbent, if there is one.
    pub fn values(&self) -> (r: Option<Vec<i64>>)
        ensures
            r is None <==> self@.best is None,
            r matches Some(v) ==> v@ == self@.best.unwrap().1,
    {
        match self.objective {
            None => None,
            Some(_) => {
                let mut v: Vec<i64> = Vec::new();
                let mut i: usize = 0;
                while i < self.values.len()
                    invariant
                        i <= self.values@.len(),
                        v@ == self.values@.subrange(0, i as int),
                    decreases self.values@.len() - i,
                {
                    v.push(self.values[i]);
                    i = i + 1;
                    assert(v@ =~= self.values@.subrange(0, i as int));
                }
                assert(v@ =~= self.values@);
                Some(v)
            },
        }
    }
}

/// The incumbent's objective never worsens as the search goes on: after any
/// run of offers, the incumbent at a later point is at least as good as at an
/// earlier one (for a maximisation, its objective only increases).
pub proof fn lemma_incumbent_never_worsens(m: IncumbentModel, offers: Seq<(i64, Seq<i64>)>, i: int, j: int)
    requires
        0 <= i <= j <= offers.len(),
    ensures
        m.after(offers, j).no_worse_than(m.after(offers, i)),
        m.after(offers, j).maximize == m.maximize,
    decreases j - i,
{
    lemma_after_keeps_direction(m, offers, j);
    if i < j {
        lemma_incumbent_never_worsens(m, offers, i, j - 1);
        lemma_after_keeps_direction(m, offers, j - 1);
    }
}

proof fn lemma_after_keeps_direction(m: IncumbentModel, offers: Seq<(i64, Seq<i64>)>, n: int)
    ensures
        m.after(offers, n).maximize == m.maximize,
    decreases n,
{
    if n > 0 {
        lemma_after_keeps_direction(m, offers, n - 1);
    }
}

} // verus!
