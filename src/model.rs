//! The problem model: an integer constraint matrix whose row 0 is the
//! objective and whose column 0 holds each row's right-hand side, with
//! per-row constraint types and ranges and per-column bounds and kinds.
use vstd::prelude::*;

use crate::kinds::{BoundsMode, ConstraintType, VarType, Verbosity};

verus! {

/// The magnitude at or beyond which a bound counts as infinite, by default.
pub const DEFAULT_INFINITE: i64 = 1_000_000_000_000_000_000;

/// Why a model operation was refused; the model is then left as it was.
#[derive(Debug, PartialEq, Eq, Structural, Clone, Copy)]
pub enum ModelError {
    /// A coefficient vector does not have one entry per row (or column) plus one.
    DimensionError,
    /// Row 0 (the objective) or column 0 (the right-hand side) cannot be deleted.
    ReservedIndexError,
    /// A row or column index beyond the model.
    IndexOutOfRange,
    /// A lower bound above the upper bound.
    InvalidBounds,
    /// The model cannot grow any further.
    CapacityError,
}

/// The mathematical content of a problem.
pub ghost struct ProblemModel {
    /// `rows[r][c]`: the coefficient of column `c` in row `r`; row 0 is the
    /// objective and `rows[r][0]` is the right-hand side of row `r`.
    pub rows: Seq<Seq<i64>>,
    /// The constraint type of each row (entry 0 belongs to the objective).
    pub kinds: Seq<ConstraintType>,
    /// The range of each row, where one is set.
    pub ranges: Seq<Option<i64>>,
    /// The lower bound of each column (entry 0 belongs to the right-hand side).
    pub lower: Seq<i64>,
    /// The upper bound of each column.
    pub upper: Seq<i64>,
    /// Whether each column must take an integer value.
    pub integer: Seq<bool>,
    /// The number of structural columns.
    pub ncols: nat,
    pub maximize: bool,
    pub infinite: i64,
    pub bounds_mode: BoundsMode,
    pub verbosity: Verbosity,
}

impl ProblemModel {
    /// The number of constraint rows (the objective row not counted).
    pub open spec fn nrows(self) -> nat {
        (self.rows.len() - 1) as nat
    }

    pub open spec fn wf(self) -> bool {
        &&& self.rows.len() >= 1
        &&& forall|r: int| 0 <= r < self.rows.len() ==> #[trigger] self.rows[r].len() == self.ncols + 1
        &&& self.kinds.len() == self.rows.len()
        &&& self.ranges.len() == self.rows.len()
        &&& self.lower.len() == self.ncols + 1
        &&& self.upper.len() == self.ncols + 1
        &&& self.integer.len() == self.ncols + 1
        &&& self.ncols + 2 < usize::MAX
        &&& self.rows.len() + 1 < usize::MAX
        &&& self.infinite > 0
    }

    /// Column `c` read down all rows, the objective first.
    pub open spec fn column(self, c: int) -> Seq<i64> {
        Seq::new(self.rows.len(), |r: int| self.rows[r][c])
    }

    /// The model with one more column holding `values`, bounded by [0, infinite)
    /// and continuous.
    pub open spec fn with_column(self, values: Seq<i64>) -> ProblemModel {
        ProblemModel {
            rows: Seq::new(self.rows.len(), |r: int| self.rows[r].push(values[r])),
            lower: self.lower.push(0),
            upper: self.upper.push(self.infinite),
            integer: self.integer.push(false),
            ncols: self.ncols + 1,
            ..self
        }
    }

    /// Whether `c` names a structural column.
    pub open spec fn valid_col(self, c: int) -> bool {
        1 <= c <= self.ncols
    }

    /// Whether `r` names a constraint row.
    pub open spec fn valid_row(self, r: int) -> bool {
        1 <= r <= self.nrows()
    }

    /// The bounds that a request for [lo, hi] on column `c` leaves: values at
    /// or past the infinite threshold become the threshold, and in restrictive
    /// mode a bound only ever tightens.
    pub open spec fn requested_bounds(self, c: int, lo: i64, hi: i64) -> (int, int) {
        let l: int = if lo <= -self.infinite { -self.infinite } else { lo as int };
        let u: int = if hi >= self.infinite { self.infinite as int } else { hi as int };
        if self.bounds_mode == BoundsMode::Restrictive {
            (
                if self.lower[c] >= l { self.lower[c] as int } else { l },
                if self.upper[c] <= u { self.upper[c] as int } else { u },
            )
        } else {
            (l, u)
        }
    }

    /// Whether column `c` is restricted to {0, 1}.
    pub open spec fn is_binary(self, c: int) -> bool {
        self.integer[c] && self.lower[c] == 0 && self.upper[c] == 1
    }

    /// The model with one more constraint row: `coeffs` past entry 0, right-hand
    /// side `target`, type `kind`, no range.
    pub open spec fn with_row(self, coeffs: Seq<i64>, target: i64, kind: ConstraintType) -> ProblemModel {
        ProblemModel {
            rows: self.rows.push(coeffs.update(0, target)),
            kinds: self.kinds.push(kind),
            ranges: self.ranges.push(None),
            ..self
        }
    }

    /// The model without column `c`; the columns after it move down by one.
    pub open spec fn without_column(self, c: int) -> ProblemModel {
        ProblemModel {
            rows: Seq::new(self.rows.len(), |r: int| self.rows[r].remove(c)),
            lower: self.lower.remove(c),
            upper: self.upper.remove(c),
            integer: self.integer.remove(c),
            ncols: (self.ncols - 1) as nat,
            ..self
        }
    }

    /// The model cut down to at most `nr` rows and `nc` columns.
    pub open spec fn truncated(self, nr: nat, nc: nat) -> ProblemModel {
        let rn: int = if nr < self.nrows() { nr + 1int } else { self.rows.len() as int };
        let cn: int = if nc < self.ncols { nc + 1int } else { self.ncols + 1int };
        ProblemModel {
            rows: Seq::new(rn as nat, |r: int| self.rows[r].take(cn)),
            kinds: self.kinds.take(rn),
            ranges: self.ranges.take(rn),
            lower: self.lower.take(cn),
            upper: self.upper.take(cn),
            integer: self.integer.take(cn),
            ncols: (cn - 1) as nat,
            ..self
        }
    }

    /// The model without row `r`; the rows after it move up by one.
    pub open spec fn without_row(self, r: int) -> ProblemModel {
        ProblemModel {
            rows: self.rows.remove(r),
            kinds: self.kinds.remove(r),
            ranges: self.ranges.remove(r),
            ..self
        }
    }
}

/// An empty model with `nrows` zero rows and `ncols` zero columns, minimising,
/// every row `<=`, every column continuous in [0, infinite).
pub open spec fn empty_model(nrows: nat, ncols: nat) -> ProblemModel {
    ProblemModel {
        rows: Seq::new(nrows + 1, |r: int| Seq::new(ncols + 1, |c: int| 0i64)),
        kinds: Seq::new(nrows + 1, |r: int| if r == 0 { ConstraintType::Free } else { ConstraintType::Le }),
        ranges: Seq::new(nrows + 1, |r: int| None),
        lower: Seq::new(ncols + 1, |c: int| 0i64),
        upper: Seq::new(ncols + 1, |c: int| DEFAULT_INFINITE),
        integer: Seq::new(ncols + 1, |c: int| false),
        ncols,
        maximize: false,
        infinite: DEFAULT_INFINITE,
        bounds_mode: BoundsMode::Unrestricted,
        verbosity: Verbosity::Neutral,
    }
}

/// `base` with `values[k]` written at `indices[k]` for each `k` in turn.
pub open spec fn scattered(base: Seq<i64>, values: Seq<i64>, indices: Seq<usize>) -> Seq<i64>
    decreases indices.len(),
{
    if indices.len() == 0 || values.len() == 0 {
        base
    } else {
        scattered(base, values.drop_last(), indices.drop_last()).update(
            indices.last() as int,
            values.last(),
        )
    }
}

proof fn lemma_scattered_len(base: Seq<i64>, values: Seq<i64>, indices: Seq<usize>)
    requires
        forall|k: int| 0 <= k < indices.len() ==> #[trigger] indices[k] < base.len(),
    ensures
        scattered(base, values, indices).len() == base.len(),
    decreases indices.len(),
{
    if indices.len() > 0 && values.len() > 0 {
        lemma_scattered_len(base, values.drop_last(), indices.drop_last());
    }
}

/// `base` with `values` scattered by `indices`.
fn scatter(base: Vec<i64>, values: &[i64], indices: &[usize]) -> (r: Vec<i64>)
    requires
        values@.len() == indices@.len(),
        forall|k: int| 0 <= k < indices@.len() ==> #[trigger] indices@[k] < base@.len(),
    ensures
        r@ == scattered(base@, values@, indices@),
{
    let ghost b = base@;
    let mut v = base;
    let mut i: usize = 0;
    while i < indices.len()
        invariant
            i <= indices@.len(),
            values@.len() == indices@.len(),
            forall|k: int| 0 <= k < indices@.len() ==> #[trigger] indices@[k] < b.len(),
            v@ == scattered(b, values@.take(i as int), indices@.take(i as int)),
        decreases indices@.len() - i,
    {
        proof {
            lemma_scattered_len(b, values@.take(i as int), indices@.take(i as int));
            assert(values@.take(i + 1).drop_last() =~= values@.take(i as int));
            assert(indices@.take(i + 1).drop_last() =~= indices@.take(i as int));
        }
        v.set(indices[i], values[i]);
        i = i + 1;
    }
    assert(values@.take(i as int) =~= values@);
    assert(indices@.take(i as int) =~= indices@);
    v
}

/// A vector of `n` copies of `v`.
fn filled<T: Copy>(n: usize, v: T) -> (r: Vec<T>)
    ensures
        r@ == Seq::new(n as nat, |i: int| v),
{
    let mut r: Vec<T> = Vec::new();
    let mut i: usize = 0;
    while i < n
        invariant
            i <= n,
            r@ == Seq::new(i as nat, |k: int| v),
        decreases n - i,
    {
        r.push(v);
        i = i + 1;
        assert(r@ =~= Seq::new(i as nat, |k: int| v));
    }
    r
}

/// A copy of `s`.
pub(crate) fn copied(s: &[i64]) -> (r: Vec<i64>)
    ensures
        r@ == s@,
{
    let mut r: Vec<i64> = Vec::new();
    let mut i: usize = 0;
    while i < s.len()
        invariant
            i <= s@.len(),
            r@ == s@.subrange(0, i as int),
        decreases s@.len() - i,
    {
        r.push(s[i]);
        i = i + 1;
        assert(r@ =~= s@.subrange(0, i as int));
    }
    assert(r@ =~= s@);
    r
}

/// A mixed-integer linear program under construction.
#[derive(Clone)]
pub struct Problem {
    rows: Vec<Vec<i64>>,
    kinds: Vec<ConstraintType>,
    ranges: Vec<Option<i64>>,
    lower: Vec<i64>,
    upper: Vec<i64>,
    integer: Vec<bool>,
    ncols: usize,
    maximize: bool,
    infinite: i64,
    bounds_mode: BoundsMode,
    verbosity: Verbosity,
}

impl View for Problem {
    type V = ProblemModel;

    closed spec fn view(&self) -> ProblemModel {
        ProblemModel {
            rows: self.rows@.map_values(|r: Vec<i64>| r@),
            kinds: self.kinds@,
            ranges: self.ranges@,
            lower: self.lower@,
            upper: self.upper@,
            integer: self.integer@,
            ncols: self.ncols as nat,
            maximize: self.maximize,
            infinite: self.infinite,
            bounds_mode: self.bounds_mode,
            verbosity: self.verbosity,
        }
    }
}

impl Problem {
    pub open spec fn wf(&self) -> bool {
        self@.wf()
    }

    /// The number of structural columns.
    pub fn num_cols(&self) -> (r: usize)
        requires
            self.wf(),
        ensures
            r == self@.ncols,
    {
        self.ncols
    }

    /// The number of constraint rows.
    pub fn num_rows(&self) -> (r: usize)
        requires
            self.wf(),
        ensures
            r == self@.nrows(),
    {
        self.rows.len() - 1
    }

    /// A model with `nrows` zero rows and `ncols` zero columns, or `None` where
    /// it could not be held.
    pub fn new(nrows: usize, ncols: usize) -> (r: Option<Problem>)
        ensures
            r is None <==> (nrows + 3 >= usize::MAX || ncols + 3 >= usize::MAX),
            r matches Some(p) ==> p.wf() && p@ == empty_model(nrows as nat, ncols as nat),
    {
        if nrows >= usize::MAX - 3 || ncols >= usize::MAX - 3 {
            return None;
        }
        let mut rows: Vec<Vec<i64>> = Vec::new();
        let mut kinds: Vec<ConstraintType> = Vec::new();
        let mut i: usize = 0;
        while i <= nrows
            invariant
                i <= nrows + 1,
                nrows + 3 < usize::MAX,
                ncols + 3 < usize::MAX,
                rows@.len() == i,
                kinds@.len() == i,
                forall|k: int| 0 <= k < i ==> #[trigger] rows@[k]@ == Seq::new(ncols as nat + 1, |c: int| 0i64),
                forall|k: int| 0 <= k < i ==> #[trigger] kinds@[k] == (if k == 0 { ConstraintType::Free } else { ConstraintType::Le }),
            decreases nrows + 1 - i,
        {
            rows.push(filled(ncols + 1, 0i64));
            kinds.push(if i == 0 { ConstraintType::Free } else { ConstraintType::Le });
            i = i + 1;
        }
        let p = Problem {
            rows,
            kinds,
            ranges: filled(nrows + 1, None),
            lower: filled(ncols + 1, 0i64),
            upper: filled(ncols + 1, DEFAULT_INFINITE),
            integer: filled(ncols + 1, false),
            ncols,
            maximize: false,
            infinite: DEFAULT_INFINITE,
            bounds_mode: BoundsMode::Unrestricted,
            verbosity: Verbosity::Neutral,
        };
        assert(p@.rows =~= empty_model(nrows as nat, ncols as nat).rows);
        assert(p@.kinds =~= empty_model(nrows as nat, ncols as nat).kinds);
        Some(p)
    }

    /// Adds the constraint `coeffs * x  kind  target`; entry 0 of `coeffs` is
    /// not read.
    pub fn add_constraint(&mut self, coeffs: &[i64], target: i64, kind: ConstraintType) -> (r: Result<(), ModelError>)
        requires
            old(self).wf(),
        ensures
            final(self).wf(),
            r == Err::<(), ModelError>(ModelError::DimensionError) <==> coeffs@.len() != old(self)@.ncols + 1,
            r == Err::<(), ModelError>(ModelError::CapacityError) <==> (coeffs@.len() == old(self)@.ncols + 1
                && old(self)@.rows.len() + 2 >= usize::MAX),
            r is Ok <==> (coeffs@.len() == old(self)@.ncols + 1 && old(self)@.rows.len() + 2 < usize::MAX),
            r is Ok ==> final(self)@ == old(self)@.with_row(coeffs@, target, kind),
            r is Err ==> final(self)@ == old(self)@,
    {
        if coeffs.len() != self.ncols + 1 {
            return Err(ModelError::DimensionError);
        }
        if self.rows.len() >= usize::MAX - 2 {
            return Err(ModelError::CapacityError);
        }
        let ghost pre = self@;
        let mut row = copied(coeffs);
        row.set(0, target);
        self.rows.push(row);
        self.kinds.push(kind);
        self.ranges.push(None);
        assert(self@.rows =~= pre.with_row(coeffs@, target, kind).rows);
        Ok(())
    }

    /// Deletes column `col`; the columns after it move down by one.
    pub fn del_column(&mut self, col: usize) -> (r: Result<(), ModelError>)
        requires
            old(self).wf(),
        ensures
            final(self).wf(),
            r == Err::<(), ModelError>(ModelError::ReservedIndexError) <==> col == 0,
            r == Err::<(), ModelError>(ModelError::IndexOutOfRange) <==> col > old(self)@.ncols,
            r is Ok <==> old(self)@.valid_col(col as int),
            r is Ok ==> final(self)@ == old(self)@.without_column(col as int),
            r is Err ==> final(self)@ == old(self)@,
    {
        if col == 0 {
            return Err(ModelError::ReservedIndexError);
        }
        if col > self.ncols {
            return Err(ModelError::IndexOutOfRange);
        }
        let ghost pre = self@;
        let n = self.rows.len();
        let mut i: usize = 0;
        while i < n
            invariant
                n == self.rows.len(),
                pre.rows.len() == n,
                pre.wf(),
                1 <= col <= pre.ncols,
                i <= n,
                forall|k: int| 0 <= k < i ==> #[trigger] self.rows@[k]@ == pre.rows[k].remove(col as int),
                forall|k: int| i <= k < n ==> #[trigger] self.rows@[k]@ == pre.rows[k],
                self.kinds == old(self).kinds,
                self.ranges == old(self).ranges,
                self.lower == old(self).lower,
                self.upper == old(self).upper,
                self.integer == old(self).integer,
                self.ncols == old(self).ncols,
                self.maximize == old(self).maximize,
                self.infinite == old(self).infinite,
                self.bounds_mode == old(self).bounds_mode,
                self.verbosity == old(self).verbosity,
            decreases n - i,
        {
            assert(self.rows@[i as int]@ == pre.rows[i as int]);
            self.rows[i].remove(col);
            i = i + 1;
        }
        self.lower.remove(col);
        self.upper.remove(col);
        self.integer.remove(col);
        self.ncols = self.ncols - 1;
        assert(self@.rows =~= pre.without_column(col as int).rows);
        Ok(())
    }

    /// Deletes constraint row `row`; the rows after it move up by one.
    pub fn del_constraint(&mut self, row: usize) -> (r: Result<(), ModelError>)
        requires
            old(self).wf(),
        ensures
            final(self).wf(),
            r == Err::<(), ModelError>(ModelError::ReservedIndexError) <==> row == 0,
            r == Err::<(), ModelError>(ModelError::IndexOutOfRange) <==> row > old(self)@.nrows(),
            r is Ok <==> old(self)@.valid_row(row as int),
            r is Ok ==> final(self)@ == old(self)@.without_row(row as int),
            r is Err ==> final(self)@ == old(self)@,
    {
        if row == 0 {
            return Err(ModelError::ReservedIndexError);
        }
        if row >= self.rows.len() {
            return Err(ModelError::IndexOutOfRange);
        }
        let ghost pre = self@;
        self.rows.remove(row);
        self.kinds.remove(row);
        self.ranges.remove(row);
        assert(self@.rows =~= pre.without_row(row as int).rows);
        Ok(())
    }

    /// Column `col` read down all rows, the objective first, or `None` past the
    /// last column.
    pub fn get_column(&self, col: usize) -> (r: Option<Vec<i64>>)
        requires
            self.wf(),
        ensures
            r is None <==> col > self@.ncols,
            r matches Some(v) ==> v@ == self@.column(col as int),
    {
        if col > self.ncols {
            return None;
        }
        let mut v: Vec<i64> = Vec::new();
        let mut i: usize = 0;
        while i < self.rows.len()
            invariant
                self.wf(),
                col <= self.ncols,
                i <= self.rows@.len(),
                v@ == self@.column(col as int).subrange(0, i as int),
            decreases self.rows@.len() - i,
        {
            assert(self.rows@[i as int]@ == self@.rows[i as int]);
            v.push(self.rows[i][col]);
            i = i + 1;
            assert(v@ =~= self@.column(col as int).subrange(0, i as int));
        }
        assert(v@ =~= self@.column(col as int));
        Some(v)
    }

    /// Row `row` across all columns, its right-hand side first, or `None` past
    /// the last row.
    pub fn get_row(&self, row: usize) -> (r: Option<Vec<i64>>)
        requires
            self.wf(),
        ensures
            r is None <==> row > self@.nrows(),
            r matches Some(v) ==> v@ == self@.rows[row as int],
    {
        if row >= self.rows.len() {
            return None;
        }
        Some(copied(self.rows[row].as_slice()))
    }

    /// Sets the bounds of column `col` to [lower, upper] (see
    /// `ProblemModel::requested_bounds`).
    pub fn set_bounds(&mut self, col: usize, lower: i64, upper: i64) -> (r: Result<(), ModelError>)
        requires
            old(self).wf(),
        ensures
            final(self).wf(),
            r == Err::<(), ModelError>(ModelError::IndexOutOfRange) <==> !old(self)@.valid_col(col as int),
            r == Err::<(), ModelError>(ModelError::InvalidBounds) <==> (old(self)@.valid_col(col as int) && (
                lower > upper || old(self)@.requested_bounds(col as int, lower, upper).0
                    > old(self)@.requested_bounds(col as int, lower, upper).1)),
            r is Ok <==> (old(self)@.valid_col(col as int) && lower <= upper
                && old(self)@.requested_bounds(col as int, lower, upper).0
                    <= old(self)@.requested_bounds(col as int, lower, upper).1),
            r is Err ==> final(self)@ == old(self)@,
            r is Ok ==> final(self)@ == (ProblemModel {
                lower: old(self)@.lower.update(col as int, old(self)@.requested_bounds(col as int, lower, upper).0 as i64),
                upper: old(self)@.upper.update(col as int, old(self)@.requested_bounds(col as int, lower, upper).1 as i64),
                ..old(self)@
            }),
    {
        if col == 0 || col > self.ncols {
            return Err(ModelError::IndexOutOfRange);
        }
        if lower > upper {
            return Err(ModelError::InvalidBounds);
        }
        let inf = self.infinite;
        let mut l = if lower <= -inf { -inf } else { lower };
        let mut u = if upper >= inf { inf } else { upper };
        if self.bounds_mode == BoundsMode::Restrictive {
            if self.lower[col] >= l {
                l = self.lower[col];
            }
            if self.upper[col] <= u {
                u = self.upper[col];
            }
        }
        if l > u {
            return Err(ModelError::InvalidBounds);
        }
        self.lower.set(col, l);
        self.upper.set(col, u);
        Ok(())
    }

    /// Makes column `col` free: both bounds at the infinite threshold.
    pub fn set_unbounded(&mut self, col: usize) -> (r: Result<(), ModelError>)
        requires
            old(self).wf(),
        ensures
            final(self).wf(),
            r is Err <==> !old(self)@.valid_col(col as int),
            r == Err::<(), ModelError>(ModelError::IndexOutOfRange) <==> r is Err,
            r is Err ==> final(self)@ == old(self)@,
            r is Ok ==> final(self)@ == (ProblemModel {
                lower: old(self)@.lower.update(col as int, -old(self)@.infinite as i64),
                upper: old(self)@.upper.update(col as int, old(self)@.infinite),
                ..old(self)@
            }),
    {
        if col == 0 || col > self.ncols {
            return Err(ModelError::IndexOutOfRange);
        }
        let inf = self.infinite;
        self.lower.set(col, -inf);
        self.upper.set(col, inf);
        Ok(())
    }

    /// Whether column `col` can only take negative values, or `None` if there
    /// is no such column.
    pub fn is_negative(&self, col: usize) -> (r: Option<bool>)
        requires
            self.wf(),
        ensures
            r is None <==> !self@.valid_col(col as int),
            r matches Some(b) ==> (b <==> (self@.upper[col as int] <= 0 && self@.lower[col as int] < 0)),
    {
        if col == 0 || col > self.ncols {
            None
        } else {
            Some(self.upper[col] <= 0 && self.lower[col] < 0)
        }
    }

    /// Whether column `col` is free, or `None` if there is no such column.
    pub fn is_unbounded(&self, col: usize) -> (r: Option<bool>)
        requires
            self.wf(),
        ensures
            r is None <==> !self@.valid_col(col as int),
            r matches Some(b) ==> (b <==> (self@.lower[col as int] <= -self@.infinite
                && self@.upper[col as int] >= self@.infinite)),
    {
        if col == 0 || col > self.ncols {
            None
        } else {
            Some(self.lower[col] <= -self.infinite && self.upper[col] >= self.infinite)
        }
    }

    /// Requires (or stops requiring) column `col` to take an integer value.
    pub fn set_integer(&mut self, col: usize, must_be_integer: bool) -> (r: Result<(), ModelError>)
        requires
            old(self).wf(),
        ensures
            final(self).wf(),
            r is Err <==> !old(self)@.valid_col(col as int),
            r == Err::<(), ModelError>(ModelError::IndexOutOfRange) <==> r is Err,
            r is Err ==> final(self)@ == old(self)@,
            r is Ok ==> final(self)@ == (ProblemModel {
                integer: old(self)@.integer.update(col as int, must_be_integer),
                ..old(self)@
            }),
    {
        if col == 0 || col > self.ncols {
            return Err(ModelError::IndexOutOfRange);
        }
        self.integer.set(col, must_be_integer);
        Ok(())
    }

    /// Whether column `col` must be integer, or `None` if there is no such column.
    pub fn is_integer(&self, col: usize) -> (r: Option<bool>)
        requires
            self.wf(),
        ensures
            r is None <==> !self@.valid_col(col as int),
            r matches Some(b) ==> b == self@.integer[col as int],
    {
        if col == 0 || col > self.ncols {
            None
        } else {
            Some(self.integer[col])
        }
    }

    /// Makes column `col` binary (integer in [0, 1]) or continuous.
    pub fn set_variable_type(&mut self, col: usize, vartype: VarType) -> (r: Result<(), ModelError>)
        requires
            old(self).wf(),
        ensures
            final(self).wf(),
            r is Err <==> !old(self)@.valid_col(col as int),
            r == Err::<(), ModelError>(ModelError::IndexOutOfRange) <==> r is Err,
            r is Err ==> final(self)@ == old(self)@,
            r is Ok && vartype == VarType::Binary ==> final(self)@ == (ProblemModel {
                integer: old(self)@.integer.update(col as int, true),
                lower: old(self)@.lower.update(col as int, 0),
                upper: old(self)@.upper.update(col as int, 1),
                ..old(self)@
            }),
            r is Ok && vartype == VarType::Float ==> final(self)@ == (ProblemModel {
                integer: old(self)@.integer.update(col as int, false),
                ..old(self)@
            }),
    {
        if col == 0 || col > self.ncols {
            return Err(ModelError::IndexOutOfRange);
        }
        match vartype {
            VarType::Binary => {
                self.integer.set(col, true);
                self.lower.set(col, 0);
                self.upper.set(col, 1);
            },
            VarType::Float => {
                self.integer.set(col, false);
            },
        }
        Ok(())
    }

    /// `Binary` where column `col` is integer in [0, 1], else `Float`; `None`
    /// if there is no such column.
    pub fn get_variable_type(&self, col: usize) -> (r: Option<VarType>)
        requires
            self.wf(),
        ensures
            r is None <==> !self@.valid_col(col as int),
            r matches Some(t) ==> (t == VarType::Binary <==> self@.is_binary(col as int)),
    {
        if col == 0 || col > self.ncols {
            None
        } else if self.integer[col] && self.lower[col] == 0 && self.upper[col] == 1 {
            Some(VarType::Binary)
        } else {
            Some(VarType::Float)
        }
    }

    /// Sets the type of constraint row `row`.
    pub fn set_constraint_type(&mut self, row: usize, kind: ConstraintType) -> (r: Result<(), ModelError>)
        requires
            old(self).wf(),
        ensures
            final(self).wf(),
            r is Err <==> !old(self)@.valid_row(row as int),
            r == Err::<(), ModelError>(ModelError::IndexOutOfRange) <==> r is Err,
            r is Err ==> final(self)@ == old(self)@,
            r is Ok ==> final(self)@ == (ProblemModel { kinds: old(self)@.kinds.update(row as int, kind), ..old(self)@ }),
    {
        if row == 0 || row >= self.rows.len() {
            return Err(ModelError::IndexOutOfRange);
        }
        self.kinds.set(row, kind);
        Ok(())
    }

    /// The type of constraint row `row`, or `None` if there is no such row.
    pub fn get_constraint_type(&self, row: usize) -> (r: Option<ConstraintType>)
        requires
            self.wf(),
        ensures
            r is None <==> !self@.valid_row(row as int),
            r matches Some(t) ==> t == self@.kinds[row as int],
    {
        if row == 0 || row >= self.rows.len() {
            None
        } else {
            Some(self.kinds[row])
        }
    }

    /// Gives constraint row `row` a range; a range at or past the infinite
    /// threshold removes it.
    pub fn set_constraint_range(&mut self, row: usize, range: i64) -> (r: Result<(), ModelError>)
        requires
            old(self).wf(),
        ensures
            final(self).wf(),
            r is Err <==> !old(self)@.valid_row(row as int),
            r == Err::<(), ModelError>(ModelError::IndexOutOfRange) <==> r is Err,
            r is Err ==> final(self)@ == old(self)@,
            r is Ok ==> final(self)@ == (ProblemModel {
                ranges: old(self)@.ranges.update(
                    row as int,
                    if range >= old(self)@.infinite || range <= -old(self)@.infinite { None } else { Some(range) },
                ),
                ..old(self)@
            }),
    {
        if row == 0 || row >= self.rows.len() {
            return Err(ModelError::IndexOutOfRange);
        }
        let inf = self.infinite;
        let v = if range >= inf || range <= -inf { None } else { Some(range) };
        self.ranges.set(row, v);
        Ok(())
    }

    /// The range of constraint row `row`, or `None` where it has none or there
    /// is no such row.
    pub fn get_constraint_range(&self, row: usize) -> (r: Option<i64>)
        requires
            self.wf(),
        ensures
            !self@.valid_row(row as int) ==> r is None,
            self@.valid_row(row as int) ==> r == self@.ranges[row as int],
    {
        if row == 0 || row >= self.rows.len() {
            None
        } else {
            self.ranges[row]
        }
    }

    /// Sets the objective coefficients; entry 0 of `coeffs` is not read and the
    /// objective's constant is kept.
    pub fn set_objective_function(&mut self, coeffs: &[i64]) -> (r: Result<(), ModelError>)
        requires
            old(self).wf(),
        ensures
            final(self).wf(),
            r is Err <==> coeffs@.len() != old(self)@.ncols + 1,
            r == Err::<(), ModelError>(ModelError::DimensionError) <==> r is Err,
            r is Err ==> final(self)@ == old(self)@,
            r is Ok ==> final(self)@ == (ProblemModel {
                rows: old(self)@.rows.update(0, coeffs@.update(0, old(self)@.rows[0][0])),
                ..old(self)@
            }),
    {
        if coeffs.len() != self.ncols + 1 {
            return Err(ModelError::DimensionError);
        }
        let ghost pre = self@;
        let mut row = copied(coeffs);
        row.set(0, self.rows[0][0]);
        self.rows.set(0, row);
        assert(self@.rows =~= pre.rows.update(0, coeffs@.update(0, pre.rows[0][0])));
        Ok(())
    }

    /// Writes `coeffs[k]` as the objective coefficient of column `indices[k]`,
    /// for each `k` in turn.
    pub fn scatter_objective_function(&mut self, coeffs: &[i64], indices: &[usize]) -> (r: Result<(), ModelError>)
        requires
            old(self).wf(),
        ensures
            final(self).wf(),
            r == Err::<(), ModelError>(ModelError::DimensionError) <==> coeffs@.len() != indices@.len(),
            r == Err::<(), ModelError>(ModelError::IndexOutOfRange) <==> (coeffs@.len() == indices@.len()
                && exists|k: int| 0 <= k < indices@.len() && !old(self)@.valid_col(#[trigger] indices@[k] as int)),
            r is Ok <==> (coeffs@.len() == indices@.len()
                && forall|k: int| 0 <= k < indices@.len() ==> old(self)@.valid_col(#[trigger] indices@[k] as int)),
            r is Err ==> final(self)@ == old(self)@,
            r is Ok ==> final(self)@ == (ProblemModel {
                rows: old(self)@.rows.update(0, scattered(old(self)@.rows[0], coeffs@, indices@)),
                ..old(self)@
            }),
    {
        if coeffs.len() != indices.len() {
            return Err(ModelError::DimensionError);
        }
        let mut i: usize = 0;
        while i < indices.len()
            invariant
                self.wf(),
                i <= indices@.len(),
                self@ == old(self)@,
                coeffs@.len() == indices@.len(),
                forall|k: int| 0 <= k < i ==> self@.valid_col(#[trigger] indices@[k] as int),
            decreases indices@.len() - i,
        {
            if indices[i] == 0 || indices[i] > self.ncols {
                assert(!self@.valid_col(indices@[i as int] as int));
                return Err(ModelError::IndexOutOfRange);
            }
            i = i + 1;
        }
        let ghost pre = self@;
        let row = scatter(copied(self.rows[0].as_slice()), coeffs, indices);
        proof {
            lemma_scattered_len(pre.rows[0], coeffs@, indices@);
        }
        self.rows.set(0, row);
        assert(self@.rows =~= pre.rows.update(0, scattered(pre.rows[0], coeffs@, indices@)));
        Ok(())
    }

    /// Adds a column whose entry in row `indices[k]` is `values[k]` (the later
    /// of two equal indices winning) and zero elsewhere.
    pub fn add_column_scatter(&mut self, values: &[i64], indices: &[usize]) -> (r: Result<(), ModelError>)
        requires
            old(self).wf(),
        ensures
            final(self).wf(),
            r == Err::<(), ModelError>(ModelError::DimensionError) <==> values@.len() != indices@.len(),
            r == Err::<(), ModelError>(ModelError::IndexOutOfRange) <==> (values@.len() == indices@.len()
                && exists|k: int| 0 <= k < indices@.len() && #[trigger] indices@[k] > old(self)@.nrows()),
            r == Err::<(), ModelError>(ModelError::CapacityError) <==> (values@.len() == indices@.len()
                && (forall|k: int| 0 <= k < indices@.len() ==> #[trigger] indices@[k] <= old(self)@.nrows())
                && old(self)@.ncols + 3 >= usize::MAX),
            r is Ok <==> (values@.len() == indices@.len()
                && (forall|k: int| 0 <= k < indices@.len() ==> #[trigger] indices@[k] <= old(self)@.nrows())
                && old(self)@.ncols + 3 < usize::MAX),
            r is Err ==> final(self)@ == old(self)@,
            r is Ok ==> final(self)@ == old(self)@.with_column(
                scattered(Seq::new(old(self)@.rows.len(), |k: int| 0i64), values@, indices@),
            ),
    {
        if values.len() != indices.len() {
            return Err(ModelError::DimensionError);
        }
        let n = self.rows.len();
        let mut i: usize = 0;
        while i < indices.len()
            invariant
                self.wf(),
                n == self.rows@.len(),
                i <= indices@.len(),
                self@ == old(self)@,
                values@.len() == indices@.len(),
                forall|k: int| 0 <= k < i ==> #[trigger] indices@[k] < n,
            decreases indices@.len() - i,
        {
            if indices[i] >= n {
                assert(indices@[i as int] > self@.nrows());
                return Err(ModelError::IndexOutOfRange);
            }
            i = i + 1;
        }
        assert(forall|k: int| 0 <= k < indices@.len() ==> !(#[trigger] indices@[k] > self@.nrows()));
        let base = filled(n, 0i64);
        assert(base@ =~= Seq::new(n as nat, |k: int| 0i64));
        let column = scatter(base, values, indices);
        proof {
            lemma_scattered_len(base@, values@, indices@);
        }
        self.add_column(column.as_slice())
    }

    /// Makes the objective a maximisation.
    pub fn set_maxim(&mut self)
        requires
            old(self).wf(),
        ensures
            final(self).wf(),
            final(self)@ == (ProblemModel { maximize: true, ..old(self)@ }),
    {
        self.maximize = true;
    }

    /// Makes the objective a minimisation.
    pub fn set_minim(&mut self)
        requires
            old(self).wf(),
        ensures
            final(self).wf(),
            final(self)@ == (ProblemModel { maximize: false, ..old(self)@ }),
    {
        self.maximize = false;
    }

    /// Whether the objective is maximised.
    pub fn is_maxim(&self) -> (r: bool)
        requires
            self.wf(),
        ensures
            r == self@.maximize,
    {
        self.maximize
    }

    /// Sets how much progress output a solve of this model emits.
    pub fn set_verbose(&mut self, verbosity: Verbosity)
        requires
            old(self).wf(),
        ensures
            final(self).wf(),
            final(self)@ == (ProblemModel { verbosity, ..old(self)@ }),
    {
        self.verbosity = verbosity;
    }

    /// How much progress output a solve of this model emits.
    pub fn get_verbose(&self) -> (r: Verbosity)
        requires
            self.wf(),
        ensures
            r == self@.verbosity,
    {
        self.verbosity
    }

    /// Sets whether bound updates may only tighten.
    pub fn set_bounds_mode(&mut self, mode: BoundsMode)
        requires
            old(self).wf(),
        ensures
            final(self).wf(),
            final(self)@ == (ProblemModel { bounds_mode: mode, ..old(self)@ }),
    {
        self.bounds_mode = mode;
    }

    /// Whether bound updates may only tighten.
    pub fn get_bounds_mode(&self) -> (r: BoundsMode)
        requires
            self.wf(),
        ensures
            r == self@.bounds_mode,
    {
        self.bounds_mode
    }

    /// Sets the magnitude at or beyond which a bound counts as infinite.
    pub fn set_infinite(&mut self, infinity: i64)
        requires
            old(self).wf(),
            infinity > 0,
        ensures
            final(self).wf(),
            final(self)@ == (ProblemModel { infinite: infinity, ..old(self)@ }),
    {
        self.infinite = infinity;
    }

    /// The magnitude at or beyond which a bound counts as infinite.
    pub fn get_infinite(&self) -> (r: i64)
        requires
            self.wf(),
        ensures
            r == self@.infinite,
    {
        self.infinite
    }

    /// Cuts the model down to at most `nrows` rows and `ncols` columns; rows
    /// and columns past those are deleted, the others kept as they are.
    pub fn resize(&mut self, nrows: usize, ncols: usize)
        requires
            old(self).wf(),
        ensures
            final(self).wf(),
            final(self)@ == old(self)@.truncated(nrows as nat, ncols as nat),
    {
        let ghost pre = self@;
        let rn: usize = if nrows < self.rows.len() - 1 { nrows + 1 } else { self.rows.len() };
        let cn: usize = if ncols < self.ncols { ncols + 1 } else { self.ncols + 1 };
        self.rows.truncate(rn);
        self.kinds.truncate(rn);
        self.ranges.truncate(rn);
        let mut i: usize = 0;
        while i < rn
            invariant
                rn == self.rows.len(),
                1 <= rn <= pre.rows.len(),
                1 <= cn <= pre.ncols + 1,
                pre.wf(),
                i <= rn,
                forall|k: int| 0 <= k < i ==> #[trigger] self.rows@[k]@ == pre.rows[k].take(cn as int),
                forall|k: int| i <= k < rn ==> #[trigger] self.rows@[k]@ == pre.rows[k],
                self.kinds@ == pre.kinds.take(rn as int),
                self.ranges@ == pre.ranges.take(rn as int),
                self.lower == old(self).lower,
                self.upper == old(self).upper,
                self.integer == old(self).integer,
                self.ncols == old(self).ncols,
                self.maximize == old(self).maximize,
                self.infinite == old(self).infinite,
                self.bounds_mode == old(self).bounds_mode,
                self.verbosity == old(self).verbosity,
            decreases rn - i,
        {
            assert(self.rows@[i as int]@ == pre.rows[i as int]);
            self.rows[i].truncate(cn);
            i = i + 1;
        }
        self.lower.truncate(cn);
        self.upper.truncate(cn);
        self.integer.truncate(cn);
        self.ncols = cn - 1;
        assert(self@.rows =~= pre.truncated(nrows as nat, ncols as nat).rows);
        assert(self@.kinds =~= pre.truncated(nrows as nat, ncols as nat).kinds);
        assert(self@.ranges =~= pre.truncated(nrows as nat, ncols as nat).ranges);
        assert(self@.lower =~= pre.truncated(nrows as nat, ncols as nat).lower);
        assert(self@.upper =~= pre.truncated(nrows as nat, ncols as nat).upper);
        assert(self@.integer =~= pre.truncated(nrows as nat, ncols as nat).integer);
    }

    /// The coefficient of column `col` in row `row`.
    pub fn get_mat(&self, row: usize, col: usize) -> (r: i64)
        requires
            self.wf(),
            row <= self@.nrows(),
            col <= self@.ncols,
        ensures
            r == self@.rows[row as int][col as int],
    {
        assert(self.rows@[row as int]@ == self@.rows[row as int]);
        self.rows[row][col]
    }

    /// The lower bound of column `col`.
    pub fn get_lowbo(&self, col: usize) -> (r: i64)
        requires
            self.wf(),
            col <= self@.ncols,
        ensures
            r == self@.lower[col as int],
    {
        self.lower[col]
    }

    /// The upper bound of column `col`.
    pub fn get_upbo(&self, col: usize) -> (r: i64)
        requires
            self.wf(),
            col <= self@.ncols,
        ensures
            r == self@.upper[col as int],
    {
        self.upper[col]
    }

    /// Adds a column; `values` gives its entry in every row, the objective first.
    pub fn add_column(&mut self, values: &[i64]) -> (r: Result<(), ModelError>)
        requires
            old(self).wf(),
        ensures
            final(self).wf(),
            r == Err::<(), ModelError>(ModelError::DimensionError) <==> values@.len() != old(self)@.nrows() + 1,
            r == Err::<(), ModelError>(ModelError::CapacityError) <==> (values@.len() == old(self)@.nrows() + 1
                && old(self)@.ncols + 3 >= usize::MAX),
            r is Ok <==> (values@.len() == old(self)@.nrows() + 1 && old(self)@.ncols + 3 < usize::MAX),
            r is Ok ==> final(self)@ == old(self)@.with_column(values@),
            r is Err ==> final(self)@ == old(self)@,
    {
        if values.len() != self.rows.len() {
            return Err(ModelError::DimensionError);
        }
        if self.ncols >= usize::MAX - 3 {
            return Err(ModelError::CapacityError);
        }
        let ghost pre = self@;
        let n = self.rows.len();
        let mut i: usize = 0;
        while i < n
            invariant
                n == self.rows.len(),
                n == values@.len(),
                pre.rows.len() == n,
                i <= n,
                forall|k: int| 0 <= k < i ==> #[trigger] self.rows@[k]@ == pre.rows[k].push(values@[k]),
                forall|k: int| i <= k < n ==> #[trigger] self.rows@[k]@ == pre.rows[k],
                self.kinds == old(self).kinds,
                self.ranges == old(self).ranges,
                self.lower == old(self).lower,
                self.upper == old(self).upper,
                self.integer == old(self).integer,
                self.ncols == old(self).ncols,
                self.maximize == old(self).maximize,
                self.infinite == old(self).infinite,
                self.bounds_mode == old(self).bounds_mode,
                self.verbosity == old(self).verbosity,
            decreases n - i,
        {
            self.rows[i].push(values[i]);
            i = i + 1;
        }
        self.lower.push(0);
        self.upper.push(self.infinite);
        self.integer.push(false);
        self.ncols = self.ncols + 1;
        assert(self@.rows =~= pre.with_column(values@).rows);
        Ok(())
    }
}

} // verus!

verus! {

/// Inserting a valid column adds exactly one column and leaves every earlier
/// column, with its bounds and kind, as it was; the new column holds the
/// inserted values.
pub proof fn lemma_add_column_keeps_earlier(m: ProblemModel, values: Seq<i64>)
    requires
        m.wf(),
        values.len() == m.nrows() + 1,
        m.ncols + 3 < usize::MAX,
    ensures
        m.with_column(values).wf(),
        m.with_column(values).ncols == m.ncols + 1,
        m.with_column(values).nrows() == m.nrows(),
        m.with_column(values).column(m.ncols + 1int) == values,
        forall|c: int| 0 <= c <= m.ncols ==> {
            &&& #[trigger] m.with_column(values).column(c) == m.column(c)
            &&& m.with_column(values).lower[c] == m.lower[c]
            &&& m.with_column(values).upper[c] == m.upper[c]
            &&& m.with_column(values).integer[c] == m.integer[c]
        },
{
    let n = m.with_column(values);
    assert(n.column(m.ncols + 1int) =~= values);
    assert forall|c: int| 0 <= c <= m.ncols implies #[trigger] n.column(c) == m.column(c) by {
        assert(n.column(c) =~= m.column(c));
    }
}

} // verus!
