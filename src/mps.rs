//! Writing a model out in MPS form, with fixed columns or free spacing.
//!
//! Rows are named `R<i>` (row 0, the objective, is `R0`) and columns `C<j>`.
//! Only nonzero coefficients and right-hand sides are written; integer columns
//! stand between `INTORG` / `INTEND` markers.
use vstd::prelude::*;

use crate::kinds::ConstraintType;
use crate::model::{Problem, ProblemModel};

verus! {

/// The decimal digits of `n`.
pub open spec fn nat_text(n: nat) -> Seq<char>
    decreases n,
{
    if n < 10 {
        seq![(('0' as u8) + n as u8) as char]
    } else {
        nat_text(n / 10) + nat_text(n % 10)
    }
}

/// The decimal form of `v`, with a leading `-` when negative.
pub open spec fn int_text(v: int) -> Seq<char> {
    if v < 0 {
        seq!['-'] + nat_text((-v) as nat)
    } else {
        nat_text(v as nat)
    }
}

/// Relies on `i64`'s `Display` (through `to_string`): plain decimal digits, a
/// leading `-` for negative values.
#[verifier::external_body]
fn int_to_text(v: i64) -> (r: String)
    ensures
        r@ == int_text(v as int),
{
    v.to_string()
}

/// Relies on `usize`'s `Display` (through `to_string`): plain decimal digits.
#[verifier::external_body]
fn index_to_text(n: usize) -> (r: String)
    ensures
        r@ == nat_text(n as nat),
{
    n.to_string()
}

pub open spec fn row_name(r: int) -> Seq<char> {
    seq!['R'] + nat_text(r as nat)
}

pub open spec fn col_name(c: int) -> Seq<char> {
    seq!['C'] + nat_text(c as nat)
}

pub open spec fn spaces(n: int) -> Seq<char> {
    Seq::new(if n > 0 { n as nat } else { 0 }, |i: int| ' ')
}

/// A field followed by its separator: padded to eight characters and two
/// spaces in fixed form, one space in free form.
pub open spec fn cell(s: Seq<char>, fixed: bool) -> Seq<char> {
    if fixed {
        s + spaces(8 - s.len()) + spaces(2)
    } else {
        s + spaces(1)
    }
}

/// A line of two fields after `lead`, the last unpadded.
pub open spec fn short_line(lead: Seq<char>, a: Seq<char>, b: Seq<char>, fixed: bool) -> Seq<char> {
    lead + cell(a, fixed) + b + seq!['\n']
}

/// A line of three fields after `lead`, the last unpadded.
pub open spec fn data_line(lead: Seq<char>, a: Seq<char>, b: Seq<char>, v: Seq<char>, fixed: bool) -> Seq<char> {
    lead + cell(a, fixed) + cell(b, fixed) + v + seq!['\n']
}

pub open spec fn row_code(m: ProblemModel, r: int) -> char {
    if r == 0 {
        'N'
    } else {
        match m.kinds[r] {
            ConstraintType::Le => 'L',
            ConstraintType::Ge => 'G',
            ConstraintType::Eq => 'E',
            ConstraintType::Free => 'N',
        }
    }
}

/// The ROWS lines of rows `0 .. n`.
pub open spec fn rows_text(m: ProblemModel, n: int) -> Seq<char>
    decreases n,
{
    if n <= 0 {
        seq![]
    } else {
        rows_text(m, n - 1) + seq![' ', row_code(m, n - 1), ' ', ' '] + row_name(n - 1) + seq!['\n']
    }
}

/// The COLUMNS lines of column `c` over rows `0 .. n`.
pub open spec fn entries_text(m: ProblemModel, fixed: bool, c: int, n: int) -> Seq<char>
    decreases n,
{
    if n <= 0 {
        seq![]
    } else {
        entries_text(m, fixed, c, n - 1) + if m.rows[n - 1][c] != 0 {
            data_line(spaces(4), col_name(c), row_name(n - 1), int_text(m.rows[n - 1][c] as int), fixed)
        } else {
            seq![]
        }
    }
}

pub open spec fn marker_line(tag: Seq<char>, fixed: bool) -> Seq<char> {
    data_line(spaces(4), "MARKER"@, "'MARKER'"@, tag, fixed)
}

/// The COLUMNS lines of column `c`, between markers where it is integer.
pub open spec fn column_text(m: ProblemModel, fixed: bool, c: int) -> Seq<char> {
    if m.integer[c] {
        marker_line("'INTORG'"@, fixed) + entries_text(m, fixed, c, m.rows.len() as int) + marker_line(
            "'INTEND'"@,
            fixed,
        )
    } else {
        entries_text(m, fixed, c, m.rows.len() as int)
    }
}

/// The COLUMNS lines of columns `1 .. n`.
pub open spec fn columns_text(m: ProblemModel, fixed: bool, n: int) -> Seq<char>
    decreases n,
{
    if n <= 1 {
        seq![]
    } else {
        columns_text(m, fixed, n - 1) + column_text(m, fixed, n - 1)
    }
}

/// The RHS lines of rows `1 .. n`.
pub open spec fn rhs_text(m: ProblemModel, fixed: bool, n: int) -> Seq<char>
    decreases n,
{
    if n <= 1 {
        seq![]
    } else {
        rhs_text(m, fixed, n - 1) + if m.rows[n - 1][0] != 0 {
            data_line(spaces(4), "RHS"@, row_name(n - 1), int_text(m.rows[n - 1][0] as int), fixed)
        } else {
            seq![]
        }
    }
}

/// The RANGES lines of rows `1 .. n`.
pub open spec fn ranges_text(m: ProblemModel, fixed: bool, n: int) -> Seq<char>
    decreases n,
{
    if n <= 1 {
        seq![]
    } else {
        ranges_text(m, fixed, n - 1) + match m.ranges[n - 1] {
            Some(v) => data_line(spaces(4), "RGS"@, row_name(n - 1), int_text(v as int), fixed),
            None => seq![],
        }
    }
}

/// The BOUNDS lines of column `c`: `FR` for a free column, else `MI` or `LO`
/// for a lower bound other than 0 and `UP` for a finite upper bound.
pub open spec fn bound_text(m: ProblemModel, fixed: bool, c: int) -> Seq<char> {
    let lo = m.lower[c];
    let up = m.upper[c];
    if lo <= -m.infinite && up >= m.infinite {
        short_line(" FR "@, "BND"@, col_name(c), fixed)
    } else {
        (if lo <= -m.infinite {
            short_line(" MI "@, "BND"@, col_name(c), fixed)
        } else if lo != 0 {
            data_line(" LO "@, "BND"@, col_name(c), int_text(lo as int), fixed)
        } else {
            seq![]
        }) + (if up < m.infinite {
            data_line(" UP "@, "BND"@, col_name(c), int_text(up as int), fixed)
        } else {
            seq![]
        })
    }
}

/// The BOUNDS lines of columns `1 .. n`.
pub open spec fn bounds_text(m: ProblemModel, fixed: bool, n: int) -> Seq<char>
    decreases n,
{
    if n <= 1 {
        seq![]
    } else {
        bounds_text(m, fixed, n - 1) + bound_text(m, fixed, n - 1)
    }
}

/// The whole MPS text of a model.
pub open spec fn mps_text(m: ProblemModel, fixed: bool) -> Seq<char> {
    "NAME\nROWS\n"@ + rows_text(m, m.rows.len() as int) + "COLUMNS\n"@ + columns_text(
        m,
        fixed,
        m.ncols + 1int,
    ) + "RHS\n"@ + rhs_text(m, fixed, m.rows.len() as int) + "RANGES\n"@ + ranges_text(
        m,
        fixed,
        m.rows.len() as int,
    ) + "BOUNDS\n"@ + bounds_text(m, fixed, m.ncols + 1int) + "ENDATA\n"@
}

fn push_spaces(out: &mut String, n: usize)
    ensures
        final(out)@ == old(out)@ + spaces(n as int),
{
    let mut i: usize = 0;
    while i < n
        invariant
            i <= n,
            out@ == old(out)@ + spaces(i as int),
        decreases n - i,
    {
        proof {
            reveal_strlit(" ");
        }
        out.append(" ");
        i = i + 1;
        assert(out@ =~= old(out)@ + spaces(i as int));
    }
}

fn push_cell(out: &mut String, s: &str, fixed: bool)
    ensures
        final(out)@ == old(out)@ + cell(s@, fixed),
{
    out.append(s);
    if fixed {
        let len = s.unicode_len();
        if len < 8 {
            push_spaces(out, 8 - len);
        } else {
            push_spaces(out, 0);
        }
        push_spaces(out, 2);
    } else {
        push_spaces(out, 1);
    }
    assert(out@ =~= old(out)@ + cell(s@, fixed));
}

fn push_newline(out: &mut String)
    ensures
        final(out)@ == old(out)@ + seq!['\n'],
{
    proof {
        reveal_strlit("\n");
    }
    out.append("\n");
}

fn push_short_line(out: &mut String, lead: &str, a: &str, b: &str, fixed: bool)
    ensures
        final(out)@ == old(out)@ + short_line(lead@, a@, b@, fixed),
{
    out.append(lead);
    push_cell(out, a, fixed);
    out.append(b);
    push_newline(out);
    assert(out@ =~= old(out)@ + short_line(lead@, a@, b@, fixed));
}

fn push_data_line(out: &mut String, lead: &str, a: &str, b: &str, v: &str, fixed: bool)
    ensures
        final(out)@ == old(out)@ + data_line(lead@, a@, b@, v@, fixed),
{
    out.append(lead);
    push_cell(out, a, fixed);
    push_cell(out, b, fixed);
    out.append(v);
    push_newline(out);
    assert(out@ =~= old(out)@ + data_line(lead@, a@, b@, v@, fixed));
}

fn name_of(prefix: char, n: usize) -> (r: String)
    requires
        prefix == 'R' || prefix == 'C',
    ensures
        r@ == seq![prefix] + nat_text(n as nat),
{
    let mut s = if prefix == 'R' {
        String::from_str("R")
    } else {
        String::from_str("C")
    };
    proof {
        reveal_strlit("R");
        reveal_strlit("C");
    }
    let digits = index_to_text(n);
    s.append(digits.as_str());
    s
}

fn four_spaces() -> (r: String)
    ensures
        r@ == spaces(4),
{
    let mut s = String::new();
    push_spaces(&mut s, 4);
    assert(s@ =~= spaces(4));
    s
}

impl Problem {
    fn write_rows(&self, out: &mut String)
        requires
            self.wf(),
        ensures
            final(out)@ == old(out)@ + rows_text(self@, self@.rows.len() as int),
    {
        let n = self.num_rows() + 1;
        let mut r: usize = 0;
        while r < n
            invariant
                self.wf(),
                n == self@.rows.len(),
                r <= n,
                out@ == old(out)@ + rows_text(self@, r as int),
            decreases n - r,
        {
            let code = if r == 0 {
                "N"
            } else {
                match self.get_constraint_type(r) {
                    Some(ConstraintType::Le) => "L",
                    Some(ConstraintType::Ge) => "G",
                    Some(ConstraintType::Eq) => "E",
                    _ => "N",
                }
            };
            proof {
                reveal_strlit("N");
                reveal_strlit("L");
                reveal_strlit("G");
                reveal_strlit("E");
                reveal_strlit(" ");
            }
            let ghost before = out@;
            out.append(" ");
            out.append(code);
            push_spaces(out, 2);
            let name = name_of('R', r);
            out.append(name.as_str());
            push_newline(out);
            assert(code@ == seq![row_code(self@, r as int)]);
            assert(out@ =~= before + (seq![' ', row_code(self@, r as int), ' ', ' '] + row_name(r as int) + seq!['\n']));
            r = r + 1;
        }
    }

    fn write_column(&self, out: &mut String, c: usize, fixed: bool)
        requires
            self.wf(),
            1 <= c <= self@.ncols,
        ensures
            final(out)@ == old(out)@ + column_text(self@, fixed, c as int),
    {
        let lead = four_spaces();
        proof {
            reveal_strlit("MARKER");
            reveal_strlit("'MARKER'");
            reveal_strlit("'INTORG'");
            reveal_strlit("'INTEND'");
        }
        let integer = self.is_integer(c) == Some(true);
        if integer {
            push_data_line(out, lead.as_str(), "MARKER", "'MARKER'", "'INTORG'", fixed);
        }
        let ghost start = out@;
        let cname = name_of('C', c);
        let n = self.num_rows() + 1;
        let mut r: usize = 0;
        while r < n
            invariant
                self.wf(),
                1 <= c <= self@.ncols,
                n == self@.rows.len(),
                r <= n,
                lead@ == spaces(4),
                cname@ == col_name(c as int),
                out@ == start + entries_text(self@, fixed, c as int, r as int),
            decreases n - r,
        {
            let v = self.get_mat(r, c);
            if v != 0 {
                let rname = name_of('R', r);
                let vtext = int_to_text(v);
                push_data_line(out, lead.as_str(), cname.as_str(), rname.as_str(), vtext.as_str(), fixed);
            }
            assert(out@ =~= start + entries_text(self@, fixed, c as int, r + 1));
            r = r + 1;
        }
        if integer {
            push_data_line(out, lead.as_str(), "MARKER", "'MARKER'", "'INTEND'", fixed);
        }
        assert(out@ =~= old(out)@ + column_text(self@, fixed, c as int));
    }

    fn write_columns(&self, out: &mut String, fixed: bool)
        requires
            self.wf(),
        ensures
            final(out)@ == old(out)@ + columns_text(self@, fixed, self@.ncols + 1int),
    {
        let n = self.num_cols() + 1;
        let mut c: usize = 1;
        while c < n
            invariant
                self.wf(),
                n == self@.ncols + 1,
                1 <= c <= n,
                out@ == old(out)@ + columns_text(self@, fixed, c as int),
            decreases n - c,
        {
            self.write_column(out, c, fixed);
            assert(out@ =~= old(out)@ + columns_text(self@, fixed, c + 1));
            c = c + 1;
        }
    }

    fn write_rhs(&self, out: &mut String, fixed: bool)
        requires
            self.wf(),
        ensures
            final(out)@ == old(out)@ + rhs_text(self@, fixed, self@.rows.len() as int),
    {
        let lead = four_spaces();
        proof {
            reveal_strlit("RHS");
        }
        let n = self.num_rows() + 1;
        let mut r: usize = 1;
        while r < n
            invariant
                self.wf(),
                n == self@.rows.len(),
                1 <= r <= n,
                lead@ == spaces(4),
                out@ == old(out)@ + rhs_text(self@, fixed, r as int),
            decreases n - r,
        {
            let v = self.get_mat(r, 0);
            if v != 0 {
                let rname = name_of('R', r);
                let vtext = int_to_text(v);
                push_data_line(out, lead.as_str(), "RHS", rname.as_str(), vtext.as_str(), fixed);
            }
            assert(out@ =~= old(out)@ + rhs_text(self@, fixed, r + 1));
            r = r + 1;
        }
    }

    fn write_ranges(&self, out: &mut String, fixed: bool)
        requires
            self.wf(),
        ensures
            final(out)@ == old(out)@ + ranges_text(self@, fixed, self@.rows.len() as int),
    {
        let lead = four_spaces();
        proof {
            reveal_strlit("RGS");
        }
        let n = self.num_rows() + 1;
        let mut r: usize = 1;
        while r < n
            invariant
                self.wf(),
                n == self@.rows.len(),
                1 <= r <= n,
                lead@ == spaces(4),
                out@ == old(out)@ + ranges_text(self@, fixed, r as int),
            decreases n - r,
        {
            match self.get_constraint_range(r) {
                Some(v) => {
                    let rname = name_of('R', r);
                    let vtext = int_to_text(v);
                    push_data_line(out, lead.as_str(), "RGS", rname.as_str(), vtext.as_str(), fixed);
                },
                None => {},
            }
            assert(out@ =~= old(out)@ + ranges_text(self@, fixed, r + 1));
            r = r + 1;
        }
    }

    fn write_bound(&self, out: &mut String, c: usize, fixed: bool)
        requires
            self.wf(),
            1 <= c <= self@.ncols,
        ensures
            final(out)@ == old(out)@ + bound_text(self@, fixed, c as int),
    {
        proof {
            reveal_strlit("BND");
            reveal_strlit(" FR ");
            reveal_strlit(" MI ");
            reveal_strlit(" LO ");
            reveal_strlit(" UP ");
        }
        let lo = self.get_lowbo(c);
        let up = self.get_upbo(c);
        let inf = self.get_infinite();
        let cname = name_of('C', c);
        if lo <= -inf && up >= inf {
            push_short_line(out, " FR ", "BND", cname.as_str(), fixed);
        } else {
            if lo <= -inf {
                push_short_line(out, " MI ", "BND", cname.as_str(), fixed);
            } else if lo != 0 {
                let vtext = int_to_text(lo);
                push_data_line(out, " LO ", "BND", cname.as_str(), vtext.as_str(), fixed);
            }
            if up < inf {
                let vtext = int_to_text(up);
                push_data_line(out, " UP ", "BND", cname.as_str(), vtext.as_str(), fixed);
            }
            assert(out@ =~= old(out)@ + bound_text(self@, fixed, c as int));
        }
    }

    fn write_bounds(&self, out: &mut String, fixed: bool)
        requires
            self.wf(),
        ensures
            final(out)@ == old(out)@ + bounds_text(self@, fixed, self@.ncols + 1int),
    {
        let n = self.num_cols() + 1;
        let mut c: usize = 1;
        while c < n
            invariant
                self.wf(),
                n == self@.ncols + 1,
                1 <= c <= n,
                out@ == old(out)@ + bounds_text(self@, fixed, c as int),
            decreases n - c,
        {
            self.write_bound(out, c, fixed);
            assert(out@ =~= old(out)@ + bounds_text(self@, fixed, c + 1));
            c = c + 1;
        }
    }

    /// The model in MPS form; `formatting` is 1 for fixed columns, 2 for free
    /// spacing.
    pub fn write_mps(&self, formatting: i32) -> (r: String)
        requires
            self.wf(),
            formatting == 1 || formatting == 2,
        ensures
            r@ == mps_text(self@, formatting == 1),
    {
        let fixed = formatting == 1;
        let mut out = String::from_str("NAME\nROWS\n");
        self.write_rows(&mut out);
        out.append("COLUMNS\n");
        self.write_columns(&mut out, fixed);
        out.append("RHS\n");
        self.write_rhs(&mut out, fixed);
        out.append("RANGES\n");
        self.write_ranges(&mut out, fixed);
        out.append("BOUNDS\n");
        self.write_bounds(&mut out, fixed);
        out.append("ENDATA\n");
        out
    }

    /// The model in fixed-column MPS form.
    pub fn write_fixedmps(&self) -> (r: String)
        requires
            self.wf(),
        ensures
            r@ == mps_text(self@, true),
    {
        self.write_mps(1)
    }

    /// The model in free-spacing MPS form.
    pub fn write_freemps(&self) -> (r: String)
        requires
            self.wf(),
        ensures
            r@ == mps_text(self@, false),
    {
        self.write_mps(2)
    }
}

} // verus!
