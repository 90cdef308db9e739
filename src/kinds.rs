//! The closed enumerations of the solver interface and their numeric codes.
use vstd::prelude::*;

verus! {

/// How much progress output the solver emits.
#[derive(Debug, PartialEq, Eq, Structural, Clone, Copy, PartialOrd, Ord, Hash)]
pub enum Verbosity {
    Neutral,
    Critical,
    Severe,
    Important,
    Normal,
    Detailed,
    Full,
}

/// The relation of a constraint row to its right-hand side.
#[derive(Debug, PartialEq, Eq, Structural, Clone, Copy, PartialOrd, Ord, Hash)]
pub enum ConstraintType {
    Free,
    Le,
    Ge,
    Eq,
}

/// The kind of a special ordered set.
#[derive(Debug, PartialEq, Eq, Structural, Clone, Copy, PartialOrd, Ord, Hash)]
pub enum SOSType {
    Type1,
    Type2,
}

/// Whether a variable is restricted to {0, 1} or continuous.
#[derive(Debug, PartialEq, Eq, Structural, Clone, Copy, PartialOrd, Ord, Hash)]
pub enum VarType {
    Float,
    Binary,
}

/// Whether bound updates may only tighten the current bounds.
#[derive(Debug, PartialEq, Eq, Structural, Clone, Copy, PartialOrd, Ord, Hash)]
pub enum BoundsMode {
    Unrestricted,
    Restrictive,
}

/// The outcome of a solve.
#[derive(Debug, PartialEq, Eq, Structural, Clone, Copy, PartialOrd, Ord, Hash)]
pub enum SolveStatus {
    OutOfMemory,
    NotRun,
    Optimal,
    Suboptimal,
    Infeasible,
    Unbounded,
    Degenerate,
    NumericalFailure,
    UserAbort,
    Timeout,
    Presolved,
    ProcFail,
    ProcBreak,
    FeasibleFound,
    NoFeasibleFound,
}

/// The numeric code of each verbosity level.
pub open spec fn verbosity_code(v: Verbosity) -> i32 {
    match v {
        Verbosity::Neutral => 0,
        Verbosity::Critical => 1,
        Verbosity::Severe => 2,
        Verbosity::Important => 3,
        Verbosity::Normal => 4,
        Verbosity::Detailed => 5,
        Verbosity::Full => 6,
    }
}

/// The numeric code of each constraint type.
pub open spec fn constraint_code(t: ConstraintType) -> i32 {
    match t {
        ConstraintType::Free => 0,
        ConstraintType::Le => 1,
        ConstraintType::Ge => 2,
        ConstraintType::Eq => 3,
    }
}

/// The solve status that the solver reports under each numeric code.
pub open spec fn status_of_code(c: i32) -> Option<SolveStatus> {
    match c {
        -2 => Some(SolveStatus::OutOfMemory),
        -1 => Some(SolveStatus::NotRun),
        0 => Some(SolveStatus::Optimal),
        1 => Some(SolveStatus::Suboptimal),
        2 => Some(SolveStatus::Infeasible),
        3 => Some(SolveStatus::Unbounded),
        4 => Some(SolveStatus::Degenerate),
        5 => Some(SolveStatus::NumericalFailure),
        6 => Some(SolveStatus::UserAbort),
        7 => Some(SolveStatus::Timeout),
        9 => Some(SolveStatus::Presolved),
        10 => Some(SolveStatus::ProcFail),
        11 => Some(SolveStatus::ProcBreak),
        12 => Some(SolveStatus::FeasibleFound),
        13 => Some(SolveStatus::NoFeasibleFound),
        _ => None,
    }
}

impl Verbosity {
    /// The solver's numeric code for this level.
    pub fn code(&self) -> (r: i32)
        ensures
            r == verbosity_code(*self),
    {
        match self {
            Verbosity::Neutral => 0,
            Verbosity::Critical => 1,
            Verbosity::Severe => 2,
            Verbosity::Important => 3,
            Verbosity::Normal => 4,
            Verbosity::Detailed => 5,
            Verbosity::Full => 6,
        }
    }
}

impl ConstraintType {
    /// The solver's numeric code for this constraint type.
    pub fn code(&self) -> (r: i32)
        ensures
            r == constraint_code(*self),
    {
        match self {
            ConstraintType::Free => 0,
            ConstraintType::Le => 1,
            ConstraintType::Ge => 2,
            ConstraintType::Eq => 3,
        }
    }

    /// The constraint type with the given code, if any.
    pub fn from_code(c: i32) -> (r: Option<ConstraintType>)
        ensures
            r matches Some(t) ==> constraint_code(t) == c,
            r is None <==> !(0 <= c <= 3),
    {
        match c {
            0 => Some(ConstraintType::Free),
            1 => Some(ConstraintType::Le),
            2 => Some(ConstraintType::Ge),
            3 => Some(ConstraintType::Eq),
            _ => None,
        }
    }
}

impl SOSType {
    /// The solver's numeric code for this kind of set.
    pub fn code(&self) -> (r: i32)
        ensures
            r == (if *self == SOSType::Type1 { 1i32 } else { 2i32 }),
    {
        match self {
            SOSType::Type1 => 1,
            SOSType::Type2 => 2,
        }
    }
}

impl SolveStatus {
    /// The status that the solver reports with code `c`, or `None` for a code
    /// it never reports.
    pub fn from_code(c: i32) -> (r: Option<SolveStatus>)
        ensures
            r == status_of_code(c),
    {
        match c {
            -2 => Some(SolveStatus::OutOfMemory),
            -1 => Some(SolveStatus::NotRun),
            0 => Some(SolveStatus::Optimal),
            1 => Some(SolveStatus::Suboptimal),
            2 => Some(SolveStatus::Infeasible),
            3 => Some(SolveStatus::Unbounded),
            4 => Some(SolveStatus::Degenerate),
            5 => Some(SolveStatus::NumericalFailure),
            6 => Some(SolveStatus::UserAbort),
            7 => Some(SolveStatus::Timeout),
            9 => Some(SolveStatus::Presolved),
            10 => Some(SolveStatus::ProcFail),
            11 => Some(SolveStatus::ProcBreak),
            12 => Some(SolveStatus::FeasibleFound),
            13 => Some(SolveStatus::NoFeasibleFound),
            _ => None,
        }
    }

    /// Whether the status ends a solve with variable values to report.
    pub fn has_solution(&self) -> (r: bool)
        ensures
            r <==> (*self == SolveStatus::Optimal || *self == SolveStatus::Suboptimal
                || *self == SolveStatus::Presolved || *self == SolveStatus::FeasibleFound),
    {
        match self {
            SolveStatus::Optimal | SolveStatus::Suboptimal | SolveStatus::Presolved
            | SolveStatus::FeasibleFound => true,
            _ => false,
        }
    }
}

} // verus!
