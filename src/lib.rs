//! An exact, integer-valued model of a mixed-integer linear program: the
//! problem model with its constraint matrix, bounds and variable kinds, an MPS
//! writer, the solver's status and kind codes, and the branch-and-bound driver
//! with its incumbent. The LP relaxations themselves are solved outside.

pub mod bnb;
pub mod kinds;
pub mod model;
pub mod mps;
pub mod search;

pub use kinds::{BoundsMode, ConstraintType, SOSType, SolveStatus, VarType, Verbosity};
