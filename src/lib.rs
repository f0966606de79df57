//! A goal-task-network planner: a depth-first backtracking search that turns
//! tasks, unigoals and multigoals into a sequence of primitive actions, with
//! goal verification and an act-plan-replan loop.
pub mod domains;
pub mod error;
pub mod model;
pub mod planning;

pub use error::{GTRustHopError, Result};
pub use model::{Behaviour, Domain, Multigoal, PlanItem, State, Value};
pub use planning::{pyhop, Planner, PlannerBuilder, PlanningStrategy};

use vstd::prelude::*;

verus! {

/// The version of the library.
pub const VERSION: &'static str = "1.2.1";

} // verus!
