//! The planner: search strategies, goal verification and acting.
pub mod describe;
pub mod laws;
pub mod planner;
pub mod search;
pub mod strategy;
pub mod verification;

pub use describe::{item_to_string, todo_list_to_string};
pub use planner::{create_planner, planner, pyhop, Planner, PlannerBuilder};
pub use strategy::{
    IterativeStrategy, PlanningContext, PlanningResult, PlanningStrategy, PlanningStrategyTrait, RecursiveStrategy,
};
