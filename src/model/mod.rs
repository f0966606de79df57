//! World states, goals, plan items and the registry of a planning domain.
pub mod cells;
pub mod domain;
pub mod item;
pub mod keyset;
pub mod multigoal;
pub mod state;
pub mod table;
pub mod text;
pub mod value;

pub use cells::{StateVarMap, VarTable};
pub use domain::{Behaviour, Domain};
pub use item::{bool_value, int_value, plan_item_from_tuple, string_value, PlanItem};
pub use multigoal::Multigoal;
pub use state::State;
pub use table::OrderedMap;
pub use value::Value;
