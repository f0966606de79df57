//! The errors of planning and of its configuration.
use vstd::prelude::*;

verus! {

/// What can go wrong when configuring a planner or searching for a plan.
#[derive(Debug, Clone, PartialEq)]
pub enum GTRustHopError {
    /// Something was declared before any domain existed.
    NoDomainCreated { item_type: String },
    /// A domain was looked up by a name that no domain has.
    DomainNotFound { name: String },
    /// No planning strategy was chosen.
    NoPlanningStrategy,
    /// A verbosity outside `0..=3` was asked for.
    InvalidVerboseLevel { level: i32 },
    /// Planning stopped without an answer.
    PlanningFailed { reason: String },
    /// A unigoal method did not achieve its goal.
    MethodVerificationFailed { method: String, goal: String, depth: usize },
    /// A multigoal method did not achieve its multigoal.
    MultigoalVerificationFailed { method: String, multigoal: String, depth: usize },
    /// A todo item that is no action, known task, unigoal with methods, or multigoal.
    InvalidItemType { item: String, depth: usize },
    /// An action does not apply in the current state.
    ActionNotApplicable { action: String },
    /// A command failed while acting.
    CommandFailed { command: String },
    /// A state variable is missing.
    StateVariableNotFound { var_name: String },
    /// A subject is missing from a state variable.
    StateVariableArgNotFound { var_name: String, arg: String },
    /// Any other error.
    Generic { message: String },
}

impl GTRustHopError {
    /// A `NoDomainCreated` error.
    pub fn no_domain_created(item_type: &str) -> (r: Self)
        ensures
            r matches GTRustHopError::NoDomainCreated { item_type: t } && t@ == item_type@,
    {
        GTRustHopError::NoDomainCreated { item_type: item_type.to_owned() }
    }

    /// A `DomainNotFound` error.
    pub fn domain_not_found(name: &str) -> (r: Self)
        ensures
            r matches GTRustHopError::DomainNotFound { name: n } && n@ == name@,
    {
        GTRustHopError::DomainNotFound { name: name.to_owned() }
    }

    /// A `PlanningFailed` error.
    pub fn planning_failed(reason: &str) -> (r: Self)
        ensures
            r matches GTRustHopError::PlanningFailed { reason: t } && t@ == reason@,
    {
        GTRustHopError::PlanningFailed { reason: reason.to_owned() }
    }

    /// A `MethodVerificationFailed` error.
    pub fn method_verification_failed(method: &str, goal: &str, depth: usize) -> (r: Self)
        ensures
            r matches GTRustHopError::MethodVerificationFailed { method: m, goal: g, depth: d }
                && m@ == method@ && g@ == goal@ && d == depth,
    {
        GTRustHopError::MethodVerificationFailed { method: method.to_owned(), goal: goal.to_owned(), depth }
    }

    /// A `MultigoalVerificationFailed` error.
    pub fn multigoal_verification_failed(method: &str, multigoal: &str, depth: usize) -> (r: Self)
        ensures
            r matches GTRustHopError::MultigoalVerificationFailed { method: m, multigoal: g, depth: d }
                && m@ == method@ && g@ == multigoal@ && d == depth,
    {
        GTRustHopError::MultigoalVerificationFailed {
            method: method.to_owned(),
            multigoal: multigoal.to_owned(),
            depth,
        }
    }

    /// An `InvalidItemType` error.
    pub fn invalid_item_type(item: &str, depth: usize) -> (r: Self)
        ensures
            r matches GTRustHopError::InvalidItemType { item: i, depth: d } && i@ == item@ && d == depth,
    {
        GTRustHopError::InvalidItemType { item: item.to_owned(), depth }
    }

    /// An `ActionNotApplicable` error.
    pub fn action_not_applicable(action: &str) -> (r: Self)
        ensures
            r matches GTRustHopError::ActionNotApplicable { action: a } && a@ == action@,
    {
        GTRustHopError::ActionNotApplicable { action: action.to_owned() }
    }

    /// A `CommandFailed` error.
    pub fn command_failed(command: &str) -> (r: Self)
        ensures
            r matches GTRustHopError::CommandFailed { command: c } && c@ == command@,
    {
        GTRustHopError::CommandFailed { command: command.to_owned() }
    }

    /// A `StateVariableNotFound` error.
    pub fn state_variable_not_found(var_name: &str) -> (r: Self)
        ensures
            r matches GTRustHopError::StateVariableNotFound { var_name: v } && v@ == var_name@,
    {
        GTRustHopError::StateVariableNotFound { var_name: var_name.to_owned() }
    }

    /// A `StateVariableArgNotFound` error.
    pub fn state_variable_arg_not_found(var_name: &str, arg: &str) -> (r: Self)
        ensures
            r matches GTRustHopError::StateVariableArgNotFound { var_name: v, arg: a } && v@ == var_name@
                && a@ == arg@,
    {
        GTRustHopError::StateVariableArgNotFound { var_name: var_name.to_owned(), arg: arg.to_owned() }
    }

    /// A `Generic` error.
    pub fn generic(message: &str) -> (r: Self)
        ensures
            r matches GTRustHopError::Generic { message: m } && m@ == message@,
    {
        GTRustHopError::Generic { message: message.to_owned() }
    }
}

/// The result of the library's fallible operations.
pub type Result<T> = core::result::Result<T, GTRustHopError>;

} // verus!
