//! The checks that goal verification inserts after a method's expansion.
use super::describe::{value_json, value_text, value_to_json, value_to_string};
use super::search::{verify_g_item, verify_g_result, verify_mg_item, verify_mg_result};
use crate::error::{GTRustHopError, Result};
use crate::model::cells::{holds_all, unsatisfied, VarTable};
use crate::model::cells::holds;
use crate::model::domain::opt_items_view;
use crate::model::item::{values_view, PlanItem};
use crate::model::multigoal::{encoded_goal_holds, Multigoal};
use crate::model::state::State;
use crate::model::value::{Value, ValueView};
use vstd::prelude::*;
use vstd::string::StringExecFns;

verus! {

/// The built-in method of `_verify_g`. Its arguments are the method name,
/// the variable, the subject, the desired value and the depth; it gives
/// nothing to do when the state holds the goal and `None` otherwise, or when
/// the arguments have another shape.
pub fn m_verify_g(state: &State, args: &[Value]) -> (r: Option<Vec<PlanItem>>)
    ensures
        opt_items_view(r) == verify_g_result(state@, values_view(args@)),
{
    if args.len() < 5 {
        return None;
    }
    match (&args[0], &args[1], &args[2], &args[4]) {
        (Value::Str(_), Value::Str(var_name), Value::Str(arg), Value::Int(depth)) => {
            if *depth < 0 {
                return None;
            }
            if state.satisfies_unigoal(var_name.as_str(), arg.as_str(), &args[3]) {
                let r: Vec<PlanItem> = Vec::new();
                assert(opt_items_view(Some(r)) =~~= Some(Seq::empty()));
                Some(r)
            } else {
                None
            }
        },
        _ => None,
    }
}

/// The built-in method of `_verify_mg`. Its arguments are the method name,
/// the encoded multigoal and the depth; it gives nothing to do when the state
/// holds every cell of the multigoal and `None` otherwise, or when the
/// arguments have another shape.
pub fn m_verify_mg(state: &State, args: &[Value]) -> (r: Option<Vec<PlanItem>>)
    ensures
        opt_items_view(r) == verify_mg_result(state@, values_view(args@)),
{
    if args.len() < 3 {
        return None;
    }
    match (&args[0], &args[2]) {
        (Value::Str(_), Value::Int(depth)) => {
            if *depth < 0 {
                return None;
            }
            match encoded_goal_holds(state.cells(), &args[1]) {
                Some(true) => {
                    let r: Vec<PlanItem> = Vec::new();
                    assert(opt_items_view(Some(r)) =~~= Some(Seq::empty()));
                    Some(r)
                },
                _ => None,
            }
        },
        _ => None,
    }
}

/// The check that follows unigoal method `method_name` for `(var_name, arg, desired_value)`.
pub fn create_unigoal_verification_task(
    method_name: &str,
    var_name: &str,
    arg: &str,
    desired_value: &Value,
    depth: usize,
) -> (r: PlanItem)
    ensures
        r@ == verify_g_item(method_name@, var_name@, arg@, desired_value@, depth as nat),
{
    let args = vec![
        Value::Str(method_name.to_owned()),
        Value::Str(var_name.to_owned()),
        Value::Str(arg.to_owned()),
        desired_value.copy_value(),
        Value::Int(depth as i64),
    ];
    let r = PlanItem::Task(String::from_str("_verify_g"), args);
    proof {
        assert(values_view(args@) =~= verify_g_item(method_name@, var_name@, arg@, desired_value@, depth as nat)->Task_1);
    }
    r
}

/// The check that follows multigoal method `method_name` for `multigoal`.
pub fn create_multigoal_verification_task(
    method_name: &str,
    multigoal: &Multigoal,
    depth: usize,
) -> (r: PlanItem)
    ensures
        r@ == verify_mg_item(method_name@, multigoal@, depth as nat),
{
    let args = vec![Value::Str(method_name.to_owned()), multigoal.to_value(), Value::Int(depth as i64)];
    let r = PlanItem::Task(String::from_str("_verify_mg"), args);
    proof {
        assert(values_view(args@) =~= verify_mg_item(method_name@, multigoal@, depth as nat)->Task_1);
    }
    r
}

/// Whether goal verification is on by default.
pub fn is_verification_enabled() -> (r: bool)
    ensures
        r,
{
    true
}

/// A process-wide switch that changes nothing: verification is chosen for
/// each planner, with [`crate::planning::PlannerBuilder::with_goal_verification`].
pub fn set_verification_enabled(_enabled: bool) {
}

/// How a failed unigoal check names its goal: `var[arg] = value`, the value
/// as JSON text.
pub open spec fn goal_text(var: Seq<char>, arg: Seq<char>, value: ValueView) -> Seq<char> {
    var + "["@ + arg + "] = "@ + match value_json(value) {
        Some(j) => j,
        None => value_text(value),
    }
}

/// Checks that a unigoal method achieved `(var_name, arg, desired_value)`:
/// nothing to do when the state holds it, an error naming the method, goal
/// and depth when it does not.
pub fn verify_unigoal(
    state: &State,
    method_name: &str,
    var_name: &str,
    arg: &str,
    desired_value: &Value,
    depth: usize,
) -> (r: Result<Vec<PlanItem>>)
    ensures
        holds(state@.vars, var_name@, arg@, desired_value@) ==> (r matches Ok(v) && v@.len() == 0),
        !holds(state@.vars, var_name@, arg@, desired_value@) ==> (r matches Err(
            GTRustHopError::MethodVerificationFailed { method, goal, depth: d },
        ) && method@ == method_name@ && goal@ == goal_text(var_name@, arg@, desired_value@) && d == depth),
{
    if state.satisfies_unigoal(var_name, arg, desired_value) {
        return Ok(Vec::new());
    }
    let mut goal = String::from_str(var_name);
    goal.append("[");
    goal.append(arg);
    goal.append("] = ");
    let shown = match value_to_json(desired_value) {
        Some(j) => j,
        None => value_to_string(desired_value),
    };
    goal.append(shown.as_str());
    Err(GTRustHopError::MethodVerificationFailed { method: method_name.to_owned(), goal, depth })
}

/// Checks that a multigoal method achieved `multigoal`: nothing to do when
/// the state holds every goal cell, an error naming the method, multigoal
/// (`<Multigoal name>`) and depth when it does not.
pub fn verify_multigoal(state: &State, method_name: &str, multigoal: &Multigoal, depth: usize) -> (r: Result<Vec<PlanItem>>)
    ensures
        holds_all(state@.vars, multigoal@.vars) ==> (r matches Ok(v) && v@.len() == 0),
        !holds_all(state@.vars, multigoal@.vars) ==> (r matches Err(
            GTRustHopError::MultigoalVerificationFailed { method, multigoal: m, depth: d },
        ) && method@ == method_name@ && m@ == "<Multigoal "@ + multigoal@.name + ">"@ && d == depth),
{
    if multigoal.is_satisfied_by(state) {
        return Ok(Vec::new());
    }
    let mut text = String::from_str("<Multigoal ");
    text.append(multigoal.name_text().as_str());
    text.append(">");
    Err(GTRustHopError::MultigoalVerificationFailed { method: method_name.to_owned(), multigoal: text, depth })
}

/// The goal cells of `multigoal` that the state does not hold.
pub fn goals_not_achieved(state: &State, multigoal: &Multigoal) -> (r: VarTable)
    ensures
        r@ == unsatisfied(state@.vars, multigoal@.vars),
{
    multigoal.unsatisfied_goals(state)
}

} // verus!
