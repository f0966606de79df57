//! Helpers that example domains share: type tests, reading typed values out
//! of states, and a prototypical initial state for travel domains.
use crate::model::cells::{cell, holds, set_cell};
use crate::model::domain::names_view;
use crate::model::state::State;
use crate::model::value::{Value, ValueView};
use std::collections::HashMap;
use vstd::prelude::*;

verus! {

/// Relies on `HashMap::get`: the list stored under the key equal to `k`, if
/// any. A map holds at most one key equal to `k`, so that list is the one
/// under every key with the same text.
#[verifier::external_body]
fn lookup_list<'a>(m: &'a HashMap<String, Vec<String>>, k: &str) -> (r: Option<&'a Vec<String>>)
    ensures
        match r {
            Some(v) => (exists|key: String| key@ == k@ && #[trigger] m@.contains_key(key) && m@[key] == *v) && (
            forall|key: String| key@ == k@ && #[trigger] m@.contains_key(key) ==> m@[key] == *v),
            None => forall|key: String| key@ == k@ ==> !(#[trigger] m@.contains_key(key)),
        },
{
    m.get(k)
}

/// Whether `variable` is listed under type `var_type`.
pub fn is_a(variable: &str, var_type: &str, rigid_types: &HashMap<String, Vec<String>>) -> (r: bool)
    ensures
        r == exists|key: String|
            key@ == var_type@ && #[trigger] rigid_types@.contains_key(key) && names_view(rigid_types@[key]@).contains(
                variable@,
            ),
{
    match lookup_list(rigid_types, var_type) {
        Some(list) => {
            let target = String::from_str(variable);
            let mut i: usize = 0;
            while i < list.len()
                invariant
                    0 <= i <= list@.len(),
                    target@ == variable@,
                    exists|key: String| key@ == var_type@ && #[trigger] rigid_types@.contains_key(key) && rigid_types@[key] == *list,
                    forall|key: String| key@ == var_type@ && #[trigger] rigid_types@.contains_key(key) ==> rigid_types@[key] == *list,
                    forall|k: int| 0 <= k < i ==> list@[k]@ != variable@,
                decreases list@.len() - i,
            {
                if list[i].eq(&target) {
                    proof {
                        assert(names_view(list@)[i as int] == variable@);
                        let key = choose|key: String| key@ == var_type@ && #[trigger] rigid_types@.contains_key(key) && rigid_types@[key] == *list;
                        assert(names_view(rigid_types@[key]@).contains(variable@));
                    }
                    return true;
                }
                i = i + 1;
            }
            proof {
                assert forall|key: String|
                    key@ == var_type@ && #[trigger] rigid_types@.contains_key(key) implies !names_view(
                        rigid_types@[key]@,
                    ).contains(variable@) by {
                    assert(rigid_types@[key] == *list);
                }
            }
            false
        },
        None => false,
    }
}

/// The text of a string value.
pub fn state_value_as_string(value: &Value) -> (r: Option<String>)
    ensures
        match value@ {
            ValueView::Str(s) => r matches Some(t) && t@ == s,
            _ => r is None,
        },
{
    match value {
        Value::Str(s) => Some(s.clone()),
        _ => None,
    }
}

/// The integer of an integer value.
pub fn state_value_as_i64(value: &Value) -> (r: Option<i64>)
    ensures
        match value@ {
            ValueView::Int(i) => r == Some(i),
            _ => r is None,
        },
{
    match value {
        Value::Int(i) => Some(*i),
        _ => None,
    }
}

/// The truth value of a boolean value.
pub fn state_value_as_bool(value: &Value) -> (r: Option<bool>)
    ensures
        match value@ {
            ValueView::Bool(b) => r == Some(b),
            _ => r is None,
        },
{
    match value {
        Value::Bool(b) => Some(*b),
        _ => None,
    }
}

/// Whether cell `(var_name, arg)` of the state holds `expected`.
pub fn state_var_equals(state: &State, var_name: &str, arg: &str, expected: &Value) -> (r: bool)
    ensures
        r == holds(state@.vars, var_name@, arg@, expected@),
{
    state.satisfies_unigoal(var_name, arg, expected)
}

/// The text in cell `(var_name, arg)`, when it holds a string.
pub fn get_state_var_string(state: &State, var_name: &str, arg: &str) -> (r: Option<String>)
    ensures
        match cell(state@.vars, var_name@, arg@) {
            Some(ValueView::Str(s)) => r matches Some(t) && t@ == s,
            _ => r is None,
        },
{
    match state.get_var(var_name, arg) {
        Some(v) => state_value_as_string(v),
        None => None,
    }
}

/// The integer in cell `(var_name, arg)`, when it holds one.
pub fn get_state_var_i64(state: &State, var_name: &str, arg: &str) -> (r: Option<i64>)
    ensures
        match cell(state@.vars, var_name@, arg@) {
            Some(ValueView::Int(i)) => r == Some(i),
            _ => r is None,
        },
{
    match state.get_var(var_name, arg) {
        Some(v) => state_value_as_i64(v),
        None => None,
    }
}

/// The truth value in cell `(var_name, arg)`, when it holds one.
pub fn get_state_var_bool(state: &State, var_name: &str, arg: &str) -> (r: Option<bool>)
    ensures
        match cell(state@.vars, var_name@, arg@) {
            Some(ValueView::Bool(b)) => r == Some(b),
            _ => r is None,
        },
{
    match state.get_var(var_name, arg) {
        Some(v) => state_value_as_bool(v),
        None => None,
    }
}

/// The state `state0` of the travel examples: where alice, bob and the two
/// taxis are, and the cash and debts of alice and bob.
pub fn create_initial_state() -> (r: State)
    ensures
        r@.name == "state0"@,
        r@.copies == 0,
        r@.vars == set_cell(set_cell(set_cell(set_cell(set_cell(set_cell(set_cell(set_cell(
            Seq::empty(),
            "loc"@, "alice"@, ValueView::Str("home_a"@)),
            "loc"@, "bob"@, ValueView::Str("home_b"@)),
            "loc"@, "taxi1"@, ValueView::Str("park"@)),
            "loc"@, "taxi2"@, ValueView::Str("station"@)),
            "cash"@, "alice"@, ValueView::Int(20)),
            "cash"@, "bob"@, ValueView::Int(15)),
            "owe"@, "alice"@, ValueView::Int(0)),
            "owe"@, "bob"@, ValueView::Int(0)),
{
    let mut state = State::new("state0");
    state.set_var("loc", "alice", Value::Str(String::from_str("home_a")));
    state.set_var("loc", "bob", Value::Str(String::from_str("home_b")));
    state.set_var("loc", "taxi1", Value::Str(String::from_str("park")));
    state.set_var("loc", "taxi2", Value::Str(String::from_str("station")));
    state.set_var("cash", "alice", Value::Int(20));
    state.set_var("cash", "bob", Value::Int(15));
    state.set_var("owe", "alice", Value::Int(0));
    state.set_var("owe", "bob", Value::Int(0));
    state
}

} // verus!
