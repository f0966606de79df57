use gtrusthop::domains::{
    create_initial_state, get_state_var_bool, get_state_var_i64, get_state_var_string, is_a, state_value_as_bool,
    state_value_as_i64, state_value_as_string, state_var_equals,
};
use gtrusthop::model::{bool_value, int_value, string_value, Value};
use gtrusthop::planning::describe::value_to_string;
use gtrusthop::planning::verification::{is_verification_enabled, set_verification_enabled};
use gtrusthop::GTRustHopError;
use std::collections::HashMap;

#[test]
fn test_initial_state_creation() {
    let state = create_initial_state();
    assert_eq!(state.name, "state0");

    assert_eq!(get_state_var_string(&state, "loc", "alice"), Some("home_a".to_string()));
    assert_eq!(get_state_var_string(&state, "loc", "bob"), Some("home_b".to_string()));
    assert_eq!(get_state_var_i64(&state, "cash", "alice"), Some(20));
    assert_eq!(get_state_var_i64(&state, "cash", "bob"), Some(15));
    assert_eq!(get_state_var_i64(&state, "owe", "alice"), Some(0));
    assert_eq!(get_state_var_i64(&state, "owe", "bob"), Some(0));
}

#[test]
fn test_state_value_helpers() {
    assert_eq!(state_value_as_string(&string_value("test")), Some("test".to_string()));
    assert_eq!(state_value_as_i64(&int_value(42)), Some(42));
    assert_eq!(state_value_as_bool(&bool_value(true)), Some(true));
    assert_eq!(state_value_as_string(&int_value(42)), None);
    assert_eq!(state_value_as_i64(&string_value("test")), None);
}

#[test]
fn typed_cell_readers() {
    let state = create_initial_state();
    assert!(state_var_equals(&state, "loc", "taxi1", &string_value("park")));
    assert!(!state_var_equals(&state, "loc", "taxi1", &string_value("station")));
    assert_eq!(get_state_var_bool(&state, "cash", "alice"), None);
    assert_eq!(get_state_var_string(&state, "cash", "alice"), None);
}

#[test]
fn is_a_looks_up_type_lists() {
    let mut types = HashMap::new();
    types.insert("person".to_string(), vec!["alice".to_string(), "bob".to_string()]);
    assert!(is_a("alice", "person", &types));
    assert!(!is_a("taxi1", "person", &types));
    assert!(!is_a("alice", "location", &types));
}

#[test]
fn plain_text_of_values() {
    let v = Value::Array(vec![int_value(-12), Value::Object(vec![("k".to_string(), Value::Null)]), bool_value(false)]);
    assert_eq!(value_to_string(&v), "[-12, {k: null}, false]");
    assert_eq!(value_to_string(&int_value(i64::MIN)), "-9223372036854775808");
}

#[test]
fn verification_is_on() {
    set_verification_enabled(false);
    assert!(is_verification_enabled());
}

#[test]
fn error_constructors() {
    assert_eq!(GTRustHopError::no_domain_created("action"), GTRustHopError::NoDomainCreated { item_type: "action".to_string() });
    assert_eq!(GTRustHopError::domain_not_found("d"), GTRustHopError::DomainNotFound { name: "d".to_string() });
    assert_eq!(GTRustHopError::planning_failed("r"), GTRustHopError::PlanningFailed { reason: "r".to_string() });
    assert_eq!(
        GTRustHopError::method_verification_failed("m", "g", 3),
        GTRustHopError::MethodVerificationFailed { method: "m".to_string(), goal: "g".to_string(), depth: 3 }
    );
    assert_eq!(
        GTRustHopError::multigoal_verification_failed("m", "g", 4),
        GTRustHopError::MultigoalVerificationFailed { method: "m".to_string(), multigoal: "g".to_string(), depth: 4 }
    );
    assert_eq!(GTRustHopError::invalid_item_type("i", 5), GTRustHopError::InvalidItemType { item: "i".to_string(), depth: 5 });
    assert_eq!(GTRustHopError::action_not_applicable("a"), GTRustHopError::ActionNotApplicable { action: "a".to_string() });
    assert_eq!(GTRustHopError::command_failed("c"), GTRustHopError::CommandFailed { command: "c".to_string() });
    assert_eq!(GTRustHopError::state_variable_not_found("v"), GTRustHopError::StateVariableNotFound { var_name: "v".to_string() });
    assert_eq!(
        GTRustHopError::state_variable_arg_not_found("v", "a"),
        GTRustHopError::StateVariableArgNotFound { var_name: "v".to_string(), arg: "a".to_string() }
    );
    assert_eq!(GTRustHopError::generic("x"), GTRustHopError::Generic { message: "x".to_string() });
}
