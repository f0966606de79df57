use gtrusthop::model::{bool_value, int_value, string_value, Multigoal, PlanItem, State, Value};

fn s(text: &str) -> Value {
    string_value(text)
}

#[test]
fn test_plan_item_creation() {
    let task = PlanItem::task("travel", vec![s("alice"), s("home"), s("park")]);
    assert!(task.is_task());
    assert_eq!(task.name(), "travel");

    let action = PlanItem::action("move", vec![s("obj1"), s("loc2")]);
    assert!(action.is_action());
    assert_eq!(action.name(), "move");

    let unigoal = PlanItem::unigoal("loc", "alice", s("park"));
    assert!(unigoal.is_unigoal());
    assert_eq!(unigoal.name(), "loc");
}

#[test]
fn test_state_value_conversions() {
    let str_val = string_value("test");
    assert_eq!(str_val, Value::Str("test".to_string()));

    let int_val = int_value(42);
    assert_eq!(int_val, Value::Int(42));

    let bool_val = bool_value(true);
    assert_eq!(bool_val, Value::Bool(true));
}

#[test]
fn test_multigoal_creation() {
    let multigoal = Multigoal::new("test_goal");
    assert_eq!(multigoal.name, "test_goal");
    assert!(multigoal.variables.is_empty());
    assert!(multigoal.is_empty());
}

#[test]
fn test_multigoal_goals() {
    let mut multigoal = Multigoal::new("test");

    multigoal.set_goal("loc", "alice", s("park"));
    multigoal.set_goal("loc", "bob", s("home"));
    multigoal.set_goal("cash", "alice", int_value(50));

    assert_eq!(multigoal.get_goal("loc", "alice"), Some(&s("park")));
    assert_eq!(multigoal.get_goal("loc", "bob"), Some(&s("home")));
    assert_eq!(multigoal.get_goal("cash", "alice"), Some(&int_value(50)));
    assert_eq!(multigoal.get_goal("loc", "charlie"), None);

    assert!(multigoal.has_goal_var("loc"));
    assert!(multigoal.has_goal_arg("loc", "alice"));
    assert!(!multigoal.has_goal_arg("loc", "charlie"));
    assert!(!multigoal.has_goal_var("nonexistent"));

    assert_eq!(multigoal.goal_count(), 3);
    assert!(!multigoal.is_empty());
}

#[test]
fn test_multigoal_satisfaction() {
    let mut multigoal = Multigoal::new("test_goal");
    multigoal.set_goal("loc", "alice", s("park"));
    multigoal.set_goal("loc", "bob", s("home"));

    let mut state = State::new("test_state");
    state.set_var("loc", "alice", s("park"));
    state.set_var("loc", "bob", s("home"));

    assert!(multigoal.is_satisfied_by(&state));

    state.set_var("loc", "alice", s("store"));
    assert!(!multigoal.is_satisfied_by(&state));

    let unsatisfied = multigoal.unsatisfied_goals(&state);
    assert_eq!(unsatisfied.len(), 1);
    assert!(unsatisfied.contains_key("loc"));
    assert_eq!(unsatisfied.get("loc").unwrap().get("alice"), Some(&string_value("park")));
}

#[test]
fn test_multigoal_copy() {
    let mut multigoal = Multigoal::new("original");
    multigoal.set_goal("loc", "alice", s("park"));

    let copy1 = multigoal.copy(None);
    assert_eq!(copy1.name, "original_copy_0");
    assert_eq!(copy1.get_goal("loc", "alice"), Some(&s("park")));

    let copy2 = multigoal.copy(Some("custom_name".to_string()));
    assert_eq!(copy2.name, "custom_name");
    assert_eq!(copy2.get_goal("loc", "alice"), Some(&s("park")));
}

#[test]
fn test_unigoal_conversion() {
    let unigoals = vec![
        ("loc".to_string(), "alice".to_string(), s("park")),
        ("loc".to_string(), "bob".to_string(), s("home")),
        ("cash".to_string(), "alice".to_string(), int_value(50)),
    ];

    let multigoal = Multigoal::from_unigoals("test", unigoals.clone());
    assert_eq!(multigoal.goal_count(), 3);

    let converted_back = multigoal.to_unigoals();
    assert_eq!(converted_back.len(), 3);

    for unigoal in &unigoals {
        assert!(converted_back.contains(unigoal));
    }
}

#[test]
fn test_state_creation() {
    let state = State::new("test_state");
    assert_eq!(state.name, "test_state");
    assert!(state.var_names().is_empty());
}

#[test]
fn test_state_variables() {
    let mut state = State::new("test");

    state.set_var("loc", "alice", s("home"));
    state.set_var("loc", "bob", s("park"));
    state.set_var("cash", "alice", int_value(20));

    assert_eq!(state.get_var("loc", "alice"), Some(&s("home")));
    assert_eq!(state.get_var("loc", "bob"), Some(&s("park")));
    assert_eq!(state.get_var("cash", "alice"), Some(&int_value(20)));
    assert_eq!(state.get_var("loc", "charlie"), None);

    assert!(state.has_var("loc"));
    assert!(state.has_var_arg("loc", "alice"));
    assert!(!state.has_var_arg("loc", "charlie"));
    assert!(!state.has_var("nonexistent"));
}

#[test]
fn test_state_copy() {
    let mut state = State::new("original");
    state.set_var("loc", "alice", s("home"));

    let copy1 = state.copy(None);
    assert_eq!(copy1.name, "original_copy_0");
    assert_eq!(copy1.get_var("loc", "alice"), Some(&s("home")));

    let copy2 = state.copy(Some("custom_name".to_string()));
    assert_eq!(copy2.name, "custom_name");
    assert_eq!(copy2.get_var("loc", "alice"), Some(&s("home")));
}

#[test]
fn test_unigoal_satisfaction() {
    let mut state = State::new("test");
    state.set_var("loc", "alice", s("home"));

    assert!(state.satisfies_unigoal("loc", "alice", &s("home")));
    assert!(!state.satisfies_unigoal("loc", "alice", &s("park")));
    assert!(!state.satisfies_unigoal("loc", "bob", &s("home")));
}

#[test]
fn copy_of_a_copy_counts_on() {
    let state = State::new("s");
    let first = state.copy(None);
    let second = first.copy(None);
    assert_eq!(first.name, "s_copy_0");
    assert_eq!(second.name, "s_copy_0_copy_1");
}

#[test]
fn set_var_keeps_first_insertion_order() {
    let mut state = State::new("order");
    state.set_var("b", "x", int_value(1));
    state.set_var("a", "y", int_value(2));
    state.set_var("b", "z", int_value(3));
    state.set_var("b", "x", int_value(4));
    assert_eq!(state.var_names(), vec!["b".to_string(), "a".to_string()]);
    assert_eq!(state.var_args("b"), Some(vec!["x".to_string(), "z".to_string()]));
    assert_eq!(state.get_var("b", "x"), Some(&int_value(4)));
}

#[test]
fn apply_changes_overwrites_cells() {
    let mut base = State::new("base");
    base.set_var("loc", "alice", s("home"));
    base.set_var("cash", "alice", int_value(5));
    let mut delta = State::new("delta");
    delta.set_var("loc", "alice", s("park"));
    delta.set_var("loc", "bob", s("store"));
    base.apply_changes(&delta);
    assert_eq!(base.get_var("loc", "alice"), Some(&s("park")));
    assert_eq!(base.get_var("loc", "bob"), Some(&s("store")));
    assert_eq!(base.get_var("cash", "alice"), Some(&int_value(5)));
}

#[test]
fn equal_numbers_of_different_kinds_differ() {
    let mut state = State::new("n");
    state.set_var("x", "a", int_value(1));
    assert!(!state.satisfies_unigoal("x", "a", &Value::Number("1.0".to_string())));
    assert!(state.satisfies_unigoal("x", "a", &int_value(1)));
}

#[test]
fn later_unigoal_replaces_earlier_in_multigoal() {
    let unigoals = vec![
        ("loc".to_string(), "alice".to_string(), s("park")),
        ("loc".to_string(), "alice".to_string(), s("home")),
    ];
    let multigoal = Multigoal::from_unigoals("m", unigoals);
    assert_eq!(multigoal.goal_count(), 1);
    assert_eq!(multigoal.get_goal("loc", "alice"), Some(&s("home")));
}

#[test]
fn multigoal_value_encoding_has_name_and_cells() {
    let mut multigoal = Multigoal::new("g");
    multigoal.set_goal("loc", "alice", s("park"));
    let v = multigoal.to_value();
    let expected = Value::Object(vec![
        ("name".to_string(), s("g")),
        (
            "variables".to_string(),
            Value::Object(vec![("loc".to_string(), Value::Object(vec![("alice".to_string(), s("park"))]))]),
        ),
    ]);
    assert_eq!(v, expected);
}

#[test]
fn value_equality_is_structural() {
    let a = Value::Array(vec![int_value(1), Value::Object(vec![("k".to_string(), Value::Null)])]);
    let b = Value::Array(vec![int_value(1), Value::Object(vec![("k".to_string(), Value::Null)])]);
    let c = Value::Array(vec![int_value(1), Value::Object(vec![("k".to_string(), Value::Bool(false))])]);
    assert!(a.equals(&b));
    assert!(!a.equals(&c));
    assert_eq!(a.clone(), b);
}
