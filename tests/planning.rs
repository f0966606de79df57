use gtrusthop::model::{int_value, string_value, Behaviour, Domain, Multigoal, PlanItem, State, Value};
use gtrusthop::planning::describe::item_to_string;
use gtrusthop::planning::verification::{
    create_multigoal_verification_task, create_unigoal_verification_task, goals_not_achieved, verify_multigoal,
    verify_unigoal,
};
use gtrusthop::planning::{PlannerBuilder, PlanningContext, PlanningStrategy};
use gtrusthop::GTRustHopError;

fn s(text: &str) -> Value {
    string_value(text)
}

/// A transport domain: `move` sets an object's
/// location, `transport` moves it unless it is there already.
#[derive(Clone)]
struct Transport {
    command_works: bool,
}

impl Behaviour for Transport {
    fn action(&self, name: &str, state: &mut State, args: &[Value]) -> Option<State> {
        if name != "move" || args.len() < 2 {
            return None;
        }
        match (args[0].as_str(), args[1].as_str()) {
            (Some(obj), Some(target)) => {
                state.set_var("loc", obj, s(target));
                Some(state.clone())
            }
            _ => None,
        }
    }

    fn command(&self, name: &str, state: &mut State, args: &[Value]) -> Option<State> {
        if name != "c_move" || !self.command_works {
            return None;
        }
        self.action("move", state, args)
    }

    fn task_method(&self, method: &str, state: &State, args: &[Value]) -> Option<Vec<PlanItem>> {
        if method != "transport" || args.len() < 2 {
            return None;
        }
        match (args[0].as_str(), args[1].as_str()) {
            (Some(obj), Some(target)) => {
                if let Some(current) = state.get_var("loc", obj) {
                    if current.as_str() != Some(target) {
                        return Some(vec![PlanItem::action("move", vec![s(obj), s(target)])]);
                    }
                }
                Some(vec![])
            }
            _ => None,
        }
    }

    fn unigoal_method(&self, _method: &str, _state: &State, _arg: &str, _value: &Value) -> Option<Vec<PlanItem>> {
        None
    }

    fn multigoal_method(&self, _method: &str, _state: &State, _goal: &Multigoal) -> Option<Vec<PlanItem>> {
        None
    }
}

fn transport_domain(with_action: bool, with_command: bool, command_works: bool) -> Domain<Transport> {
    let mut domain = Domain::new("test_domain", Transport { command_works });
    if with_action {
        domain.declare_action("move").unwrap();
    }
    if with_command {
        domain.declare_command("c_move").unwrap();
    }
    domain.declare_task_method("transport", "transport").unwrap();
    domain
}

#[test]
fn test_item_to_string() {
    let task = PlanItem::task("travel", vec![s("alice"), s("home"), s("park")]);
    assert_eq!(item_to_string(&task), "(travel alice home park)");

    let action = PlanItem::action("move", vec![s("obj1"), s("loc2")]);
    assert_eq!(item_to_string(&action), "(move obj1 loc2)");

    let unigoal = PlanItem::unigoal("loc", "alice", string_value("park"));
    assert_eq!(item_to_string(&unigoal), "(loc alice park)");
}

#[test]
fn test_planning_context() {
    let domain = Domain::new("test_domain", Transport { command_works: true });
    let context = PlanningContext::new(domain);

    assert_eq!(context.domain.name, "test_domain");
    assert!(context.verify_goals);
    assert_eq!(context.strategy, PlanningStrategy::Iterative);
}

#[test]
fn test_simple_planning() {
    let domain = transport_domain(true, false, true);
    let planner = PlannerBuilder::new().with_domain(domain).build().unwrap();

    let mut state = State::new("initial_state");
    state.set_var("loc", "obj1", s("loc1"));

    let todo_list = vec![PlanItem::task("transport", vec![s("obj1"), s("loc2")])];

    let plan = planner.find_plan(state, todo_list).unwrap();

    assert!(plan.is_some());
    let plan = plan.unwrap();
    assert_eq!(plan.len(), 1);

    if let PlanItem::Action(action_name, args) = &plan[0] {
        assert_eq!(action_name, "move");
        assert_eq!(args.len(), 2);
        assert_eq!(args[0].as_str(), Some("obj1"));
        assert_eq!(args[1].as_str(), Some("loc2"));
    } else {
        panic!("Expected action in plan");
    }
}

#[test]
fn test_planner_creation() {
    let domain = Domain::new("test_domain", Transport { command_works: true });
    let planner = PlannerBuilder::new().with_domain(domain).with_verbose_level(0).unwrap().build().unwrap();

    assert_eq!(planner.verbose_level(), 0);
}

#[test]
fn test_planner_with_verbose_level() {
    let domain = Domain::new("test_domain", Transport { command_works: true });
    let planner = PlannerBuilder::new().with_domain(domain).with_verbose_level(2).unwrap().build().unwrap();

    assert_eq!(planner.verbose_level(), 2);
    assert!(planner.is_verbose(1));
    assert!(planner.is_verbose(2));
    assert!(!planner.is_verbose(3));
}

#[test]
fn test_run_lazy_lookahead_success() {
    let domain = transport_domain(true, true, true);
    let planner = PlannerBuilder::new().with_domain(domain).with_verbose_level(0).unwrap().build().unwrap();

    let mut state = State::new("initial_state");
    state.set_var("loc", "obj1", s("loc1"));
    let todo_list = vec![PlanItem::task("transport", vec![s("obj1"), s("loc2")])];

    let final_state = planner.run_lazy_lookahead(state, todo_list, 5).unwrap();

    assert_eq!(final_state.get_var("loc", "obj1").unwrap().as_str(), Some("loc2"));
}

#[test]
fn test_run_lazy_lookahead_command_failure() {
    let domain = transport_domain(true, true, false);
    let planner = PlannerBuilder::new().with_domain(domain).with_verbose_level(0).unwrap().build().unwrap();

    let mut state = State::new("initial_state");
    state.set_var("loc", "obj1", s("loc1"));
    let todo_list = vec![PlanItem::task("transport", vec![s("obj1"), s("loc2")])];

    let final_state = planner.run_lazy_lookahead(state, todo_list, 3).unwrap();

    assert_eq!(final_state.get_var("loc", "obj1").unwrap().as_str(), Some("loc1"));
}

#[test]
fn test_run_lazy_lookahead_already_satisfied() {
    let domain = transport_domain(false, false, true);
    let planner = PlannerBuilder::new().with_domain(domain).with_verbose_level(0).unwrap().build().unwrap();

    let mut state = State::new("initial_state");
    state.set_var("loc", "obj1", s("loc2"));
    let todo_list = vec![PlanItem::task("transport", vec![s("obj1"), s("loc2")])];

    let final_state = planner.run_lazy_lookahead(state, todo_list, 5).unwrap();

    assert_eq!(final_state.get_var("loc", "obj1").unwrap().as_str(), Some("loc2"));
}

#[test]
fn test_unigoal_verification_success() {
    let mut state = State::new("test_state");
    state.set_var("loc", "alice", s("park"));

    let result = verify_unigoal(&state, "test_method", "loc", "alice", &s("park"), 0);
    assert!(result.is_ok());
    assert!(result.unwrap().is_empty());
}

#[test]
fn test_unigoal_verification_failure() {
    let mut state = State::new("test_state");
    state.set_var("loc", "alice", s("home"));

    let result = verify_unigoal(&state, "test_method", "loc", "alice", &s("park"), 0);
    assert!(result.is_err());

    if let Err(GTRustHopError::MethodVerificationFailed { method, goal, depth }) = result {
        assert_eq!(method, "test_method");
        assert_eq!(goal, "loc[alice] = \"park\"");
        assert_eq!(depth, 0);
    } else {
        panic!("Expected MethodVerificationFailed error");
    }
}

#[test]
fn test_multigoal_verification_success() {
    let mut state = State::new("test_state");
    state.set_var("loc", "alice", s("park"));
    state.set_var("loc", "bob", s("home"));

    let mut multigoal = Multigoal::new("test_goal");
    multigoal.set_goal("loc", "alice", s("park"));
    multigoal.set_goal("loc", "bob", s("home"));

    let result = verify_multigoal(&state, "test_method", &multigoal, 0);
    assert!(result.is_ok());
    assert!(result.unwrap().is_empty());
}

#[test]
fn test_multigoal_verification_failure() {
    let mut state = State::new("test_state");
    state.set_var("loc", "alice", s("home"));
    state.set_var("loc", "bob", s("home"));

    let mut multigoal = Multigoal::new("test_goal");
    multigoal.set_goal("loc", "alice", s("park"));
    multigoal.set_goal("loc", "bob", s("home"));

    let result = verify_multigoal(&state, "test_method", &multigoal, 0);
    assert!(result.is_err());

    if let Err(GTRustHopError::MultigoalVerificationFailed { method, multigoal: _mg, depth }) = result {
        assert_eq!(method, "test_method");
        assert_eq!(depth, 0);
    } else {
        panic!("Expected MultigoalVerificationFailed error");
    }
}

#[test]
fn test_goals_not_achieved() {
    let mut state = State::new("test_state");
    state.set_var("loc", "alice", s("home"));
    state.set_var("loc", "bob", s("home"));

    let mut multigoal = Multigoal::new("test_goal");
    multigoal.set_goal("loc", "alice", s("park"));
    multigoal.set_goal("loc", "bob", s("home"));
    multigoal.set_goal("cash", "alice", int_value(50));

    let unachieved = goals_not_achieved(&state, &multigoal);

    assert_eq!(unachieved.len(), 2);
    assert!(unachieved.contains_key("loc"));
    assert!(unachieved.contains_key("cash"));
    assert_eq!(unachieved.get("loc").unwrap().get("alice"), Some(&string_value("park")));
    assert_eq!(unachieved.get("cash").unwrap().get("alice"), Some(&int_value(50)));
}

#[test]
fn test_verification_task_creation() {
    let task = create_unigoal_verification_task("test_method", "loc", "alice", &s("park"), 5);

    if let PlanItem::Task(name, args) = task {
        assert_eq!(name, "_verify_g");
        assert_eq!(args.len(), 5);
        assert_eq!(args[0].as_str(), Some("test_method"));
        assert_eq!(args[1].as_str(), Some("loc"));
        assert_eq!(args[2].as_str(), Some("alice"));
        assert_eq!(args[3], string_value("park"));
        assert_eq!(args[4].as_i64(), Some(5));
    } else {
        panic!("Expected Task plan item");
    }
}

#[test]
fn test_multigoal_verification_task_creation() {
    let mut multigoal = Multigoal::new("test_goal");
    multigoal.set_goal("loc", "alice", s("park"));

    let task = create_multigoal_verification_task("test_method", &multigoal, 3);

    if let PlanItem::Task(name, args) = task {
        assert_eq!(name, "_verify_mg");
        assert_eq!(args.len(), 3);
        assert_eq!(args[0].as_str(), Some("test_method"));
        assert_eq!(args[2].as_i64(), Some(3));

        // The multigoal travels as a value that names it.
        match &args[1] {
            Value::Object(entries) => {
                assert_eq!(entries[0].0, "name");
                assert_eq!(entries[0].1.as_str(), Some("test_goal"));
            }
            _ => panic!("Expected an encoded multigoal"),
        }
    } else {
        panic!("Expected Task plan item");
    }
}

#[test]
fn verify_unigoal_message_quotes_and_escapes_strings() {
    let state = State::new("test_state");
    let result = verify_unigoal(&state, "m", "note", "a", &s("say \"hi\""), 7);
    match result {
        Err(GTRustHopError::MethodVerificationFailed { goal, depth, .. }) => {
            assert_eq!(goal, "note[a] = \"say \\\"hi\\\"\"");
            assert_eq!(depth, 7);
        }
        _ => panic!("Expected MethodVerificationFailed error"),
    }
}

#[test]
fn verify_multigoal_names_the_multigoal() {
    let state = State::new("empty");
    let mut multigoal = Multigoal::new("g1");
    multigoal.set_goal("loc", "alice", s("park"));
    match verify_multigoal(&state, "m", &multigoal, 2) {
        Err(GTRustHopError::MultigoalVerificationFailed { multigoal, .. }) => assert_eq!(multigoal, "<Multigoal g1>"),
        _ => panic!("Expected MultigoalVerificationFailed error"),
    }
}

#[test]
fn build_without_domain_fails() {
    let builder: PlannerBuilder<Transport> = PlannerBuilder::new();
    match builder.build() {
        Err(GTRustHopError::Generic { message }) => assert_eq!(message, "Domain is required for planner"),
        _ => panic!("Expected a configuration error"),
    }
}

#[test]
fn verbose_level_out_of_range_fails() {
    let builder: PlannerBuilder<Transport> = PlannerBuilder::new();
    match builder.with_verbose_level(4) {
        Err(GTRustHopError::InvalidVerboseLevel { level }) => assert_eq!(level, 4),
        _ => panic!("Expected InvalidVerboseLevel"),
    }
    let builder: PlannerBuilder<Transport> = PlannerBuilder::new();
    assert!(builder.with_verbose_level(-1).is_err());
}

#[test]
fn lazy_lookahead_without_plan_reports_when_verbose() {
    let domain = transport_domain(true, true, true);
    let planner = PlannerBuilder::new().with_domain(domain).build().unwrap();
    let state = State::new("nowhere");
    let todo_list = vec![PlanItem::unigoal("loc", "obj1", s("loc2"))];
    // `loc` has no unigoal methods: the search stops on an unknown item.
    match planner.run_lazy_lookahead(state, todo_list, 2) {
        Err(GTRustHopError::InvalidItemType { item, depth }) => {
            assert_eq!(item, "(loc obj1 loc2)");
            assert_eq!(depth, 0);
        }
        _ => panic!("Expected InvalidItemType"),
    }
}

#[test]
fn lazy_lookahead_no_plan_quiet_and_verbose() {
    // transport gives no plan for an argument that is not a string.
    let quiet = PlannerBuilder::new().with_domain(transport_domain(true, true, true)).with_verbose_level(0).unwrap().build().unwrap();
    let todo_list = vec![PlanItem::task("transport", vec![int_value(1), int_value(2)])];
    let mut state = State::new("s");
    state.set_var("loc", "obj1", s("loc1"));
    let final_state = quiet.run_lazy_lookahead(state.clone(), todo_list.clone(), 3).unwrap();
    assert_eq!(final_state.get_var("loc", "obj1"), Some(&s("loc1")));

    let loud = PlannerBuilder::new().with_domain(transport_domain(true, true, true)).build().unwrap();
    match loud.run_lazy_lookahead(state, todo_list, 3) {
        Err(GTRustHopError::PlanningFailed { reason }) => assert_eq!(reason, "run_lazy_lookahead: find_plan has failed"),
        _ => panic!("Expected PlanningFailed"),
    }
}

#[test]
fn domain_copy_and_queries() {
    let domain = transport_domain(true, true, true);
    assert!(domain.has_action("move"));
    assert!(domain.has_command("c_move"));
    assert!(domain.has_task_methods("transport"));
    assert!(domain.has_task_methods("_verify_g"));
    assert!(domain.has_task_methods("_verify_mg"));
    assert!(!domain.has_unigoal_methods("loc"));
    assert_eq!(domain.task_names(), vec!["_verify_g".to_string(), "_verify_mg".to_string(), "transport".to_string()]);

    let copy = domain.copy(None);
    assert_eq!(copy.name, "test_domain_copy_0");
    assert_eq!(copy.action_names(), vec!["move".to_string()]);
    let named = domain.copy(Some("other".to_string()));
    assert_eq!(named.name, "other");
}

#[test]
fn methods_append_in_declaration_order() {
    let mut domain = Domain::new("d", Transport { command_works: true });
    domain.declare_task_methods("t", vec!["a".to_string(), "b".to_string()]).unwrap();
    domain.declare_task_method("t", "c").unwrap();
    let ms = domain.get_task_methods("t").unwrap();
    assert_eq!(ms.len(), 3);
    assert_eq!(ms.get(0), "a");
    assert_eq!(ms.get(2), "c");
    domain.declare_action("move").unwrap();
    domain.declare_action("move").unwrap();
    assert_eq!(domain.action_names().len(), 1);
}

#[test]
fn planner_files_multigoals_by_name() {
    let mut goal = Multigoal::new("my_goal");
    goal.set_goal("pos", "a", s("table"));
    let planner = PlannerBuilder::new()
        .with_domain(transport_domain(true, false, true))
        .with_multigoals(vec![goal])
        .build()
        .unwrap();
    let found = planner.get_multigoal("goal_my_goal").unwrap();
    assert_eq!(found.get_goal("pos", "a"), Some(&s("table")));
    assert!(planner.get_multigoal("my_goal").is_none());
    let other = Multigoal::new("second");
    let planner = planner.with_multigoal(other);
    assert!(planner.get_multigoal("goal_second").is_some());
}

#[test]
fn undeclared_action_gives_no_plan() {
    // The behaviour knows `move`, but this domain does not declare it.
    let domain = transport_domain(false, false, true);
    let planner = PlannerBuilder::new().with_domain(domain).build().unwrap();
    let mut state = State::new("s");
    state.set_var("loc", "obj1", s("loc1"));
    let plan = planner.find_plan(state.clone(), vec![PlanItem::action("move", vec![s("obj1"), s("loc2")])]).unwrap();
    assert!(plan.is_none());
    let recursive = PlannerBuilder::new()
        .with_domain(transport_domain(false, false, true))
        .with_strategy(PlanningStrategy::Recursive)
        .build()
        .unwrap();
    let plan = recursive.find_plan(state, vec![PlanItem::action("move", vec![s("obj1"), s("loc2")])]).unwrap();
    assert!(plan.is_none());
}

#[test]
fn reserved_check_names_are_refused() {
    let mut domain = Domain::new("d", Transport { command_works: true });
    for name in ["_verify_g", "_verify_mg"] {
        match domain.declare_action(name) {
            Err(GTRustHopError::Generic { message }) => {
                assert_eq!(message, "_verify_g and _verify_mg are reserved for goal verification")
            }
            _ => panic!("Expected a refusal"),
        }
        assert!(domain.declare_task_method(name, "mine").is_err());
    }
    assert!(domain.declare_actions(vec!["ok".to_string(), "_verify_g".to_string()]).is_err());
    assert!(domain.action_names().is_empty());
    assert_eq!(domain.get_task_methods("_verify_g").map(|m| m.len()), Some(1));
    assert_eq!(domain.get_task_methods("_verify_g").unwrap().get(0), "m_verify_g");
}

#[test]
fn declaring_methods_appends_to_that_task_only() {
    let mut domain = Domain::new("d", Transport { command_works: true });
    domain.declare_task_methods("t", vec!["a".to_string()]).unwrap();
    domain.declare_task_methods("u", vec!["x".to_string()]).unwrap();
    domain.declare_task_methods("t", vec!["b".to_string(), "c".to_string()]).unwrap();
    let t = domain.get_task_methods("t").unwrap();
    assert_eq!((t.len(), t.get(0).as_str(), t.get(1).as_str(), t.get(2).as_str()), (3, "a", "b", "c"));
    assert_eq!(domain.get_task_methods("u").unwrap().len(), 1);
    domain.declare_unigoal_method("loc", "m1").unwrap();
    domain.declare_unigoal_methods("loc", vec!["m2".to_string()]).unwrap();
    assert_eq!(domain.get_unigoal_methods("loc").unwrap().get(1), "m2");
}
