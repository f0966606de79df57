use gtrusthop::model::{int_value, string_value, Behaviour, Domain, Multigoal, PlanItem, State, Value};
use gtrusthop::planning::describe::{item_to_string, todo_list_to_string};
use gtrusthop::planning::{PlannerBuilder, PlanningStrategy};
use gtrusthop::GTRustHopError;

fn s(text: &str) -> Value {
    string_value(text)
}

fn text(plan: &Vec<PlanItem>) -> String {
    todo_list_to_string(plan)
}

/// A small travel domain: walking, and a taxi that fails as a command while
/// the traveller is at `home_a`; a flag domain for backtracking; and unigoal
/// and multigoal methods over `loc`.
struct World {
    faulty_unigoal_method: bool,
}

impl Behaviour for World {
    fn action(&self, name: &str, state: &mut State, args: &[Value]) -> Option<State> {
        match name {
            "walk" => {
                let (p, from, to) = (args.get(0)?.as_str()?, args.get(1)?.as_str()?, args.get(2)?.as_str()?);
                if state.get_var("loc", p).and_then(|v| v.as_str()) == Some(from) {
                    state.set_var("loc", p, s(to));
                    Some(state.clone())
                } else {
                    None
                }
            }
            "call_taxi" | "ride_taxi" => {
                let (p, to) = (args.get(0)?.as_str()?, args.get(1)?.as_str()?);
                let cash = state.get_var("cash", p)?.as_i64()?;
                if cash < 10 {
                    return None;
                }
                state.set_var("loc", p, s(to));
                state.set_var("cash", p, int_value(cash - 10));
                Some(state.clone())
            }
            "putv" => {
                let n = args.get(0)?.as_i64()?;
                state.set_var("flag", "value", int_value(n));
                Some(state.clone())
            }
            "getv" => {
                let n = args.get(0)?.as_i64()?;
                if state.get_var("flag", "value") == Some(&int_value(n)) {
                    Some(state.clone())
                } else {
                    None
                }
            }
            _ => None,
        }
    }

    fn command(&self, name: &str, state: &mut State, args: &[Value]) -> Option<State> {
        match name {
            "c_call_taxi" => {
                let p = args.get(0)?.as_str()?;
                if state.get_var("loc", p).and_then(|v| v.as_str()) == Some("home_a") {
                    None
                } else {
                    self.action("call_taxi", state, args)
                }
            }
            _ => None,
        }
    }

    fn task_method(&self, method: &str, state: &State, args: &[Value]) -> Option<Vec<PlanItem>> {
        match method {
            "travel_by_foot" => {
                let (p, from, to) = (args.get(0)?.as_str()?, args.get(1)?.as_str()?, args.get(2)?.as_str()?);
                if from == "home_a" && to == "park" {
                    Some(vec![PlanItem::action("walk", vec![s(p), s(from), s(to)])])
                } else {
                    None
                }
            }
            "travel_by_taxi" => {
                let (p, to) = (args.get(0)?.as_str()?, args.get(2)?.as_str()?);
                if state.get_var("cash", p)?.as_i64()? >= 10 {
                    Some(vec![PlanItem::action("call_taxi", vec![s(p), s(to)])])
                } else {
                    None
                }
            }
            "m_err" => Some(vec![PlanItem::action("putv", vec![int_value(0)]), PlanItem::action("getv", vec![int_value(1)])]),
            "m0" => Some(vec![PlanItem::action("putv", vec![int_value(0)]), PlanItem::action("getv", vec![int_value(0)])]),
            "m1" => Some(vec![PlanItem::action("putv", vec![int_value(1)]), PlanItem::action("getv", vec![int_value(1)])]),
            "m_need0" => Some(vec![PlanItem::action("getv", vec![int_value(0)])]),
            _ => None,
        }
    }

    fn unigoal_method(&self, method: &str, state: &State, arg: &str, value: &Value) -> Option<Vec<PlanItem>> {
        match method {
            "walk_there" => {
                if self.faulty_unigoal_method {
                    return Some(vec![]);
                }
                let from = state.get_var("loc", arg)?.as_str()?.to_string();
                Some(vec![PlanItem::action("walk", vec![s(arg), s(&from), value.clone()])])
            }
            _ => None,
        }
    }

    fn multigoal_method(&self, method: &str, state: &State, goal: &Multigoal) -> Option<Vec<PlanItem>> {
        match method {
            "each_cell" => {
                let mut items = Vec::new();
                for (var, arg, value) in goal.to_unigoals() {
                    if !state.satisfies_unigoal(&var, &arg, &value) {
                        items.push(PlanItem::unigoal(&var, &arg, value));
                    }
                }
                Some(items)
            }
            _ => None,
        }
    }
}

fn world(faulty: bool, multigoal_methods: bool) -> Domain<World> {
    let mut d = Domain::new("world", World { faulty_unigoal_method: faulty });
    for a in ["walk", "call_taxi", "putv", "getv"] {
        d.declare_action(a).unwrap();
    }
    d.declare_command("c_call_taxi").unwrap();
    d.declare_task_methods("travel", vec!["travel_by_taxi".to_string(), "travel_by_foot".to_string()]).unwrap();
    d.declare_task_methods("put_it", vec!["m_err".to_string(), "m0".to_string(), "m1".to_string()]).unwrap();
    d.declare_task_method("need0", "m_need0").unwrap();
    d.declare_unigoal_method("loc", "walk_there").unwrap();
    if multigoal_methods {
        d.declare_multigoal_method("each_cell").unwrap();
    }
    d
}

fn alice_at(place: &str, cash: i64) -> State {
    let mut st = State::new("state0");
    st.set_var("loc", "alice", s(place));
    st.set_var("cash", "alice", int_value(cash));
    st
}

fn travel() -> Vec<PlanItem> {
    vec![PlanItem::task("travel", vec![s("alice"), s("home_a"), s("park")])]
}

fn both_strategies(domain_of: impl Fn() -> Domain<World>, state: &State, todo: &Vec<PlanItem>) -> Vec<String> {
    let mut out = Vec::new();
    for strategy in [PlanningStrategy::Recursive, PlanningStrategy::Iterative] {
        let planner = PlannerBuilder::new().with_domain(domain_of()).with_strategy(strategy).build().unwrap();
        let answer = match planner.find_plan(state.clone(), todo.clone()) {
            Ok(Some(plan)) => text(&plan),
            Ok(None) => "no plan".to_string(),
            Err(e) => format!("{:?}", e),
        };
        out.push(answer);
    }
    out
}

#[test]
fn trivial_walk() {
    let planner = PlannerBuilder::new().with_domain(world(false, false)).build().unwrap();
    let plan = planner.find_plan(alice_at("home_a", 0), travel()).unwrap().unwrap();
    assert_eq!(text(&plan), "[(walk alice home_a park)]");
}

#[test]
fn backtracking_over_three_task_methods() {
    let mut st = State::new("flags");
    st.set_var("flag", "value", int_value(-1));
    let todo = vec![PlanItem::task("put_it", vec![]), PlanItem::task("need0", vec![])];
    for answer in both_strategies(|| world(false, false), &st, &todo) {
        assert_eq!(answer, "[(putv 0), (getv 0), (getv 0)]");
    }
}

#[test]
fn already_satisfied_multigoal_gives_empty_plan() {
    let mut st = State::new("s");
    st.set_var("at", "package1", s("location1"));
    let mut goal = Multigoal::new("g");
    goal.set_goal("at", "package1", s("location1"));
    let planner = PlannerBuilder::new().with_domain(world(false, false)).build().unwrap();
    let plan = planner.find_plan(st, vec![PlanItem::multigoal(goal)]).unwrap().unwrap();
    assert!(plan.is_empty());
}

#[test]
fn lazy_replan_walks_when_cash_is_short() {
    let planner = PlannerBuilder::new().with_domain(world(false, false)).with_verbose_level(0).unwrap().build().unwrap();
    let final_state = planner.run_lazy_lookahead(alice_at("home_a", 5), travel(), 5).unwrap();
    assert_eq!(final_state.get_var("loc", "alice"), Some(&s("park")));
    assert_eq!(final_state.get_var("cash", "alice"), Some(&int_value(5)));
}

#[test]
fn lazy_replan_after_failing_command() {
    // With cash the planner prefers the taxi; the taxi command fails at
    // home_a, so the state stays and the loop runs out of tries.
    let planner = PlannerBuilder::new().with_domain(world(false, false)).with_verbose_level(0).unwrap().build().unwrap();
    let final_state = planner.run_lazy_lookahead(alice_at("home_a", 20), travel(), 3).unwrap();
    assert_eq!(final_state.get_var("loc", "alice"), Some(&s("home_a")));
    assert_eq!(final_state.get_var("cash", "alice"), Some(&int_value(20)));
}

#[test]
fn unknown_task_is_an_error() {
    let planner = PlannerBuilder::new().with_domain(world(false, false)).build().unwrap();
    match planner.find_plan(State::new("s"), vec![PlanItem::task("fly", vec![])]) {
        Err(GTRustHopError::InvalidItemType { item, depth }) => {
            assert_eq!(item, "(fly)");
            assert_eq!(depth, 0);
        }
        other => panic!("Expected InvalidItemType, got {:?}", other.map(|p| p.map(|v| text(&v)))),
    }
}

#[test]
fn empty_todo_gives_empty_plan() {
    let planner = PlannerBuilder::new().with_domain(world(false, false)).build().unwrap();
    let plan = planner.find_plan(alice_at("park", 0), vec![]).unwrap();
    assert_eq!(plan.map(|p| p.len()), Some(0));
}

#[test]
fn already_satisfied_unigoal_gives_empty_plan() {
    let planner = PlannerBuilder::new().with_domain(world(false, false)).build().unwrap();
    let plan = planner.find_plan(alice_at("park", 0), vec![PlanItem::unigoal("loc", "alice", s("park"))]).unwrap();
    assert_eq!(plan.map(|p| p.len()), Some(0));
}

#[test]
fn satisfied_unigoal_needs_no_methods() {
    let planner = PlannerBuilder::new().with_domain(world(false, false)).build().unwrap();
    let plan = planner.find_plan(alice_at("park", 0), vec![PlanItem::unigoal("cash", "alice", int_value(0))]).unwrap();
    assert_eq!(plan.map(|p| p.len()), Some(0));
}

#[test]
fn first_method_wins_when_it_works() {
    // Both taxi and walking work with cash 20; the taxi is declared first.
    let planner = PlannerBuilder::new().with_domain(world(false, false)).build().unwrap();
    let plan = planner.find_plan(alice_at("home_a", 20), travel()).unwrap().unwrap();
    assert_eq!(text(&plan), "[(call_taxi alice park)]");
}

#[test]
fn strategies_agree_on_several_inputs() {
    let cases: Vec<(State, Vec<PlanItem>)> = vec![
        (alice_at("home_a", 0), travel()),
        (alice_at("home_a", 20), travel()),
        (alice_at("home_a", 0), vec![PlanItem::unigoal("loc", "alice", s("park"))]),
        (alice_at("home_b", 0), travel()),
        (State::new("s"), vec![PlanItem::task("fly", vec![])]),
    ];
    for (st, todo) in cases {
        let answers = both_strategies(|| world(false, false), &st, &todo);
        assert_eq!(answers[0], answers[1]);
    }
}

#[test]
fn verification_rejects_a_method_that_does_nothing() {
    let goal = vec![PlanItem::unigoal("loc", "alice", s("park"))];
    let strict = PlannerBuilder::new().with_domain(world(true, false)).build().unwrap();
    assert!(strict.find_plan(alice_at("home_a", 0), goal.clone()).unwrap().is_none());

    let lax = PlannerBuilder::new().with_domain(world(true, false)).with_goal_verification(false).build().unwrap();
    let plan = lax.find_plan(alice_at("home_a", 0), goal).unwrap();
    assert_eq!(plan.map(|p| p.len()), Some(0));
}

#[test]
fn verification_inserts_check_after_unigoal_method() {
    let planner = PlannerBuilder::new().with_domain(world(false, false)).build().unwrap();
    let plan = planner.find_plan(alice_at("home_a", 0), vec![PlanItem::unigoal("loc", "alice", s("park"))]).unwrap().unwrap();
    assert_eq!(text(&plan), "[(walk alice home_a park)]");
}

#[test]
fn multigoal_with_method_and_without() {
    let mut goal = Multigoal::new("g");
    goal.set_goal("loc", "alice", s("park"));
    for with_methods in [true, false] {
        let planner = PlannerBuilder::new().with_domain(world(false, with_methods)).build().unwrap();
        let plan = planner.find_plan(alice_at("home_a", 0), vec![PlanItem::multigoal(goal.clone())]).unwrap().unwrap();
        assert_eq!(text(&plan), "[(walk alice home_a park)]");
    }
}

#[test]
fn caller_state_is_untouched() {
    let st = alice_at("home_a", 0);
    let before = st.clone();
    let planner = PlannerBuilder::new().with_domain(world(false, false)).build().unwrap();
    let _ = planner.find_plan(st.clone(), travel());
    let _ = planner.find_plan(st.clone(), vec![PlanItem::task("fly", vec![])]);
    assert_eq!(st.get_var("loc", "alice"), before.get_var("loc", "alice"));
    assert_eq!(st.name, before.name);
}

#[test]
fn repeated_calls_agree() {
    let planner = PlannerBuilder::new().with_domain(world(false, false)).build().unwrap();
    let first = planner.find_plan(alice_at("home_a", 20), travel()).unwrap().unwrap();
    let second = planner.find_plan(alice_at("home_a", 20), travel()).unwrap().unwrap();
    assert_eq!(text(&first), text(&second));
}

#[test]
fn step_budget_runs_out() {
    let planner = PlannerBuilder::new().with_domain(world(false, false)).build().unwrap().with_max_steps(1);
    match planner.find_plan(alice_at("home_a", 0), travel()) {
        Err(GTRustHopError::PlanningFailed { reason }) => assert_eq!(reason, "search step limit reached"),
        _ => panic!("Expected PlanningFailed"),
    }
}

#[test]
fn action_named_as_task_is_applied() {
    let planner = PlannerBuilder::new().with_domain(world(false, false)).build().unwrap();
    let plan = planner
        .find_plan(alice_at("home_a", 0), vec![PlanItem::task("walk", vec![s("alice"), s("home_a"), s("park")])])
        .unwrap()
        .unwrap();
    assert_eq!(item_to_string(&plan[0]), "(walk alice home_a park)");
    assert!(plan[0].is_action());
}

#[test]
fn unreachable_goal_gives_no_plan() {
    let planner = PlannerBuilder::new().with_domain(world(false, false)).build().unwrap();
    let plan = planner.find_plan(alice_at("home_b", 0), travel()).unwrap();
    assert!(plan.is_none());
}
