use gtrusthop::model::{bool_value, string_value, Behaviour, Domain, Multigoal, PlanItem, State, Value};
use gtrusthop::planning::describe::todo_list_to_string;
use gtrusthop::planning::{PlannerBuilder, PlanningStrategy};

fn s(text: &str) -> Value {
    string_value(text)
}

fn pos(state: &State, b: &str) -> Option<String> {
    state.get_var("pos", b).and_then(|v| v.as_str()).map(|t| t.to_string())
}

fn is_clear(state: &State, b: &str) -> bool {
    state.get_var("clear", b).and_then(|v| v.as_bool()) == Some(true)
}

fn hand_empty(state: &State) -> bool {
    state.get_var("holding", "hand").and_then(|v| v.as_bool()) == Some(false)
}

fn blocks(state: &State) -> Vec<String> {
    state.var_args("pos").unwrap_or_default()
}

/// Blocks world in the style of Gupta and Nau: a block is done when it and
/// everything under it are where the goal wants them.
struct BlocksWorld;

impl BlocksWorld {
    fn done(state: &State, goal: &Multigoal, b: &str) -> bool {
        if b == "table" {
            return true;
        }
        let here = match pos(state, b) {
            Some(p) => p,
            None => return false,
        };
        if let Some(want) = goal.get_goal("pos", b).and_then(|v| v.as_str()) {
            if want != here {
                return false;
            }
        }
        if here == "hand" {
            return false;
        }
        Self::done(state, goal, &here)
    }
}

impl Behaviour for BlocksWorld {
    fn action(&self, name: &str, state: &mut State, args: &[Value]) -> Option<State> {
        let b = args.get(0)?.as_str()?.to_string();
        match name {
            "pickup" => {
                if pos(state, &b).as_deref() == Some("table") && is_clear(state, &b) && hand_empty(state) {
                    state.set_var("pos", &b, s("hand"));
                    state.set_var("clear", &b, bool_value(false));
                    state.set_var("holding", "hand", s(&b));
                    return Some(state.clone());
                }
                None
            }
            "unstack" => {
                let c = args.get(1)?.as_str()?.to_string();
                if pos(state, &b).as_deref() == Some(c.as_str()) && c != "table" && is_clear(state, &b) && hand_empty(state) {
                    state.set_var("pos", &b, s("hand"));
                    state.set_var("clear", &b, bool_value(false));
                    state.set_var("holding", "hand", s(&b));
                    state.set_var("clear", &c, bool_value(true));
                    return Some(state.clone());
                }
                None
            }
            "putdown" => {
                if pos(state, &b).as_deref() == Some("hand") {
                    state.set_var("pos", &b, s("table"));
                    state.set_var("clear", &b, bool_value(true));
                    state.set_var("holding", "hand", bool_value(false));
                    return Some(state.clone());
                }
                None
            }
            "stack" => {
                let c = args.get(1)?.as_str()?.to_string();
                if pos(state, &b).as_deref() == Some("hand") && is_clear(state, &c) {
                    state.set_var("pos", &b, s(&c));
                    state.set_var("clear", &b, bool_value(true));
                    state.set_var("holding", "hand", bool_value(false));
                    state.set_var("clear", &c, bool_value(false));
                    return Some(state.clone());
                }
                None
            }
            _ => None,
        }
    }

    fn command(&self, _name: &str, _state: &mut State, _args: &[Value]) -> Option<State> {
        None
    }

    fn task_method(&self, _method: &str, _state: &State, _args: &[Value]) -> Option<Vec<PlanItem>> {
        None
    }

    fn unigoal_method(&self, method: &str, state: &State, b: &str, value: &Value) -> Option<Vec<PlanItem>> {
        if method != "m_move_block" {
            return None;
        }
        let target = value.as_str()?;
        let here = pos(state, b)?;
        if !is_clear(state, b) || !hand_empty(state) {
            return None;
        }
        if target != "table" && !is_clear(state, target) {
            return None;
        }
        let take = if here == "table" {
            PlanItem::action("pickup", vec![s(b)])
        } else {
            PlanItem::action("unstack", vec![s(b), s(&here)])
        };
        let put = if target == "table" {
            PlanItem::action("putdown", vec![s(b)])
        } else {
            PlanItem::action("stack", vec![s(b), s(target)])
        };
        Some(vec![take, put])
    }

    fn multigoal_method(&self, method: &str, state: &State, goal: &Multigoal) -> Option<Vec<PlanItem>> {
        if method != "m_moveblocks" {
            return None;
        }
        let clear: Vec<String> = blocks(state).into_iter().filter(|b| is_clear(state, b)).collect();
        // A clear block that can go straight to its final place.
        for b in &clear {
            if Self::done(state, goal, b) {
                continue;
            }
            if let Some(want) = goal.get_goal("pos", b).and_then(|v| v.as_str()) {
                if want == "table" || (is_clear(state, want) && Self::done(state, goal, want)) {
                    return Some(vec![PlanItem::unigoal("pos", b, s(want)), PlanItem::multigoal(goal.clone())]);
                }
            }
        }
        // Otherwise a clear block that is in the way goes to the table.
        for b in &clear {
            if !Self::done(state, goal, b) && pos(state, b).as_deref() != Some("table") {
                return Some(vec![PlanItem::unigoal("pos", b, s("table")), PlanItem::multigoal(goal.clone())]);
            }
        }
        Some(vec![])
    }
}

fn blocks_domain() -> Domain<BlocksWorld> {
    let mut d = Domain::new("blocks_hgn", BlocksWorld);
    for a in ["pickup", "unstack", "putdown", "stack"] {
        d.declare_action(a).unwrap();
    }
    d.declare_unigoal_method("pos", "m_move_block").unwrap();
    d.declare_multigoal_method("m_moveblocks").unwrap();
    d
}

fn sussman_state() -> State {
    let mut st = State::new("sussman");
    st.set_var("pos", "c", s("a"));
    st.set_var("pos", "a", s("table"));
    st.set_var("pos", "b", s("table"));
    st.set_var("clear", "c", bool_value(true));
    st.set_var("clear", "a", bool_value(false));
    st.set_var("clear", "b", bool_value(true));
    st.set_var("holding", "hand", bool_value(false));
    st
}

fn sussman_goal() -> Multigoal {
    let mut g = Multigoal::new("sussman_goal");
    g.set_goal("pos", "a", s("b"));
    g.set_goal("pos", "b", s("c"));
    g
}

#[test]
fn sussman_anomaly_takes_six_actions() {
    for strategy in [PlanningStrategy::Iterative, PlanningStrategy::Recursive] {
        let planner = PlannerBuilder::new().with_domain(blocks_domain()).with_strategy(strategy).build().unwrap();
        let plan = planner.find_plan(sussman_state(), vec![PlanItem::multigoal(sussman_goal())]).unwrap().unwrap();
        assert_eq!(plan.len(), 6);
        assert_eq!(
            todo_list_to_string(&plan),
            "[(unstack c a), (putdown c), (pickup b), (stack b c), (pickup a), (stack a b)]"
        );

        // The plan executes step by step and reaches the goal.
        let mut st = sussman_state();
        for step in &plan {
            assert!(step.is_action());
            let next = planner.domain().apply_action(step.name(), &st, &step.args());
            st = next.expect("every step applies");
        }
        assert!(sussman_goal().is_satisfied_by(&st));
    }
}
