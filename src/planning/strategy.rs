//! The two executable shapes of the search: recursive and with an explicit
//! stack, both verified against the search's meaning.
use super::describe::{item_text, item_to_string};
use super::search::{
    action_children, expand, multigoal_children, run_stack, seek, seek_all, task_children,
    task_method_result, unigoal_children, unigoal_items, verify_g_item, verify_mg_item, Expansion,
    FrameView, SearchOutcome, lemma_strategies_agree, lemma_seek_fuel, reversed,
};
use super::verification::{
    create_multigoal_verification_task, create_unigoal_verification_task, m_verify_g, m_verify_mg,
};
use crate::error::{GTRustHopError, Result};
use crate::model::cells::flatten;
use crate::model::domain::{opt_items_view, Behaviour, Domain, Methods};
use crate::model::item::{copy_items, copy_values, items_view, values_view, ItemView, PlanItem};
use crate::model::multigoal::Multigoal;
use crate::model::state::State;
use crate::model::value::Value;
use crate::model::table::DeepCopy;
use vstd::prelude::*;
use vstd::string::StringExecFns;

verus! {

/// Which shape of the search a planner uses.
#[derive(Debug, Clone, Copy, PartialEq, Eq, Structural)]
pub enum PlanningStrategy {
    /// Alternatives are tried by nested calls.
    Recursive,
    /// Alternatives wait on an explicit stack.
    Iterative,
}

/// What a search step ends with when it does not fail hard.
#[derive(Debug)]
pub enum PlanningResult {
    /// The plan found.
    Success(Vec<PlanItem>),
    /// No plan exists within the search.
    Failure,
}

/// The domain and options that a search runs with.
pub struct PlanningContext<B> {
    /// The domain.
    pub domain: Domain<B>,
    /// Whether checks follow the expansions of goals.
    pub verify_goals: bool,
    /// The shape of the search.
    pub strategy: PlanningStrategy,
    /// How many frames a search may visit before it gives up.
    pub max_steps: usize,
}

impl<B> PlanningContext<B> {
    /// A context with goal verification on, the iterative shape and no
    /// practical step limit.
    pub fn new(domain: Domain<B>) -> (r: Self)
        ensures
            r.domain == domain,
            r.verify_goals,
            r.strategy == PlanningStrategy::Iterative,
            r.max_steps == usize::MAX,
    {
        PlanningContext { domain, verify_goals: true, strategy: PlanningStrategy::Iterative, max_steps: usize::MAX }
    }

    /// Turns goal verification on or off.
    pub fn set_verify_goals(&mut self, verify: bool)
        ensures
            *final(self) == (PlanningContext { verify_goals: verify, ..*old(self) }),
    {
        self.verify_goals = verify;
    }

    /// Chooses the shape of the search.
    pub fn set_strategy(&mut self, strategy: PlanningStrategy)
        ensures
            *final(self) == (PlanningContext { strategy, ..*old(self) }),
    {
        self.strategy = strategy;
    }
}

/// The text of the error that ends a search when its steps run out.
pub open spec fn out_of_steps_reason() -> Seq<char> {
    "search step limit reached"@
}

/// Whether an executable answer is the one that a search outcome describes.
pub open spec fn answers(r: Result<PlanningResult>, o: SearchOutcome) -> bool {
    match o {
        SearchOutcome::Found(p) => r matches Ok(PlanningResult::Success(plan)) && items_view(plan@) == p,
        SearchOutcome::Failed => r matches Ok(PlanningResult::Failure),
        SearchOutcome::Unknown(item, depth) => r matches Err(GTRustHopError::InvalidItemType { item: s, depth: d })
            && s@ == item_text(item) && d == depth,
        SearchOutcome::OutOfSteps => r matches Err(GTRustHopError::PlanningFailed { reason }) && reason@
            == out_of_steps_reason(),
    }
}

/// The step budget of a search that starts at `depth`.
pub open spec fn budget<B>(context: &PlanningContext<B>, depth: usize) -> nat {
    if context.max_steps <= usize::MAX - depth {
        context.max_steps as nat
    } else {
        (usize::MAX - depth) as nat
    }
}

/// A node of the executable search.
pub struct Frame {
    pub state: State,
    pub todo: Vec<PlanItem>,
    pub plan: Vec<PlanItem>,
    pub depth: usize,
}

impl View for Frame {
    type V = FrameView;

    open spec fn view(&self) -> FrameView {
        FrameView { state: self.state@, todo: items_view(self.todo@), plan: items_view(self.plan@), depth: self.depth as nat }
    }
}

/// The views of a sequence of frames.
pub open spec fn frames_view(s: Seq<Frame>) -> Seq<FrameView> {
    Seq::new(s.len(), |i: int| s[i]@)
}

/// The items of `a` followed by those of `b`.
fn concat_items(a: Vec<PlanItem>, b: &Vec<PlanItem>) -> (r: Vec<PlanItem>)
    ensures
        items_view(r@) == items_view(a@) + items_view(b@),
{
    let mut r = a;
    let ghost start = r@;
    let mut i: usize = 0;
    while i < b.len()
        invariant
            0 <= i <= b@.len(),
            r@.len() == start.len() + i,
            forall|k: int| 0 <= k < start.len() ==> #[trigger] r@[k]@ == start[k]@,
            forall|k: int| 0 <= k < i ==> #[trigger] r@[start.len() + k]@ == b@[k]@,
        decreases b@.len() - i,
    {
        r.push(b[i].deep_copy());
        i = i + 1;
    }
    proof {
        assert forall|k: int| 0 <= k < r@.len() implies #[trigger] items_view(r@)[k] == (items_view(start) + items_view(b@))[k] by {
            if k >= start.len() {
                assert(r@[start.len() + (k - start.len())]@ == b@[k - start.len()]@);
            }
        }
        assert(items_view(r@) =~= items_view(start) + items_view(b@));
    }
    r
}

/// The items after the first.
fn tail_items(todo: &Vec<PlanItem>) -> (r: Vec<PlanItem>)
    requires
        todo@.len() > 0,
    ensures
        items_view(r@) == items_view(todo@).drop_first(),
{
    let mut r: Vec<PlanItem> = Vec::new();
    let mut i: usize = 1;
    while i < todo.len()
        invariant
            1 <= i <= todo@.len(),
            r@.len() == i - 1,
            forall|k: int| 0 <= k < r@.len() ==> #[trigger] r@[k]@ == todo@[k + 1]@,
        decreases todo@.len() - i,
    {
        r.push(todo[i].deep_copy());
        i = i + 1;
    }
    assert(items_view(r@) =~= items_view(todo@).drop_first());
    r
}

/// Runs task method `m`: a built-in check or the behaviour's method.
fn run_task_method<B: Behaviour>(domain: &Domain<B>, m: &String, state: &State, args: &Vec<Value>) -> (r: Option<Vec<PlanItem>>)
    requires
        domain.spec_behaviour().obeys_spec(),
    ensures
        opt_items_view(r) == task_method_result(domain.spec_behaviour(), m@, state@, values_view(args@)),
{
    let g = String::from_str("m_verify_g");
    let mg = String::from_str("m_verify_mg");
    if m.eq(&g) {
        m_verify_g(state, args.as_slice())
    } else if m.eq(&mg) {
        m_verify_mg(state, args.as_slice())
    } else {
        domain.behaviour().task_method(m.as_str(), state, args.as_slice())
    }
}

/// The frame after action `name`, if the action applies.
fn action_frames<B: Behaviour>(domain: &Domain<B>, f: &Frame, name: &String, args: &Vec<Value>, rest: &Vec<PlanItem>) -> (r: Vec<Frame>)
    requires
        domain.spec_behaviour().obeys_spec(),
        f.depth < usize::MAX,
    ensures
        frames_view(r@) == action_children(domain.spec_behaviour(), f@, name@, values_view(args@), items_view(rest@)),
        forall|k: int| 0 <= k < r@.len() ==> #[trigger] r@[k].depth == f.depth + 1,
{
    let applied = domain.apply_action(name.as_str(), &f.state, args.as_slice());
    let mut r: Vec<Frame> = Vec::new();
    match applied {
        Some(s) => {
            let mut plan = copy_items(f.plan.as_slice());
            let step = PlanItem::Action(name.clone(), copy_values(args.as_slice()));
            let ghost p0 = plan@;
            plan.push(step);
            proof {
                assert(items_view(plan@) =~= items_view(p0).push(step@));
            }
            r.push(Frame { state: s, todo: copy_items(rest.as_slice()), plan, depth: f.depth + 1 });
        },
        None => {},
    }
    assert(frames_view(r@) =~= action_children(domain.spec_behaviour(), f@, name@, values_view(args@), items_view(rest@)));
    r
}

/// One frame per applicable task method, in preference order.
fn task_frames<B: Behaviour>(domain: &Domain<B>, f: &Frame, methods: &Methods, args: &Vec<Value>, rest: &Vec<PlanItem>) -> (r: Vec<Frame>)
    requires
        domain.spec_behaviour().obeys_spec(),
        f.depth < usize::MAX,
    ensures
        frames_view(r@) == task_children(domain.spec_behaviour(), f@, methods@, values_view(args@), items_view(rest@)),
        forall|k: int| 0 <= k < r@.len() ==> #[trigger] r@[k].depth == f.depth + 1,
{
    let ghost b = domain.spec_behaviour();
    let mut r: Vec<Frame> = Vec::new();
    let mut i: usize = 0;
    while i < methods.len()
        invariant
            0 <= i <= methods@.len(),
            f.depth < usize::MAX,
            b == domain.spec_behaviour(),
            b.obeys_spec(),
            frames_view(r@) == task_children(b, f@, methods@.subrange(0, i as int), values_view(args@), items_view(rest@)),
            forall|k: int| 0 <= k < r@.len() ==> #[trigger] r@[k].depth == f.depth + 1,
        decreases methods@.len() - i,
    {
        let m = methods.get(i);
        let ghost before = r@;
        let out = run_task_method(domain, m, &f.state, args);
        proof {
            assert(methods@.subrange(0, i + 1).drop_last() =~= methods@.subrange(0, i as int));
        }
        match out {
            Some(sub) => {
                let todo = concat_items(sub, rest);
                r.push(Frame { state: f.state.deep_copy(), todo, plan: copy_items(f.plan.as_slice()), depth: f.depth + 1 });
                assert(frames_view(r@) =~= frames_view(before).push(r@.last()@));
            },
            None => {},
        }
        i = i + 1;
    }
    assert(methods@.subrange(0, methods@.len() as int) =~= methods@);
    r
}

/// One frame per applicable unigoal method, in preference order.
fn unigoal_frames<B: Behaviour>(
    domain: &Domain<B>,
    verify: bool,
    f: &Frame,
    methods: &Methods,
    var: &String,
    arg: &String,
    val: &Value,
    rest: &Vec<PlanItem>,
) -> (r: Vec<Frame>)
    requires
        domain.spec_behaviour().obeys_spec(),
        f.depth < usize::MAX,
    ensures
        frames_view(r@) == unigoal_children(domain.spec_behaviour(), verify, f@, methods@, var@, arg@, val@, items_view(rest@)),
        forall|k: int| 0 <= k < r@.len() ==> #[trigger] r@[k].depth == f.depth + 1,
{
    let ghost b = domain.spec_behaviour();
    let mut r: Vec<Frame> = Vec::new();
    let mut i: usize = 0;
    while i < methods.len()
        invariant
            0 <= i <= methods@.len(),
            f.depth < usize::MAX,
            b == domain.spec_behaviour(),
            b.obeys_spec(),
            frames_view(r@) == unigoal_children(b, verify, f@, methods@.subrange(0, i as int), var@, arg@, val@, items_view(rest@)),
            forall|k: int| 0 <= k < r@.len() ==> #[trigger] r@[k].depth == f.depth + 1,
        decreases methods@.len() - i,
    {
        let m = methods.get(i);
        let ghost before = r@;
        let out = domain.behaviour().unigoal_method(m.as_str(), &f.state, arg.as_str(), val);
        proof {
            assert(methods@.subrange(0, i + 1).drop_last() =~= methods@.subrange(0, i as int));
        }
        match out {
            Some(sub) => {
                let mut with_check = sub;
                let ghost s0 = with_check@;
                if verify {
                    let check = create_unigoal_verification_task(m.as_str(), var.as_str(), arg.as_str(), val, f.depth);
                    with_check.push(check);
                    assert(items_view(with_check@) =~= items_view(s0) + seq![verify_g_item(m@, var@, arg@, val@, f.depth as nat)]);
                } else {
                    assert(items_view(with_check@) =~= items_view(s0) + Seq::<ItemView>::empty());
                }
                let todo = concat_items(with_check, rest);
                r.push(Frame { state: f.state.deep_copy(), todo, plan: copy_items(f.plan.as_slice()), depth: f.depth + 1 });
                assert(frames_view(r@) =~= frames_view(before).push(r@.last()@));
            },
            None => {},
        }
        i = i + 1;
    }
    assert(methods@.subrange(0, methods@.len() as int) =~= methods@);
    r
}

/// One frame per applicable multigoal method, in preference order.
fn multigoal_frames<B: Behaviour>(
    domain: &Domain<B>,
    verify: bool,
    f: &Frame,
    methods: &Methods,
    goal: &Multigoal,
    rest: &Vec<PlanItem>,
) -> (r: Vec<Frame>)
    requires
        domain.spec_behaviour().obeys_spec(),
        f.depth < usize::MAX,
    ensures
        frames_view(r@) == multigoal_children(domain.spec_behaviour(), verify, f@, methods@, goal@, items_view(rest@)),
        forall|k: int| 0 <= k < r@.len() ==> #[trigger] r@[k].depth == f.depth + 1,
{
    let ghost b = domain.spec_behaviour();
    let mut r: Vec<Frame> = Vec::new();
    let mut i: usize = 0;
    while i < methods.len()
        invariant
            0 <= i <= methods@.len(),
            f.depth < usize::MAX,
            b == domain.spec_behaviour(),
            b.obeys_spec(),
            frames_view(r@) == multigoal_children(b, verify, f@, methods@.subrange(0, i as int), goal@, items_view(rest@)),
            forall|k: int| 0 <= k < r@.len() ==> #[trigger] r@[k].depth == f.depth + 1,
        decreases methods@.len() - i,
    {
        let m = methods.get(i);
        let ghost before = r@;
        let out = domain.behaviour().multigoal_method(m.as_str(), &f.state, goal);
        proof {
            assert(methods@.subrange(0, i + 1).drop_last() =~= methods@.subrange(0, i as int));
        }
        match out {
            Some(sub) => {
                let mut with_check = sub;
                let ghost s0 = with_check@;
                if verify {
                    let check = create_multigoal_verification_task(m.as_str(), goal, f.depth);
                    with_check.push(check);
                    assert(items_view(with_check@) =~= items_view(s0) + seq![verify_mg_item(m@, goal@, f.depth as nat)]);
                } else {
                    assert(items_view(with_check@) =~= items_view(s0) + Seq::<ItemView>::empty());
                }
                let todo = concat_items(with_check, rest);
                r.push(Frame { state: f.state.deep_copy(), todo, plan: copy_items(f.plan.as_slice()), depth: f.depth + 1 });
                assert(frames_view(r@) =~= frames_view(before).push(r@.last()@));
            },
            None => {},
        }
        i = i + 1;
    }
    assert(methods@.subrange(0, methods@.len() as int) =~= methods@);
    r
}

/// The unigoals of a multigoal, cell by cell.
fn unigoals_of(goal: &Multigoal) -> (r: Vec<PlanItem>)
    ensures
        items_view(r@) == unigoal_items(goal@),
{
    let cells = goal.to_unigoals();
    let mut r: Vec<PlanItem> = Vec::new();
    let mut k: usize = 0;
    while k < cells.len()
        invariant
            0 <= k <= cells@.len(),
            cells@.len() == flatten(goal@.vars).len(),
            forall|m: int|
                0 <= m < cells@.len() ==> (#[trigger] cells@[m].0@, cells@[m].1@, cells@[m].2@) == flatten(goal@.vars)[m],
            r@.len() == k,
            forall|m: int| 0 <= m < k ==> #[trigger] r@[m]@ == unigoal_items(goal@)[m],
        decreases cells@.len() - k,
    {
        let c = &cells[k];
        proof {
            assert((cells@[k as int].0@, cells@[k as int].1@, cells@[k as int].2@) == flatten(goal@.vars)[k as int]);
        }
        r.push(PlanItem::Unigoal(c.0.clone(), c.1.clone(), c.2.copy_value()));
        k = k + 1;
    }
    assert(items_view(r@) =~= unigoal_items(goal@));
    r
}

/// The alternatives that the first item of the frame's todo list expands
/// into, or `None` when the item is unknown to the domain.
fn expand_frame<B: Behaviour>(domain: &Domain<B>, verify: bool, f: &Frame) -> (r: Option<Vec<Frame>>)
    requires
        domain.spec_behaviour().obeys_spec(),
        f@.todo.len() > 0,
        f.depth < usize::MAX,
    ensures
        match r {
            Some(cs) => expand(domain.spec_behaviour(), domain@, verify, f@) == Expansion::Children(frames_view(cs@))
                && forall|k: int| 0 <= k < cs@.len() ==> #[trigger] cs@[k].depth <= f.depth + 1,
            None => expand(domain.spec_behaviour(), domain@, verify, f@) is Unknown,
        },
{
    let rest = tail_items(&f.todo);
    match &f.todo[0] {
        PlanItem::Action(name, args) => {
            if domain.has_action(name.as_str()) {
                Some(action_frames(domain, f, name, args, &rest))
            } else {
                let none: Vec<Frame> = Vec::new();
                assert(frames_view(none@) =~= Seq::<FrameView>::empty());
                Some(none)
            }
        },
        PlanItem::Task(name, args) => {
            if domain.has_action(name.as_str()) {
                Some(action_frames(domain, f, name, args, &rest))
            } else {
                match domain.get_task_methods(name.as_str()) {
                    Some(ms) => Some(task_frames(domain, f, ms, args, &rest)),
                    None => None,
                }
            }
        },
        PlanItem::Unigoal(var, arg, val) => {
            if f.state.satisfies_unigoal(var.as_str(), arg.as_str(), val) {
                let r = vec![Frame { state: f.state.deep_copy(), todo: rest, plan: copy_items(f.plan.as_slice()), depth: f.depth }];
                assert(frames_view(r@) =~= seq![FrameView { todo: f@.todo.drop_first(), ..f@ }]);
                Some(r)
            } else {
                match domain.get_unigoal_methods(var.as_str()) {
                    Some(ms) => Some(unigoal_frames(domain, verify, f, ms, var, arg, val, &rest)),
                    None => None,
                }
            }
        },
        PlanItem::Multigoal(goal) => {
            if goal.is_satisfied_by(&f.state) {
                let r = vec![Frame { state: f.state.deep_copy(), todo: rest, plan: copy_items(f.plan.as_slice()), depth: f.depth }];
                assert(frames_view(r@) =~= seq![FrameView { todo: f@.todo.drop_first(), ..f@ }]);
                Some(r)
            } else {
                let ms = domain.get_multigoal_methods();
                if ms.len() > 0 {
                    Some(multigoal_frames(domain, verify, f, ms, goal, &rest))
                } else {
                    let todo = concat_items(unigoals_of(goal), &rest);
                    let r = vec![Frame { state: f.state.deep_copy(), todo, plan: copy_items(f.plan.as_slice()), depth: f.depth }];
                    assert(frames_view(r@) =~= seq![FrameView { todo: unigoal_items(goal@) + f@.todo.drop_first(), ..f@ }]);
                    Some(r)
                }
            }
        },
    }
}

fn out_of_steps() -> (r: GTRustHopError)
    ensures
        r matches GTRustHopError::PlanningFailed { reason } && reason@ == out_of_steps_reason(),
{
    GTRustHopError::PlanningFailed { reason: String::from_str("search step limit reached") }
}

/// The recursive search from `f` with `fuel` steps; gives the answer and the
/// steps left.
fn seek_recursive<B: Behaviour>(domain: &Domain<B>, verify: bool, f: &Frame, fuel: usize) -> (r: (Result<PlanningResult>, usize))
    requires
        domain.spec_behaviour().obeys_spec(),
        f.depth + fuel <= usize::MAX,
    ensures
        answers(r.0, seek(domain.spec_behaviour(), domain@, verify, f@, fuel as nat).0),
        r.1 == seek(domain.spec_behaviour(), domain@, verify, f@, fuel as nat).1,
    decreases fuel,
{
    if fuel == 0 {
        return (Err(out_of_steps()), 0);
    }
    if f.todo.len() == 0 {
        return (Ok(PlanningResult::Success(copy_items(f.plan.as_slice()))), fuel - 1);
    }
    match expand_frame(domain, verify, f) {
        None => {
            let text = item_to_string(&f.todo[0]);
            assert(f@.todo[0] == f.todo@[0]@);
            (Err(GTRustHopError::InvalidItemType { item: text, depth: f.depth }), fuel - 1)
        },
        Some(cs) => {
            let ghost b = domain.spec_behaviour();
            let ghost csv = frames_view(cs@);
            let mut left: usize = fuel - 1;
            let mut i: usize = 0;
            proof {
                assert(csv.subrange(0, csv.len() as int) =~= csv);
                assert(seek(b, domain@, verify, f@, fuel as nat) == seek_all(b, domain@, verify, csv, (fuel - 1) as nat));
            }
            while i < cs.len()
                invariant
                    0 <= i <= cs@.len(),
                    csv == frames_view(cs@),
                    b == domain.spec_behaviour(),
                    b.obeys_spec(),
                    left <= fuel - 1,
                    f.depth + fuel <= usize::MAX,
                    seek(b, domain@, verify, f@, fuel as nat) == seek_all(b, domain@, verify, csv, (fuel - 1) as nat),
                    forall|k: int| 0 <= k < cs@.len() ==> #[trigger] cs@[k].depth <= f.depth + 1,
                    seek_all(b, domain@, verify, csv, (fuel - 1) as nat) == seek_all(b, domain@, verify, csv.subrange(i as int, csv.len() as int), left as nat),
                decreases cs@.len() - i,
            {
                assert(csv[i as int] == cs@[i as int]@);
                let (res, l2) = seek_recursive(domain, verify, &cs[i], left);
                proof {
                    lemma_seek_fuel(b, domain@, verify, csv[i as int], left as nat);
                    let sub = csv.subrange(i as int, csv.len() as int);
                    assert(sub[0] == csv[i as int]);
                    assert(sub.drop_first() =~= csv.subrange(i + 1, csv.len() as int));
                }
                match res {
                    Ok(PlanningResult::Failure) => {
                        left = l2;
                    },
                    _ => {
                        proof {
                            let sub = csv.subrange(i as int, csv.len() as int);
                            let o = seek(b, domain@, verify, csv[i as int], left as nat);
                            assert(!(o.0 is Failed));
                            assert(seek_all(b, domain@, verify, sub, left as nat) == o);
                        }
                        return (res, l2);
                    },
                }
                i = i + 1;
            }
            proof {
                assert(csv.subrange(cs@.len() as int, csv.len() as int) =~= Seq::<FrameView>::empty());
            }
            (Ok(PlanningResult::Failure), left)
        },
    }
}

/// The search run on an explicit stack that starts with `start`.
fn seek_iterative<B: Behaviour>(domain: &Domain<B>, verify: bool, start: Frame, fuel: usize) -> (r: Result<PlanningResult>)
    requires
        domain.spec_behaviour().obeys_spec(),
        start.depth + fuel <= usize::MAX,
    ensures
        answers(r, run_stack(domain.spec_behaviour(), domain@, verify, seq![start@], fuel as nat).0),
{
    let ghost b = domain.spec_behaviour();
    let ghost goal = run_stack(b, domain@, verify, seq![start@], fuel as nat).0;
    let mut stack: Vec<Frame> = Vec::new();
    stack.push(start);
    let mut steps = fuel;
    assert(frames_view(stack@) =~= seq![start@]);
    while stack.len() > 0
        invariant
            b == domain.spec_behaviour(),
            b.obeys_spec(),
            goal == run_stack(b, domain@, verify, seq![start@], fuel as nat).0,
            run_stack(b, domain@, verify, frames_view(stack@), steps as nat).0 == goal,
            forall|k: int| 0 <= k < stack@.len() ==> #[trigger] stack@[k].depth + steps <= usize::MAX,
        decreases steps, stack@.len(),
    {
        let ghost sv = frames_view(stack@);
        assert(sv.len() > 0);
        if steps == 0 {
            assert(run_stack(b, domain@, verify, sv, steps as nat).0 == SearchOutcome::OutOfSteps);
            return Err(out_of_steps());
        }
        let f = stack.pop().unwrap();
        proof {
            assert(frames_view(stack@) =~= sv.drop_last());
            assert(sv.last() == f@);
        }
        if f.todo.len() == 0 {
            assert(f@.todo.len() == 0);
            assert(run_stack(b, domain@, verify, sv, steps as nat).0 == SearchOutcome::Found(f@.plan));
            return Ok(PlanningResult::Success(f.plan));
        }
        assert(f@.todo.len() > 0);
        match expand_frame(domain, verify, &f) {
            None => {
                let text = item_to_string(&f.todo[0]);
                assert(f@.todo[0] == f.todo@[0]@);
                assert(run_stack(b, domain@, verify, sv, steps as nat).0 == SearchOutcome::Unknown(f@.todo[0], f@.depth));
                return Err(GTRustHopError::InvalidItemType { item: text, depth: f.depth });
            },
            Some(cs) => {
                let ghost below = frames_view(stack@);
                let ghost csv = frames_view(cs@);
                let mut cs = cs;
                let mut n: usize = cs.len();
                proof {
                    assert(csv.subrange(n as int, csv.len() as int) =~= Seq::<FrameView>::empty());
                    assert(below + reversed(Seq::<FrameView>::empty()) =~= below);
                }
                while cs.len() > 0
                    invariant
                        n == cs@.len(),
                        n <= csv.len(),
                        forall|k: int| 0 <= k < n ==> #[trigger] cs@[k]@ == csv[k],
                        forall|k: int| 0 <= k < n ==> #[trigger] cs@[k].depth <= f.depth + 1,
                        frames_view(stack@) == below + reversed(csv.subrange(n as int, csv.len() as int)),
                        forall|k: int| 0 <= k < stack@.len() ==> #[trigger] stack@[k].depth + (steps - 1) <= usize::MAX,
                        f.depth + steps <= usize::MAX,
                        steps > 0,
                    decreases n,
                {
                    let c = cs.pop().unwrap();
                    n = n - 1;
                    let ghost prev = frames_view(stack@);
                    stack.push(c);
                    proof {
                        let tail = csv.subrange(n as int, csv.len() as int);
                        assert(tail[0] == csv[n as int]);
                        assert(tail.drop_first() =~= csv.subrange(n + 1, csv.len() as int));
                        assert(reversed(tail) == reversed(tail.drop_first()).push(tail[0]));
                        assert(frames_view(stack@) =~= prev.push(c@));
                        assert(below + reversed(tail) =~= (below + reversed(tail.drop_first())).push(tail[0]));
                    }
                }
                proof {
                    assert(csv.subrange(0, csv.len() as int) =~= csv);
                }
                steps = steps - 1;
            },
        }
    }
    Ok(PlanningResult::Failure)
}

/// A shape of the search.
pub trait PlanningStrategyTrait {
    /// Searches from `state`, `todo_list`, `plan` and `depth` with the
    /// context's domain and options, visiting at most `budget` frames.
    fn seek_plan<B: Behaviour>(
        &self,
        context: &PlanningContext<B>,
        state: State,
        todo_list: Vec<PlanItem>,
        plan: Vec<PlanItem>,
        depth: usize,
    ) -> (r: Result<PlanningResult>)
        requires
            context.domain.spec_behaviour().obeys_spec(),
        ensures
            answers(
                r,
                seek(
                    context.domain.spec_behaviour(),
                    context.domain@,
                    context.verify_goals,
                    FrameView { state: state@, todo: items_view(todo_list@), plan: items_view(plan@), depth: depth as nat },
                    budget(context, depth),
                ).0,
            ),
    ;
}

/// The recursive shape.
pub struct RecursiveStrategy;

/// The shape with an explicit stack.
pub struct IterativeStrategy;

impl PlanningStrategyTrait for RecursiveStrategy {
    fn seek_plan<B: Behaviour>(
        &self,
        context: &PlanningContext<B>,
        state: State,
        todo_list: Vec<PlanItem>,
        plan: Vec<PlanItem>,
        depth: usize,
    ) -> (r: Result<PlanningResult>) {
        let fuel = if context.max_steps <= usize::MAX - depth {
            context.max_steps
        } else {
            usize::MAX - depth
        };
        let f = Frame { state, todo: todo_list, plan, depth };
        let (r, _) = seek_recursive(&context.domain, context.verify_goals, &f, fuel);
        r
    }
}

impl PlanningStrategyTrait for IterativeStrategy {
    fn seek_plan<B: Behaviour>(
        &self,
        context: &PlanningContext<B>,
        state: State,
        todo_list: Vec<PlanItem>,
        plan: Vec<PlanItem>,
        depth: usize,
    ) -> (r: Result<PlanningResult>) {
        let fuel = if context.max_steps <= usize::MAX - depth {
            context.max_steps
        } else {
            usize::MAX - depth
        };
        let f = Frame { state, todo: todo_list, plan, depth };
        proof {
            lemma_strategies_agree(context.domain.spec_behaviour(), context.domain@, context.verify_goals, f@, fuel as nat);
        }
        seek_iterative(&context.domain, context.verify_goals, f, fuel)
    }
}

} // verus!
