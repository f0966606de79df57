//! Laws of the search, proved over its meaning.
use super::planner::{plan_outcome, start_frame};
use super::search::{
    action_children, expand, multigoal_children, seek, seek_all, task_children, task_method_result,
    unigoal_children, unigoal_items, verify_g_item, verify_g_result, verify_mg_item,
    verify_mg_result, Expansion, FrameView, SearchOutcome,
};
use super::strategy::PlanningContext;
use crate::model::cells::{holds, holds_all};
use crate::model::domain::{
    checks_intact, verify_g_method, verify_g_task, verify_mg_method, verify_mg_task, Behaviour, DomainView,
};
use crate::model::item::ItemView;
use crate::model::multigoal::{encode_multigoal, lemma_encoded_goal, MultigoalView};
use crate::model::state::StateView;
use crate::model::table::lookup;
use crate::model::value::ValueView;
use vstd::prelude::*;

verus! {

/// An empty todo list gives the empty plan, in any state, when the search
/// may visit at least one frame.
pub proof fn lemma_empty_todo<B: Behaviour>(c: PlanningContext<B>, s: StateView)
    requires
        c.max_steps >= 1,
    ensures
        plan_outcome(c, s, Seq::empty()) == SearchOutcome::Found(Seq::empty()),
{
}

/// A unigoal that the state already holds gives the empty plan, whether or
/// not its variable has methods.
pub proof fn lemma_satisfied_unigoal<B: Behaviour>(
    c: PlanningContext<B>,
    s: StateView,
    var: Seq<char>,
    arg: Seq<char>,
    val: ValueView,
)
    requires
        holds(s.vars, var, arg, val),
        c.max_steps >= 2,
    ensures
        plan_outcome(c, s, seq![ItemView::Unigoal(var, arg, val)]) == SearchOutcome::Found(Seq::<ItemView>::empty()),
{
    let f = start_frame(s, seq![ItemView::Unigoal(var, arg, val)]);
    let child = FrameView { todo: f.todo.drop_first(), ..f };
    assert(f.todo.drop_first() =~= Seq::<ItemView>::empty());
    let b = c.domain.spec_behaviour();
    let fuel = c.max_steps as nat;
    assert(expand(b, c.domain@, c.verify_goals, f) == Expansion::Children(seq![child]));
    assert(seek(b, c.domain@, c.verify_goals, child, (fuel - 1) as nat).0 == SearchOutcome::Found(Seq::<ItemView>::empty()));
}

/// A multigoal that the state already holds gives the empty plan.
pub proof fn lemma_satisfied_multigoal<B: Behaviour>(c: PlanningContext<B>, s: StateView, goal: MultigoalView)
    requires
        holds_all(s.vars, goal.vars),
        c.max_steps >= 2,
    ensures
        plan_outcome(c, s, seq![ItemView::Multigoal(goal)]) == SearchOutcome::Found(Seq::<ItemView>::empty()),
{
    let f = start_frame(s, seq![ItemView::Multigoal(goal)]);
    let child = FrameView { todo: f.todo.drop_first(), ..f };
    assert(f.todo.drop_first() =~= Seq::<ItemView>::empty());
    let b = c.domain.spec_behaviour();
    let fuel = c.max_steps as nat;
    assert(expand(b, c.domain@, c.verify_goals, f) == Expansion::Children(seq![child]));
    assert(seek(b, c.domain@, c.verify_goals, child, (fuel - 1) as nat).0 == SearchOutcome::Found(Seq::<ItemView>::empty()));
}

/// The frame that a task method's subtasks start.
pub open spec fn method_frame(f: FrameView, sub: Seq<ItemView>, rest: Seq<ItemView>) -> FrameView {
    FrameView { state: f.state, todo: sub + rest, plan: f.plan, depth: f.depth + 1 }
}

proof fn lemma_first_task_child<B: Behaviour>(
    b: B,
    f: FrameView,
    methods: Seq<Seq<char>>,
    args: Seq<ValueView>,
    rest: Seq<ItemView>,
    sub: Seq<ItemView>,
)
    requires
        methods.len() >= 1,
        task_method_result(b, methods[0], f.state, args) == Some(sub),
    ensures
        task_children(b, f, methods, args, rest).len() >= 1,
        task_children(b, f, methods, args, rest)[0] == method_frame(f, sub, rest),
    decreases methods.len(),
{
    if methods.len() > 1 {
        assert(methods.drop_last()[0] == methods[0]);
        lemma_first_task_child(b, f, methods.drop_last(), args, rest, sub);
    } else {
        assert(methods.drop_last() =~= Seq::<Seq<char>>::empty());
        assert(task_children(b, f, methods.drop_last(), args, rest) == Seq::<FrameView>::empty());
        assert(methods.last() == methods[0]);
    }
}

/// The first task method that applies decides the plan when its subtree
/// succeeds: the planner never prefers a later method.
pub proof fn lemma_method_preference<B: Behaviour>(
    b: B,
    d: DomainView,
    verify: bool,
    s: StateView,
    task: Seq<char>,
    args: Seq<ValueView>,
    first: Seq<ItemView>,
    plan: Seq<ItemView>,
    fuel: nat,
)
    requires
        !d.actions.contains(task),
        lookup(d.task_methods, task) matches Some(ms) && ms.len() >= 1 && task_method_result(b, ms[0], s, args)
            == Some(first),
        fuel >= 1,
        seek(b, d, verify, method_frame(start_frame(s, seq![ItemView::Task(task, args)]), first, Seq::empty()), (fuel - 1) as nat).0
            == SearchOutcome::Found(plan),
    ensures
        seek(b, d, verify, start_frame(s, seq![ItemView::Task(task, args)]), fuel).0 == SearchOutcome::Found(plan),
{
    let f = start_frame(s, seq![ItemView::Task(task, args)]);
    let ms = lookup(d.task_methods, task)->Some_0;
    let rest = f.todo.drop_first();
    assert(rest =~= Seq::<ItemView>::empty());
    lemma_first_task_child(b, f, ms, args, rest, first);
}

/// The search moves to the next task method only when the first method's
/// subtree has no successful completion, and then continues with the steps
/// that subtree left.
pub proof fn lemma_backtrack_on_failure<B: Behaviour>(
    b: B,
    d: DomainView,
    verify: bool,
    s: StateView,
    task: Seq<char>,
    args: Seq<ValueView>,
    first: Seq<ItemView>,
    fuel: nat,
    left: nat,
)
    requires
        !d.actions.contains(task),
        lookup(d.task_methods, task) matches Some(ms) && ms.len() >= 1 && task_method_result(b, ms[0], s, args)
            == Some(first),
        fuel >= 1,
        seek(b, d, verify, method_frame(start_frame(s, seq![ItemView::Task(task, args)]), first, Seq::empty()), (fuel - 1) as nat)
            == (SearchOutcome::Failed, left),
    ensures
        seek(b, d, verify, start_frame(s, seq![ItemView::Task(task, args)]), fuel) == seek_all(
            b,
            d,
            verify,
            task_children(
                b,
                start_frame(s, seq![ItemView::Task(task, args)]),
                lookup(d.task_methods, task)->Some_0,
                args,
                Seq::empty(),
            ).drop_first(),
            left,
        ),
{
    let f = start_frame(s, seq![ItemView::Task(task, args)]);
    let ms = lookup(d.task_methods, task)->Some_0;
    let rest = f.todo.drop_first();
    assert(rest =~= Seq::<ItemView>::empty());
    lemma_first_task_child(b, f, ms, args, rest, first);
    crate::planning::search::lemma_seek_fuel(b, d, verify, method_frame(f, first, rest), (fuel - 1) as nat);
}

/// With verification on, a unigoal method that gives nothing to do without
/// achieving its goal is rejected; with verification off, the planner
/// accepts it and answers the empty plan.
pub proof fn lemma_faulty_method_rejected<B: Behaviour>(
    b: B,
    d: DomainView,
    s: StateView,
    var: Seq<char>,
    arg: Seq<char>,
    val: ValueView,
    m: Seq<char>,
    fuel: nat,
)
    requires
        !holds(s.vars, var, arg, val),
        lookup(d.unigoal_methods, var) == Some(seq![m]),
        b.unigoal_method_spec(m, s, arg, val) == Some(Seq::<ItemView>::empty()),
        checks_intact(d),
        fuel >= 3,
    ensures
        seek(b, d, true, start_frame(s, seq![ItemView::Unigoal(var, arg, val)]), fuel).0 == SearchOutcome::Failed,
        seek(b, d, false, start_frame(s, seq![ItemView::Unigoal(var, arg, val)]), fuel).0 == SearchOutcome::Found(
            Seq::<ItemView>::empty(),
        ),
{
    let f = start_frame(s, seq![ItemView::Unigoal(var, arg, val)]);
    let rest = f.todo.drop_first();
    assert(rest =~= Seq::<ItemView>::empty());
    let ms = seq![m];
    assert(ms.drop_last() =~= Seq::<Seq<char>>::empty());
    let check = verify_g_item(m, var, arg, val, 0);
    let on = FrameView { state: s, todo: Seq::<ItemView>::empty() + seq![check] + rest, plan: f.plan, depth: 1 };
    assert(unigoal_children(b, true, f, ms.drop_last(), var, arg, val, rest) == Seq::<FrameView>::empty());
    assert(ms.last() == m);
    assert(unigoal_children(b, true, f, ms, var, arg, val, rest) =~= seq![on]);
    let off = FrameView { state: s, todo: Seq::<ItemView>::empty() + Seq::<ItemView>::empty() + rest, plan: f.plan, depth: 1 };
    assert(unigoal_children(b, false, f, ms.drop_last(), var, arg, val, rest) == Seq::<FrameView>::empty());
    assert(unigoal_children(b, false, f, ms, var, arg, val, rest) =~= seq![off]);
    assert(off.todo =~= Seq::<ItemView>::empty());
    // The check finds the goal missing, so its frame has no alternative.
    assert(on.todo =~= seq![check]);
    let cargs = check->Task_1;
    assert(verify_g_result(s, cargs) is None);
    let gms = seq![verify_g_method()];
    assert(gms.drop_last() =~= Seq::<Seq<char>>::empty());
    reveal_strlit("m_verify_g");
    reveal_strlit("m_verify_mg");
    assert(verify_g_method() != verify_mg_method()) by {
        assert(verify_g_method().len() != verify_mg_method().len());
    }
    assert(task_children(b, on, gms.drop_last(), cargs, on.todo.drop_first()) == Seq::<FrameView>::empty());
    assert(gms.last() == verify_g_method());
    assert(task_method_result(b, verify_g_method(), s, cargs) is None);
    assert(task_children(b, on, gms, cargs, on.todo.drop_first()) =~= Seq::<FrameView>::empty());
    assert(expand(b, d, true, on) == Expansion::Children(Seq::<FrameView>::empty()));
    assert(seek(b, d, true, on, (fuel - 1) as nat).0 == SearchOutcome::Failed);
    assert(expand(b, d, true, f) == Expansion::Children(seq![on]));
    assert(seq![on].drop_first() =~= Seq::<FrameView>::empty());
    assert(seek(b, d, true, f, fuel) == seek_all(b, d, true, seq![on], (fuel - 1) as nat));
    assert(expand(b, d, false, f) == Expansion::Children(seq![off]));
    assert(seek(b, d, false, off, (fuel - 1) as nat).0 == SearchOutcome::Found(Seq::<ItemView>::empty()));
    assert(seek(b, d, false, f, fuel) == seek_all(b, d, false, seq![off], (fuel - 1) as nat));
}

/// Equal inputs give equal answers: the outcome of `find_plan` depends only
/// on the planner's configuration, the state's content and the todo list.
pub proof fn lemma_deterministic<B: Behaviour>(
    c: PlanningContext<B>,
    s1: StateView,
    s2: StateView,
    t1: Seq<ItemView>,
    t2: Seq<ItemView>,
)
    requires
        s1 == s2,
        t1 == t2,
    ensures
        plan_outcome(c, s1, t1) == plan_outcome(c, s2, t2),
{
}

/// The state reached by applying the steps in order from `s`, when every
/// step is an action that applies.
pub open spec fn apply_actions<B: Behaviour>(b: B, s: StateView, steps: Seq<ItemView>) -> Option<StateView>
    decreases steps.len(),
{
    if steps.len() == 0 {
        Some(s)
    } else {
        match steps[0] {
            ItemView::Action(n, a) => match b.action_spec(n, s, a) {
                Some(s2) => apply_actions(b, s2, steps.drop_first()),
                None => None,
            },
            _ => None,
        }
    }
}

/// Whether an item is a goal that a successful search leaves achieved when
/// it is the last thing to do and verification is on: a unigoal, a multigoal
/// when the domain has multigoal methods, or a built-in check.
pub open spec fn guarded(d: DomainView, item: ItemView) -> bool {
    match item {
        ItemView::Unigoal(_, _, _) => true,
        ItemView::Multigoal(_) => d.multigoal_methods.len() > 0,
        ItemView::Task(n, _) => n == verify_g_task() || n == verify_mg_task(),
        ItemView::Action(_, _) => false,
    }
}

/// Whether a state achieves a guarded item.
pub open spec fn achieves(item: ItemView, t: StateView) -> bool {
    match item {
        ItemView::Unigoal(v, a, x) => holds(t.vars, v, a, x),
        ItemView::Multigoal(g) => holds_all(t.vars, g.vars),
        ItemView::Task(n, args) => if n == verify_g_task() {
            verify_g_result(t, args) is Some
        } else {
            verify_mg_result(t, args) is Some
        },
        ItemView::Action(_, _) => true,
    }
}

/// What a plan found from frame `f` guarantees: it extends the frame's plan,
/// the new steps are actions that apply one after another from the frame's
/// state, and the state they reach achieves the frame's last item when that
/// item is guarded, verification is on and the checks are intact.
pub open spec fn found_ok<B: Behaviour>(b: B, d: DomainView, verify: bool, f: FrameView, p: Seq<ItemView>) -> bool {
    &&& f.plan.len() <= p.len()
    &&& p.subrange(0, f.plan.len() as int) == f.plan
    &&& f.todo.len() == 0 ==> p == f.plan
    &&& apply_actions(b, f.state, p.subrange(f.plan.len() as int, p.len() as int)) is Some
    &&& (verify && checks_intact(d) && f.todo.len() > 0 && guarded(d, f.todo.last())) ==> achieves(
        f.todo.last(),
        apply_actions(b, f.state, p.subrange(f.plan.len() as int, p.len() as int))->Some_0,
    )
}

/// Whether every plan found from a child is one that the parent guarantees.
pub open spec fn children_ok<B: Behaviour>(b: B, d: DomainView, verify: bool, f: FrameView, cs: Seq<FrameView>) -> bool {
    forall|k: int, p: Seq<ItemView>|
        0 <= k < cs.len() && #[trigger] found_ok(b, d, verify, cs[k], p) ==> found_ok(b, d, verify, f, p)
}

/// Whether child `c` keeps the parent's state and plan and ends its todo
/// list with `rest`.
pub open spec fn keeps(f: FrameView, c: FrameView, rest: Seq<ItemView>) -> bool {
    &&& c.state == f.state
    &&& c.plan == f.plan
    &&& c.todo.len() >= rest.len()
    &&& c.todo.subrange(c.todo.len() - rest.len(), c.todo.len() as int) == rest
}

/// Whether an item is the unigoal check for `(v, a, x)`.
pub open spec fn is_g_check(item: ItemView, v: Seq<char>, a: Seq<char>, x: ValueView) -> bool {
    &&& item is Task
    &&& item->Task_0 == verify_g_task()
    &&& item->Task_1.len() == 5
    &&& item->Task_1[1] == ValueView::Str(v)
    &&& item->Task_1[2] == ValueView::Str(a)
    &&& item->Task_1[3] == x
}

/// Whether an item is the multigoal check for `g`.
pub open spec fn is_mg_check(item: ItemView, g: MultigoalView) -> bool {
    &&& item is Task
    &&& item->Task_0 == verify_mg_task()
    &&& item->Task_1.len() == 3
    &&& item->Task_1[1] == encode_multigoal(g)
}

proof fn lemma_task_shape<B: Behaviour>(b: B, f: FrameView, ms: Seq<Seq<char>>, args: Seq<ValueView>, rest: Seq<ItemView>)
    ensures
        forall|k: int|
            0 <= k < task_children(b, f, ms, args, rest).len() ==> #[trigger] keeps(
                f,
                task_children(b, f, ms, args, rest)[k],
                rest,
            ),
    decreases ms.len(),
{
    if ms.len() > 0 {
        lemma_task_shape(b, f, ms.drop_last(), args, rest);
        let prev = task_children(b, f, ms.drop_last(), args, rest);
        let all = task_children(b, f, ms, args, rest);
        if let Some(sub) = task_method_result(b, ms.last(), f.state, args) {
            let c = method_frame(f, sub, rest);
            assert(c.todo.subrange(c.todo.len() - rest.len(), c.todo.len() as int) =~= rest);
            assert(all == prev.push(c));
        }
        assert forall|k: int| 0 <= k < all.len() implies #[trigger] keeps(f, all[k], rest) by {
            if k < prev.len() {
                assert(all[k] == prev[k]);
            }
        }
    }
}

proof fn lemma_unigoal_shape<B: Behaviour>(
    b: B,
    verify: bool,
    f: FrameView,
    ms: Seq<Seq<char>>,
    v: Seq<char>,
    a: Seq<char>,
    x: ValueView,
    rest: Seq<ItemView>,
)
    ensures
        forall|k: int|
            0 <= k < unigoal_children(b, verify, f, ms, v, a, x, rest).len() ==> {
                let c = #[trigger] unigoal_children(b, verify, f, ms, v, a, x, rest)[k];
                &&& keeps(f, c, rest)
                &&& verify ==> c.todo.len() > rest.len() && is_g_check(c.todo[c.todo.len() - rest.len() - 1], v, a, x)
            },
    decreases ms.len(),
{
    if ms.len() > 0 {
        lemma_unigoal_shape(b, verify, f, ms.drop_last(), v, a, x, rest);
        let prev = unigoal_children(b, verify, f, ms.drop_last(), v, a, x, rest);
        let all = unigoal_children(b, verify, f, ms, v, a, x, rest);
        let m = ms.last();
        if let Some(sub) = b.unigoal_method_spec(m, f.state, a, x) {
            let check = if verify {
                seq![verify_g_item(m, v, a, x, f.depth)]
            } else {
                Seq::empty()
            };
            let t = sub + check + rest;
            assert(t.subrange(t.len() - rest.len(), t.len() as int) =~= rest);
            if verify {
                assert(t[t.len() - rest.len() - 1] == verify_g_item(m, v, a, x, f.depth));
            }
            assert(all == prev.push(FrameView { state: f.state, todo: t, plan: f.plan, depth: f.depth + 1 }));
        }
        assert forall|k: int| 0 <= k < all.len() implies ({
            let c = #[trigger] all[k];
            &&& keeps(f, c, rest)
            &&& verify ==> c.todo.len() > rest.len() && is_g_check(c.todo[c.todo.len() - rest.len() - 1], v, a, x)
        }) by {
            if k < prev.len() {
                assert(all[k] == prev[k]);
            }
        }
    }
}

proof fn lemma_multigoal_shape<B: Behaviour>(
    b: B,
    verify: bool,
    f: FrameView,
    ms: Seq<Seq<char>>,
    g: MultigoalView,
    rest: Seq<ItemView>,
)
    ensures
        forall|k: int|
            0 <= k < multigoal_children(b, verify, f, ms, g, rest).len() ==> {
                let c = #[trigger] multigoal_children(b, verify, f, ms, g, rest)[k];
                &&& keeps(f, c, rest)
                &&& verify ==> c.todo.len() > rest.len() && is_mg_check(c.todo[c.todo.len() - rest.len() - 1], g)
            },
    decreases ms.len(),
{
    if ms.len() > 0 {
        lemma_multigoal_shape(b, verify, f, ms.drop_last(), g, rest);
        let prev = multigoal_children(b, verify, f, ms.drop_last(), g, rest);
        let all = multigoal_children(b, verify, f, ms, g, rest);
        let m = ms.last();
        if let Some(sub) = b.multigoal_method_spec(m, f.state, g) {
            let check = if verify {
                seq![verify_mg_item(m, g, f.depth)]
            } else {
                Seq::empty()
            };
            let t = sub + check + rest;
            assert(t.subrange(t.len() - rest.len(), t.len() as int) =~= rest);
            if verify {
                assert(t[t.len() - rest.len() - 1] == verify_mg_item(m, g, f.depth));
            }
            assert(all == prev.push(FrameView { state: f.state, todo: t, plan: f.plan, depth: f.depth + 1 }));
        }
        assert forall|k: int| 0 <= k < all.len() implies ({
            let c = #[trigger] all[k];
            &&& keeps(f, c, rest)
            &&& verify ==> c.todo.len() > rest.len() && is_mg_check(c.todo[c.todo.len() - rest.len() - 1], g)
        }) by {
            if k < prev.len() {
                assert(all[k] == prev[k]);
            }
        }
    }
}

/// A child that keeps the parent's state and plan and ends with the parent's
/// remaining items passes its guarantee on to the parent when those items
/// are not empty.
proof fn lemma_keeps_ok<B: Behaviour>(b: B, d: DomainView, verify: bool, f: FrameView, c: FrameView, p: Seq<ItemView>)
    requires
        f.todo.len() > 0,
        keeps(f, c, f.todo.drop_first()),
        found_ok(b, d, verify, c, p),
        f.todo.len() > 1 || !(verify && checks_intact(d) && guarded(d, f.todo.last())),
    ensures
        found_ok(b, d, verify, f, p),
{
    let rest = f.todo.drop_first();
    if f.todo.len() > 1 {
        assert(c.todo.last() == c.todo.subrange(c.todo.len() - rest.len(), c.todo.len() as int)[rest.len() - 1]);
        assert(c.todo.last() == f.todo.last());
    }
}

/// The guarantee of an action's child passes on to the parent.
proof fn lemma_action_ok<B: Behaviour>(
    b: B,
    d: DomainView,
    verify: bool,
    f: FrameView,
    n: Seq<char>,
    a: Seq<ValueView>,
    p: Seq<ItemView>,
)
    requires
        f.todo.len() > 0,
        action_children(b, f, n, a, f.todo.drop_first()).len() > 0,
        found_ok(b, d, verify, action_children(b, f, n, a, f.todo.drop_first())[0], p),
        f.todo.len() > 1 || !(verify && checks_intact(d) && guarded(d, f.todo.last())),
    ensures
        found_ok(b, d, verify, f, p),
{
    let rest = f.todo.drop_first();
    let c = action_children(b, f, n, a, rest)[0];
    let s2 = b.action_spec(n, f.state, a)->Some_0;
    assert(c.plan == f.plan.push(ItemView::Action(n, a)));
    let k = f.plan.len() as int;
    assert(p.subrange(0, k + 1) == c.plan);
    assert(p.subrange(0, k) =~= c.plan.subrange(0, k));
    assert(c.plan.subrange(0, k) =~= f.plan);
    assert(p[k] == p.subrange(0, k + 1)[k]);
    assert(p[k] == c.plan[k]);
    let steps = p.subrange(k, p.len() as int);
    assert(steps[0] == ItemView::Action(n, a));
    assert(steps.drop_first() =~= p.subrange(k + 1, p.len() as int));
    assert(apply_actions(b, f.state, steps) == apply_actions(b, s2, p.subrange(k + 1, p.len() as int)));
    if f.todo.len() > 1 {
        assert(c.todo == rest);
        assert(c.todo.last() == f.todo.last());
    }
}

/// Every plan found from an expanded frame's children is one that the frame
/// guarantees.
proof fn lemma_children_ok<B: Behaviour>(b: B, d: DomainView, verify: bool, f: FrameView)
    requires
        f.todo.len() > 0,
        expand(b, d, verify, f) is Children,
    ensures
        children_ok(b, d, verify, f, expand(b, d, verify, f)->Children_0),
{
    let cs = expand(b, d, verify, f)->Children_0;
    let item = f.todo[0];
    let rest = f.todo.drop_first();
    let single = f.todo.len() == 1;
    if single {
        assert(f.todo.last() == item);
    }
    assert forall|k: int, p: Seq<ItemView>|
        0 <= k < cs.len() && #[trigger] found_ok(b, d, verify, cs[k], p) implies found_ok(b, d, verify, f, p) by {
        let c = cs[k];
        match item {
            ItemView::Action(n, a) => {
                assert(!guarded(d, item));
                assert(d.actions.contains(n));
                lemma_action_ok(b, d, verify, f, n, a, p);
            },
            ItemView::Task(n, a) => {
                if d.actions.contains(n) {
                    lemma_action_ok(b, d, verify, f, n, a, p);
                } else {
                    let ms = lookup(d.task_methods, n)->Some_0;
                    lemma_task_shape(b, f, ms, a, rest);
                    assert(keeps(f, c, rest));
                    if single && verify && checks_intact(d) && guarded(d, item) {
                        // The item is a built-in check with its built-in method alone.
                        reveal_strlit("m_verify_g");
                        reveal_strlit("m_verify_mg");
                        reveal_strlit("_verify_g");
                        reveal_strlit("_verify_mg");
                        assert(verify_g_method() != verify_mg_method()) by {
                            assert(verify_g_method().len() != verify_mg_method().len());
                        }
                        assert(verify_g_task() != verify_mg_task()) by {
                            assert(verify_g_task().len() != verify_mg_task().len());
                        }
                        let m = if n == verify_g_task() { verify_g_method() } else { verify_mg_method() };
                        assert(ms == seq![m]);
                        assert(ms.drop_last() =~= Seq::<Seq<char>>::empty());
                        assert(task_children(b, f, ms.drop_last(), a, rest) == Seq::<FrameView>::empty());
                        let out = task_method_result(b, m, f.state, a);
                        assert(out is Some);
                        assert(out->Some_0 =~= Seq::<ItemView>::empty());
                        assert(rest =~= Seq::<ItemView>::empty());
                        assert(c.todo =~= Seq::<ItemView>::empty());
                        assert(p == f.plan);
                        assert(p.subrange(f.plan.len() as int, p.len() as int) =~= Seq::<ItemView>::empty());
                    } else {
                        lemma_keeps_ok(b, d, verify, f, c, p);
                    }
                }
            },
            ItemView::Unigoal(v, x, val) => {
                if holds(f.state.vars, v, x, val) {
                    assert(c == FrameView { todo: rest, ..f });
                    assert(c.todo.subrange(c.todo.len() - rest.len(), c.todo.len() as int) =~= rest);
                    if single {
                        assert(c.todo.len() == 0);
                        assert(p.subrange(f.plan.len() as int, p.len() as int) =~= Seq::<ItemView>::empty());
                    } else {
                        lemma_keeps_ok(b, d, verify, f, c, p);
                    }
                } else {
                    let ms = lookup(d.unigoal_methods, v)->Some_0;
                    lemma_unigoal_shape(b, verify, f, ms, v, x, val, rest);
                    if single && verify {
                        assert(rest.len() == 0);
                        let chk = c.todo[c.todo.len() - 1];
                        assert(is_g_check(chk, v, x, val));
                        assert(c.todo.last() == chk);
                        reveal_strlit("_verify_g");
                        assert(guarded(d, chk));
                    } else {
                        lemma_keeps_ok(b, d, verify, f, c, p);
                    }
                }
            },
            ItemView::Multigoal(g) => {
                if holds_all(f.state.vars, g.vars) {
                    assert(c == FrameView { todo: rest, ..f });
                    assert(c.todo.subrange(c.todo.len() - rest.len(), c.todo.len() as int) =~= rest);
                    if single {
                        assert(c.todo.len() == 0);
                        assert(p.subrange(f.plan.len() as int, p.len() as int) =~= Seq::<ItemView>::empty());
                    } else {
                        lemma_keeps_ok(b, d, verify, f, c, p);
                    }
                } else if d.multigoal_methods.len() > 0 {
                    lemma_multigoal_shape(b, verify, f, d.multigoal_methods, g, rest);
                    if single && verify {
                        assert(rest.len() == 0);
                        let chk = c.todo[c.todo.len() - 1];
                        assert(is_mg_check(chk, g));
                        assert(c.todo.last() == chk);
                        reveal_strlit("_verify_g");
                        reveal_strlit("_verify_mg");
                        assert(guarded(d, chk));
                        lemma_encoded_goal(g);
                    } else {
                        lemma_keeps_ok(b, d, verify, f, c, p);
                    }
                } else {
                    let t = unigoal_items(g) + rest;
                    assert(c.todo == t);
                    assert(t.subrange(t.len() - rest.len(), t.len() as int) =~= rest);
                    assert(!guarded(d, item));
                    lemma_keeps_ok(b, d, verify, f, c, p);
                }
            },
        }
    }
}

proof fn lemma_found<B: Behaviour>(b: B, d: DomainView, verify: bool, f: FrameView, fuel: nat)
    ensures
        seek(b, d, verify, f, fuel).0 matches SearchOutcome::Found(p) ==> found_ok(b, d, verify, f, p),
    decreases fuel, 0nat, 0nat,
{
    if fuel > 0 {
        if f.todo.len() == 0 {
            let p = f.plan;
            assert(p.subrange(0, f.plan.len() as int) =~= f.plan);
            assert(p.subrange(f.plan.len() as int, p.len() as int) =~= Seq::<ItemView>::empty());
        } else if let Expansion::Children(cs) = expand(b, d, verify, f) {
            lemma_children_ok(b, d, verify, f);
            lemma_found_all(b, d, verify, f, cs, (fuel - 1) as nat);
        }
    }
}

proof fn lemma_found_all<B: Behaviour>(b: B, d: DomainView, verify: bool, f: FrameView, cs: Seq<FrameView>, fuel: nat)
    requires
        children_ok(b, d, verify, f, cs),
    ensures
        seek_all(b, d, verify, cs, fuel).0 matches SearchOutcome::Found(p) ==> found_ok(b, d, verify, f, p),
    decreases fuel, 1nat, cs.len(),
{
    if cs.len() > 0 {
        lemma_found(b, d, verify, cs[0], fuel);
        let (o, left) = seek(b, d, verify, cs[0], fuel);
        if let SearchOutcome::Found(p) = o {
            assert(found_ok(b, d, verify, cs[0], p));
        }
        if o is Failed {
            let tail = cs.drop_first();
            assert forall|k: int, p: Seq<ItemView>|
                0 <= k < tail.len() && #[trigger] found_ok(b, d, verify, tail[k], p) implies found_ok(b, d, verify, f, p) by {
                assert(tail[k] == cs[k + 1]);
            }
            crate::planning::search::lemma_seek_fuel(b, d, verify, cs[0], fuel);
            lemma_found_all(b, d, verify, f, tail, left);
        }
    }
}

/// A plan that `find_plan` returns is made of actions that apply one after
/// another from the initial state. When verification is on, the built-in
/// checks are intact and the todo list is a single unigoal, or a single
/// multigoal of a domain with multigoal methods, the state that the plan
/// reaches achieves that goal.
pub proof fn lemma_plan_executes<B: Behaviour>(c: PlanningContext<B>, s: StateView, todo: Seq<ItemView>)
    ensures
        plan_outcome(c, s, todo) matches SearchOutcome::Found(p) ==> {
            &&& apply_actions(c.domain.spec_behaviour(), s, p) is Some
            &&& (c.verify_goals && checks_intact(c.domain@) && todo.len() == 1 && guarded(c.domain@, todo[0])
                && !(todo[0] is Task)) ==> achieves(todo[0], apply_actions(c.domain.spec_behaviour(), s, p)->Some_0)
        },
{
    let f = start_frame(s, todo);
    let b = c.domain.spec_behaviour();
    lemma_found(b, c.domain@, c.verify_goals, f, c.max_steps as nat);
    if let SearchOutcome::Found(p) = plan_outcome(c, s, todo) {
        assert(p.subrange(0, p.len() as int) =~= p);
        if todo.len() == 1 {
            assert(todo.last() == todo[0]);
        }
    }
}

proof fn lemma_actions_only<B: Behaviour>(b: B, s: StateView, steps: Seq<ItemView>)
    requires
        apply_actions(b, s, steps) is Some,
    ensures
        forall|i: int| 0 <= i < steps.len() ==> #[trigger] steps[i] is Action,
    decreases steps.len(),
{
    if steps.len() > 0 {
        let s2 = b.action_spec(steps[0]->Action_0, s, steps[0]->Action_1)->Some_0;
        lemma_actions_only(b, s2, steps.drop_first());
        assert forall|i: int| 0 <= i < steps.len() implies #[trigger] steps[i] is Action by {
            if i > 0 {
                assert(steps[i] == steps.drop_first()[i - 1]);
            }
        }
    }
}

/// Every item of a plan that `find_plan` returns is an action.
pub proof fn lemma_plan_is_actions<B: Behaviour>(c: PlanningContext<B>, s: StateView, todo: Seq<ItemView>)
    ensures
        plan_outcome(c, s, todo) matches SearchOutcome::Found(p) ==> forall|i: int| 0 <= i < p.len() ==> #[trigger] p[i] is Action,
{
    lemma_plan_executes(c, s, todo);
    if let SearchOutcome::Found(p) = plan_outcome(c, s, todo) {
        lemma_actions_only(c.domain.spec_behaviour(), s, p);
    }
}

/// The alternatives of a frame start from the frame's own state, or from
/// what an action makes of it: a failed sibling leaves nothing behind, and
/// the state the search started from is only ever read.
pub proof fn lemma_alternatives_from_frame_state<B: Behaviour>(b: B, d: DomainView, verify: bool, f: FrameView)
    requires
        f.todo.len() > 0,
        expand(b, d, verify, f) is Children,
    ensures
        forall|k: int|
            0 <= k < expand(b, d, verify, f)->Children_0.len() ==> {
                let c = #[trigger] expand(b, d, verify, f)->Children_0[k];
                c.state == f.state || (f.todo[0] matches ItemView::Action(n, a) && b.action_spec(n, f.state, a)
                    == Some(c.state)) || (f.todo[0] matches ItemView::Task(n, a) && b.action_spec(n, f.state, a)
                    == Some(c.state))
            },
{
    let cs = expand(b, d, verify, f)->Children_0;
    let rest = f.todo.drop_first();
    match f.todo[0] {
        ItemView::Task(n, a) => {
            if !d.actions.contains(n) {
                lemma_task_shape(b, f, lookup(d.task_methods, n)->Some_0, a, rest);
                assert forall|k: int| 0 <= k < cs.len() implies (#[trigger] cs[k]).state == f.state by {
                    assert(keeps(f, cs[k], rest));
                }
            }
        },
        ItemView::Unigoal(v, x, val) => {
            if !holds(f.state.vars, v, x, val) {
                lemma_unigoal_shape(b, verify, f, lookup(d.unigoal_methods, v)->Some_0, v, x, val, rest);
                assert forall|k: int| 0 <= k < cs.len() implies (#[trigger] cs[k]).state == f.state by {
                    assert(keeps(f, cs[k], rest));
                }
            }
        },
        ItemView::Multigoal(g) => {
            if !holds_all(f.state.vars, g.vars) && d.multigoal_methods.len() > 0 {
                lemma_multigoal_shape(b, verify, f, d.multigoal_methods, g, rest);
                assert forall|k: int| 0 <= k < cs.len() implies (#[trigger] cs[k]).state == f.state by {
                    assert(keeps(f, cs[k], rest));
                }
            }
        },
        _ => {},
    }
}

} // verus!
