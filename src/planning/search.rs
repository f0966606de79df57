//! The meaning of the search: how one frame expands, the recursive search
//! over alternatives, the same search run on an explicit stack, and the proof
//! that both give the same answer.
use crate::model::cells::{flatten, holds, holds_all};
use crate::model::domain::{
    verify_g_method, verify_g_task, verify_mg_method, verify_mg_task, Behaviour, DomainView,
};
use crate::model::item::ItemView;
use crate::model::multigoal::{encode_multigoal, encoded_goal, MultigoalView};
use crate::model::state::StateView;
use crate::model::table::lookup;
use crate::model::value::ValueView;
use vstd::prelude::*;

verus! {

/// One node of the search: a state, the items still to do, the plan so far
/// and the depth.
pub struct FrameView {
    pub state: StateView,
    pub todo: Seq<ItemView>,
    pub plan: Seq<ItemView>,
    pub depth: nat,
}

/// How a search ends.
pub enum SearchOutcome {
    /// A plan was found.
    Found(Seq<ItemView>),
    /// No alternative led to a plan.
    Failed,
    /// The item at the given depth is no action, known task or unigoal
    /// with methods.
    Unknown(ItemView, nat),
    /// The step budget ran out.
    OutOfSteps,
}

/// What the built-in unigoal check gives: nothing to do when the cell named
/// by the arguments holds the desired value, `None` otherwise.
pub open spec fn verify_g_result(state: StateView, args: Seq<ValueView>) -> Option<Seq<ItemView>> {
    if args.len() >= 5 && args[0] is Str && args[1] is Str && args[2] is Str && args[4] is Int
        && args[4]->Int_0 >= 0 {
        if holds(state.vars, args[1]->Str_0, args[2]->Str_0, args[3]) {
            Some(Seq::empty())
        } else {
            None
        }
    } else {
        None
    }
}

/// What the built-in multigoal check gives: nothing to do when the state
/// holds every cell of the encoded multigoal, `None` otherwise.
pub open spec fn verify_mg_result(state: StateView, args: Seq<ValueView>) -> Option<Seq<ItemView>> {
    if args.len() >= 3 && args[0] is Str && args[2] is Int && args[2]->Int_0 >= 0 {
        match encoded_goal(args[1]) {
            Some(g) => if holds_all(state.vars, g) {
                Some(Seq::empty())
            } else {
                None
            },
            None => None,
        }
    } else {
        None
    }
}

/// What task method `m` gives: a built-in check, or the behaviour's method.
pub open spec fn task_method_result<B: Behaviour>(
    b: B,
    m: Seq<char>,
    state: StateView,
    args: Seq<ValueView>,
) -> Option<Seq<ItemView>> {
    if m == verify_g_method() {
        verify_g_result(state, args)
    } else if m == verify_mg_method() {
        verify_mg_result(state, args)
    } else {
        b.task_method_spec(m, state, args)
    }
}

/// The check inserted after a unigoal method's subgoals.
pub open spec fn verify_g_item(m: Seq<char>, var: Seq<char>, arg: Seq<char>, val: ValueView, depth: nat) -> ItemView {
    ItemView::Task(
        verify_g_task(),
        seq![ValueView::Str(m), ValueView::Str(var), ValueView::Str(arg), val, ValueView::Int(depth as i64)],
    )
}

/// The check inserted after a multigoal method's subgoals.
pub open spec fn verify_mg_item(m: Seq<char>, goal: MultigoalView, depth: nat) -> ItemView {
    ItemView::Task(verify_mg_task(), seq![ValueView::Str(m), encode_multigoal(goal), ValueView::Int(depth as i64)])
}

/// The frame after applying action `name` to the frame's state, if it applies.
pub open spec fn action_children<B: Behaviour>(
    b: B,
    f: FrameView,
    name: Seq<char>,
    args: Seq<ValueView>,
    rest: Seq<ItemView>,
) -> Seq<FrameView> {
    match b.action_spec(name, f.state, args) {
        Some(s) => seq![FrameView { state: s, todo: rest, plan: f.plan.push(ItemView::Action(name, args)), depth: f.depth + 1 }],
        None => Seq::empty(),
    }
}

/// One frame per task method that applies, in preference order.
pub open spec fn task_children<B: Behaviour>(
    b: B,
    f: FrameView,
    methods: Seq<Seq<char>>,
    args: Seq<ValueView>,
    rest: Seq<ItemView>,
) -> Seq<FrameView>
    decreases methods.len(),
{
    if methods.len() == 0 {
        Seq::empty()
    } else {
        let prev = task_children(b, f, methods.drop_last(), args, rest);
        match task_method_result(b, methods.last(), f.state, args) {
            Some(sub) => prev.push(FrameView { state: f.state, todo: sub + rest, plan: f.plan, depth: f.depth + 1 }),
            None => prev,
        }
    }
}

/// One frame per unigoal method that applies, in preference order, each
/// followed by the check when `verify` is on.
pub open spec fn unigoal_children<B: Behaviour>(
    b: B,
    verify: bool,
    f: FrameView,
    methods: Seq<Seq<char>>,
    var: Seq<char>,
    arg: Seq<char>,
    val: ValueView,
    rest: Seq<ItemView>,
) -> Seq<FrameView>
    decreases methods.len(),
{
    if methods.len() == 0 {
        Seq::empty()
    } else {
        let prev = unigoal_children(b, verify, f, methods.drop_last(), var, arg, val, rest);
        let m = methods.last();
        match b.unigoal_method_spec(m, f.state, arg, val) {
            Some(sub) => {
                let check = if verify {
                    seq![verify_g_item(m, var, arg, val, f.depth)]
                } else {
                    Seq::empty()
                };
                prev.push(FrameView { state: f.state, todo: sub + check + rest, plan: f.plan, depth: f.depth + 1 })
            },
            None => prev,
        }
    }
}

/// One frame per multigoal method that applies, in preference order, each
/// followed by the check when `verify` is on.
pub open spec fn multigoal_children<B: Behaviour>(
    b: B,
    verify: bool,
    f: FrameView,
    methods: Seq<Seq<char>>,
    goal: MultigoalView,
    rest: Seq<ItemView>,
) -> Seq<FrameView>
    decreases methods.len(),
{
    if methods.len() == 0 {
        Seq::empty()
    } else {
        let prev = multigoal_children(b, verify, f, methods.drop_last(), goal, rest);
        let m = methods.last();
        match b.multigoal_method_spec(m, f.state, goal) {
            Some(sub) => {
                let check = if verify {
                    seq![verify_mg_item(m, goal, f.depth)]
                } else {
                    Seq::empty()
                };
                prev.push(FrameView { state: f.state, todo: sub + check + rest, plan: f.plan, depth: f.depth + 1 })
            },
            None => prev,
        }
    }
}

/// The unigoals of a multigoal, cell by cell.
pub open spec fn unigoal_items(goal: MultigoalView) -> Seq<ItemView> {
    Seq::new(
        flatten(goal.vars).len(),
        |k: int| ItemView::Unigoal(flatten(goal.vars)[k].0, flatten(goal.vars)[k].1, flatten(goal.vars)[k].2),
    )
}

/// The result of expanding the first item of a frame.
pub enum Expansion {
    /// The alternatives, in preference order.
    Children(Seq<FrameView>),
    /// The item is unknown to the domain.
    Unknown,
}

/// How the first item of a non-empty todo list expands.
pub open spec fn expand<B: Behaviour>(b: B, d: DomainView, verify: bool, f: FrameView) -> Expansion {
    let item = f.todo[0];
    let rest = f.todo.drop_first();
    match item {
        ItemView::Action(n, a) => if d.actions.contains(n) {
            Expansion::Children(action_children(b, f, n, a, rest))
        } else {
            Expansion::Children(Seq::empty())
        },
        ItemView::Task(n, a) => if d.actions.contains(n) {
            Expansion::Children(action_children(b, f, n, a, rest))
        } else {
            match lookup(d.task_methods, n) {
                Some(ms) => Expansion::Children(task_children(b, f, ms, a, rest)),
                None => Expansion::Unknown,
            }
        },
        ItemView::Unigoal(v, s, x) => if holds(f.state.vars, v, s, x) {
            Expansion::Children(seq![FrameView { todo: rest, ..f }])
        } else {
            match lookup(d.unigoal_methods, v) {
                Some(ms) => Expansion::Children(unigoal_children(b, verify, f, ms, v, s, x, rest)),
                None => Expansion::Unknown,
            }
        },
        ItemView::Multigoal(g) => if holds_all(f.state.vars, g.vars) {
            Expansion::Children(seq![FrameView { todo: rest, ..f }])
        } else if d.multigoal_methods.len() > 0 {
            Expansion::Children(multigoal_children(b, verify, f, d.multigoal_methods, g, rest))
        } else {
            Expansion::Children(seq![FrameView { todo: unigoal_items(g) + rest, ..f }])
        },
    }
}

/// The recursive search from one frame with `fuel` steps: each visited frame
/// costs one step. Gives the outcome and the steps left.
pub open spec fn seek<B: Behaviour>(b: B, d: DomainView, verify: bool, f: FrameView, fuel: nat) -> (SearchOutcome, nat)
    decreases fuel, 0nat, 0nat,
{
    if fuel == 0 {
        (SearchOutcome::OutOfSteps, 0)
    } else if f.todo.len() == 0 {
        (SearchOutcome::Found(f.plan), (fuel - 1) as nat)
    } else {
        match expand(b, d, verify, f) {
            Expansion::Unknown => (SearchOutcome::Unknown(f.todo[0], f.depth), (fuel - 1) as nat),
            Expansion::Children(cs) => seek_all(b, d, verify, cs, (fuel - 1) as nat),
        }
    }
}

/// The recursive search over alternatives: the first one that does not fail
/// decides; a failed one hands its remaining steps to the next.
pub open spec fn seek_all<B: Behaviour>(
    b: B,
    d: DomainView,
    verify: bool,
    cs: Seq<FrameView>,
    fuel: nat,
) -> (SearchOutcome, nat)
    decreases fuel, 1nat, cs.len(),
{
    if cs.len() == 0 {
        (SearchOutcome::Failed, fuel)
    } else {
        let (o, left) = seek(b, d, verify, cs[0], fuel);
        if o is Failed {
            seek_all(b, d, verify, cs.drop_first(), if left <= fuel { left } else { fuel })
        } else {
            (o, left)
        }
    }
}

/// A sequence in reverse order.
pub open spec fn reversed<A>(s: Seq<A>) -> Seq<A>
    decreases s.len(),
{
    if s.len() == 0 {
        s
    } else {
        reversed(s.drop_first()).push(s[0])
    }
}

/// The search run on an explicit stack whose top is its last element: pop
/// a frame, stop on an empty todo list, otherwise push its alternatives so
/// that the preferred one is on top.
pub open spec fn run_stack<B: Behaviour>(
    b: B,
    d: DomainView,
    verify: bool,
    stack: Seq<FrameView>,
    fuel: nat,
) -> (SearchOutcome, nat)
    decreases fuel,
{
    if stack.len() == 0 {
        (SearchOutcome::Failed, fuel)
    } else if fuel == 0 {
        (SearchOutcome::OutOfSteps, 0)
    } else {
        let f = stack.last();
        let below = stack.drop_last();
        if f.todo.len() == 0 {
            (SearchOutcome::Found(f.plan), (fuel - 1) as nat)
        } else {
            match expand(b, d, verify, f) {
                Expansion::Unknown => (SearchOutcome::Unknown(f.todo[0], f.depth), (fuel - 1) as nat),
                Expansion::Children(cs) => run_stack(b, d, verify, below + reversed(cs), (fuel - 1) as nat),
            }
        }
    }
}

/// A search never gives back more steps than it got.
pub proof fn lemma_seek_fuel<B: Behaviour>(b: B, d: DomainView, verify: bool, f: FrameView, fuel: nat)
    ensures
        seek(b, d, verify, f, fuel).1 <= fuel,
    decreases fuel, 0nat, 0nat,
{
    if fuel > 0 && f.todo.len() > 0 {
        if let Expansion::Children(cs) = expand(b, d, verify, f) {
            lemma_seek_all_fuel(b, d, verify, cs, (fuel - 1) as nat);
        }
    }
}

/// A search over alternatives never gives back more steps than it got.
pub proof fn lemma_seek_all_fuel<B: Behaviour>(b: B, d: DomainView, verify: bool, cs: Seq<FrameView>, fuel: nat)
    ensures
        seek_all(b, d, verify, cs, fuel).1 <= fuel,
    decreases fuel, 1nat, cs.len(),
{
    if cs.len() > 0 {
        lemma_seek_fuel(b, d, verify, cs[0], fuel);
        let (o, left) = seek(b, d, verify, cs[0], fuel);
        if o is Failed {
            lemma_seek_all_fuel(b, d, verify, cs.drop_first(), left);
        }
    }
}

/// Running the stack with a frame on top does what searching from that
/// frame does, and continues with the frames below only when it fails.
pub proof fn lemma_stack_frame<B: Behaviour>(
    b: B,
    d: DomainView,
    verify: bool,
    below: Seq<FrameView>,
    f: FrameView,
    fuel: nat,
)
    ensures
        run_stack(b, d, verify, below.push(f), fuel) == match seek(b, d, verify, f, fuel) {
            (SearchOutcome::Failed, left) => run_stack(b, d, verify, below, left),
            other => other,
        },
    decreases fuel, 0nat, 0nat,
{
    let s = below.push(f);
    assert(s.drop_last() =~= below);
    if fuel > 0 && f.todo.len() > 0 {
        if let Expansion::Children(cs) = expand(b, d, verify, f) {
            lemma_stack_all(b, d, verify, below, cs, (fuel - 1) as nat);
        }
    }
}

/// Running the stack with alternatives pushed in reverse does what searching
/// over them in order does, then continues below.
pub proof fn lemma_stack_all<B: Behaviour>(
    b: B,
    d: DomainView,
    verify: bool,
    below: Seq<FrameView>,
    cs: Seq<FrameView>,
    fuel: nat,
)
    ensures
        run_stack(b, d, verify, below + reversed(cs), fuel) == match seek_all(b, d, verify, cs, fuel) {
            (SearchOutcome::Failed, left) => run_stack(b, d, verify, below, left),
            other => other,
        },
    decreases fuel, 1nat, cs.len(),
{
    if cs.len() == 0 {
        assert(below + reversed(cs) =~= below);
    } else {
        let tail = cs.drop_first();
        assert(below + reversed(cs) =~= (below + reversed(tail)).push(cs[0]));
        lemma_stack_frame(b, d, verify, below + reversed(tail), cs[0], fuel);
        lemma_seek_fuel(b, d, verify, cs[0], fuel);
        let (o, left) = seek(b, d, verify, cs[0], fuel);
        if o is Failed {
            lemma_stack_all(b, d, verify, below, tail, left);
        }
    }
}

/// The two shapes of the search agree: running the stack that holds only the
/// initial frame gives the same outcome, with the same steps left, as the
/// recursive search from that frame.
pub proof fn lemma_strategies_agree<B: Behaviour>(b: B, d: DomainView, verify: bool, f: FrameView, fuel: nat)
    ensures
        run_stack(b, d, verify, seq![f], fuel) == seek(b, d, verify, f, fuel),
{
    lemma_stack_frame(b, d, verify, Seq::empty(), f, fuel);
    assert(Seq::<FrameView>::empty().push(f) =~= seq![f]);
    lemma_seek_fuel(b, d, verify, f, fuel);
}

} // verus!
