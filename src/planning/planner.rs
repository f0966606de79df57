//! The planner: an immutable configuration bound to a domain, with the
//! search and the act-plan-replan loop.
use super::describe::item_text;
use super::search::{seek, FrameView, SearchOutcome};
use super::strategy::{
    budget, out_of_steps_reason, IterativeStrategy, PlanningContext, PlanningResult,
    PlanningStrategy, RecursiveStrategy,
};
use crate::error::{GTRustHopError, Result};
use crate::model::domain::{opt_state_view, Behaviour, Domain, DomainView};
use crate::model::item::{items_view, ItemView, PlanItem};
use crate::model::multigoal::Multigoal;
use crate::model::state::{State, StateView};
use crate::model::table::{insert_entry, lookup, OrderedMap};
use crate::model::table::DeepCopy;
use super::strategy::PlanningStrategyTrait;
use vstd::prelude::*;
use vstd::string::StringExecFns;

verus! {

/// The frame that a search for `todo` from `state` starts with.
pub open spec fn start_frame(state: StateView, todo: Seq<ItemView>) -> FrameView {
    FrameView { state, todo, plan: Seq::empty(), depth: 0 }
}

/// What `find_plan` answers, as a search outcome.
pub open spec fn plan_outcome<B: Behaviour>(c: PlanningContext<B>, state: StateView, todo: Seq<ItemView>) -> SearchOutcome {
    seek(c.domain.spec_behaviour(), c.domain@, c.verify_goals, start_frame(state, todo), c.max_steps as nat).0
}

/// Whether `find_plan`'s answer is the one the outcome describes.
pub open spec fn plan_answers(r: Result<Option<Vec<PlanItem>>>, o: SearchOutcome) -> bool {
    match o {
        SearchOutcome::Found(p) => r matches Ok(Some(plan)) && items_view(plan@) == p,
        SearchOutcome::Failed => r matches Ok(None),
        SearchOutcome::Unknown(item, depth) => r matches Err(GTRustHopError::InvalidItemType { item: s, depth: d })
            && s@ == item_text(item) && d == depth,
        SearchOutcome::OutOfSteps => r matches Err(GTRustHopError::PlanningFailed { reason }) && reason@
            == out_of_steps_reason(),
    }
}

/// The name of the command that performs action `name`.
pub open spec fn command_name(name: Seq<char>) -> Seq<char> {
    "c_"@ + name
}

/// One step of acting: the command `c_<name>` when the domain declares it,
/// else the action itself, else nothing that can run.
pub open spec fn act_step<B: Behaviour>(b: B, d: DomainView, s: StateView, item: ItemView) -> Option<StateView> {
    match item {
        ItemView::Action(n, a) => if d.commands.contains(command_name(n)) {
            b.command_spec(command_name(n), s, a)
        } else if d.actions.contains(n) {
            b.action_spec(n, s, a)
        } else {
            None
        },
        _ => Some(s),
    }
}

/// The state after performing the plan's steps in order, stopping at the
/// first step that fails.
pub open spec fn act_plan<B: Behaviour>(b: B, d: DomainView, s: StateView, plan: Seq<ItemView>) -> StateView
    decreases plan.len(),
{
    if plan.len() == 0 {
        s
    } else {
        match act_step(b, d, s, plan[0]) {
            Some(s2) => act_plan(b, d, s2, plan.drop_first()),
            None => s,
        }
    }
}

/// How the act-plan-replan loop ends.
pub enum LazyEnd {
    /// With this state.
    Reached(StateView),
    /// Planning found no plan while reporting was on.
    NoPlan,
    /// The search stopped hard.
    Stopped(SearchOutcome),
}

/// The act-plan-replan loop with `tries` rounds left.
pub open spec fn lazy_lookahead<B: Behaviour>(
    c: PlanningContext<B>,
    verbose: i32,
    s: StateView,
    todo: Seq<ItemView>,
    tries: nat,
) -> LazyEnd
    decreases tries,
{
    if tries == 0 {
        LazyEnd::Reached(s)
    } else {
        match plan_outcome(c, s, todo) {
            SearchOutcome::Found(p) => if p.len() == 0 {
                LazyEnd::Reached(s)
            } else {
                lazy_lookahead(c, verbose, act_plan(c.domain.spec_behaviour(), c.domain@, s, p), todo, (tries - 1) as nat)
            },
            SearchOutcome::Failed => if verbose >= 1 {
                LazyEnd::NoPlan
            } else {
                LazyEnd::Reached(s)
            },
            other => LazyEnd::Stopped(other),
        }
    }
}

/// The text of the error that the loop ends with when no plan exists.
pub open spec fn no_plan_reason() -> Seq<char> {
    "run_lazy_lookahead: find_plan has failed"@
}

/// Whether the loop's answer is the one that `e` describes.
pub open spec fn lazy_answers(r: Result<State>, e: LazyEnd) -> bool {
    match e {
        LazyEnd::Reached(s) => r matches Ok(st) && st@ == s,
        LazyEnd::NoPlan => r matches Err(GTRustHopError::PlanningFailed { reason }) && reason@ == no_plan_reason(),
        LazyEnd::Stopped(o) => plan_answers(
            match r {
                Ok(_) => Ok(None),
                Err(e) => Err(e),
            },
            o,
        ) && r is Err,
    }
}

/// The key under which a planner files a multigoal: `goal_<name>`.
pub open spec fn goal_key(name: Seq<char>) -> Seq<char> {
    "goal_"@ + name
}

fn goal_key_of(m: &Multigoal) -> (r: String)
    ensures
        r@ == goal_key(m@.name),
{
    let mut k = String::from_str("goal_");
    k.append(m.name_text().as_str());
    k
}

/// A table of multigoals after filing each of `goals` in turn.
pub open spec fn file_goals(
    entries: Seq<(Seq<char>, crate::model::multigoal::MultigoalView)>,
    goals: Seq<crate::model::multigoal::MultigoalView>,
) -> Seq<(Seq<char>, crate::model::multigoal::MultigoalView)>
    decreases goals.len(),
{
    if goals.len() == 0 {
        entries
    } else {
        insert_entry(file_goals(entries, goals.drop_last()), goal_key(goals.last().name), goals.last())
    }
}

/// Whether a verbosity is one of `0..=3`.
pub open spec fn valid_verbosity(level: i32) -> bool {
    0 <= level <= 3
}

/// An immutable planner bound to a domain.
pub struct Planner<B> {
    context: PlanningContext<B>,
    verbose_level: i32,
    multigoals: OrderedMap<Multigoal>,
}

impl<B> Planner<B> {
    /// The domain and search options.
    pub closed spec fn spec_context(&self) -> PlanningContext<B> {
        self.context
    }

    /// The verbosity.
    pub closed spec fn spec_verbose(&self) -> i32 {
        self.verbose_level
    }

    /// The multigoals filed with the planner, by key.
    pub closed spec fn spec_multigoals(&self) -> Seq<(Seq<char>, crate::model::multigoal::MultigoalView)> {
        self.multigoals@
    }

    /// A planner with verbosity 1, the iterative shape, goal verification on
    /// and no multigoals.
    pub fn new(domain: Domain<B>) -> (r: Self)
        ensures
            r.spec_context() == (PlanningContext {
                domain,
                verify_goals: true,
                strategy: PlanningStrategy::Iterative,
                max_steps: usize::MAX,
            }),
            r.spec_verbose() == 1,
            r.spec_multigoals() == Seq::<(Seq<char>, crate::model::multigoal::MultigoalView)>::empty(),
    {
        Planner { context: PlanningContext::new(domain), verbose_level: 1, multigoals: OrderedMap::new() }
    }

    /// The domain.
    pub fn domain(&self) -> (r: &Domain<B>)
        ensures
            *r == self.spec_context().domain,
    {
        &self.context.domain
    }

    /// The verbosity.
    pub fn verbose_level(&self) -> (r: i32)
        ensures
            r == self.spec_verbose(),
    {
        self.verbose_level
    }

    /// The shape of the search.
    pub fn strategy(&self) -> (r: PlanningStrategy)
        ensures
            r == self.spec_context().strategy,
    {
        self.context.strategy
    }

    /// Whether goal verification is on.
    pub fn verify_goals(&self) -> (r: bool)
        ensures
            r == self.spec_context().verify_goals,
    {
        self.context.verify_goals
    }

    /// The step budget of a search.
    pub fn max_steps(&self) -> (r: usize)
        ensures
            r == self.spec_context().max_steps,
    {
        self.context.max_steps
    }

    /// Whether the verbosity is at least `level`.
    pub fn is_verbose(&self, level: i32) -> (r: bool)
        ensures
            r == (self.spec_verbose() >= level),
    {
        self.verbose_level >= level
    }

    /// The multigoal filed under `goal_id` (`goal_<name>`).
    pub fn get_multigoal(&self, goal_id: &str) -> (r: Option<&Multigoal>)
        ensures
            match r {
                Some(m) => lookup(self.spec_multigoals(), goal_id@) == Some(m@),
                None => lookup(self.spec_multigoals(), goal_id@) is None,
            },
    {
        self.multigoals.get(goal_id)
    }

    /// The planner with a multigoal filed under `goal_<name>`.
    pub fn with_multigoal(self, multigoal: Multigoal) -> (r: Self)
        ensures
            r.spec_context() == self.spec_context(),
            r.spec_verbose() == self.spec_verbose(),
            r.spec_multigoals() == insert_entry(self.spec_multigoals(), goal_key(multigoal@.name), multigoal@),
    {
        let mut p = self;
        let key = goal_key_of(&multigoal);
        p.multigoals.insert(key, multigoal);
        p
    }

    /// The planner with another verbosity; fails outside `0..=3`.
    pub fn with_verbose_level(self, level: i32) -> (r: Result<Self>)
        ensures
            valid_verbosity(level) ==> (r matches Ok(p) && p.spec_verbose() == level && p.spec_context() == self.spec_context()
                && p.spec_multigoals() == self.spec_multigoals()),
            !valid_verbosity(level) ==> (r matches Err(GTRustHopError::InvalidVerboseLevel { level: l }) && l == level),
    {
        if level < 0 || level > 3 {
            return Err(GTRustHopError::InvalidVerboseLevel { level });
        }
        let mut p = self;
        p.verbose_level = level;
        Ok(p)
    }

    /// The planner with another shape of search.
    pub fn with_strategy(self, strategy: PlanningStrategy) -> (r: Self)
        ensures
            r.spec_context() == (PlanningContext { strategy, ..self.spec_context() }),
            r.spec_verbose() == self.spec_verbose(),
            r.spec_multigoals() == self.spec_multigoals(),
    {
        let mut p = self;
        p.context.strategy = strategy;
        p
    }

    /// The planner with goal verification on or off.
    pub fn with_goal_verification(self, verify: bool) -> (r: Self)
        ensures
            r.spec_context() == (PlanningContext { verify_goals: verify, ..self.spec_context() }),
            r.spec_verbose() == self.spec_verbose(),
            r.spec_multigoals() == self.spec_multigoals(),
    {
        let mut p = self;
        p.context.verify_goals = verify;
        p
    }

    /// The planner with another step budget for each search.
    pub fn with_max_steps(self, max_steps: usize) -> (r: Self)
        ensures
            r.spec_context() == (PlanningContext { max_steps, ..self.spec_context() }),
            r.spec_verbose() == self.spec_verbose(),
            r.spec_multigoals() == self.spec_multigoals(),
    {
        let mut p = self;
        p.context.max_steps = max_steps;
        p
    }
}

impl<B: Behaviour> Planner<B> {
    /// Searches for a plan that accomplishes `todo_list` from `state`:
    /// `Ok(Some(plan))` when one is found, `Ok(None)` when none exists, and
    /// an error for an unknown item or when the step budget runs out. Both
    /// shapes of the search give the same answer.
    pub fn find_plan(&self, state: State, todo_list: Vec<PlanItem>) -> (r: Result<Option<Vec<PlanItem>>>)
        requires
        self.spec_context().domain.spec_behaviour().obeys_spec(),
    ensures
            plan_answers(r, plan_outcome(self.spec_context(), state@, items_view(todo_list@))),
    {
        let plan: Vec<PlanItem> = Vec::new();
        proof {
            assert(items_view(plan@) =~= Seq::<ItemView>::empty());
        }
        let res = match self.context.strategy {
            PlanningStrategy::Recursive => RecursiveStrategy.seek_plan(&self.context, state, todo_list, plan, 0),
            PlanningStrategy::Iterative => IterativeStrategy.seek_plan(&self.context, state, todo_list, plan, 0),
        };
        match res {
            Ok(PlanningResult::Success(p)) => Ok(Some(p)),
            Ok(PlanningResult::Failure) => Ok(None),
            Err(e) => Err(e),
        }
    }

    /// The same as [`Planner::find_plan`], under its historical name.
    pub fn pyhop(&self, state: State, todo_list: Vec<PlanItem>) -> (r: Result<Option<Vec<PlanItem>>>)
        requires
        self.spec_context().domain.spec_behaviour().obeys_spec(),
    ensures
            plan_answers(r, plan_outcome(self.spec_context(), state@, items_view(todo_list@))),
    {
        self.find_plan(state, todo_list)
    }

    /// Performs one step of a plan on `state`.
    fn act(&self, state: &State, item: &PlanItem) -> (r: Option<State>)
        requires
        self.spec_context().domain.spec_behaviour().obeys_spec(),
    ensures
            opt_state_view(r) == act_step(self.spec_context().domain.spec_behaviour(), self.spec_context().domain@, state@, item@),
    {
        match item {
            PlanItem::Action(name, args) => {
                let mut command = String::from_str("c_");
                command.append(name.as_str());
                if self.context.domain.has_command(command.as_str()) {
                    self.context.domain.apply_command(command.as_str(), state, args.as_slice())
                } else if self.context.domain.has_action(name.as_str()) {
                    self.context.domain.apply_action(name.as_str(), state, args.as_slice())
                } else {
                    None
                }
            },
            _ => Some(state.deep_copy()),
        }
    }

    /// Performs the steps of a plan in order until one fails.
    fn act_all(&self, state: State, plan: &Vec<PlanItem>) -> (r: State)
        requires
        self.spec_context().domain.spec_behaviour().obeys_spec(),
    ensures
            r@ == act_plan(self.spec_context().domain.spec_behaviour(), self.spec_context().domain@, state@, items_view(plan@)),
    {
        let ghost b = self.spec_context().domain.spec_behaviour();
        let ghost d = self.spec_context().domain@;
        let ghost pv = items_view(plan@);
        let mut current = state;
        let mut i: usize = 0;
        proof {
            assert(pv.subrange(0, pv.len() as int) =~= pv);
        }
        while i < plan.len()
            invariant
                0 <= i <= plan@.len(),
                pv == items_view(plan@),
                b == self.spec_context().domain.spec_behaviour(),
                b.obeys_spec(),
                d == self.spec_context().domain@,
                act_plan(b, d, state@, pv) == act_plan(b, d, current@, pv.subrange(i as int, pv.len() as int)),
            decreases plan@.len() - i,
        {
            let ghost sub = pv.subrange(i as int, pv.len() as int);
            proof {
                assert(sub[0] == plan@[i as int]@);
                assert(sub.drop_first() =~= pv.subrange(i + 1, pv.len() as int));
            }
            match self.act(&current, &plan[i]) {
                Some(next) => {
                    current = next;
                },
                None => {
                    return current;
                },
            }
            i = i + 1;
        }
        proof {
            assert(pv.subrange(plan@.len() as int, pv.len() as int) =~= Seq::<ItemView>::empty());
        }
        current
    }

    /// Acts while planning: plans for `todo_list`, performs the plan with
    /// commands (falling back to actions), and plans again from the state
    /// reached when a step fails, at most `max_tries` times. Ends with the
    /// state reached, or with an error when the search fails hard, or when no
    /// plan exists and the verbosity is at least 1.
    pub fn run_lazy_lookahead(&self, state: State, todo_list: Vec<PlanItem>, max_tries: usize) -> (r: Result<State>)
        requires
        self.spec_context().domain.spec_behaviour().obeys_spec(),
    ensures
            lazy_answers(r, lazy_lookahead(self.spec_context(), self.spec_verbose(), state@, items_view(todo_list@), max_tries as nat)),
    {
        let ghost todo = items_view(todo_list@);
        let ghost goal = lazy_lookahead(self.spec_context(), self.spec_verbose(), state@, todo, max_tries as nat);
        let mut current = state;
        let mut tries: usize = 0;
        while tries < max_tries
            invariant
                0 <= tries <= max_tries,
                self.spec_context().domain.spec_behaviour().obeys_spec(),
                todo == items_view(todo_list@),
                goal == lazy_lookahead(self.spec_context(), self.spec_verbose(), state@, todo, max_tries as nat),
                goal == lazy_lookahead(self.spec_context(), self.spec_verbose(), current@, todo, (max_tries - tries) as nat),
            decreases max_tries - tries,
        {
            let todo_copy = crate::model::item::copy_items(todo_list.as_slice());
            let found = self.find_plan(current.deep_copy(), todo_copy);
            match found {
                Err(e) => {
                    return Err(e);
                },
                Ok(None) => {
                    if self.verbose_level >= 1 {
                        return Err(GTRustHopError::PlanningFailed { reason: String::from_str("run_lazy_lookahead: find_plan has failed") });
                    }
                    return Ok(current);
                },
                Ok(Some(plan)) => {
                    if plan.len() == 0 {
                        return Ok(current);
                    }
                    current = self.act_all(current, &plan);
                },
            }
            tries = tries + 1;
        }
        Ok(current)
    }
}

/// A planner for the domain with default settings.
pub fn create_planner<B>(domain: Domain<B>) -> (r: Planner<B>)
    ensures
        r.spec_context() == (PlanningContext::<B> {
            domain,
            verify_goals: true,
            strategy: PlanningStrategy::Iterative,
            max_steps: usize::MAX,
        }),
        r.spec_verbose() == 1,
{
    Planner::new(domain)
}

/// Plans with a default planner for the domain.
pub fn pyhop<B: Behaviour>(domain: Domain<B>, state: State, todo_list: Vec<PlanItem>) -> (r: Result<Option<Vec<PlanItem>>>)
    requires
        domain.spec_behaviour().obeys_spec(),
    ensures
        plan_answers(
            r,
            plan_outcome(
                PlanningContext { domain, verify_goals: true, strategy: PlanningStrategy::Iterative, max_steps: usize::MAX },
                state@,
                items_view(todo_list@),
            ),
        ),
{
    let p = Planner::new(domain);
    p.find_plan(state, todo_list)
}

/// Builds a [`Planner`] step by step.
pub struct PlannerBuilder<B> {
    domain: Option<Domain<B>>,
    verbose_level: i32,
    strategy: PlanningStrategy,
    verify_goals: bool,
    multigoals: OrderedMap<Multigoal>,
}

impl<B> PlannerBuilder<B> {
    /// The domain chosen so far.
    pub closed spec fn spec_domain(&self) -> Option<Domain<B>> {
        self.domain
    }

    /// The verbosity chosen so far.
    pub closed spec fn spec_verbose(&self) -> i32 {
        self.verbose_level
    }

    /// The shape of search chosen so far.
    pub closed spec fn spec_strategy(&self) -> PlanningStrategy {
        self.strategy
    }

    /// Whether goal verification is on so far.
    pub closed spec fn spec_verify(&self) -> bool {
        self.verify_goals
    }

    /// The multigoals filed so far, by key.
    pub closed spec fn spec_multigoals(&self) -> Seq<(Seq<char>, crate::model::multigoal::MultigoalView)> {
        self.multigoals@
    }

    /// A builder with no domain, verbosity 1, the iterative shape and goal
    /// verification on.
    pub fn new() -> (r: Self)
        ensures
            r.spec_domain() is None,
            r.spec_verbose() == 1,
            r.spec_strategy() == PlanningStrategy::Iterative,
            r.spec_verify(),
            r.spec_multigoals() == Seq::<(Seq<char>, crate::model::multigoal::MultigoalView)>::empty(),
    {
        PlannerBuilder {
            domain: None,
            verbose_level: 1,
            strategy: PlanningStrategy::Iterative,
            verify_goals: true,
            multigoals: OrderedMap::new(),
        }
    }

    /// Chooses the domain.
    pub fn with_domain(self, domain: Domain<B>) -> (r: Self)
        ensures
            r.spec_domain() == Some(domain),
            r.spec_verbose() == self.spec_verbose(),
            r.spec_strategy() == self.spec_strategy(),
            r.spec_verify() == self.spec_verify(),
            r.spec_multigoals() == self.spec_multigoals(),
    {
        let mut b = self;
        b.domain = Some(domain);
        b
    }

    /// Chooses the verbosity; fails outside `0..=3`.
    pub fn with_verbose_level(self, level: i32) -> (r: Result<Self>)
        ensures
            valid_verbosity(level) ==> (r matches Ok(b) && b.spec_verbose() == level && b.spec_domain() == self.spec_domain()
                && b.spec_strategy() == self.spec_strategy() && b.spec_verify() == self.spec_verify()
                && b.spec_multigoals() == self.spec_multigoals()),
            !valid_verbosity(level) ==> (r matches Err(GTRustHopError::InvalidVerboseLevel { level: l }) && l == level),
    {
        if level < 0 || level > 3 {
            return Err(GTRustHopError::InvalidVerboseLevel { level });
        }
        let mut b = self;
        b.verbose_level = level;
        Ok(b)
    }

    /// Chooses the shape of the search.
    pub fn with_strategy(self, strategy: PlanningStrategy) -> (r: Self)
        ensures
            r.spec_strategy() == strategy,
            r.spec_domain() == self.spec_domain(),
            r.spec_verbose() == self.spec_verbose(),
            r.spec_verify() == self.spec_verify(),
            r.spec_multigoals() == self.spec_multigoals(),
    {
        let mut b = self;
        b.strategy = strategy;
        b
    }

    /// Turns goal verification on or off.
    pub fn with_goal_verification(self, verify: bool) -> (r: Self)
        ensures
            r.spec_verify() == verify,
            r.spec_domain() == self.spec_domain(),
            r.spec_verbose() == self.spec_verbose(),
            r.spec_strategy() == self.spec_strategy(),
            r.spec_multigoals() == self.spec_multigoals(),
    {
        let mut b = self;
        b.verify_goals = verify;
        b
    }

    /// Files a multigoal under `goal_<name>`.
    pub fn with_multigoal(self, multigoal: Multigoal) -> (r: Self)
        ensures
            r.spec_multigoals() == insert_entry(self.spec_multigoals(), goal_key(multigoal@.name), multigoal@),
            r.spec_domain() == self.spec_domain(),
            r.spec_verbose() == self.spec_verbose(),
            r.spec_strategy() == self.spec_strategy(),
            r.spec_verify() == self.spec_verify(),
    {
        let mut b = self;
        let key = goal_key_of(&multigoal);
        b.multigoals.insert(key, multigoal);
        b
    }

    /// Files several multigoals, in order.
    pub fn with_multigoals(self, multigoals: Vec<Multigoal>) -> (r: Self)
        ensures
            r.spec_domain() == self.spec_domain(),
            r.spec_verbose() == self.spec_verbose(),
            r.spec_strategy() == self.spec_strategy(),
            r.spec_verify() == self.spec_verify(),
            r.spec_multigoals() == file_goals(self.spec_multigoals(), Seq::new(multigoals@.len(), |i: int| multigoals@[i]@)),
    {
        let ghost all = Seq::new(multigoals@.len(), |i: int| multigoals@[i]@);
        let mut b = self;
        let mut i: usize = 0;
        while i < multigoals.len()
            invariant
                0 <= i <= multigoals@.len(),
                all == Seq::new(multigoals@.len(), |k: int| multigoals@[k]@),
                b.spec_domain() == self.spec_domain(),
                b.spec_verbose() == self.spec_verbose(),
                b.spec_strategy() == self.spec_strategy(),
                b.spec_verify() == self.spec_verify(),
                b.spec_multigoals() == file_goals(self.spec_multigoals(), all.subrange(0, i as int)),
            decreases multigoals@.len() - i,
        {
            b = b.with_multigoal(multigoals[i].deep_copy());
            proof {
                assert(all.subrange(0, i + 1).drop_last() =~= all.subrange(0, i as int));
            }
            i = i + 1;
        }
        proof {
            assert(all.subrange(0, all.len() as int) =~= all);
        }
        b
    }

    /// The planner; fails when no domain was chosen.
    pub fn build(self) -> (r: Result<Planner<B>>)
        ensures
            self.spec_domain() is None ==> (r matches Err(GTRustHopError::Generic { message }) && message@
                == "Domain is required for planner"@),
            self.spec_domain() is Some ==> (r matches Ok(p) && p.spec_context() == (PlanningContext {
                domain: self.spec_domain()->Some_0,
                verify_goals: self.spec_verify(),
                strategy: self.spec_strategy(),
                max_steps: usize::MAX,
            }) && p.spec_verbose() == self.spec_verbose() && p.spec_multigoals() == self.spec_multigoals()),
    {
        match self.domain {
            None => Err(GTRustHopError::Generic { message: String::from_str("Domain is required for planner") }),
            Some(domain) => Ok(Planner {
                context: PlanningContext {
                    domain,
                    verify_goals: self.verify_goals,
                    strategy: self.strategy,
                    max_steps: usize::MAX,
                },
                verbose_level: self.verbose_level,
                multigoals: self.multigoals,
            }),
        }
    }
}

impl<B> Default for PlannerBuilder<B> {
    fn default() -> (r: Self)
        ensures
            r.spec_domain() is None,
            r.spec_verbose() == 1,
            r.spec_strategy() == PlanningStrategy::Iterative,
            r.spec_verify(),
    {
        PlannerBuilder::new()
    }
}

/// A builder for a planner.
pub fn planner<B>() -> (r: PlannerBuilder<B>)
    ensures
        r.spec_domain() is None,
        r.spec_verbose() == 1,
        r.spec_strategy() == PlanningStrategy::Iterative,
        r.spec_verify(),
{
    PlannerBuilder::new()
}

} // verus!
