//! A planning domain: the names of its actions, commands and methods, and the
//! behaviour that gives those names their meaning.
use super::item::{items_view, values_view, ItemView, PlanItem};
use super::multigoal::{Multigoal, MultigoalView};
use super::state::{State, StateView};
use super::table::{
    has_key, insert_entry, key_index, keys_of, keys_unique, lemma_insert_entry, lemma_lookup_at, lookup,
    DeepCopy, OrderedMap,
};
use super::value::{Value, ValueView};
use crate::error::{GTRustHopError, Result};
use vstd::prelude::*;
use vstd::string::StringExecFns;

verus! {

/// The view of an optional state.
pub open spec fn opt_state_view(r: Option<State>) -> Option<StateView> {
    match r {
        Some(s) => Some(s@),
        None => None,
    }
}

/// The view of an optional list of items.
pub open spec fn opt_items_view(r: Option<Vec<PlanItem>>) -> Option<Seq<ItemView>> {
    match r {
        Some(v) => Some(items_view(v@)),
        None => None,
    }
}

/// The callables of a domain, supplied by its author. Each one is addressed by
/// the name under which it is declared in the [`Domain`], and answers `None`
/// when it does not apply.
///
/// The spec functions describe what each callable computes from its
/// arguments alone. An implementation that is verified against them says so
/// by making `obeys_spec` true; only then do the callables' `ensures` hold,
/// and the planner's operations that run callables ask for it.
pub trait Behaviour {
    /// Whether the callables compute what the spec functions describe.
    open spec fn obeys_spec(&self) -> bool {
        false
    }

    /// What action `name` turns `state` into, given `args`.
    open spec fn action_spec(&self, name: Seq<char>, state: StateView, args: Seq<ValueView>) -> Option<StateView> {
        None
    }

    /// What command `name` turns `state` into, given `args`.
    open spec fn command_spec(&self, name: Seq<char>, state: StateView, args: Seq<ValueView>) -> Option<StateView> {
        None
    }

    /// The subtasks that task method `method` gives for `args` in `state`.
    open spec fn task_method_spec(&self, method: Seq<char>, state: StateView, args: Seq<ValueView>) -> Option<Seq<ItemView>> {
        None
    }

    /// The subgoals that unigoal method `method` gives to set `arg` to `value`.
    open spec fn unigoal_method_spec(
        &self,
        method: Seq<char>,
        state: StateView,
        arg: Seq<char>,
        value: ValueView,
    ) -> Option<Seq<ItemView>> {
        None
    }

    /// The subgoals that multigoal method `method` gives for `goal`.
    open spec fn multigoal_method_spec(&self, method: Seq<char>, state: StateView, goal: MultigoalView) -> Option<Seq<ItemView>> {
        None
    }

    /// Applies action `name` to `state`, which the caller hands over as a copy
    /// it is willing to lose.
    fn action(&self, name: &str, state: &mut State, args: &[Value]) -> (r: Option<State>)
        ensures
            self.obeys_spec() ==> opt_state_view(r) == self.action_spec(name@, old(state)@, values_view(args@)),
    ;

    /// Performs command `name` on `state`, which the caller hands over as a copy.
    fn command(&self, name: &str, state: &mut State, args: &[Value]) -> (r: Option<State>)
        ensures
            self.obeys_spec() ==> opt_state_view(r) == self.command_spec(name@, old(state)@, values_view(args@)),
    ;

    /// Runs task method `method`.
    fn task_method(&self, method: &str, state: &State, args: &[Value]) -> (r: Option<Vec<PlanItem>>)
        ensures
            self.obeys_spec() ==> opt_items_view(r) == self.task_method_spec(method@, state@, values_view(args@)),
    ;

    /// Runs unigoal method `method`.
    fn unigoal_method(&self, method: &str, state: &State, arg: &str, value: &Value) -> (r: Option<Vec<PlanItem>>)
        ensures
            self.obeys_spec() ==> opt_items_view(r) == self.unigoal_method_spec(method@, state@, arg@, value@),
    ;

    /// Runs multigoal method `method`.
    fn multigoal_method(&self, method: &str, state: &State, goal: &Multigoal) -> (r: Option<Vec<PlanItem>>)
        ensures
            self.obeys_spec() ==> opt_items_view(r) == self.multigoal_method_spec(method@, state@, goal@),
    ;
}

/// An ordered list of method names.
#[derive(Debug)]
pub struct Methods {
    names: Vec<String>,
}

impl View for Methods {
    type V = Seq<Seq<char>>;

    closed spec fn view(&self) -> Seq<Seq<char>> {
        Seq::new(self.names@.len(), |i: int| self.names@[i]@)
    }
}

impl DeepCopy for Methods {
    fn deep_copy(&self) -> (r: Self) {
        let mut names: Vec<String> = Vec::new();
        let mut i: usize = 0;
        while i < self.names.len()
            invariant
                0 <= i <= self.names@.len(),
                names@.len() == i,
                forall|j: int| 0 <= j < i ==> names@[j]@ == self.names@[j]@,
            decreases self.names@.len() - i,
        {
            names.push(self.names[i].clone());
            i = i + 1;
        }
        let r = Methods { names };
        assert(r@ =~= self@);
        r
    }
}

impl DeepCopy for () {
    fn deep_copy(&self) -> (r: Self) {
    }
}

impl Methods {
    /// No methods.
    pub fn new() -> (r: Methods)
        ensures
            r@ == Seq::<Seq<char>>::empty(),
    {
        let r = Methods { names: Vec::new() };
        assert(r@ =~= Seq::<Seq<char>>::empty());
        r
    }

    /// The number of methods.
    pub fn len(&self) -> (r: usize)
        ensures
            r == self@.len(),
    {
        self.names.len()
    }

    /// The name of the method at a position.
    pub fn get(&self, i: usize) -> (r: &String)
        requires
            i < self@.len(),
        ensures
            r@ == self@[i as int],
    {
        &self.names[i]
    }

    /// Adds methods after the existing ones.
    pub fn extend(&mut self, more: Vec<String>)
        ensures
            final(self)@ == old(self)@ + names_view(more@),
    {
        let ghost start = self@;
        let mut i: usize = 0;
        while i < more.len()
            invariant
                0 <= i <= more@.len(),
                self.names@.len() == start.len() + i,
                forall|k: int| 0 <= k < start.len() ==> #[trigger] self.names@[k]@ == start[k],
                forall|k: int| 0 <= k < i ==> #[trigger] self.names@[start.len() + k]@ == more@[k]@,
            decreases more@.len() - i,
        {
            let x = more[i].clone();
            self.names.push(x);
            i = i + 1;
        }
        proof {
            assert forall|k: int| 0 <= k < self@.len() implies #[trigger] self@[k] == (start + names_view(more@))[k] by {
                if k >= start.len() {
                    assert(self.names@[start.len() + (k - start.len())]@ == more@[k - start.len()]@);
                }
            }
            assert(self@ =~= start + names_view(more@));
        }
    }
}

/// The name of the task that checks a unigoal after its method ran.
pub open spec fn verify_g_task() -> Seq<char> {
    "_verify_g"@
}

/// The name of the task that checks a multigoal after its method ran.
pub open spec fn verify_mg_task() -> Seq<char> {
    "_verify_mg"@
}

/// The name of the built-in method of the unigoal check.
pub open spec fn verify_g_method() -> Seq<char> {
    "m_verify_g"@
}

/// The name of the built-in method of the multigoal check.
pub open spec fn verify_mg_method() -> Seq<char> {
    "m_verify_mg"@
}

/// What a [`Domain`] declares.
pub struct DomainView {
    pub name: Seq<char>,
    pub actions: Seq<Seq<char>>,
    pub commands: Seq<Seq<char>>,
    pub task_methods: Seq<(Seq<char>, Seq<Seq<char>>)>,
    pub unigoal_methods: Seq<(Seq<char>, Seq<Seq<char>>)>,
    pub multigoal_methods: Seq<Seq<char>>,
    pub copies: nat,
}

/// The table of a new domain's task methods: the two built-in checks.
pub open spec fn builtin_task_methods() -> Seq<(Seq<char>, Seq<Seq<char>>)> {
    seq![(verify_g_task(), seq![verify_g_method()]), (verify_mg_task(), seq![verify_mg_method()])]
}

/// A method table after appending `more` to the methods of `key`.
pub open spec fn append_methods(
    table: Seq<(Seq<char>, Seq<Seq<char>>)>,
    key: Seq<char>,
    more: Seq<Seq<char>>,
) -> Seq<(Seq<char>, Seq<Seq<char>>)> {
    let existing = match lookup(table, key) {
        Some(m) => m,
        None => Seq::empty(),
    };
    insert_entry(table, key, existing + more)
}

/// The views of a list of names.
pub open spec fn names_view(v: Seq<String>) -> Seq<Seq<char>> {
    Seq::new(v.len(), |i: int| v[i]@)
}

/// A planning domain: declared names, in declaration order, bound to the
/// callables of a [`Behaviour`].
#[derive(Debug)]
pub struct Domain<B> {
    /// The name of the domain.
    pub name: String,
    behaviour: B,
    actions: OrderedMap<()>,
    commands: OrderedMap<()>,
    task_methods: OrderedMap<Methods>,
    unigoal_methods: OrderedMap<Methods>,
    multigoal_methods: Methods,
    copy_counter: usize,
}

impl<B> View for Domain<B> {
    type V = DomainView;

    closed spec fn view(&self) -> DomainView {
        DomainView {
            name: self.name@,
            actions: keys_of(self.actions@),
            commands: keys_of(self.commands@),
            task_methods: self.task_methods@,
            unigoal_methods: self.unigoal_methods@,
            multigoal_methods: self.multigoal_methods@,
            copies: self.copy_counter as nat,
        }
    }
}

impl<B> Domain<B> {
    /// The callables of the domain.
    pub closed spec fn spec_behaviour(&self) -> B {
        self.behaviour
    }

    /// The callables of the domain.
    pub fn behaviour(&self) -> (r: &B)
        ensures
            *r == self.spec_behaviour(),
    {
        &self.behaviour
    }

    /// A domain with the given name and behaviour that declares only the two
    /// built-in checks `_verify_g` and `_verify_mg`.
    pub fn new(name: &str, behaviour: B) -> (r: Domain<B>)
        ensures
            r@ == (DomainView {
                name: name@,
                actions: Seq::empty(),
                commands: Seq::empty(),
                task_methods: builtin_task_methods(),
                unigoal_methods: Seq::empty(),
                multigoal_methods: Seq::empty(),
                copies: 0,
            }),
            r.spec_behaviour() == behaviour,
            checks_intact(r@),
    {
        let mut task_methods: OrderedMap<Methods> = OrderedMap::new();
        let mut g = Methods::new();
        let gv = vec![String::from_str("m_verify_g")];
        g.extend(gv);
        let mut mg = Methods::new();
        let mgv = vec![String::from_str("m_verify_mg")];
        mg.extend(mgv);
        proof {
            assert(g@ =~= seq![verify_g_method()]);
            assert(mg@ =~= seq![verify_mg_method()]);
        }
        task_methods.insert(String::from_str("_verify_g"), g);
        task_methods.insert(String::from_str("_verify_mg"), mg);
        let actions: OrderedMap<()> = OrderedMap::new();
        let commands: OrderedMap<()> = OrderedMap::new();
        let r = Domain {
            name: name.to_owned(),
            behaviour,
            actions,
            commands,
            task_methods,
            unigoal_methods: OrderedMap::new(),
            multigoal_methods: Methods::new(),
            copy_counter: 0,
        };
        proof {
            assert(keys_of(r.actions@) =~= Seq::<Seq<char>>::empty());
            assert(keys_of(r.commands@) =~= Seq::<Seq<char>>::empty());
            let e = Seq::<(Seq<char>, Seq<Seq<char>>)>::empty();
            let t1 = insert_entry(e, verify_g_task(), seq![verify_g_method()]);
            assert(!has_key(e, verify_g_task()));
            assert(t1 =~= seq![(verify_g_task(), seq![verify_g_method()])]);
            reveal_strlit("_verify_g");
            reveal_strlit("_verify_mg");
            if has_key(t1, verify_mg_task()) {
                assert(t1[0].0 == verify_g_task());
                assert(verify_g_task().len() != verify_mg_task().len());
            }
            assert(!has_key(t1, verify_mg_task()));
            let t2 = insert_entry(t1, verify_mg_task(), seq![verify_mg_method()]);
            assert(t2 =~= builtin_task_methods());
            assert(r.task_methods@ =~= builtin_task_methods());
            let bt = builtin_task_methods();
            assert(keys_unique(bt));
            lemma_lookup_at(bt, 0);
            lemma_lookup_at(bt, 1);
        }
        r
    }
}

/// A list of names after adding `name` unless it is there already.
pub open spec fn add_name(names: Seq<Seq<char>>, name: Seq<char>) -> Seq<Seq<char>> {
    if names.contains(name) {
        names
    } else {
        names.push(name)
    }
}

/// A list of names after adding each of `more` in turn.
pub open spec fn add_names(names: Seq<Seq<char>>, more: Seq<Seq<char>>) -> Seq<Seq<char>>
    decreases more.len(),
{
    if more.len() == 0 {
        names
    } else {
        add_name(add_names(names, more.drop_last()), more.last())
    }
}

proof fn lemma_keys_has<V>(e: Seq<(Seq<char>, V)>, k: Seq<char>)
    ensures
        has_key(e, k) == keys_of(e).contains(k),
{
    if has_key(e, k) {
        let i = choose|i: int| 0 <= i < e.len() && e[i].0 == k;
        assert(keys_of(e)[i] == k);
    }
    if keys_of(e).contains(k) {
        let i = choose|i: int| 0 <= i < keys_of(e).len() && keys_of(e)[i] == k;
        assert(e[i].0 == k);
    }
}

proof fn lemma_keys_insert(e: Seq<(Seq<char>, ())>, k: Seq<char>)
    ensures
        keys_of(insert_entry(e, k, ())) == add_name(keys_of(e), k),
{
    lemma_keys_has(e, k);
    if has_key(e, k) {
        let i = key_index(e, k);
        assert(keys_of(insert_entry(e, k, ())) =~= keys_of(e));
    } else {
        assert(keys_of(insert_entry(e, k, ())) =~= keys_of(e).push(k));
    }
}

fn add_to_names(m: &mut OrderedMap<()>, names: &Vec<String>)
    ensures
        keys_of(final(m)@) == add_names(keys_of(old(m)@), names_view(names@)),
{
    let ghost start = keys_of(m@);
    let mut i: usize = 0;
    while i < names.len()
        invariant
            0 <= i <= names@.len(),
            keys_of(m@) == add_names(start, names_view(names@).subrange(0, i as int)),
        decreases names@.len() - i,
    {
        let ghost before = m@;
        m.insert(names[i].clone(), ());
        proof {
            lemma_keys_insert(before, names@[i as int]@);
            assert(names_view(names@).subrange(0, i + 1).drop_last() =~= names_view(names@).subrange(0, i as int));
        }
        i = i + 1;
    }
    proof {
        assert(names_view(names@).subrange(0, names@.len() as int) =~= names_view(names@));
    }
}

/// The methods declared under a key, none when the key is absent.
pub open spec fn methods_of(table: Seq<(Seq<char>, Seq<Seq<char>>)>, key: Seq<char>) -> Seq<Seq<char>> {
    match lookup(table, key) {
        Some(m) => m,
        None => Seq::empty(),
    }
}

/// Whether a name is one of the two task names that goal verification uses.
pub open spec fn reserved(name: Seq<char>) -> bool {
    name == verify_g_task() || name == verify_mg_task()
}

/// The text of the error for declaring a reserved name.
pub open spec fn reserved_message() -> Seq<char> {
    "_verify_g and _verify_mg are reserved for goal verification"@
}

/// Whether the built-in checks are declared as a new domain declares them:
/// not as actions, and each with its own built-in method alone.
pub open spec fn checks_intact(d: DomainView) -> bool {
    &&& !d.actions.contains(verify_g_task())
    &&& !d.actions.contains(verify_mg_task())
    &&& lookup(d.task_methods, verify_g_task()) == Some(seq![verify_g_method()])
    &&& lookup(d.task_methods, verify_mg_task()) == Some(seq![verify_mg_method()])
}

proof fn lemma_add_names_keeps<V>(names: Seq<Seq<char>>, more: Seq<Seq<char>>, n: Seq<char>)
    requires
        forall|i: int| 0 <= i < more.len() ==> more[i] != n,
    ensures
        add_names(names, more).contains(n) == names.contains(n),
    decreases more.len(),
{
    if more.len() > 0 {
        lemma_add_names_keeps::<V>(names, more.drop_last(), n);
        let prev = add_names(names, more.drop_last());
        if !prev.contains(more.last()) {
            if prev.push(more.last()).contains(n) {
                let i = choose|i: int| 0 <= i < prev.push(more.last()).len() && prev.push(more.last())[i] == n;
                assert(i < prev.len());
                assert(prev[i] == n);
            }
            if prev.contains(n) {
                let i = choose|i: int| 0 <= i < prev.len() && prev[i] == n;
                assert(prev.push(more.last())[i] == n);
            }
        }
    }
}

fn is_reserved(name: &str) -> (r: bool)
    ensures
        r == reserved(name@),
{
    let n = String::from_str(name);
    let g = String::from_str("_verify_g");
    let mg = String::from_str("_verify_mg");
    n.eq(&g) || n.eq(&mg)
}

fn reserved_error() -> (r: GTRustHopError)
    ensures
        r matches GTRustHopError::Generic { message } && message@ == reserved_message(),
{
    GTRustHopError::Generic { message: String::from_str("_verify_g and _verify_mg are reserved for goal verification") }
}

fn append_to_table(table: &mut OrderedMap<Methods>, key: &str, more: Vec<String>)
    ensures
        final(table)@ == append_methods(old(table)@, key@, names_view(more@)),
        lookup(final(table)@, key@) == Some(methods_of(old(table)@, key@) + names_view(more@)),
        forall|k: Seq<char>| k != key@ ==> #[trigger] lookup(final(table)@, k) == lookup(old(table)@, k),
{
    table.assert_unique();
    proof {
        lemma_insert_entry(old(table)@, key@, methods_of(old(table)@, key@) + names_view(more@));
    }
    match table.position(key) {
        Some(i) => {
            let mut ms = table.replace_at(i, Methods::new());
            ms.extend(more);
            table.replace_at(i, ms);
            proof {
                lemma_lookup_at(old(table)@, i as int);
                assert(final(table)@ =~= append_methods(old(table)@, key@, names_view(more@)));
            }
        },
        None => {
            let mut ms = Methods::new();
            ms.extend(more);
            table.insert(key.to_owned(), ms);
            proof {
                assert(Seq::<Seq<char>>::empty() + names_view(more@) =~= names_view(more@));
            }
        },
    }
}

impl<B> Domain<B> {
    /// Declares actions by name; refuses the names reserved for goal
    /// verification, declaring none of them then.
    pub fn declare_actions(&mut self, actions: Vec<String>) -> (r: Result<()>)
        ensures
            final(self).spec_behaviour() == old(self).spec_behaviour(),
            (exists|i: int| 0 <= i < actions@.len() && reserved(#[trigger] actions@[i]@)) ==> (r matches Err(
                GTRustHopError::Generic { message },
            ) && message@ == reserved_message() && final(self)@ == old(self)@),
            !(exists|i: int| 0 <= i < actions@.len() && reserved(#[trigger] actions@[i]@)) ==> (r is Ok && final(self)@
                == (DomainView { actions: add_names(old(self)@.actions, names_view(actions@)), ..old(self)@ })),
            checks_intact(old(self)@) ==> checks_intact(final(self)@),
    {
        let mut i: usize = 0;
        while i < actions.len()
            invariant
                0 <= i <= actions@.len(),
                forall|k: int| 0 <= k < i ==> !reserved(#[trigger] actions@[k]@),
            decreases actions@.len() - i,
        {
            if is_reserved(actions[i].as_str()) {
                return Err(reserved_error());
            }
            i = i + 1;
        }
        add_to_names(&mut self.actions, &actions);
        proof {
            lemma_add_names_keeps::<()>(old(self)@.actions, names_view(actions@), verify_g_task());
            lemma_add_names_keeps::<()>(old(self)@.actions, names_view(actions@), verify_mg_task());
        }
        Ok(())
    }

    /// Declares one action by name; refuses the names reserved for goal
    /// verification.
    pub fn declare_action(&mut self, name: &str) -> (r: Result<()>)
        ensures
            final(self).spec_behaviour() == old(self).spec_behaviour(),
            reserved(name@) ==> (r matches Err(GTRustHopError::Generic { message }) && message@ == reserved_message()
                && final(self)@ == old(self)@),
            !reserved(name@) ==> (r is Ok && final(self)@ == (DomainView {
                actions: add_name(old(self)@.actions, name@),
                ..old(self)@
            })),
            checks_intact(old(self)@) ==> checks_intact(final(self)@),
    {
        if is_reserved(name) {
            return Err(reserved_error());
        }
        proof {
            lemma_add_names_keeps::<()>(old(self)@.actions, seq![name@], verify_g_task());
            lemma_add_names_keeps::<()>(old(self)@.actions, seq![name@], verify_mg_task());
            assert(seq![name@].drop_last() =~= Seq::<Seq<char>>::empty());
        }
        let ghost before = self.actions@;
        self.actions.insert(name.to_owned(), ());
        proof {
            lemma_keys_insert(before, name@);
        }
        Ok(())
    }

    /// Declares commands by name.
    pub fn declare_commands(&mut self, commands: Vec<String>) -> (r: Result<()>)
        ensures
            r is Ok,
            checks_intact(old(self)@) ==> checks_intact(final(self)@),
            final(self).spec_behaviour() == old(self).spec_behaviour(),
            final(self)@ == (DomainView { commands: add_names(old(self)@.commands, names_view(commands@)), ..old(self)@ }),
    {
        add_to_names(&mut self.commands, &commands);
        Ok(())
    }

    /// Declares one command by name.
    pub fn declare_command(&mut self, name: &str) -> (r: Result<()>)
        ensures
            r is Ok,
            checks_intact(old(self)@) ==> checks_intact(final(self)@),
            final(self).spec_behaviour() == old(self).spec_behaviour(),
            final(self)@ == (DomainView { commands: add_name(old(self)@.commands, name@), ..old(self)@ }),
    {
        let ghost before = self.commands@;
        self.commands.insert(name.to_owned(), ());
        proof {
            lemma_keys_insert(before, name@);
        }
        Ok(())
    }

    /// Appends methods, in preference order, to those of a task; refuses
    /// the task names reserved for goal verification.
    pub fn declare_task_methods(&mut self, task_name: &str, methods: Vec<String>) -> (r: Result<()>)
        ensures
            final(self).spec_behaviour() == old(self).spec_behaviour(),
            reserved(task_name@) ==> (r matches Err(GTRustHopError::Generic { message }) && message@ == reserved_message()
                && final(self)@ == old(self)@),
            !reserved(task_name@) ==> (r is Ok && final(self)@ == (DomainView {
                task_methods: append_methods(old(self)@.task_methods, task_name@, names_view(methods@)),
                ..old(self)@
            }) && lookup(final(self)@.task_methods, task_name@) == Some(
                methods_of(old(self)@.task_methods, task_name@) + names_view(methods@),
            )),
            forall|k: Seq<char>|
                k != task_name@ ==> #[trigger] lookup(final(self)@.task_methods, k) == lookup(old(self)@.task_methods, k),
            checks_intact(old(self)@) ==> checks_intact(final(self)@),
    {
        if is_reserved(task_name) {
            return Err(reserved_error());
        }
        append_to_table(&mut self.task_methods, task_name, methods);
        Ok(())
    }

    /// Appends one method to those of a task; refuses the task names
    /// reserved for goal verification.
    pub fn declare_task_method(&mut self, task_name: &str, method: &str) -> (r: Result<()>)
        ensures
            final(self).spec_behaviour() == old(self).spec_behaviour(),
            reserved(task_name@) ==> (r matches Err(GTRustHopError::Generic { message }) && message@ == reserved_message()
                && final(self)@ == old(self)@),
            !reserved(task_name@) ==> (r is Ok && final(self)@ == (DomainView {
                task_methods: append_methods(old(self)@.task_methods, task_name@, seq![method@]),
                ..old(self)@
            }) && lookup(final(self)@.task_methods, task_name@) == Some(
                methods_of(old(self)@.task_methods, task_name@).push(method@),
            )),
            forall|k: Seq<char>|
                k != task_name@ ==> #[trigger] lookup(final(self)@.task_methods, k) == lookup(old(self)@.task_methods, k),
            checks_intact(old(self)@) ==> checks_intact(final(self)@),
    {
        let v = vec![method.to_owned()];
        proof {
            assert(names_view(v@) =~= seq![method@]);
            assert(methods_of(old(self)@.task_methods, task_name@) + seq![method@] =~= methods_of(
                old(self)@.task_methods,
                task_name@,
            ).push(method@));
        }
        self.declare_task_methods(task_name, v)
    }

    /// Appends methods, in preference order, to those of a state variable.
    pub fn declare_unigoal_methods(&mut self, var_name: &str, methods: Vec<String>) -> (r: Result<()>)
        ensures
            r is Ok,
            checks_intact(old(self)@) ==> checks_intact(final(self)@),
            final(self).spec_behaviour() == old(self).spec_behaviour(),
            final(self)@ == (DomainView {
                unigoal_methods: append_methods(old(self)@.unigoal_methods, var_name@, names_view(methods@)),
                ..old(self)@
            }),
            lookup(final(self)@.unigoal_methods, var_name@) == Some(
                methods_of(old(self)@.unigoal_methods, var_name@) + names_view(methods@),
            ),
            forall|k: Seq<char>|
                k != var_name@ ==> #[trigger] lookup(final(self)@.unigoal_methods, k) == lookup(old(self)@.unigoal_methods, k),
    {
        append_to_table(&mut self.unigoal_methods, var_name, methods);
        Ok(())
    }

    /// Appends one method to those of a state variable.
    pub fn declare_unigoal_method(&mut self, var_name: &str, method: &str) -> (r: Result<()>)
        ensures
            r is Ok,
            checks_intact(old(self)@) ==> checks_intact(final(self)@),
            final(self).spec_behaviour() == old(self).spec_behaviour(),
            final(self)@ == (DomainView {
                unigoal_methods: append_methods(old(self)@.unigoal_methods, var_name@, seq![method@]),
                ..old(self)@
            }),
            lookup(final(self)@.unigoal_methods, var_name@) == Some(
                methods_of(old(self)@.unigoal_methods, var_name@).push(method@),
            ),
            forall|k: Seq<char>|
                k != var_name@ ==> #[trigger] lookup(final(self)@.unigoal_methods, k) == lookup(old(self)@.unigoal_methods, k),
    {
        let v = vec![method.to_owned()];
        proof {
            assert(names_view(v@) =~= seq![method@]);
            assert(methods_of(old(self)@.unigoal_methods, var_name@) + seq![method@] =~= methods_of(
                old(self)@.unigoal_methods,
                var_name@,
            ).push(method@));
        }
        self.declare_unigoal_methods(var_name, v)
    }

    /// Appends multigoal methods in preference order.
    pub fn declare_multigoal_methods(&mut self, methods: Vec<String>) -> (r: Result<()>)
        ensures
            r is Ok,
            checks_intact(old(self)@) ==> checks_intact(final(self)@),
            final(self).spec_behaviour() == old(self).spec_behaviour(),
            final(self)@ == (DomainView {
                multigoal_methods: old(self)@.multigoal_methods + names_view(methods@),
                ..old(self)@
            }),
    {
        self.multigoal_methods.extend(methods);
        Ok(())
    }

    /// Appends one multigoal method.
    pub fn declare_multigoal_method(&mut self, method: &str) -> (r: Result<()>)
        ensures
            r is Ok,
            checks_intact(old(self)@) ==> checks_intact(final(self)@),
            final(self).spec_behaviour() == old(self).spec_behaviour(),
            final(self)@ == (DomainView {
                multigoal_methods: old(self)@.multigoal_methods.push(method@),
                ..old(self)@
            }),
    {
        let v = vec![method.to_owned()];
        proof {
            assert(old(self)@.multigoal_methods + names_view(v@) =~= old(self)@.multigoal_methods.push(method@));
        }
        self.declare_multigoal_methods(v)
    }

    /// The methods of a task, in preference order.
    pub fn get_task_methods(&self, task_name: &str) -> (r: Option<&Methods>)
        ensures
            match r {
                Some(m) => lookup(self@.task_methods, task_name@) == Some(m@),
                None => lookup(self@.task_methods, task_name@) is None,
            },
    {
        self.task_methods.get(task_name)
    }

    /// The methods of a state variable, in preference order.
    pub fn get_unigoal_methods(&self, var_name: &str) -> (r: Option<&Methods>)
        ensures
            match r {
                Some(m) => lookup(self@.unigoal_methods, var_name@) == Some(m@),
                None => lookup(self@.unigoal_methods, var_name@) is None,
            },
    {
        self.unigoal_methods.get(var_name)
    }

    /// The multigoal methods, in preference order.
    pub fn get_multigoal_methods(&self) -> (r: &Methods)
        ensures
            r@ == self@.multigoal_methods,
    {
        &self.multigoal_methods
    }

    /// Whether an action has the name.
    pub fn has_action(&self, name: &str) -> (r: bool)
        ensures
            r == self@.actions.contains(name@),
    {
        proof {
            lemma_keys_has(self.actions@, name@);
        }
        self.actions.contains_key(name)
    }

    /// Whether a command has the name.
    pub fn has_command(&self, name: &str) -> (r: bool)
        ensures
            r == self@.commands.contains(name@),
    {
        proof {
            lemma_keys_has(self.commands@, name@);
        }
        self.commands.contains_key(name)
    }

    /// Whether the task has methods.
    pub fn has_task_methods(&self, task_name: &str) -> (r: bool)
        ensures
            r == has_key(self@.task_methods, task_name@),
    {
        self.task_methods.contains_key(task_name)
    }

    /// Whether the state variable has methods.
    pub fn has_unigoal_methods(&self, var_name: &str) -> (r: bool)
        ensures
            r == has_key(self@.unigoal_methods, var_name@),
    {
        self.unigoal_methods.contains_key(var_name)
    }

    /// The action names, in declaration order.
    pub fn action_names(&self) -> (r: Vec<String>)
        ensures
            names_view(r@) == self@.actions,
    {
        let r = self.actions.keys();
        assert(names_view(r@) =~= self@.actions);
        r
    }

    /// The command names, in declaration order.
    pub fn command_names(&self) -> (r: Vec<String>)
        ensures
            names_view(r@) == self@.commands,
    {
        let r = self.commands.keys();
        assert(names_view(r@) =~= self@.commands);
        r
    }

    /// The task names that have methods, in declaration order.
    pub fn task_names(&self) -> (r: Vec<String>)
        ensures
            names_view(r@) == keys_of(self@.task_methods),
    {
        let r = self.task_methods.keys();
        assert(names_view(r@) =~= keys_of(self@.task_methods));
        r
    }

    /// The state variables that have methods, in declaration order.
    pub fn unigoal_var_names(&self) -> (r: Vec<String>)
        ensures
            names_view(r@) == keys_of(self@.unigoal_methods),
    {
        let r = self.unigoal_methods.keys();
        assert(names_view(r@) =~= keys_of(self@.unigoal_methods));
        r
    }
}

impl<B: Behaviour> Domain<B> {
    /// Applies action `name` to a copy of `state`: the caller's state is only
    /// read, so it is the same afterwards whether the action applied or not.
    pub fn apply_action(&self, name: &str, state: &State, args: &[Value]) -> (r: Option<State>)
        requires
            self.spec_behaviour().obeys_spec(),
        ensures
            opt_state_view(r) == self.spec_behaviour().action_spec(name@, state@, values_view(args@)),
    {
        let mut scratch = state.deep_copy();
        self.behaviour.action(name, &mut scratch, args)
    }

    /// Performs command `name` on a copy of `state`, which is only read.
    pub fn apply_command(&self, name: &str, state: &State, args: &[Value]) -> (r: Option<State>)
        requires
            self.spec_behaviour().obeys_spec(),
        ensures
            opt_state_view(r) == self.spec_behaviour().command_spec(name@, state@, values_view(args@)),
    {
        let mut scratch = state.deep_copy();
        self.behaviour.command(name, &mut scratch, args)
    }
}

impl<B: Clone> Domain<B> {
    /// A copy of the domain. With a name, the copy takes it; without one, the
    /// copy is called `<name>_copy_<n>`, `n` being this domain's copy count,
    /// and its own copy count is one more. The behaviour is cloned.
    pub fn copy(&self, new_name: Option<String>) -> (r: Domain<B>)
        requires
            new_name is None ==> self@.copies < usize::MAX,
        ensures
            r@.actions == self@.actions,
            r@.commands == self@.commands,
            r@.task_methods == self@.task_methods,
            r@.unigoal_methods == self@.unigoal_methods,
            r@.multigoal_methods == self@.multigoal_methods,
            match new_name {
                Some(n) => r@.name == n@ && r@.copies == self@.copies,
                None => r@.name == super::state::copy_name(self@.name, self@.copies) && r@.copies == self@.copies + 1,
            },
    {
        let (name, copies) = match new_name {
            Some(n) => (n, self.copy_counter),
            None => {
                let mut name = self.name.clone();
                name.append("_copy_");
                let count = super::text::decimal_text(self.copy_counter as u64);
                name.append(count.as_str());
                (name, self.copy_counter + 1)
            },
        };
        Domain {
            name,
            behaviour: self.behaviour.clone(),
            actions: self.actions.deep_copy(),
            commands: self.commands.deep_copy(),
            task_methods: self.task_methods.deep_copy(),
            unigoal_methods: self.unigoal_methods.deep_copy(),
            multigoal_methods: self.multigoal_methods.deep_copy(),
            copy_counter: copies,
        }
    }
}

} // verus!
