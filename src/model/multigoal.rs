//! Conjunctive goals: a named store of desired cell values.
use super::cells::{
    build, cell, flatten, flatten_cells, get_cell, holds, holds_all, holds_all_cells, put_cell,
    set_cell, unsatisfied, unsatisfied_cells, StateVarMap, VarTable, VarsView,
};
use super::state::{copy_name, State};
use super::table::{has_key, insert_entry, lookup, DeepCopy, OrderedMap};
use super::text::decimal_text;
use super::value::{Value, ValueView};
use vstd::prelude::*;
use vstd::string::StringExecFns;

verus! {

/// What a [`Multigoal`] holds.
pub struct MultigoalView {
    pub name: Seq<char>,
    pub vars: VarsView,
    pub copies: nat,
}

/// A conjunction of unigoals, organised as `variable -> subject -> value`.
#[derive(Debug)]
pub struct Multigoal {
    /// The name of the multigoal.
    pub name: String,
    /// The desired values, by variable and subject.
    pub variables: VarTable,
    copy_counter: usize,
}

impl View for Multigoal {
    type V = MultigoalView;

    closed spec fn view(&self) -> MultigoalView {
        MultigoalView { name: self.name@, vars: self.variables@, copies: self.copy_counter as nat }
    }
}

impl DeepCopy for Multigoal {
    fn deep_copy(&self) -> (r: Self) {
        Multigoal {
            name: self.name.clone(),
            variables: self.variables.deep_copy(),
            copy_counter: self.copy_counter,
        }
    }
}

impl Clone for Multigoal {
    fn clone(&self) -> (r: Self)
        ensures
            r@ == self@,
    {
        self.deep_copy()
    }
}

/// The number of cells in a store.
pub open spec fn cell_count(vars: VarsView) -> nat {
    flatten(vars).len()
}

impl Multigoal {
    /// A multigoal with the given name and no goals.
    pub fn new(name: &str) -> (r: Multigoal)
        ensures
            r@ == (MultigoalView { name: name@, vars: Seq::empty(), copies: 0 }),
    {
        Multigoal { name: name.to_owned(), variables: OrderedMap::new(), copy_counter: 0 }
    }

    /// Asks for cell `(var_name, arg)` to hold `value`.
    pub fn set_goal(&mut self, var_name: &str, arg: &str, value: Value)
        ensures
            final(self)@ == (MultigoalView { vars: set_cell(old(self)@.vars, var_name@, arg@, value@), ..old(self)@ }),
            cell(final(self)@.vars, var_name@, arg@) == Some(value@),
    {
        put_cell(&mut self.variables, var_name, arg, value);
    }

    /// The value desired for cell `(var_name, arg)`.
    pub fn get_goal(&self, var_name: &str, arg: &str) -> (r: Option<&Value>)
        ensures
            match r {
                Some(v) => cell(self@.vars, var_name@, arg@) == Some(v@),
                None => cell(self@.vars, var_name@, arg@) is None,
            },
    {
        get_cell(&self.variables, var_name, arg)
    }

    /// Whether some goal concerns the variable.
    pub fn has_goal_var(&self, var_name: &str) -> (r: bool)
        ensures
            r == has_key(self@.vars, var_name@),
    {
        self.variables.contains_key(var_name)
    }

    /// Whether a goal concerns cell `(var_name, arg)`.
    pub fn has_goal_arg(&self, var_name: &str, arg: &str) -> (r: bool)
        ensures
            r == cell(self@.vars, var_name@, arg@) is Some,
    {
        self.get_goal(var_name, arg).is_some()
    }

    /// The variables that goals concern, in order of first insertion.
    pub fn goal_var_names(&self) -> (r: Vec<String>)
        ensures
            r@.len() == self@.vars.len(),
            forall|i: int| 0 <= i < r@.len() ==> r@[i]@ == self@.vars[i].0,
    {
        self.variables.keys()
    }

    /// The subjects of a goal variable, in order of first insertion.
    pub fn goal_args(&self, var_name: &str) -> (r: Option<Vec<String>>)
        ensures
            match r {
                Some(v) => lookup(self@.vars, var_name@) matches Some(m) && v@.len() == m.len()
                    && forall|i: int| 0 <= i < v@.len() ==> v@[i]@ == m[i].0,
                None => lookup(self@.vars, var_name@) is None,
            },
    {
        match self.variables.get(var_name) {
            Some(m) => Some(m.keys()),
            None => None,
        }
    }

    /// The whole subject map of a goal variable.
    pub fn get_goal_map(&self, var_name: &str) -> (r: Option<&StateVarMap>)
        ensures
            match r {
                Some(m) => lookup(self@.vars, var_name@) == Some(m@),
                None => lookup(self@.vars, var_name@) is None,
            },
    {
        self.variables.get(var_name)
    }

    /// Replaces the whole subject map of a goal variable.
    pub fn set_goal_map(&mut self, var_name: &str, var_map: StateVarMap)
        ensures
            final(self)@ == (MultigoalView { vars: insert_entry(old(self)@.vars, var_name@, var_map@), ..old(self)@ }),
    {
        self.variables.insert(var_name.to_owned(), var_map);
    }

    /// A copy of the multigoal, named as [`State::copy`] names its copies.
    pub fn copy(&self, new_name: Option<String>) -> (r: Multigoal)
        requires
            new_name is None ==> self@.copies < usize::MAX,
        ensures
            r@.vars == self@.vars,
            match new_name {
                Some(n) => r@.name == n@ && r@.copies == self@.copies,
                None => r@.name == copy_name(self@.name, self@.copies) && r@.copies == self@.copies + 1,
            },
    {
        let mut copy = self.deep_copy();
        match new_name {
            Some(n) => {
                copy.name = n;
            },
            None => {
                let mut name = self.name.clone();
                name.append("_copy_");
                let count = decimal_text(self.copy_counter as u64);
                name.append(count.as_str());
                copy.name = name;
                copy.copy_counter = self.copy_counter + 1;
            },
        }
        copy
    }

    /// Whether the state holds every goal cell.
    pub fn is_satisfied_by(&self, state: &State) -> (r: bool)
        ensures
            r == holds_all(state@.vars, self@.vars),
    {
        holds_all_cells(state.cells(), &self.variables)
    }

    /// The goal cells that the state does not hold.
    pub fn unsatisfied_goals(&self, state: &State) -> (r: VarTable)
        ensures
            r@ == unsatisfied(state@.vars, self@.vars),
    {
        unsatisfied_cells(state.cells(), &self.variables)
    }

    /// Whether the multigoal has no goal cell.
    pub fn is_empty(&self) -> (r: bool)
        ensures
            r == (cell_count(self@.vars) == 0),
    {
        self.goal_count() == 0
    }

    /// The number of goal cells.
    pub fn goal_count(&self) -> (r: usize)
        ensures
            r == cell_count(self@.vars),
    {
        flatten_cells(&self.variables).len()
    }

    /// A multigoal with the given name that asks for each unigoal in turn; a
    /// later unigoal on the same cell replaces an earlier one.
    pub fn from_unigoals(name: &str, unigoals: Vec<(String, String, Value)>) -> (r: Multigoal)
        ensures
            r@.name == name@,
            r@.copies == 0,
            r@.vars == build(Seq::new(unigoals@.len(), |i: int| (unigoals@[i].0@, unigoals@[i].1@, unigoals@[i].2@))),
    {
        let ghost cells = Seq::new(unigoals@.len(), |i: int| (unigoals@[i].0@, unigoals@[i].1@, unigoals@[i].2@));
        let mut m = Multigoal::new(name);
        let mut k: usize = 0;
        while k < unigoals.len()
            invariant
                0 <= k <= unigoals@.len(),
                cells == Seq::new(unigoals@.len(), |i: int| (unigoals@[i].0@, unigoals@[i].1@, unigoals@[i].2@)),
                m@.name == name@,
                m@.copies == 0,
                m@.vars == build(cells.subrange(0, k as int)),
            decreases unigoals@.len() - k,
        {
            let u = &unigoals[k];
            m.set_goal(u.0.as_str(), u.1.as_str(), u.2.copy_value());
            proof {
                assert(cells.subrange(0, k + 1).drop_last() =~= cells.subrange(0, k as int));
            }
            k = k + 1;
        }
        proof {
            assert(cells.subrange(0, cells.len() as int) =~= cells);
        }
        m
    }

    /// The goal cells as unigoals, variable by variable.
    pub fn to_unigoals(&self) -> (r: Vec<(String, String, Value)>)
        ensures
            r@.len() == flatten(self@.vars).len(),
            forall|k: int|
                0 <= k < r@.len() ==> (#[trigger] r@[k].0@, r@[k].1@, r@[k].2@) == flatten(self@.vars)[k],
    {
        flatten_cells(&self.variables)
    }

    /// The name.
    pub fn name_text(&self) -> (r: &String)
        ensures
            r@ == self@.name,
    {
        &self.name
    }

    pub(crate) fn cells(&self) -> (r: &VarTable)
        ensures
            r@ == self@.vars,
    {
        &self.variables
    }
}

/// The value that stands for a store: a mapping from variables to mappings
/// from subjects to values.
pub open spec fn encode_vars(vars: VarsView) -> ValueView {
    ValueView::Object(Seq::new(vars.len(), |i: int| (vars[i].0, ValueView::Object(vars[i].1))))
}

/// The value that stands for a multigoal inside a task's arguments:
/// `{"name": <name>, "variables": {<var>: {<subject>: <value>}}}`.
pub open spec fn encode_multigoal(m: MultigoalView) -> ValueView {
    ValueView::Object(seq![("name"@, ValueView::Str(m.name)), ("variables"@, encode_vars(m.vars))])
}

/// Whether a value has the shape of an encoded multigoal.
pub open spec fn is_encoded_goal(v: ValueView) -> bool {
    &&& v is Object
    &&& v->Object_0.len() == 2
    &&& v->Object_0[0].0 == "name"@
    &&& v->Object_0[0].1 is Str
    &&& v->Object_0[1].0 == "variables"@
    &&& v->Object_0[1].1 is Object
    &&& forall|i: int|
        0 <= i < v->Object_0[1].1->Object_0.len() ==> (#[trigger] v->Object_0[1].1->Object_0[i]).1 is Object
}

/// The goal cells of an encoded multigoal, if the value is one.
pub open spec fn encoded_goal(v: ValueView) -> Option<VarsView> {
    if is_encoded_goal(v) {
        let vs = v->Object_0[1].1->Object_0;
        Some(Seq::new(vs.len(), |i: int| (vs[i].0, vs[i].1->Object_0)))
    } else {
        None
    }
}

/// Decoding an encoded multigoal gives back its goal cells.
pub proof fn lemma_encoded_goal(m: MultigoalView)
    ensures
        encoded_goal(encode_multigoal(m)) == Some(m.vars),
{
    reveal_strlit("name");
    reveal_strlit("variables");
    let v = encode_multigoal(m);
    assert(is_encoded_goal(v));
    let vs = v->Object_0[1].1->Object_0;
    assert(Seq::new(vs.len(), |i: int| (vs[i].0, vs[i].1->Object_0)) =~= m.vars);
}

fn encode_subjects(m: &StateVarMap) -> (r: Value)
    ensures
        r@ == ValueView::Object(m@),
{
    let mut out: Vec<(String, Value)> = Vec::new();
    let mut j: usize = 0;
    while j < m.len()
        invariant
            0 <= j <= m@.len(),
            out@.len() == j,
            forall|k: int| 0 <= k < j ==> (#[trigger] out@[k].0@, out@[k].1@) == m@[k],
        decreases m@.len() - j,
    {
        out.push((m.key_at(j).clone(), m.value_at(j).copy_value()));
        j = j + 1;
    }
    let r = Value::Object(out);
    proof {
        assert(r@->Object_0 =~= m@) by {
            assert forall|k: int| 0 <= k < m@.len() implies r@->Object_0[k] == m@[k] by {
                assert((out@[k].0@, out@[k].1@) == m@[k]);
            }
        }
    }
    r
}

impl Multigoal {
    /// The multigoal as a value, to travel inside a task's arguments.
    pub fn to_value(&self) -> (r: Value)
        ensures
            r@ == encode_multigoal(self@),
    {
        let mut vars: Vec<(String, Value)> = Vec::new();
        let mut i: usize = 0;
        while i < self.variables.len()
            invariant
                0 <= i <= self@.vars.len(),
                self@.vars == self.variables@,
                vars@.len() == i,
                forall|k: int|
                    0 <= k < i ==> (#[trigger] vars@[k].0@, vars@[k].1@) == (self@.vars[k].0, ValueView::Object(self@.vars[k].1)),
            decreases self@.vars.len() - i,
        {
            let sub = encode_subjects(self.variables.value_at(i));
            vars.push((self.variables.key_at(i).clone(), sub));
            i = i + 1;
        }
        let vv = Value::Object(vars);
        proof {
            assert(vv@ =~= encode_vars(self@.vars)) by {
                assert(vv@->Object_0 =~= encode_vars(self@.vars)->Object_0) by {
                    assert forall|k: int| 0 <= k < self@.vars.len() implies vv@->Object_0[k] == encode_vars(self@.vars)->Object_0[k] by {
                        assert((vars@[k].0@, vars@[k].1@) == (self@.vars[k].0, ValueView::Object(self@.vars[k].1)));
                    }
                }
            }
        }
        let mut entries: Vec<(String, Value)> = Vec::new();
        entries.push((String::from_str("name"), Value::Str(self.name.clone())));
        entries.push((String::from_str("variables"), vv));
        let r = Value::Object(entries);
        proof {
            assert(entries@[0].0@ == "name"@);
            assert(entries@[0].1@ == ValueView::Str(self@.name));
            assert(entries@[1].0@ == "variables"@);
            assert(r@->Object_0[0] == encode_multigoal(self@)->Object_0[0]);
            assert(r@->Object_0[1] == encode_multigoal(self@)->Object_0[1]);
            assert(r@->Object_0 =~= encode_multigoal(self@)->Object_0);
        }
        r
    }
}

/// Whether the state holds every cell of an encoded multigoal; `None` when
/// the value is no encoded multigoal.
pub fn encoded_goal_holds(vars: &VarTable, v: &Value) -> (r: Option<bool>)
    ensures
        match r {
            Some(b) => encoded_goal(v@) matches Some(g) && b == holds_all(vars@, g),
            None => encoded_goal(v@) is None,
        },
{
    proof {
        reveal_strlit("name");
        reveal_strlit("variables");
    }
    match v {
        Value::Object(e) => {
            let ghost ev = v@->Object_0;
            assert(ev.len() == e@.len());
            assert(forall|k: int| 0 <= k < e@.len() ==> ev[k] == (e@[k].0@, e@[k].1@));
            if e.len() != 2 {
                return None;
            }
            let name_key = String::from_str("name");
            let vars_key = String::from_str("variables");
            if !e[0].0.eq(&name_key) || !e[1].0.eq(&vars_key) {
                return None;
            }
            match &e[0].1 {
                Value::Str(_) => {},
                _ => {
                    return None;
                },
            }
            match &e[1].1 {
                Value::Object(vs) => {
                    let ghost vsv = ev[1].1->Object_0;
                    assert(ev[0].0 == "name"@);
                    assert(ev[1].0 == "variables"@);
                    assert(ev[0].1 is Str);
                    assert(vsv.len() == vs@.len());
                    assert(forall|k: int| 0 <= k < vs@.len() ==> vsv[k] == (vs@[k].0@, vs@[k].1@));
                    let ghost g = Seq::new(vsv.len(), |k: int| (vsv[k].0, vsv[k].1->Object_0));
                    let mut all = true;
                    let mut i: usize = 0;
                    while i < vs.len()
                        invariant
                            0 <= i <= vs@.len(),
                            v@ is Object,
                            v@->Object_0.len() == 2,
                            v@->Object_0[0].0 == "name"@,
                            v@->Object_0[0].1 is Str,
                            v@->Object_0[1].0 == "variables"@,
                            v@->Object_0[1].1 is Object,
                            vsv == v@->Object_0[1].1->Object_0,
                            vsv.len() == vs@.len(),
                            g.len() == vs@.len(),
                            forall|k: int| 0 <= k < vs@.len() ==> vsv[k] == (vs@[k].0@, vs@[k].1@),
                            forall|k: int| 0 <= k < i ==> (#[trigger] vsv[k]).1 is Object,
                            g == Seq::new(vsv.len(), |k: int| (vsv[k].0, vsv[k].1->Object_0)),
                            all == (forall|a: int, b: int|
                                0 <= a < i && 0 <= b < g[a].1.len() ==> holds(
                                    vars@,
                                    g[a].0,
                                    #[trigger] g[a].1[b].0,
                                    g[a].1[b].1,
                                )),
                        decreases vs@.len() - i,
                    {
                        let var = &vs[i].0;
                        match &vs[i].1 {
                            Value::Object(subs) => {
                                let ghost row = g[i as int].1;
                                assert(vsv[i as int].1 is Object);
                                assert(row.len() == subs@.len());
                                assert(forall|b: int| 0 <= b < subs@.len() ==> row[b] == (subs@[b].0@, subs@[b].1@));
                                let mut j: usize = 0;
                                let mut row_ok = true;
                                while j < subs.len()
                                    invariant
                                        0 <= i < g.len(),
                                        0 <= j <= subs@.len(),
                                        g[i as int].0 == var@,
                                        row == g[i as int].1,
                                        row.len() == subs@.len(),
                                        forall|b: int| 0 <= b < subs@.len() ==> row[b] == (subs@[b].0@, subs@[b].1@),
                                        row_ok == (forall|b: int|
                                            0 <= b < j ==> holds(vars@, var@, #[trigger] row[b].0, row[b].1)),
                                    decreases subs@.len() - j,
                                {
                                    let ok = match get_cell(vars, var.as_str(), subs[j].0.as_str()) {
                                        Some(x) => x.equals(&subs[j].1),
                                        None => false,
                                    };
                                    proof {
                                        assert(row[j as int] == (subs@[j as int].0@, subs@[j as int].1@));
                                        assert(ok == holds(vars@, var@, row[j as int].0, row[j as int].1));
                                    }
                                    if !ok {
                                        row_ok = false;
                                    }
                                    j = j + 1;
                                }
                                if !row_ok {
                                    all = false;
                                }
                            },
                            _ => {
                                assert(!(vs@[i as int].1@ is Object));
                                assert(!(v@->Object_0[1].1->Object_0[i as int].1 is Object));
                                assert(!is_encoded_goal(v@));
                                return None;
                            },
                        }
                        i = i + 1;
                    }
                    proof {
                        assert(is_encoded_goal(v@));
                    }
                    Some(all)
                },
                _ => None,
            }
        },
        _ => None,
    }
}

} // verus!
