//! A named snapshot of the world: a two-level store `variable -> subject -> value`.
use super::cells::{
    cell, flatten, get_cell, holds, put_cell, set_cell, unsatisfied, unsatisfied_cells,
    flatten_cells, StateVarMap, VarTable, VarsView,
};
use super::multigoal::Multigoal;
use super::table::{has_key, insert_entry, lookup, DeepCopy, OrderedMap};
use super::text::{decimal, decimal_text};
use super::value::{Value, ValueView};
use vstd::prelude::*;
use vstd::string::StringExecFns;

verus! {

/// What a [`State`] holds.
pub struct StateView {
    pub name: Seq<char>,
    pub vars: VarsView,
    pub copies: nat,
}

/// The name that an unnamed copy of something called `name` receives.
pub open spec fn copy_name(name: Seq<char>, copies: nat) -> Seq<char> {
    name + "_copy_"@ + decimal(copies)
}

/// The store after setting each cell in turn.
pub open spec fn set_cells(vars: VarsView, cells: Seq<(Seq<char>, Seq<char>, ValueView)>) -> VarsView
    decreases cells.len(),
{
    if cells.len() == 0 {
        vars
    } else {
        let c = cells.last();
        set_cell(set_cells(vars, cells.drop_last()), c.0, c.1, c.2)
    }
}

/// A state of the world.
#[derive(Debug)]
pub struct State {
    /// The name of the state.
    pub name: String,
    variables: VarTable,
    copy_counter: usize,
}

impl View for State {
    type V = StateView;

    closed spec fn view(&self) -> StateView {
        StateView { name: self.name@, vars: self.variables@, copies: self.copy_counter as nat }
    }
}

impl DeepCopy for State {
    fn deep_copy(&self) -> (r: Self) {
        State {
            name: self.name.clone(),
            variables: self.variables.deep_copy(),
            copy_counter: self.copy_counter,
        }
    }
}

impl Clone for State {
    fn clone(&self) -> (r: Self)
        ensures
            r@ == self@,
    {
        self.deep_copy()
    }
}

impl State {
    /// A state with the given name and no variables.
    pub fn new(name: &str) -> (r: State)
        ensures
            r@ == (StateView { name: name@, vars: Seq::empty(), copies: 0 }),
    {
        State { name: name.to_owned(), variables: OrderedMap::new(), copy_counter: 0 }
    }

    /// Sets cell `(var_name, arg)` to `value`.
    pub fn set_var(&mut self, var_name: &str, arg: &str, value: Value)
        ensures
            final(self)@ == (StateView { vars: set_cell(old(self)@.vars, var_name@, arg@, value@), ..old(self)@ }),
            cell(final(self)@.vars, var_name@, arg@) == Some(value@),
    {
        put_cell(&mut self.variables, var_name, arg, value);
    }

    /// The value in cell `(var_name, arg)`.
    pub fn get_var(&self, var_name: &str, arg: &str) -> (r: Option<&Value>)
        ensures
            match r {
                Some(v) => cell(self@.vars, var_name@, arg@) == Some(v@),
                None => cell(self@.vars, var_name@, arg@) is None,
            },
    {
        get_cell(&self.variables, var_name, arg)
    }

    /// Whether the state has the variable.
    pub fn has_var(&self, var_name: &str) -> (r: bool)
        ensures
            r == has_key(self@.vars, var_name@),
    {
        self.variables.contains_key(var_name)
    }

    /// Whether cell `(var_name, arg)` has a value.
    pub fn has_var_arg(&self, var_name: &str, arg: &str) -> (r: bool)
        ensures
            r == cell(self@.vars, var_name@, arg@) is Some,
    {
        self.get_var(var_name, arg).is_some()
    }

    /// The names of the variables, in order of first insertion.
    pub fn var_names(&self) -> (r: Vec<String>)
        ensures
            r@.len() == self@.vars.len(),
            forall|i: int| 0 <= i < r@.len() ==> r@[i]@ == self@.vars[i].0,
    {
        self.variables.keys()
    }

    /// The subjects of a variable, in order of first insertion.
    pub fn var_args(&self, var_name: &str) -> (r: Option<Vec<String>>)
        ensures
            match r {
                Some(v) => lookup(self@.vars, var_name@) matches Some(m) && v@.len() == m.len()
                    && forall|i: int| 0 <= i < v@.len() ==> v@[i]@ == m[i].0,
                None => lookup(self@.vars, var_name@) is None,
            },
    {
        match self.variables.get(var_name) {
            Some(m) => Some(m.keys()),
            None => None,
        }
    }

    /// The whole subject map of a variable.
    pub fn get_var_map(&self, var_name: &str) -> (r: Option<&StateVarMap>)
        ensures
            match r {
                Some(m) => lookup(self@.vars, var_name@) == Some(m@),
                None => lookup(self@.vars, var_name@) is None,
            },
    {
        self.variables.get(var_name)
    }

    /// Replaces the whole subject map of a variable.
    pub fn set_var_map(&mut self, var_name: &str, var_map: StateVarMap)
        ensures
            final(self)@ == (StateView { vars: insert_entry(old(self)@.vars, var_name@, var_map@), ..old(self)@ }),
    {
        self.variables.insert(var_name.to_owned(), var_map);
    }

    /// A copy of the state. With a name, the copy takes it; without one, the
    /// copy is called `<name>_copy_<n>`, `n` being this state's copy count,
    /// and its own copy count is one more.
    pub fn copy(&self, new_name: Option<String>) -> (r: State)
        requires
            new_name is None ==> self@.copies < usize::MAX,
        ensures
            r@.vars == self@.vars,
            match new_name {
                Some(n) => r@.name == n@ && r@.copies == self@.copies,
                None => r@.name == copy_name(self@.name, self@.copies) && r@.copies == self@.copies + 1,
            },
    {
        let mut copy = self.deep_copy();
        match new_name {
            Some(n) => {
                copy.name = n;
            },
            None => {
                let mut name = self.name.clone();
                name.append("_copy_");
                let count = decimal_text(self.copy_counter as u64);
                name.append(count.as_str());
                copy.name = name;
                copy.copy_counter = self.copy_counter + 1;
            },
        }
        copy
    }

    /// Whether cell `(var_name, arg)` holds `desired_value`.
    pub fn satisfies_unigoal(&self, var_name: &str, arg: &str, desired_value: &Value) -> (r: bool)
        ensures
            r == holds(self@.vars, var_name@, arg@, desired_value@),
    {
        match self.get_var(var_name, arg) {
            Some(v) => v.equals(desired_value),
            None => false,
        }
    }

    /// The cells of the multigoal that this state does not hold.
    pub fn unsatisfied_goals(&self, multigoal: &Multigoal) -> (r: VarTable)
        ensures
            r@ == unsatisfied(self@.vars, multigoal@.vars),
    {
        unsatisfied_cells(&self.variables, multigoal.cells())
    }

    /// Sets every cell of `other` in this state, in `other`'s order.
    pub fn apply_changes(&mut self, other: &State)
        ensures
            final(self)@ == (StateView { vars: set_cells(old(self)@.vars, flatten(other@.vars)), ..old(self)@ }),
    {
        let cells = flatten_cells(&other.variables);
        let ghost all = flatten(other@.vars);
        let mut k: usize = 0;
        while k < cells.len()
            invariant
                0 <= k <= cells@.len(),
                cells@.len() == all.len(),
                all == flatten(other@.vars),
                forall|m: int|
                    0 <= m < cells@.len() ==> (#[trigger] cells@[m].0@, cells@[m].1@, cells@[m].2@)
                        == all[m],
                self@ == (StateView { vars: set_cells(old(self)@.vars, all.subrange(0, k as int)), ..old(self)@ }),
            decreases cells@.len() - k,
        {
            let c = &cells[k];
            self.set_var(c.0.as_str(), c.1.as_str(), c.2.copy_value());
            proof {
                assert((cells@[k as int].0@, cells@[k as int].1@, cells@[k as int].2@) == all[k as int]);
                assert(all.subrange(0, k + 1).drop_last() =~= all.subrange(0, k as int));
            }
            k = k + 1;
        }
        proof {
            assert(all.subrange(0, all.len() as int) =~= all);
        }
    }

    /// The name.
    pub fn name_text(&self) -> (r: &String)
        ensures
            r@ == self@.name,
    {
        &self.name
    }

    pub(crate) fn cells(&self) -> (r: &VarTable)
        ensures
            r@ == self@.vars,
    {
        &self.variables
    }
}

} // verus!
