//! The two-level store `variable -> subject -> value` shared by states and
//! multigoals, and the satisfaction relation between them.
use super::table::{has_key, insert_entry, lemma_insert_entry, lemma_lookup_at, lookup, OrderedMap};
use super::value::{Value, ValueView};
use vstd::prelude::*;

verus! {

/// The subjects of one state variable and their values.
pub type StateVarMap = OrderedMap<Value>;

/// All state variables, each with its subject map.
pub type VarTable = OrderedMap<StateVarMap>;

/// The view of a [`VarTable`].
pub type VarsView = Seq<(Seq<char>, Seq<(Seq<char>, ValueView)>)>;

/// One cell `(variable, subject, value)`.
pub type CellView = (Seq<char>, Seq<char>, ValueView);

/// The value in cell `(var, arg)`, if there is one.
pub open spec fn cell(vars: VarsView, var: Seq<char>, arg: Seq<char>) -> Option<ValueView> {
    match lookup(vars, var) {
        Some(m) => lookup(m, arg),
        None => None,
    }
}

/// The store after setting cell `(var, arg)` to `val`.
pub open spec fn set_cell(vars: VarsView, var: Seq<char>, arg: Seq<char>, val: ValueView) -> VarsView {
    let inner = match lookup(vars, var) {
        Some(m) => m,
        None => Seq::empty(),
    };
    insert_entry(vars, var, insert_entry(inner, arg, val))
}

/// Whether cell `(var, arg)` holds `val`.
pub open spec fn holds(vars: VarsView, var: Seq<char>, arg: Seq<char>, val: ValueView) -> bool {
    cell(vars, var, arg) == Some(val)
}

/// The cells of one variable's subject map, tagged with the variable.
pub open spec fn row(var: Seq<char>, subs: Seq<(Seq<char>, ValueView)>) -> Seq<CellView> {
    Seq::new(subs.len(), |j: int| (var, subs[j].0, subs[j].1))
}

/// All cells, variable by variable, each in its map's order.
pub open spec fn flatten(vars: VarsView) -> Seq<CellView>
    decreases vars.len(),
{
    if vars.len() == 0 {
        Seq::empty()
    } else {
        flatten(vars.drop_last()) + row(vars.last().0, vars.last().1)
    }
}

/// The store built by setting the cells one after another, from empty.
pub open spec fn build(cells: Seq<CellView>) -> VarsView
    decreases cells.len(),
{
    if cells.len() == 0 {
        Seq::empty()
    } else {
        let c = cells.last();
        set_cell(build(cells.drop_last()), c.0, c.1, c.2)
    }
}

/// The cells that a store does not hold.
pub open spec fn missing(cells: Seq<CellView>, vars: VarsView) -> Seq<CellView>
    decreases cells.len(),
{
    if cells.len() == 0 {
        Seq::empty()
    } else {
        let c = cells.last();
        if holds(vars, c.0, c.1, c.2) {
            missing(cells.drop_last(), vars)
        } else {
            missing(cells.drop_last(), vars).push(c)
        }
    }
}

/// Whether the store holds every cell of `goal`.
pub open spec fn holds_all(vars: VarsView, goal: VarsView) -> bool {
    forall|i: int, j: int|
        0 <= i < goal.len() && 0 <= j < goal[i].1.len() ==> holds(
            vars,
            goal[i].0,
            #[trigger] goal[i].1[j].0,
            goal[i].1[j].1,
        )
}

/// The cells of `goal` that the store does not hold, as a store of their own.
pub open spec fn unsatisfied(vars: VarsView, goal: VarsView) -> VarsView {
    build(missing(flatten(goal), vars))
}

proof fn lemma_row_step(var: Seq<char>, subs: Seq<(Seq<char>, ValueView)>, j: int)
    requires
        0 <= j < subs.len(),
    ensures
        row(var, subs.subrange(0, j + 1)) == row(var, subs.subrange(0, j)).push(
            (var, subs[j].0, subs[j].1),
        ),
{
    assert(row(var, subs.subrange(0, j + 1)) =~= row(var, subs.subrange(0, j)).push(
        (var, subs[j].0, subs[j].1),
    ));
}

proof fn lemma_flatten_step(vars: VarsView, i: int)
    requires
        0 <= i < vars.len(),
    ensures
        flatten(vars.subrange(0, i + 1)) == flatten(vars.subrange(0, i)) + row(vars[i].0, vars[i].1),
{
    assert(vars.subrange(0, i + 1).drop_last() =~= vars.subrange(0, i));
}

/// The value in cell `(var, arg)` of the table.
pub fn get_cell<'a>(vars: &'a VarTable, var: &str, arg: &str) -> (r: Option<&'a Value>)
    ensures
        match r {
            Some(v) => cell(vars@, var@, arg@) == Some(v@),
            None => cell(vars@, var@, arg@) is None,
        },
{
    match vars.get(var) {
        Some(m) => m.get(arg),
        None => None,
    }
}

/// Sets cell `(var, arg)` of the table to `value`.
pub fn put_cell(vars: &mut VarTable, var: &str, arg: &str, value: Value)
    ensures
        final(vars)@ == set_cell(old(vars)@, var@, arg@, value@),
        cell(final(vars)@, var@, arg@) == Some(value@),
{
    vars.assert_unique();
    let ghost v = value@;
    match vars.position(var) {
        Some(i) => {
            let mut inner = vars.replace_at(i, OrderedMap::new());
            inner.assert_unique();
            proof {
                lemma_lookup_at(old(vars)@, i as int);
                lemma_insert_entry(inner@, arg@, v);
                lemma_insert_entry(old(vars)@, var@, insert_entry(inner@, arg@, v));
            }
            let ghost inner_view = inner@;
            inner.insert(arg.to_owned(), value);
            vars.replace_at(i, inner);
            proof {
                lemma_lookup_at(old(vars)@, i as int);
                assert(final(vars)@ =~= set_cell(old(vars)@, var@, arg@, value@));
            }
        },
        None => {
            let mut inner = OrderedMap::new();
            proof {
                lemma_insert_entry(Seq::<(Seq<char>, ValueView)>::empty(), arg@, v);
                lemma_insert_entry(old(vars)@, var@, insert_entry(Seq::<(Seq<char>, ValueView)>::empty(), arg@, v));
            }
            inner.insert(arg.to_owned(), value);
            vars.insert(var.to_owned(), inner);
            proof {
                assert(!has_key(old(vars)@, var@));
                assert(inner@ == insert_entry(Seq::<(Seq<char>, ValueView)>::empty(), arg@, value@));
            }
        },
    }
}

/// All cells of the table, variable by variable.
pub fn flatten_cells(vars: &VarTable) -> (r: Vec<(String, String, Value)>)
    ensures
        r@.len() == flatten(vars@).len(),
        forall|k: int|
            0 <= k < r@.len() ==> (#[trigger] r@[k].0@, r@[k].1@, r@[k].2@) == flatten(vars@)[k],
{
    let mut out: Vec<(String, String, Value)> = Vec::new();
    let mut i: usize = 0;
    while i < vars.len()
        invariant
            0 <= i <= vars@.len(),
            out@.len() == flatten(vars@.subrange(0, i as int)).len(),
            forall|k: int|
                0 <= k < out@.len() ==> (#[trigger] out@[k].0@, out@[k].1@, out@[k].2@) == flatten(
                    vars@.subrange(0, i as int),
                )[k],
        decreases vars@.len() - i,
    {
        let var = vars.key_at(i);
        let subs = vars.value_at(i);
        let ghost before = flatten(vars@.subrange(0, i as int));
        let mut j: usize = 0;
        while j < subs.len()
            invariant
                0 <= i < vars@.len(),
                var@ == vars@[i as int].0,
                subs@ == vars@[i as int].1,
                0 <= j <= subs@.len(),
                out@.len() == before.len() + j,
                forall|k: int|
                    0 <= k < out@.len() ==> (#[trigger] out@[k].0@, out@[k].1@, out@[k].2@) == (
                    before + row(var@, subs@.subrange(0, j as int)))[k],
            decreases subs@.len() - j,
        {
            let arg = subs.key_at(j);
            let val = subs.value_at(j);
            out.push((var.clone(), arg.clone(), val.copy_value()));
            proof {
                lemma_row_step(var@, subs@, j as int);
            }
            j = j + 1;
        }
        proof {
            lemma_flatten_step(vars@, i as int);
            assert(subs@.subrange(0, subs@.len() as int) =~= subs@);
        }
        i = i + 1;
    }
    proof {
        assert(vars@.subrange(0, vars@.len() as int) =~= vars@);
    }
    out
}

/// Whether the table holds every cell of `goal`.
pub fn holds_all_cells(vars: &VarTable, goal: &VarTable) -> (r: bool)
    ensures
        r == holds_all(vars@, goal@),
{
    let mut i: usize = 0;
    while i < goal.len()
        invariant
            0 <= i <= goal@.len(),
            forall|a: int, b: int|
                0 <= a < i && 0 <= b < goal@[a].1.len() ==> holds(
                    vars@,
                    goal@[a].0,
                    #[trigger] goal@[a].1[b].0,
                    goal@[a].1[b].1,
                ),
        decreases goal@.len() - i,
    {
        let var = goal.key_at(i);
        let subs = goal.value_at(i);
        let mut j: usize = 0;
        while j < subs.len()
            invariant
                0 <= i < goal@.len(),
                var@ == goal@[i as int].0,
                subs@ == goal@[i as int].1,
                0 <= j <= subs@.len(),
                forall|a: int, b: int|
                    0 <= a < i && 0 <= b < goal@[a].1.len() ==> holds(
                        vars@,
                        goal@[a].0,
                        #[trigger] goal@[a].1[b].0,
                        goal@[a].1[b].1,
                    ),
                forall|b: int|
                    0 <= b < j ==> holds(vars@, var@, #[trigger] subs@[b].0, subs@[b].1),
            decreases subs@.len() - j,
        {
            let arg = subs.key_at(j);
            let want = subs.value_at(j);
            let ok = match get_cell(vars, var.as_str(), arg.as_str()) {
                Some(v) => v.equals(want),
                None => false,
            };
            if !ok {
                assert(!holds(vars@, goal@[i as int].0, goal@[i as int].1[j as int].0, goal@[i as int].1[j as int].1));
                return false;
            }
            j = j + 1;
        }
        i = i + 1;
    }
    true
}

/// The cells of `goal` that the table does not hold, gathered into a table.
pub fn unsatisfied_cells(vars: &VarTable, goal: &VarTable) -> (r: VarTable)
    ensures
        r@ == unsatisfied(vars@, goal@),
{
    let cells = flatten_cells(goal);
    let ghost all = flatten(goal@);
    let mut out: VarTable = OrderedMap::new();
    let mut k: usize = 0;
    while k < cells.len()
        invariant
            0 <= k <= cells@.len(),
            cells@.len() == all.len(),
            all == flatten(goal@),
            forall|m: int|
                0 <= m < cells@.len() ==> (#[trigger] cells@[m].0@, cells@[m].1@, cells@[m].2@)
                    == all[m],
            out@ == build(missing(all.subrange(0, k as int), vars@)),
        decreases cells@.len() - k,
    {
        let c = &cells[k];
        let ok = match get_cell(vars, c.0.as_str(), c.1.as_str()) {
            Some(v) => v.equals(&c.2),
            None => false,
        };
        proof {
            assert((cells@[k as int].0@, cells@[k as int].1@, cells@[k as int].2@) == all[k as int]);
            assert(all.subrange(0, k + 1).drop_last() =~= all.subrange(0, k as int));
        }
        let ghost prev = missing(all.subrange(0, k as int), vars@);
        if !ok {
            put_cell(&mut out, c.0.as_str(), c.1.as_str(), c.2.copy_value());
            proof {
                let next = missing(all.subrange(0, k + 1), vars@);
                assert(next == prev.push(all[k as int]));
                assert(next.drop_last() =~= prev);
            }
        }
        k = k + 1;
    }
    proof {
        assert(all.subrange(0, all.len() as int) =~= all);
    }
    out
}

} // verus!
