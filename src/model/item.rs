//! The items of todo lists and plans, and helpers that build values.
use super::multigoal::{Multigoal, MultigoalView};
use super::table::DeepCopy;
use super::value::{Value, ValueView};
use vstd::prelude::*;

verus! {

/// A task, action, unigoal or multigoal.
#[derive(Debug)]
pub enum PlanItem {
    /// A task: a name and arguments, refined by task methods.
    Task(String, Vec<Value>),
    /// A primitive action: a name and arguments.
    Action(String, Vec<Value>),
    /// A unigoal `(state_var_name, arg, value)`.
    Unigoal(String, String, Value),
    /// A multigoal.
    Multigoal(Multigoal),
}

/// What a [`PlanItem`] holds.
pub enum ItemView {
    Task(Seq<char>, Seq<ValueView>),
    Action(Seq<char>, Seq<ValueView>),
    Unigoal(Seq<char>, Seq<char>, ValueView),
    Multigoal(MultigoalView),
}

/// The views of a sequence of values.
pub open spec fn values_view(s: Seq<Value>) -> Seq<ValueView> {
    Seq::new(s.len(), |i: int| s[i]@)
}

/// The views of a sequence of plan items.
pub open spec fn items_view(s: Seq<PlanItem>) -> Seq<ItemView> {
    Seq::new(s.len(), |i: int| s[i]@)
}

impl View for PlanItem {
    type V = ItemView;

    open spec fn view(&self) -> ItemView {
        match self {
            PlanItem::Task(n, a) => ItemView::Task(n@, values_view(a@)),
            PlanItem::Action(n, a) => ItemView::Action(n@, values_view(a@)),
            PlanItem::Unigoal(v, a, x) => ItemView::Unigoal(v@, a@, x@),
            PlanItem::Multigoal(m) => ItemView::Multigoal(m@),
        }
    }
}

/// A copy of a sequence of values.
pub fn copy_values(s: &[Value]) -> (r: Vec<Value>)
    ensures
        values_view(r@) == values_view(s@),
{
    let mut out: Vec<Value> = Vec::new();
    let mut i: usize = 0;
    while i < s.len()
        invariant
            0 <= i <= s@.len(),
            out@.len() == i,
            forall|j: int| 0 <= j < i ==> out@[j]@ == s@[j]@,
        decreases s@.len() - i,
    {
        out.push(s[i].copy_value());
        i = i + 1;
    }
    assert(values_view(out@) =~= values_view(s@));
    out
}

/// A copy of a sequence of plan items.
pub fn copy_items(s: &[PlanItem]) -> (r: Vec<PlanItem>)
    ensures
        items_view(r@) == items_view(s@),
{
    let mut out: Vec<PlanItem> = Vec::new();
    let mut i: usize = 0;
    while i < s.len()
        invariant
            0 <= i <= s@.len(),
            out@.len() == i,
            forall|j: int| 0 <= j < i ==> out@[j]@ == s@[j]@,
        decreases s@.len() - i,
    {
        out.push(s[i].deep_copy());
        i = i + 1;
    }
    assert(items_view(out@) =~= items_view(s@));
    out
}

impl DeepCopy for PlanItem {
    fn deep_copy(&self) -> (r: Self) {
        match self {
            PlanItem::Task(n, a) => PlanItem::Task(n.clone(), copy_values(a.as_slice())),
            PlanItem::Action(n, a) => PlanItem::Action(n.clone(), copy_values(a.as_slice())),
            PlanItem::Unigoal(v, a, x) => PlanItem::Unigoal(v.clone(), a.clone(), x.copy_value()),
            PlanItem::Multigoal(m) => PlanItem::Multigoal(m.deep_copy()),
        }
    }
}

impl Clone for PlanItem {
    fn clone(&self) -> (r: Self)
        ensures
            r@ == self@,
    {
        self.deep_copy()
    }
}

impl PlanItem {
    /// A task item.
    pub fn task(name: &str, args: Vec<Value>) -> (r: Self)
        ensures
            r@ == ItemView::Task(name@, values_view(args@)),
    {
        PlanItem::Task(name.to_owned(), args)
    }

    /// An action item.
    pub fn action(name: &str, args: Vec<Value>) -> (r: Self)
        ensures
            r@ == ItemView::Action(name@, values_view(args@)),
    {
        PlanItem::Action(name.to_owned(), args)
    }

    /// A unigoal item.
    pub fn unigoal(state_var_name: &str, arg: &str, value: Value) -> (r: Self)
        ensures
            r@ == ItemView::Unigoal(state_var_name@, arg@, value@),
    {
        PlanItem::Unigoal(state_var_name.to_owned(), arg.to_owned(), value)
    }

    /// A multigoal item.
    pub fn multigoal(multigoal: Multigoal) -> (r: Self)
        ensures
            r@ == ItemView::Multigoal(multigoal@),
    {
        PlanItem::Multigoal(multigoal)
    }

    /// The item's name: the task or action name, the unigoal's variable, or
    /// the multigoal's name.
    pub fn name(&self) -> (r: &str)
        ensures
            r@ == item_name(self@),
    {
        match self {
            PlanItem::Task(n, _) => n.as_str(),
            PlanItem::Action(n, _) => n.as_str(),
            PlanItem::Unigoal(v, _, _) => v.as_str(),
            PlanItem::Multigoal(m) => m.name_text().as_str(),
        }
    }

    /// The item's arguments: a task's or action's arguments, a unigoal's
    /// subject (as a string value) and desired value, nothing for a multigoal.
    pub fn args(&self) -> (r: Vec<Value>)
        ensures
            values_view(r@) == item_args(self@),
    {
        match self {
            PlanItem::Task(_, a) => copy_values(a.as_slice()),
            PlanItem::Action(_, a) => copy_values(a.as_slice()),
            PlanItem::Unigoal(_, arg, value) => {
                let r = vec![Value::Str(arg.clone()), value.copy_value()];
                assert(values_view(r@) =~= item_args(self@));
                r
            },
            PlanItem::Multigoal(_) => {
                let r: Vec<Value> = Vec::new();
                assert(values_view(r@) =~= item_args(self@));
                r
            },
        }
    }

    /// Whether the item is a task.
    pub fn is_task(&self) -> (r: bool)
        ensures
            r == self@ is Task,
    {
        match self {
            PlanItem::Task(_, _) => true,
            _ => false,
        }
    }

    /// Whether the item is an action.
    pub fn is_action(&self) -> (r: bool)
        ensures
            r == self@ is Action,
    {
        match self {
            PlanItem::Action(_, _) => true,
            _ => false,
        }
    }

    /// Whether the item is a unigoal.
    pub fn is_unigoal(&self) -> (r: bool)
        ensures
            r == self@ is Unigoal,
    {
        match self {
            PlanItem::Unigoal(_, _, _) => true,
            _ => false,
        }
    }

    /// Whether the item is a multigoal.
    pub fn is_multigoal(&self) -> (r: bool)
        ensures
            r == self@ is Multigoal,
    {
        match self {
            PlanItem::Multigoal(_) => true,
            _ => false,
        }
    }
}

/// The name of an item, as [`PlanItem::name`] gives it.
pub open spec fn item_name(i: ItemView) -> Seq<char> {
    match i {
        ItemView::Task(n, _) => n,
        ItemView::Action(n, _) => n,
        ItemView::Unigoal(v, _, _) => v,
        ItemView::Multigoal(m) => m.name,
    }
}

/// The arguments of an item, as [`PlanItem::args`] gives them.
pub open spec fn item_args(i: ItemView) -> Seq<ValueView> {
    match i {
        ItemView::Task(_, a) => a,
        ItemView::Action(_, a) => a,
        ItemView::Unigoal(_, arg, value) => seq![ValueView::Str(arg), value],
        ItemView::Multigoal(_) => Seq::empty(),
    }
}

/// A task item with the given name and arguments.
pub fn plan_item_from_tuple(name: &str, args: &[Value]) -> (r: PlanItem)
    ensures
        r@ == ItemView::Task(name@, values_view(args@)),
{
    PlanItem::Task(name.to_owned(), copy_values(args))
}

/// A string value.
pub fn string_value(s: &str) -> (r: Value)
    ensures
        r@ == ValueView::Str(s@),
{
    Value::Str(s.to_owned())
}

/// An integer value.
pub fn int_value(i: i64) -> (r: Value)
    ensures
        r@ == ValueView::Int(i),
{
    Value::Int(i)
}

/// A boolean value.
pub fn bool_value(b: bool) -> (r: Value)
    ensures
        r@ == ValueView::Bool(b),
{
    Value::Bool(b)
}

} // verus!
