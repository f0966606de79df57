//! Text renderings of values and plan items, as traces and errors show them.
use crate::model::item::{ItemView, PlanItem};
use crate::model::text::{signed_decimal, signed_decimal_text};
use crate::model::value::{Value, ValueView};
use vstd::prelude::*;
use vstd::string::StringExecFns;

verus! {

/// The parts joined with `sep` between each two.
pub open spec fn join(parts: Seq<Seq<char>>, sep: Seq<char>) -> Seq<char>
    decreases parts.len(),
{
    if parts.len() == 0 {
        Seq::empty()
    } else if parts.len() == 1 {
        parts[0]
    } else {
        join(parts.drop_last(), sep) + sep + parts.last()
    }
}

/// The texts of the elements of a sequence value, or of the entries
/// (`key: value`) of a mapping value.
pub open spec fn element_texts(v: ValueView) -> Seq<Seq<char>>
    decreases v, 0int,
{
    match v {
        ValueView::Array(a) => Seq::new(
            a.len(),
            |i: int|
                if 0 <= i < a.len() {
                    value_text(a[i])
                } else {
                    Seq::empty()
                },
        ),
        ValueView::Object(o) => Seq::new(
            o.len(),
            |i: int|
                if 0 <= i < o.len() {
                    o[i].0 + ": "@ + value_text(o[i].1)
                } else {
                    Seq::empty()
                },
        ),
        _ => Seq::empty(),
    }
}

/// A value as plain text: strings without quotes, numbers in decimal,
/// sequences as `[a, b]` and mappings as `{k: v}`.
pub open spec fn value_text(v: ValueView) -> Seq<char>
    decreases v, 1int,
{
    match v {
        ValueView::Null => "null"@,
        ValueView::Bool(b) => if b {
            "true"@
        } else {
            "false"@
        },
        ValueView::Int(i) => signed_decimal(i as int),
        ValueView::Number(t) => t,
        ValueView::Str(s) => s,
        ValueView::Array(_) => "["@ + join(element_texts(v), ", "@) + "]"@,
        ValueView::Object(_) => "{"@ + join(element_texts(v), ", "@) + "}"@,
    }
}

/// An item as text: `(name arg ...)` for tasks and actions, `(var arg value)`
/// for unigoals, `<Multigoal name>` for multigoals.
pub open spec fn item_text(i: ItemView) -> Seq<char> {
    match i {
        ItemView::Task(n, a) => "("@ + join(seq![n] + Seq::new(a.len(), |k: int| value_text(a[k])), " "@) + ")"@,
        ItemView::Action(n, a) => "("@ + join(seq![n] + Seq::new(a.len(), |k: int| value_text(a[k])), " "@) + ")"@,
        ItemView::Unigoal(v, arg, x) => "("@ + v + " "@ + arg + " "@ + value_text(x) + ")"@,
        ItemView::Multigoal(m) => "<Multigoal "@ + m.name + ">"@,
    }
}

/// A list of items as text: `[a, b]`.
pub open spec fn items_text(items: Seq<ItemView>) -> Seq<char> {
    "["@ + join(Seq::new(items.len(), |k: int| item_text(items[k])), ", "@) + "]"@
}

proof fn lemma_join_push(parts: Seq<Seq<char>>, sep: Seq<char>, x: Seq<char>)
    ensures
        join(parts.push(x), sep) == if parts.len() == 0 {
            x
        } else {
            join(parts, sep) + sep + x
        },
{
    assert(parts.push(x).drop_last() =~= parts);
}

/// A value as plain text.
pub fn value_to_string(value: &Value) -> (r: String)
    ensures
        r@ == value_text(value@),
    decreases value,
{
    proof {
        reveal_strlit("null");
        reveal_strlit("true");
        reveal_strlit("false");
        reveal_strlit("[");
        reveal_strlit("]");
        reveal_strlit("{");
        reveal_strlit("}");
        reveal_strlit(", ");
        reveal_strlit(": ");
    }
    match value {
        Value::Null => {
            assert(value@ == ValueView::Null);
            let r = String::from_str("null");
            assert(r@ == "null"@);
            assert(value_text(value@) == "null"@);
            r
        },
        Value::Bool(b) => {
            assert(value@ == ValueView::Bool(*b));
            if *b {
                String::from_str("true")
            } else {
                String::from_str("false")
            }
        },
        Value::Int(i) => {
            let r = signed_decimal_text(*i);
            assert(value@ == ValueView::Int(*i));
            r
        },
        Value::Number(t) => {
            assert(value@ == ValueView::Number(t@));
            t.clone()
        },
        Value::Str(s) => {
            assert(value@ == ValueView::Str(s@));
            s.clone()
        },
        Value::Array(a) => {
            let ghost parts = element_texts(value@);
            proof {
                let vv = value@->Array_0;
                assert(vv.len() == a@.len());
                assert(forall|k: int| 0 <= k < vv.len() ==> vv[k] == a@[k]@);
            }
            let mut out = String::new();
            let mut i: usize = 0;
            while i < a.len()
                invariant
                    *value == Value::Array(*a),
                    0 <= i <= a@.len(),
                    parts.len() == a@.len(),
                    forall|k: int| 0 <= k < a@.len() ==> #[trigger] parts[k] == value_text(a@[k]@),
                    out@ == join(parts.subrange(0, i as int), ", "@),
                decreases a@.len() - i,
            {
                proof {
                    vstd::std_specs::vec::axiom_vec_index_decreases(*a, i as int);
                    assert(value->Array_0 == *a);
                    lemma_join_push(parts.subrange(0, i as int), ", "@, parts[i as int]);
                    assert(parts.subrange(0, i + 1) =~= parts.subrange(0, i as int).push(parts[i as int]));
                }
                if i > 0 {
                    out.append(", ");
                }
                let t = value_to_string(&a[i]);
                out.append(t.as_str());
                i = i + 1;
            }
            let mut r = String::from_str("[");
            r.append(out.as_str());
            r.append("]");
            proof {
                assert(parts.subrange(0, a@.len() as int) =~= parts);
            }
            r
        },
        Value::Object(o) => {
            let ghost parts = element_texts(value@);
            proof {
                let vv = value@->Object_0;
                assert(vv.len() == o@.len());
                assert(forall|k: int| 0 <= k < vv.len() ==> vv[k] == (o@[k].0@, o@[k].1@));
            }
            let mut out = String::new();
            let mut i: usize = 0;
            while i < o.len()
                invariant
                    *value == Value::Object(*o),
                    0 <= i <= o@.len(),
                    parts == element_texts(value@),
                    parts.len() == o@.len(),
                    forall|k: int|
                        0 <= k < o@.len() ==> #[trigger] parts[k] == o@[k].0@ + ": "@ + value_text(o@[k].1@),
                    out@ == join(parts.subrange(0, i as int), ", "@),
                decreases o@.len() - i,
            {
                proof {
                    vstd::std_specs::vec::axiom_vec_index_decreases(*o, i as int);
                    assert(value->Object_0 == *o);
                    lemma_join_push(parts.subrange(0, i as int), ", "@, parts[i as int]);
                    assert(parts.subrange(0, i + 1) =~= parts.subrange(0, i as int).push(parts[i as int]));
                }
                if i > 0 {
                    out.append(", ");
                }
                let mut e = o[i].0.clone();
                e.append(": ");
                let t = value_to_string(&o[i].1);
                e.append(t.as_str());
                out.append(e.as_str());
                i = i + 1;
            }
            let mut r = String::from_str("{");
            r.append(out.as_str());
            r.append("}");
            proof {
                assert(parts.subrange(0, o@.len() as int) =~= parts);
            }
            r
        },
    }
}

fn call_text(name: &String, args: &Vec<Value>) -> (r: String)
    ensures
        r@ == "("@ + join(seq![name@] + Seq::new(args@.len(), |k: int| value_text(args@[k]@)), " "@) + ")"@,
{
    let ghost parts = seq![name@] + Seq::new(args@.len(), |k: int| value_text(args@[k]@));
    let mut out = name.clone();
    let mut i: usize = 0;
    proof {
        assert(parts.subrange(0, 1) =~= seq![name@]);
    }
    while i < args.len()
        invariant
            0 <= i <= args@.len(),
            parts == seq![name@] + Seq::new(args@.len(), |k: int| value_text(args@[k]@)),
            out@ == join(parts.subrange(0, i + 1), " "@),
        decreases args@.len() - i,
    {
        proof {
            lemma_join_push(parts.subrange(0, i + 1), " "@, parts[i + 1]);
            assert(parts.subrange(0, i + 2) =~= parts.subrange(0, i + 1).push(parts[i + 1]));
        }
        out.append(" ");
        let t = value_to_string(&args[i]);
        out.append(t.as_str());
        i = i + 1;
    }
    let mut r = String::from_str("(");
    r.append(out.as_str());
    r.append(")");
    proof {
        assert(parts.subrange(0, args@.len() as int + 1) =~= parts);
    }
    r
}

/// An item as text.
pub fn item_to_string(item: &PlanItem) -> (r: String)
    ensures
        r@ == item_text(item@),
{
    match item {
        PlanItem::Task(name, args) => {
            let r = call_text(name, args);
            proof {
                assert(Seq::new(args@.len(), |k: int| value_text(args@[k]@)) =~= Seq::new(
                    crate::model::item::values_view(args@).len(),
                    |k: int| value_text(crate::model::item::values_view(args@)[k]),
                ));
            }
            r
        },
        PlanItem::Action(name, args) => {
            let r = call_text(name, args);
            proof {
                assert(Seq::new(args@.len(), |k: int| value_text(args@[k]@)) =~= Seq::new(
                    crate::model::item::values_view(args@).len(),
                    |k: int| value_text(crate::model::item::values_view(args@)[k]),
                ));
            }
            r
        },
        PlanItem::Unigoal(v, arg, x) => {
            let mut r = String::from_str("(");
            r.append(v.as_str());
            r.append(" ");
            r.append(arg.as_str());
            r.append(" ");
            let t = value_to_string(x);
            r.append(t.as_str());
            r.append(")");
            r
        },
        PlanItem::Multigoal(m) => {
            let mut r = String::from_str("<Multigoal ");
            r.append(m.name_text().as_str());
            r.append(">");
            r
        },
    }
}

/// A list of items as text.
pub fn todo_list_to_string(todo_list: &Vec<PlanItem>) -> (r: String)
    ensures
        r@ == items_text(crate::model::item::items_view(todo_list@)),
{
    let ghost parts = Seq::new(todo_list@.len(), |k: int| item_text(todo_list@[k]@));
    let mut out = String::new();
    let mut i: usize = 0;
    while i < todo_list.len()
        invariant
            0 <= i <= todo_list@.len(),
            parts == Seq::new(todo_list@.len(), |k: int| item_text(todo_list@[k]@)),
            out@ == join(parts.subrange(0, i as int), ", "@),
        decreases todo_list@.len() - i,
    {
        proof {
            lemma_join_push(parts.subrange(0, i as int), ", "@, parts[i as int]);
            assert(parts.subrange(0, i + 1) =~= parts.subrange(0, i as int).push(parts[i as int]));
        }
        if i > 0 {
            out.append(", ");
        }
        let t = item_to_string(&todo_list[i]);
        out.append(t.as_str());
        i = i + 1;
    }
    let mut r = String::from_str("[");
    r.append(out.as_str());
    r.append("]");
    proof {
        assert(parts.subrange(0, todo_list@.len() as int) =~= parts);
        let iv = crate::model::item::items_view(todo_list@);
        assert(parts =~= Seq::new(iv.len(), |k: int| item_text(iv[k])));
    }
    r
}

/// The JSON text of a string: quoted, with the characters that JSON
/// requires escaped; `None` if serialising failed.
pub uninterp spec fn json_quoted(s: Seq<char>) -> Option<Seq<char>>;

/// Relies on `serde_json::to_string` applied to a `str`: the string as a
/// JSON string literal. The answer depends on the characters alone.
#[verifier::external_body]
fn quote_json(s: &str) -> (r: Option<String>)
    ensures
        match r {
            Some(t) => json_quoted(s@) == Some(t@),
            None => json_quoted(s@) is None,
        },
{
    serde_json::to_string(s).ok()
}

/// The parts, when all are there.
pub open spec fn all_present(parts: Seq<Option<Seq<char>>>) -> Option<Seq<Seq<char>>>
    decreases parts.len(),
{
    if parts.len() == 0 {
        Some(Seq::empty())
    } else {
        match (all_present(parts.drop_last()), parts.last()) {
            (Some(a), Some(x)) => Some(a.push(x)),
            _ => None,
        }
    }
}

/// The JSON texts of the elements of a sequence value, or of the entries
/// (`"key":value`) of a mapping value.
pub open spec fn json_element_texts(v: ValueView) -> Seq<Option<Seq<char>>>
    decreases v, 0int,
{
    match v {
        ValueView::Array(a) => Seq::new(
            a.len(),
            |i: int|
                if 0 <= i < a.len() {
                    value_json(a[i])
                } else {
                    None
                },
        ),
        ValueView::Object(o) => Seq::new(
            o.len(),
            |i: int|
                if 0 <= i < o.len() {
                    match (json_quoted(o[i].0), value_json(o[i].1)) {
                        (Some(k), Some(x)) => Some(k + ":"@ + x),
                        _ => None,
                    }
                } else {
                    None
                },
        ),
        _ => Seq::empty(),
    }
}

/// A value as compact JSON text; `None` if a string could not be serialised.
pub open spec fn value_json(v: ValueView) -> Option<Seq<char>>
    decreases v, 1int,
{
    match v {
        ValueView::Str(s) => json_quoted(s),
        ValueView::Array(_) => match all_present(json_element_texts(v)) {
            Some(parts) => Some("["@ + join(parts, ","@) + "]"@),
            None => None,
        },
        ValueView::Object(_) => match all_present(json_element_texts(v)) {
            Some(parts) => Some("{"@ + join(parts, ","@) + "}"@),
            None => None,
        },
        _ => Some(value_text(v)),
    }
}

proof fn lemma_present_push(parts: Seq<Option<Seq<char>>>, x: Option<Seq<char>>)
    ensures
        all_present(parts.push(x)) == match (all_present(parts), x) {
            (Some(a), Some(y)) => Some(a.push(y)),
            _ => None,
        },
{
    assert(parts.push(x).drop_last() =~= parts);
}

/// A value as compact JSON text, or `None` if a string could not be serialised.
pub fn value_to_json(value: &Value) -> (r: Option<String>)
    ensures
        match r {
            Some(t) => value_json(value@) == Some(t@),
            None => value_json(value@) is None,
        },
    decreases value,
{
    proof {
        reveal_strlit("[");
        reveal_strlit("]");
        reveal_strlit("{");
        reveal_strlit("}");
        reveal_strlit(",");
        reveal_strlit(":");
    }
    match value {
        Value::Str(s) => quote_json(s.as_str()),
        Value::Array(a) => {
            let ghost parts = json_element_texts(value@);
            proof {
                let vv = value@->Array_0;
                assert(vv.len() == a@.len());
                assert(forall|k: int| 0 <= k < vv.len() ==> vv[k] == a@[k]@);
            }
            let mut out = String::new();
            let mut i: usize = 0;
            while i < a.len()
                invariant
                    *value == Value::Array(*a),
                    0 <= i <= a@.len(),
                    parts == json_element_texts(value@),
                    parts.len() == a@.len(),
                    forall|k: int| 0 <= k < a@.len() ==> #[trigger] parts[k] == value_json(a@[k]@),
                    all_present(parts.subrange(0, i as int)) matches Some(done) && out@ == join(done, ","@),
                decreases a@.len() - i,
            {
                proof {
                    vstd::std_specs::vec::axiom_vec_index_decreases(*a, i as int);
                    assert(value->Array_0 == *a);
                    assert(parts.subrange(0, i + 1) =~= parts.subrange(0, i as int).push(parts[i as int]));
                    lemma_present_push(parts.subrange(0, i as int), parts[i as int]);
                    let done = all_present(parts.subrange(0, i as int))->Some_0;
                    assert(done.len() == i) by {
                        lemma_present_len(parts.subrange(0, i as int));
                    }
                }
                match value_to_json(&a[i]) {
                    Some(t) => {
                        proof {
                            let done = all_present(parts.subrange(0, i as int))->Some_0;
                            lemma_join_push(done, ","@, t@);
                        }
                        if i > 0 {
                            out.append(",");
                        }
                        out.append(t.as_str());
                    },
                    None => {
                        proof {
                            lemma_present_none(parts, i as int);
                        }
                        return None;
                    },
                }
                i = i + 1;
            }
            let mut r = String::from_str("[");
            r.append(out.as_str());
            r.append("]");
            proof {
                assert(parts.subrange(0, a@.len() as int) =~= parts);
            }
            Some(r)
        },
        Value::Object(o) => {
            let ghost parts = json_element_texts(value@);
            proof {
                let vv = value@->Object_0;
                assert(vv.len() == o@.len());
                assert(forall|k: int| 0 <= k < vv.len() ==> vv[k] == (o@[k].0@, o@[k].1@));
            }
            let mut out = String::new();
            let mut i: usize = 0;
            while i < o.len()
                invariant
                    *value == Value::Object(*o),
                    0 <= i <= o@.len(),
                    parts == json_element_texts(value@),
                    parts.len() == o@.len(),
                    forall|k: int|
                        0 <= k < o@.len() ==> #[trigger] parts[k] == match (json_quoted(o@[k].0@), value_json(o@[k].1@)) {
                            (Some(kk), Some(x)) => Some(kk + ":"@ + x),
                            _ => None,
                        },
                    all_present(parts.subrange(0, i as int)) matches Some(done) && out@ == join(done, ","@),
                decreases o@.len() - i,
            {
                proof {
                    vstd::std_specs::vec::axiom_vec_index_decreases(*o, i as int);
                    assert(value->Object_0 == *o);
                    assert(parts.subrange(0, i + 1) =~= parts.subrange(0, i as int).push(parts[i as int]));
                    lemma_present_push(parts.subrange(0, i as int), parts[i as int]);
                    lemma_present_len(parts.subrange(0, i as int));
                }
                let key = quote_json(o[i].0.as_str());
                let val = value_to_json(&o[i].1);
                match (key, val) {
                    (Some(k), Some(t)) => {
                        let mut e = k;
                        e.append(":");
                        e.append(t.as_str());
                        proof {
                            let done = all_present(parts.subrange(0, i as int))->Some_0;
                            lemma_join_push(done, ","@, e@);
                        }
                        if i > 0 {
                            out.append(",");
                        }
                        out.append(e.as_str());
                    },
                    _ => {
                        proof {
                            lemma_present_none(parts, i as int);
                        }
                        return None;
                    },
                }
                i = i + 1;
            }
            let mut r = String::from_str("{");
            r.append(out.as_str());
            r.append("}");
            proof {
                assert(parts.subrange(0, o@.len() as int) =~= parts);
            }
            Some(r)
        },
        _ => {
            let t = value_to_string(value);
            proof {
                assert(!(value@ is Str) && !(value@ is Array) && !(value@ is Object));
            }
            Some(t)
        },
    }
}

proof fn lemma_present_len(parts: Seq<Option<Seq<char>>>)
    ensures
        all_present(parts) matches Some(a) ==> a.len() == parts.len(),
    decreases parts.len(),
{
    if parts.len() > 0 {
        lemma_present_len(parts.drop_last());
    }
}

proof fn lemma_present_none(parts: Seq<Option<Seq<char>>>, i: int)
    requires
        0 <= i < parts.len(),
        parts[i] is None,
    ensures
        all_present(parts) is None,
    decreases parts.len(),
{
    if i < parts.len() - 1 {
        lemma_present_none(parts.drop_last(), i);
    }
}

} // verus!
