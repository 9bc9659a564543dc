//! The canonical value: what flows into statements as parameters and out of
//! them as table cells.

use vstd::prelude::*;

verus! {

/// A double-precision number, held by its IEEE-754 bit pattern and by the
/// decimal text that it is shown as. Whoever makes one supplies both.
#[derive(Clone, Debug, PartialEq)]
pub struct Number {
    pub bits: u64,
    pub text: String,
}

/// What a [`Number`] stands for in contracts.
pub struct NumberView {
    pub bits: u64,
    pub text: Seq<char>,
}

impl View for Number {
    type V = NumberView;

    open spec fn view(&self) -> NumberView {
        NumberView { bits: self.bits, text: self.text@ }
    }
}

/// A canonical value.
#[derive(Debug, PartialEq)]
pub enum Value {
    Unit,
    Boolean(bool),
    Integer(i64),
    Number(Number),
    String(String),
    Array(Vec<Value>),
    /// A mapping from names to values (`keys[i]` names `values[i]`; the first
    /// entry of a name counts), with the JSON text of the whole mapping, which
    /// is empty where the mapping has not been serialized.
    Object { keys: Vec<String>, values: Vec<Value>, json: String },
    Tensor(Vec<Number>),
    /// A message, an error or an image, held by its JSON text.
    Opaque(String),
}

/// What a [`Value`] stands for in contracts.
pub enum ValueView {
    Unit,
    Boolean(bool),
    Integer(i64),
    Number(NumberView),
    String(Seq<char>),
    Array(Seq<ValueView>),
    Object { keys: Seq<Seq<char>>, values: Seq<ValueView>, json: Seq<char> },
    Tensor(Seq<NumberView>),
    Opaque(Seq<char>),
}

/// The views of a sequence of strings.
pub open spec fn texts(items: Seq<String>) -> Seq<Seq<char>> {
    Seq::new(items.len(), |i: int| items[i]@)
}

/// The views of a sequence of numbers.
pub open spec fn numbers(items: Seq<Number>) -> Seq<NumberView> {
    Seq::new(items.len(), |i: int| items[i]@)
}

/// The view of a value: strings and lists become sequences, item by item.
pub open spec fn value_view(v: Value) -> ValueView
    decreases v,
    via value_view_decreases
{
    match v {
        Value::Unit => ValueView::Unit,
        Value::Boolean(b) => ValueView::Boolean(b),
        Value::Integer(i) => ValueView::Integer(i),
        Value::Number(n) => ValueView::Number(n@),
        Value::String(s) => ValueView::String(s@),
        Value::Array(items) => ValueView::Array(
            Seq::new(
                items@.len(),
                |i: int|
                    if 0 <= i < items@.len() {
                        value_view(items@[i])
                    } else {
                        ValueView::Unit
                    },
            ),
        ),
        Value::Object { keys, values, json } => ValueView::Object {
            keys: texts(keys@),
            values: Seq::new(
                values@.len(),
                |i: int|
                    if 0 <= i < values@.len() {
                        value_view(values@[i])
                    } else {
                        ValueView::Unit
                    },
            ),
            json: json@,
        },
        Value::Tensor(items) => ValueView::Tensor(numbers(items@)),
        Value::Opaque(json) => ValueView::Opaque(json@),
    }
}

#[via_fn]
proof fn value_view_decreases(v: Value) {
    broadcast use vstd::std_specs::vec::axiom_vec_index_decreases;

}

impl View for Value {
    type V = ValueView;

    open spec fn view(&self) -> ValueView {
        value_view(*self)
    }
}

/// The views of a sequence of values.
pub open spec fn views(items: Seq<Value>) -> Seq<ValueView> {
    Seq::new(items.len(), |i: int| items[i]@)
}

/// The views of a sequence of rows.
pub open spec fn row_views(rows: Seq<Vec<Value>>) -> Seq<Seq<ValueView>> {
    Seq::new(rows.len(), |i: int| views(rows[i]@))
}

/// An array's view is the sequence of its items' views.
pub proof fn lemma_array_view(items: Vec<Value>)
    ensures
        Value::Array(items)@ == ValueView::Array(views(items@)),
{
    assert(Value::Array(items)@->Array_0 =~= views(items@));
}

/// An object's view holds the views of its keys and of its values.
pub proof fn lemma_object_view(keys: Vec<String>, values: Vec<Value>, json: String)
    ensures
        (Value::Object { keys, values, json })@ == (ValueView::Object {
            keys: texts(keys@),
            values: views(values@),
            json: json@,
        }),
{
    assert((Value::Object { keys, values, json })@->Object_values =~= views(values@));
}

/// A copy of a number.
pub fn copy_number(n: &Number) -> (out: Number)
    ensures
        out@ == n@,
{
    Number { bits: n.bits, text: n.text.clone() }
}

/// A copy of a list of strings.
pub fn copy_texts(items: &Vec<String>) -> (out: Vec<String>)
    ensures
        texts(out@) == texts(items@),
{
    let mut out: Vec<String> = Vec::new();
    let mut i: usize = 0;
    while i < items.len()
        invariant
            i <= items.len(),
            out@.len() == i,
            forall|k: int| 0 <= k < i ==> out@[k]@ == items@[k]@,
        decreases items.len() - i,
    {
        out.push(items[i].clone());
        i += 1;
    }
    assert(texts(out@) =~= texts(items@));
    out
}

/// A copy of a list of numbers.
pub fn copy_numbers(items: &Vec<Number>) -> (out: Vec<Number>)
    ensures
        numbers(out@) == numbers(items@),
{
    let mut out: Vec<Number> = Vec::new();
    let mut i: usize = 0;
    while i < items.len()
        invariant
            i <= items.len(),
            out@.len() == i,
            forall|k: int| 0 <= k < i ==> out@[k]@ == items@[k]@,
        decreases items.len() - i,
    {
        out.push(copy_number(&items[i]));
        i += 1;
    }
    assert(numbers(out@) =~= numbers(items@));
    out
}

/// A copy of a list of values.
pub fn copy_values(items: &Vec<Value>) -> (out: Vec<Value>)
    ensures
        views(out@) == views(items@),
    decreases items,
{
    let mut out: Vec<Value> = Vec::new();
    let mut i: usize = 0;
    while i < items.len()
        invariant
            i <= items.len(),
            out@.len() == i,
            forall|k: int| 0 <= k < i ==> out@[k]@ == items@[k]@,
        decreases items.len() - i,
    {
        proof {
            broadcast use vstd::std_specs::vec::axiom_vec_index_decreases;

        }
        out.push(copy_value(&items[i]));
        i += 1;
    }
    assert(views(out@) =~= views(items@));
    out
}

/// A copy of a value.
pub fn copy_value(v: &Value) -> (out: Value)
    ensures
        out@ == v@,
    decreases v,
{
    match v {
        Value::Unit => Value::Unit,
        Value::Boolean(b) => Value::Boolean(*b),
        Value::Integer(i) => Value::Integer(*i),
        Value::Number(n) => Value::Number(copy_number(n)),
        Value::String(s) => Value::String(s.clone()),
        Value::Array(items) => {
            let copy = copy_values(items);
            proof {
                lemma_array_view(copy);
                lemma_array_view(*items);
            }
            Value::Array(copy)
        },
        Value::Object { keys, values, json } => {
            let out = Value::Object {
                keys: copy_texts(keys),
                values: copy_values(values),
                json: json.clone(),
            };
            assert(out@->Object_values =~= views(out->Object_values@));
            assert(v@->Object_values =~= views(values@));
            out
        },
        Value::Tensor(items) => Value::Tensor(copy_numbers(items)),
        Value::Opaque(json) => Value::Opaque(json.clone()),
    }
}

} // verus!
