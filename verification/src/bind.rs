//! Statement parameters and how a canonical value becomes them.

use vstd::prelude::*;
use crate::value::{copy_number, copy_value, Number, NumberView, Value, ValueView};

verus! {

/// One positional parameter of a statement.
#[derive(Debug, PartialEq)]
pub enum Param {
    /// A null of the 64-bit integer type.
    Null,
    Boolean(bool),
    Integer(i64),
    Double(Number),
    Text(String),
    /// A value that is bound as its JSON text.
    Json(Value),
}

/// What a [`Param`] stands for in contracts.
pub enum ParamView {
    Null,
    Boolean(bool),
    Integer(i64),
    Double(NumberView),
    Text(Seq<char>),
    Json(ValueView),
}

impl View for Param {
    type V = ParamView;

    open spec fn view(&self) -> ParamView {
        match self {
            Param::Null => ParamView::Null,
            Param::Boolean(b) => ParamView::Boolean(*b),
            Param::Integer(i) => ParamView::Integer(*i),
            Param::Double(n) => ParamView::Double(n@),
            Param::Text(s) => ParamView::Text(s@),
            Param::Json(v) => ParamView::Json(v@),
        }
    }
}

/// The views of a parameter list.
pub open spec fn param_views(params: Seq<Param>) -> Seq<ParamView> {
    Seq::new(params.len(), |i: int| params[i]@)
}

/// The parameter that one value is bound as: scalars by their own type,
/// every composite or opaque value as JSON.
pub open spec fn param_of(v: ValueView) -> ParamView {
    match v {
        ValueView::Unit => ParamView::Null,
        ValueView::Boolean(b) => ParamView::Boolean(b),
        ValueView::Integer(i) => ParamView::Integer(i),
        ValueView::Number(n) => ParamView::Double(n),
        ValueView::String(s) => ParamView::Text(s),
        _ => ParamView::Json(v),
    }
}

/// The parameters of a statement for an input value: one for each item of an
/// array, in order; one for any other value.
pub open spec fn params_of(v: ValueView) -> Seq<ParamView> {
    match v {
        ValueView::Array(items) => Seq::new(items.len(), |i: int| param_of(items[i])),
        _ => seq![param_of(v)],
    }
}

/// Binds one value as the next positional parameter.
pub fn add_agent_value_param(args: &mut Vec<Param>, value: &Value)
    ensures
        param_views(final(args)@) == param_views(old(args)@).push(param_of(value@)),
{
    let param = match value {
        Value::Unit => Param::Null,
        Value::Boolean(b) => Param::Boolean(*b),
        Value::Integer(i) => Param::Integer(*i),
        Value::Number(n) => Param::Double(copy_number(n)),
        Value::String(s) => Param::Text(s.clone()),
        Value::Array(_) | Value::Object { .. } | Value::Tensor(_) | Value::Opaque(_) => Param::Json(
            copy_value(value),
        ),
    };
    assert(param@ == param_of(value@));
    args.push(param);
    assert(param_views(final(args)@) =~= param_views(old(args)@).push(param_of(value@)));
}

/// The positional parameters for an input value. A top-level array gives one
/// parameter for each item, in order; any other value gives one parameter.
pub fn build_sqlx_params(value: &Value) -> (args: Vec<Param>)
    ensures
        param_views(args@) == params_of(value@),
        value@ is Array ==> args@.len() == value@->Array_0.len(),
        !(value@ is Array) ==> args@.len() == 1,
{
    let mut args: Vec<Param> = Vec::new();
    match value {
        Value::Array(items) => {
            let mut i: usize = 0;
            while i < items.len()
                invariant
                    i <= items.len(),
                    args@.len() == i,
                    forall|k: int| 0 <= k < i ==> args@[k]@ == param_of(items@[k]@),
                decreases items.len() - i,
            {
                let ghost before = args@;
                add_agent_value_param(&mut args, &items[i]);
                proof {
                    let after = param_views(before).push(param_of(items@[i as int]@));
                    assert(param_views(args@).len() == after.len());
                    assert(args@.len() == i + 1);
                    assert forall|k: int| 0 <= k < i + 1 implies args@[k]@ == param_of(
                        items@[k]@,
                    ) by {
                        assert(param_views(args@)[k] == after[k]);
                        if k < i {
                            assert(after[k] == param_views(before)[k]);
                        }
                    }
                }
                i += 1;
            }
            proof {
                crate::value::lemma_array_view(*items);
                assert(param_views(args@) =~= params_of(value@));
            }
        },
        _ => {
            add_agent_value_param(&mut args, value);
            assert(param_views(args@) =~= params_of(value@));
        },
    }
    args
}

} // verus!
