//! Compiling a JSON value into the literal expression that denotes it.

use vstd::prelude::*;
use crate::ast::{
    expr_views, lemma_array_lit_view, lemma_object_lit_view, prop_views, Expr, ExprView,
    KeyValueProp,
};
use crate::json::{
    json_views, lemma_array_view, lemma_object_view, member_views, JsonMember, JsonValue,
    JsonValueView,
};

verus! {

/// The literal expression for a JSON value.
///
/// Scalars become the literal of their kind; an array becomes an array
/// literal of its compiled items, in their order; an object becomes an
/// object literal with one string-keyed property for each member, in the
/// order in which the value holds its members.
pub open spec fn compiled(value: JsonValueView) -> ExprView
    decreases value,
{
    match value {
        JsonValueView::Null => ExprView::Null,
        JsonValueView::Bool(b) => ExprView::Bool(b),
        JsonValueView::Number(n) => ExprView::Num(n),
        JsonValueView::String(s) => ExprView::Str(s),
        JsonValueView::Array(items) => ExprView::Array(
            Seq::new(
                items.len(),
                |i: int|
                    if 0 <= i < items.len() {
                        compiled(items[i])
                    } else {
                        ExprView::Null
                    },
            ),
        ),
        JsonValueView::Object(members) => ExprView::Object(
            Seq::new(
                members.len(),
                |i: int|
                    if 0 <= i < members.len() {
                        (members[i].0, compiled(members[i].1))
                    } else {
                        (Seq::empty(), ExprView::Null)
                    },
            ),
        ),
    }
}

/// The JSON value that a literal expression denotes.
pub open spec fn literal_value(expr: ExprView) -> JsonValueView
    decreases expr,
{
    match expr {
        ExprView::Null => JsonValueView::Null,
        ExprView::Bool(b) => JsonValueView::Bool(b),
        ExprView::Num(n) => JsonValueView::Number(n),
        ExprView::Str(s) => JsonValueView::String(s),
        ExprView::Array(elems) => JsonValueView::Array(
            Seq::new(
                elems.len(),
                |i: int|
                    if 0 <= i < elems.len() {
                        literal_value(elems[i])
                    } else {
                        JsonValueView::Null
                    },
            ),
        ),
        ExprView::Object(props) => JsonValueView::Object(
            Seq::new(
                props.len(),
                |i: int|
                    if 0 <= i < props.len() {
                        (props[i].0, literal_value(props[i].1))
                    } else {
                        (Seq::empty(), JsonValueView::Null)
                    },
            ),
        ),
    }
}

/// Compiling loses nothing: the literal that a value compiles to denotes
/// that value again, kind by kind, item by item and member by member, in
/// the same order.
pub proof fn lemma_compiled_round_trip(value: JsonValueView)
    ensures
        literal_value(compiled(value)) == value,
    decreases value,
{
    match value {
        JsonValueView::Array(items) => {
            let back = literal_value(compiled(value));
            assert(back is Array);
            assert(back->Array_0.len() == items.len());
            assert forall|i: int| 0 <= i < items.len() implies back->Array_0[i] == items[i] by {
                assert(compiled(value)->Array_0[i] == compiled(items[i]));
                lemma_compiled_round_trip(items[i]);
            }
            assert(back->Array_0 =~= items);
        },
        JsonValueView::Object(members) => {
            let back = literal_value(compiled(value));
            assert(back is Object);
            assert(back->Object_0.len() == members.len());
            assert forall|i: int| 0 <= i < members.len() implies back->Object_0[i]
                == members[i] by {
                assert(compiled(value)->Object_0[i] == (members[i].0, compiled(members[i].1)));
                lemma_compiled_round_trip(members[i].1);
            }
            assert(back->Object_0 =~= members);
        },
        _ => {},
    }
}

/// Create the literal expression for a JSON value.
#[verifier::loop_isolation(false)]
pub fn json_to_es_ast(input: &JsonValue) -> (expr: Box<Expr>)
    ensures
        (*expr)@ == compiled(input@),
    decreases input,
{
    let expr = match input {
        JsonValue::Array(value) => {
            let mut elems: Vec<Expr> = Vec::new();
            let mut i: usize = 0;
            while i < value.len()
                invariant
                    i <= value.len(),
                    elems.len() == i,
                    forall|k: int| 0 <= k < i ==> elems[k]@ == compiled(value[k]@),
                decreases value.len() - i,
            {
                let elem = json_to_es_ast(&value[i]);
                elems.push(*elem);
                i += 1;
            }
            proof {
                lemma_array_lit_view(elems);
                lemma_array_view(*value);
                assert(expr_views(elems@) =~= compiled(input@)->Array_0);
            }
            Expr::Array(elems)
        },
        JsonValue::Bool(value) => Expr::Bool(*value),
        JsonValue::Null => Expr::Null,
        JsonValue::Number(value) => Expr::Num(*value),
        JsonValue::Object(value) => {
            let mut props: Vec<KeyValueProp> = Vec::new();
            let mut i: usize = 0;
            while i < value.len()
                invariant
                    i <= value.len(),
                    props.len() == i,
                    forall|k: int|
                        0 <= k < i ==> props[k]@ == (value[k].key@, compiled(value[k].value@)),
                decreases value.len() - i,
            {
                let member = &value[i];
                let compiled_value = json_to_es_ast(&member.value);
                props.push(KeyValueProp { key: member.key.clone(), value: *compiled_value });
                i += 1;
            }
            proof {
                lemma_object_lit_view(props);
                lemma_object_view(*value);
                assert(prop_views(props@) =~= compiled(input@)->Object_0);
            }
            Expr::Object(props)
        },
        JsonValue::String(value) => Expr::Str(value.clone()),
    };
    Box::new(expr)
}

/// Reads a literal expression back as the JSON value that it denotes.
#[verifier::loop_isolation(false)]
pub fn literal_to_json(expr: &Expr) -> (value: JsonValue)
    ensures
        value@ == literal_value(expr@),
    decreases expr,
{
    match expr {
        Expr::Null => JsonValue::Null,
        Expr::Bool(value) => JsonValue::Bool(*value),
        Expr::Num(value) => JsonValue::Number(*value),
        Expr::Str(value) => JsonValue::String(value.clone()),
        Expr::Array(elems) => {
            let mut items: Vec<JsonValue> = Vec::new();
            let mut i: usize = 0;
            while i < elems.len()
                invariant
                    i <= elems.len(),
                    items.len() == i,
                    forall|k: int| 0 <= k < i ==> items[k]@ == literal_value(elems[k]@),
                decreases elems.len() - i,
            {
                items.push(literal_to_json(&elems[i]));
                i += 1;
            }
            proof {
                lemma_array_view(items);
                lemma_array_lit_view(*elems);
                assert(json_views(items@) =~= literal_value(expr@)->Array_0);
            }
            JsonValue::Array(items)
        },
        Expr::Object(props) => {
            let mut members: Vec<JsonMember> = Vec::new();
            let mut i: usize = 0;
            while i < props.len()
                invariant
                    i <= props.len(),
                    members.len() == i,
                    forall|k: int|
                        0 <= k < i ==> members[k]@ == (
                            props[k].key@,
                            literal_value(props[k].value@),
                        ),
                decreases props.len() - i,
            {
                let prop = &props[i];
                members.push(
                    JsonMember { key: prop.key.clone(), value: literal_to_json(&prop.value) },
                );
                i += 1;
            }
            proof {
                lemma_object_view(members);
                lemma_object_lit_view(*props);
                assert(member_views(members@) =~= literal_value(expr@)->Object_0);
            }
            JsonValue::Object(members)
        },
    }
}

} // verus!
