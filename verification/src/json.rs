//! JSON values, as the configuration carries them.

use vstd::prelude::*;

verus! {

/// A JSON value, as a closed sum of its six kinds.
#[derive(Debug, PartialEq, Eq)]
pub enum JsonValue {
    Null,
    Bool(bool),
    /// A number, held as the bit pattern of its IEEE-754 binary64 value.
    Number(u64),
    String(String),
    Array(Vec<JsonValue>),
    /// The members of an object, in the order in which the value holds them.
    Object(Vec<JsonMember>),
}

/// One member of a JSON object.
#[derive(Debug, PartialEq, Eq)]
pub struct JsonMember {
    pub key: String,
    pub value: JsonValue,
}

/// The mathematical content of a [`JsonValue`].
#[verifier::ext_equal]
pub enum JsonValueView {
    Null,
    Bool(bool),
    Number(u64),
    String(Seq<char>),
    Array(Seq<JsonValueView>),
    Object(Seq<(Seq<char>, JsonValueView)>),
}

/// The content of a value.
pub open spec fn json_view(value: JsonValue) -> JsonValueView
    decreases value,
{
    match value {
        JsonValue::Null => JsonValueView::Null,
        JsonValue::Bool(b) => JsonValueView::Bool(b),
        JsonValue::Number(n) => JsonValueView::Number(n),
        JsonValue::String(s) => JsonValueView::String(s@),
        JsonValue::Array(items) => JsonValueView::Array(
            Seq::new(
                items.len() as nat,
                |i: int|
                    if 0 <= i < items.len() {
                        json_view(items[i])
                    } else {
                        JsonValueView::Null
                    },
            ),
        ),
        JsonValue::Object(members) => JsonValueView::Object(
            Seq::new(
                members.len() as nat,
                |i: int|
                    if 0 <= i < members.len() {
                        (members[i].key@, json_view(members[i].value))
                    } else {
                        (Seq::empty(), JsonValueView::Null)
                    },
            ),
        ),
    }
}

impl View for JsonValue {
    type V = JsonValueView;

    open spec fn view(&self) -> JsonValueView {
        json_view(*self)
    }
}

impl View for JsonMember {
    type V = (Seq<char>, JsonValueView);

    open spec fn view(&self) -> (Seq<char>, JsonValueView) {
        (self.key@, self.value@)
    }
}

/// The contents of a list of values.
pub open spec fn json_views(items: Seq<JsonValue>) -> Seq<JsonValueView> {
    Seq::new(items.len(), |i: int| items[i]@)
}

/// The contents of a list of members.
pub open spec fn member_views(members: Seq<JsonMember>) -> Seq<(Seq<char>, JsonValueView)> {
    Seq::new(members.len(), |i: int| members[i]@)
}

/// An array holds the contents of its items, in their order.
pub proof fn lemma_array_view(items: Vec<JsonValue>)
    ensures
        JsonValue::Array(items)@ == JsonValueView::Array(json_views(items@)),
{
    let v = JsonValue::Array(items)@;
    assert(v is Array);
    assert(v->Array_0.len() == items.len());
    assert forall|k: int| 0 <= k < items.len() implies v->Array_0[k] == json_views(items@)[k] by {
        assert(v->Array_0[k] == items[k]@);
    }
    assert(v->Array_0 =~= json_views(items@));
}

/// An object holds the contents of its members, in their order.
pub proof fn lemma_object_view(members: Vec<JsonMember>)
    ensures
        JsonValue::Object(members)@ == JsonValueView::Object(member_views(members@)),
{
    let v = JsonValue::Object(members)@;
    assert(v is Object);
    assert(v->Object_0.len() == members.len());
    assert forall|k: int| 0 <= k < members.len() implies v->Object_0[k] == member_views(
        members@,
    )[k] by {
        assert(v->Object_0[k] == (members[k].key@, members[k].value@));
    }
    assert(v->Object_0 =~= member_views(members@));
}

impl JsonValue {
    /// A copy of the whole value.
    #[verifier::loop_isolation(false)]
    pub fn deep_clone(&self) -> (out: JsonValue)
        ensures
            out@ == self@,
        decreases self,
    {
        match self {
            JsonValue::Null => JsonValue::Null,
            JsonValue::Bool(b) => JsonValue::Bool(*b),
            JsonValue::Number(n) => JsonValue::Number(*n),
            JsonValue::String(s) => JsonValue::String(s.clone()),
            JsonValue::Array(items) => {
                let mut out: Vec<JsonValue> = Vec::new();
                let mut i: usize = 0;
                while i < items.len()
                    invariant
                        i <= items.len(),
                        out.len() == i,
                        forall|k: int| 0 <= k < i ==> out[k]@ == items[k]@,
                    decreases items.len() - i,
                {
                    out.push(items[i].deep_clone());
                    i += 1;
                }
                proof {
                    lemma_array_view(out);
                    lemma_array_view(*items);
                    assert(json_views(out@) =~= json_views(items@));
                }
                JsonValue::Array(out)
            },
            JsonValue::Object(members) => {
                let mut out: Vec<JsonMember> = Vec::new();
                let mut i: usize = 0;
                while i < members.len()
                    invariant
                        i <= members.len(),
                        out.len() == i,
                        forall|k: int| 0 <= k < i ==> out[k]@ == members[k]@,
                    decreases members.len() - i,
                {
                    out.push(
                        JsonMember { key: members[i].key.clone(), value: members[i].value.deep_clone() },
                    );
                    i += 1;
                }
                proof {
                    lemma_object_view(out);
                    lemma_object_view(*members);
                    assert(member_views(out@) =~= member_views(members@));
                }
                JsonValue::Object(out)
            },
        }
    }
}

} // verus!
