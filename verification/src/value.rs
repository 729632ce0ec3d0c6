//! The JSON value and its mathematical view.

use vstd::prelude::*;

verus! {

/// A JSON number as `serde_json` holds it: an integer or a finite float.
/// Nothing here looks inside one; it is carried through untouched.
#[verifier::external_type_specification]
#[verifier::external_body]
pub struct ExNumber(serde_json::Number);

/// `Clone::clone` of `serde_json::Number`. The type derives `Clone` over a
/// representation that is `Copy`, so the clone is the number it was made
/// from.
pub assume_specification[ <serde_json::Number as Clone>::clone ](n: &serde_json::Number) -> (out:
    serde_json::Number)
    ensures
        out == *n,
;

/// A JSON document. An object keeps its members in document order.
#[derive(Debug, PartialEq, Eq)]
pub enum Json {
    Null,
    Bool(bool),
    Number(serde_json::Number),
    String(String),
    Array(Vec<Json>),
    Object(Vec<(String, Json)>),
}

/// The mathematical value of a [`Json`] tree.
pub enum JsonView {
    Null,
    Bool(bool),
    Number(serde_json::Number),
    String(Seq<char>),
    Array(Seq<JsonView>),
    Object(Seq<(Seq<char>, JsonView)>),
}

/// The views of the elements of an array, in order.
pub open spec fn array_view(items: Seq<Json>) -> Seq<JsonView>
    decreases items,
{
    Seq::new(
        items.len(),
        |i: int|
            if 0 <= i < items.len() {
                items[i].view()
            } else {
                JsonView::Null
            },
    )
}

/// The views of the members of an object, in order.
pub open spec fn object_view(entries: Seq<(String, Json)>) -> Seq<(Seq<char>, JsonView)>
    decreases entries,
{
    Seq::new(
        entries.len(),
        |i: int|
            if 0 <= i < entries.len() {
                (entries[i].0@, entries[i].1.view())
            } else {
                (Seq::empty(), JsonView::Null)
            },
    )
}

impl View for Json {
    type V = JsonView;

    open spec fn view(&self) -> JsonView
        decreases self,
    {
        match self {
            Json::Null => JsonView::Null,
            Json::Bool(b) => JsonView::Bool(*b),
            Json::Number(n) => JsonView::Number(*n),
            Json::String(s) => JsonView::String(s@),
            Json::Array(items) => JsonView::Array(array_view(items@)),
            Json::Object(entries) => JsonView::Object(object_view(entries@)),
        }
    }
}

impl Clone for Json {
    /// A deep copy: a separate tree with the same view.
    fn clone(&self) -> (out: Json)
        ensures
            out@ == self@,
        decreases self,
    {
        match self {
            Json::Null => Json::Null,
            Json::Bool(b) => Json::Bool(*b),
            Json::Number(n) => Json::Number(n.clone()),
            Json::String(s) => Json::String(s.clone()),
            Json::Array(items) => {
                let mut copy: Vec<Json> = Vec::new();
                let n = items.len();
                let mut i: usize = 0;
                while i < n
                    invariant
                        n == items.len(),
                        *self == Json::Array(*items),
                        i <= n,
                        copy.len() == i,
                        forall|k: int| 0 <= k < i ==> (#[trigger] copy@[k])@ == items@[k]@,
                    decreases n - i,
                {
                    assert(decreases_to!(*self => self->Array_0));
                    copy.push(items[i].clone());
                    i += 1;
                }
                assert(array_view(copy@) =~= array_view(items@));
                Json::Array(copy)
            },
            Json::Object(entries) => {
                let mut copy: Vec<(String, Json)> = Vec::new();
                let n = entries.len();
                let mut i: usize = 0;
                while i < n
                    invariant
                        n == entries.len(),
                        *self == Json::Object(*entries),
                        i <= n,
                        copy.len() == i,
                        forall|k: int|
                            0 <= k < i ==> (#[trigger] copy@[k]).0@ == entries@[k].0@ && copy@[k].1@
                                == entries@[k].1@,
                    decreases n - i,
                {
                    assert(decreases_to!(*self => self->Object_0));
                    copy.push((entries[i].0.clone(), entries[i].1.clone()));
                    i += 1;
                }
                assert(object_view(copy@) =~= object_view(entries@));
                Json::Object(copy)
            },
        }
    }
}

impl Json {
    /// Whether this value is the null literal.
    pub fn is_null(&self) -> (b: bool)
        ensures
            b == (self@ is Null),
    {
        match self {
            Json::Null => true,
            _ => false,
        }
    }
}

} // verus!
