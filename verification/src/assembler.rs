//! The rebuilding strategy: a fresh tree that holds only what is not null.

use vstd::prelude::*;
use crate::model::{
    assembled_entries, assembled_items, entries_height, items_height, lemma_assembled_entries_push,
    lemma_assembled_items_push, lemma_entries_height_bound, lemma_items_height_bound,
};
use crate::laws::{
    law_assembled_is_null_free, law_keys_stay_unique, law_null_free_is_unchanged, law_strategies_agree,
};
use crate::value::{array_view, object_view, Json, JsonView};

verus! {

/// The view of a value that may be absent.
pub open spec fn option_view(value: Option<Json>) -> Option<JsonView> {
    match value {
        Some(v) => Some(v@),
        None => None,
    }
}

/// Builds the document without its null entries. A null document has no
/// such form and gives `None`; every other document is present, a container
/// staying a container even when nothing in it is.
///
/// The walk recurses once per nesting level of the document.
pub fn get_without_null_values(json_data: Json) -> (out: Option<Json>)
    ensures
        option_view(out) == json_data@.assembled(),
        out is None <==> json_data@ is Null,
        out is Some ==> out.unwrap()@ == json_data@.pruned() && out.unwrap()@.null_free(),
        json_data@.null_free() ==> option_view(out) == Some(json_data@),
        out is Some && json_data@.keys_unique() ==> out.unwrap()@.keys_unique(),
    decreases json_data@.height(), 0nat,
{
    proof {
        let v = json_data@;
        law_strategies_agree(v);
        law_assembled_is_null_free(v);
        if v.null_free() {
            law_null_free_is_unchanged(v);
        }
        if v.keys_unique() {
            law_keys_stay_unique(v);
        }
    }
    match json_data {
        Json::Object(object) => get_obj_without_null_values(object),
        Json::Array(array) => get_arr_without_null_values(array),
        Json::Null => None,
        val => Some(val),
    }
}

/// Builds the object that keeps, in order, the members whose rebuilt value
/// is present.
fn get_obj_without_null_values(object: Vec<(String, Json)>) -> (out: Option<Json>)
    ensures
        option_view(out) == Some(JsonView::Object(assembled_entries(object_view(object@)))),
    decreases entries_height(object_view(object@)), 1nat,
{
    let ghost src = object@;
    let mut cleaned_obj: Vec<(String, Json)> = Vec::new();
    for entry in it: object.into_iter()
        invariant
            it.seq() == src,
            object_view(cleaned_obj@) == assembled_entries(object_view(src.take(it.index() as int))),
    {
        let ghost k = it.index() as int;
        let ghost before = cleaned_obj@;
        proof {
            lemma_entries_height_bound(object_view(src), k);
            lemma_assembled_entries_push(object_view(src.take(k)), object_view(src)[k]);
            assert(object_view(src.take(k + 1)) =~= object_view(src.take(k)).push(object_view(src)[k]));
        }
        let (key, value) = entry;
        match get_without_null_values(value) {
            Some(v) => {
                cleaned_obj.push((key, v));
                assert(object_view(cleaned_obj@) =~= object_view(before).push((key@, v@)));
            },
            None => {},
        }
    }
    assert(src.take(src.len() as int) =~= src);
    Some(Json::Object(cleaned_obj))
}

/// Builds the array that keeps, in order, the elements whose rebuilt form
/// is present.
fn get_arr_without_null_values(array: Vec<Json>) -> (out: Option<Json>)
    ensures
        option_view(out) == Some(JsonView::Array(assembled_items(array_view(array@)))),
    decreases items_height(array_view(array@)), 1nat,
{
    let ghost src = array@;
    let mut cleaned_arr: Vec<Json> = Vec::new();
    for value in it: array.into_iter()
        invariant
            it.seq() == src,
            array_view(cleaned_arr@) == assembled_items(array_view(src.take(it.index() as int))),
    {
        let ghost k = it.index() as int;
        let ghost before = cleaned_arr@;
        proof {
            lemma_items_height_bound(array_view(src), k);
            lemma_assembled_items_push(array_view(src.take(k)), array_view(src)[k]);
            assert(array_view(src.take(k + 1)) =~= array_view(src.take(k)).push(array_view(src)[k]));
        }
        match get_without_null_values(value) {
            Some(v) => {
                cleaned_arr.push(v);
                assert(array_view(cleaned_arr@) =~= array_view(before).push(v@));
            },
            None => {},
        }
    }
    assert(src.take(src.len() as int) =~= src);
    Some(Json::Array(cleaned_arr))
}

} // verus!
