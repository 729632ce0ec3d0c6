//! The in-place strategy: null entries are deleted from the tree itself.

use core::convert::Infallible;
use vstd::prelude::*;
use crate::laws::{law_keys_stay_unique, law_null_free_is_unchanged, law_pruned_is_null_free};
use crate::model::{
    entries_height, items_height, kept_entries, kept_items, lemma_kept_entries_push,
    lemma_kept_items_push, lemma_pruned_entries_by_kept, lemma_pruned_items_by_kept,
    pruned_entries, pruned_items,
};
use crate::value::{array_view, object_view, Json};

verus! {

/// Deletes every null entry of the document, at every depth, in place.
/// Containers keep their variant and the survivors their order; a scalar,
/// and a bare null at the root, is left as it is.
///
/// Every node is handled by matching on its variant, so no node can have a
/// shape its handler does not expect: the walk cannot fail, and the error
/// type says so.
///
/// The walk recurses once per nesting level of the document.
pub fn remove_null_values(json_data: &mut Json) -> (out: Result<(), Infallible>)
    ensures
        out is Ok,
        final(json_data)@ == old(json_data)@.pruned(),
        !(old(json_data)@ is Null) ==> final(json_data)@.null_free(),
        old(json_data)@.null_free() ==> final(json_data)@ == old(json_data)@,
        old(json_data)@.keys_unique() ==> final(json_data)@.keys_unique(),
{
    proof {
        let v = json_data@;
        if !(v is Null) {
            law_pruned_is_null_free(v);
        }
        if v.null_free() {
            law_null_free_is_unchanged(v);
        }
        if v.keys_unique() {
            law_keys_stay_unique(v);
        }
    }
    process_value(json_data)
}

/// Prunes one value: a container by its own rule, anything else not at all.
fn process_value(json_data: &mut Json) -> (out: Result<(), Infallible>)
    ensures
        out is Ok,
        final(json_data)@ == old(json_data)@.pruned(),
    decreases old(json_data)@.height(), 0nat,
{
    match json_data {
        Json::Object(object) => remove_null_values_from_object(object),
        Json::Array(array) => remove_null_values_from_array(array),
        _ => Ok(()),
    }
}

/// Deletes the members whose value is null, keeping the others in order.
fn retain_present_entries(object: &mut Vec<(String, Json)>)
    ensures
        object_view(final(object)@) == kept_entries(object_view(old(object)@)),
{
    let n = object.len();
    let mut kept: usize = 0;
    let mut next: usize = 0;
    while next < n
        invariant
            object.len() == n,
            n == old(object).len(),
            kept <= next <= n,
            object_view(object@.take(kept as int)) == kept_entries(
                object_view(old(object)@.take(next as int)),
            ),
            forall|k: int| next <= k < n ==> object@[k] == old(object)@[k],
        decreases n - next,
    {
        let ghost before = object@;
        proof {
            let entry = old(object)@[next as int];
            lemma_kept_entries_push(object_view(old(object)@.take(next as int)), (entry.0@, entry.1@));
            assert(object_view(old(object)@.take(next + 1)) =~= object_view(
                old(object)@.take(next as int),
            ).push((entry.0@, entry.1@)));
        }
        if !object[next].1.is_null() {
            let mut slot = (String::new(), Json::Null);
            core::mem::swap(&mut object[next], &mut slot);
            core::mem::swap(&mut object[kept], &mut slot);
            assert(object_view(object@.take(kept + 1)) =~= object_view(before.take(kept as int)).push(
                (before[next as int].0@, before[next as int].1@),
            ));
            kept += 1;
        } else {
            assert(object@.take(kept as int) =~= before.take(kept as int));
        }
        next += 1;
    }
    object.truncate(kept);
    assert(old(object)@.take(n as int) =~= old(object)@);
    assert(object@ =~= object@.take(kept as int));
}

/// Deletes the members whose value is null, then prunes each survivor.
fn remove_null_values_from_object(object: &mut Vec<(String, Json)>) -> (out: Result<(), Infallible>)
    ensures
        out is Ok,
        object_view(final(object)@) == pruned_entries(object_view(old(object)@)),
    decreases entries_height(object_view(old(object)@)), 1nat,
{
    retain_present_entries(object);
    let ghost survivors = object_view(object@);
    proof {
        lemma_pruned_entries_by_kept(object_view(old(object)@));
    }
    let n = object.len();
    let mut i: usize = 0;
    while i < n
        invariant
            object.len() == n,
            i <= n,
            survivors == kept_entries(object_view(old(object)@)),
            survivors.len() == n,
            forall|k: int| 0 <= k < n ==> (#[trigger] object@[k]).0@ == survivors[k].0,
            forall|k: int| 0 <= k < i ==> (#[trigger] object@[k]).1@ == survivors[k].1.pruned(),
            forall|k: int| i <= k < n ==> (#[trigger] object@[k]).1@ == survivors[k].1,
        decreases n - i,
    {
        proof {
            lemma_pruned_entries_by_kept(object_view(old(object)@));
            assert(object@[i as int].1@ == survivors[i as int].1);
        }
        process_value(&mut object[i].1)?;
        i += 1;
    }
    assert(object_view(object@) =~= pruned_entries(object_view(old(object)@)));
    Ok(())
}

/// Deletes the elements that are null, keeping the others in order.
fn retain_present_items(array: &mut Vec<Json>)
    ensures
        array_view(final(array)@) == kept_items(array_view(old(array)@)),
{
    let n = array.len();
    let mut kept: usize = 0;
    let mut next: usize = 0;
    while next < n
        invariant
            array.len() == n,
            n == old(array).len(),
            kept <= next <= n,
            array_view(array@.take(kept as int)) == kept_items(
                array_view(old(array)@.take(next as int)),
            ),
            forall|k: int| next <= k < n ==> array@[k] == old(array)@[k],
        decreases n - next,
    {
        let ghost before = array@;
        proof {
            lemma_kept_items_push(array_view(old(array)@.take(next as int)), old(array)@[next as int]@);
            assert(array_view(old(array)@.take(next + 1)) =~= array_view(
                old(array)@.take(next as int),
            ).push(old(array)@[next as int]@));
        }
        if !array[next].is_null() {
            let mut slot = Json::Null;
            core::mem::swap(&mut array[next], &mut slot);
            core::mem::swap(&mut array[kept], &mut slot);
            assert(array_view(array@.take(kept + 1)) =~= array_view(before.take(kept as int)).push(
                before[next as int]@,
            ));
            kept += 1;
        } else {
            assert(array@.take(kept as int) =~= before.take(kept as int));
        }
        next += 1;
    }
    array.truncate(kept);
    assert(old(array)@.take(n as int) =~= old(array)@);
    assert(array@ =~= array@.take(kept as int));
}

/// Deletes the elements that are null, then prunes each survivor.
fn remove_null_values_from_array(array: &mut Vec<Json>) -> (out: Result<(), Infallible>)
    ensures
        out is Ok,
        array_view(final(array)@) == pruned_items(array_view(old(array)@)),
    decreases items_height(array_view(old(array)@)), 1nat,
{
    retain_present_items(array);
    let ghost survivors = array_view(array@);
    proof {
        lemma_pruned_items_by_kept(array_view(old(array)@));
    }
    let n = array.len();
    let mut i: usize = 0;
    while i < n
        invariant
            array.len() == n,
            i <= n,
            survivors == kept_items(array_view(old(array)@)),
            survivors.len() == n,
            forall|k: int| 0 <= k < i ==> (#[trigger] array@[k])@ == survivors[k].pruned(),
            forall|k: int| i <= k < n ==> (#[trigger] array@[k])@ == survivors[k],
        decreases n - i,
    {
        proof {
            lemma_pruned_items_by_kept(array_view(old(array)@));
            assert(array@[i as int]@ == survivors[i as int]);
        }
        process_value(&mut array[i])?;
        i += 1;
    }
    assert(array_view(array@) =~= pruned_items(array_view(old(array)@)));
    Ok(())
}

} // verus!
