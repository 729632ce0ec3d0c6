//! What holds of null elision on every document.

use vstd::prelude::*;
use crate::model::{
    assembled_entries, assembled_items, entry_is_present, item_is_present, kept_entries, kept_items,
    lemma_filter_sources, lemma_pruned_entries_by_kept, lemma_pruned_items_by_kept, pruned_entries,
    pruned_items, source_index, EntryView,
};
use crate::value::JsonView;

verus! {

/// The two strategies agree: a document that is not null is rebuilt as
/// exactly what pruning makes of it. On a null document they part: it is
/// rebuilt as absent and pruned to itself.
pub proof fn law_strategies_agree(v: JsonView)
    ensures
        !(v is Null) ==> v.assembled() == Some(v.pruned()),
        v is Null ==> v.assembled() is None && v.pruned() == v,
    decreases v,
{
    match v {
        JsonView::Array(items) => law_strategies_agree_on_items(items),
        JsonView::Object(entries) => law_strategies_agree_on_entries(entries),
        _ => {},
    }
}

/// The two strategies keep the same elements of an array.
pub proof fn law_strategies_agree_on_items(items: Seq<JsonView>)
    ensures
        assembled_items(items) == pruned_items(items),
    decreases items,
{
    if items.len() > 0 {
        law_strategies_agree_on_items(items.drop_last());
        law_strategies_agree(items.last());
    }
}

/// The two strategies keep the same members of an object.
pub proof fn law_strategies_agree_on_entries(entries: Seq<EntryView>)
    ensures
        assembled_entries(entries) == pruned_entries(entries),
    decreases entries,
{
    if entries.len() > 0 {
        law_strategies_agree_on_entries(entries.drop_last());
        law_strategies_agree(entries.last().1);
    }
}

/// After pruning, no null is left anywhere in a document that was not
/// itself null.
pub proof fn law_pruned_is_null_free(v: JsonView)
    requires
        !(v is Null),
    ensures
        v.pruned().null_free(),
    decreases v,
{
    match v {
        JsonView::Array(items) => {
            lemma_pruned_items_by_kept(items);
            lemma_filter_sources(items, item_is_present());
            assert forall|i: int| 0 <= i < pruned_items(items).len() implies (#[trigger] pruned_items(
                items,
            )[i]).null_free() by {
                let p = source_index(items, item_is_present(), i);
                assert(kept_items(items)[i] == items[p]);
                law_pruned_is_null_free(items[p]);
            }
        },
        JsonView::Object(entries) => {
            lemma_pruned_entries_by_kept(entries);
            lemma_filter_sources(entries, entry_is_present());
            assert forall|i: int| 0 <= i < pruned_entries(entries).len() implies (#[trigger] pruned_entries(
                entries,
            )[i]).1.null_free() by {
                let p = source_index(entries, entry_is_present(), i);
                assert(kept_entries(entries)[i] == entries[p]);
                law_pruned_is_null_free(entries[p].1);
            }
        },
        _ => {},
    }
}

/// Whatever is rebuilt as present holds no null anywhere.
pub proof fn law_assembled_is_null_free(v: JsonView)
    ensures
        v.assembled() is Some ==> v.assembled().unwrap().null_free(),
{
    law_strategies_agree(v);
    if !(v is Null) {
        law_pruned_is_null_free(v);
    }
}

/// A document without nulls is left as it is by both strategies.
pub proof fn law_null_free_is_unchanged(v: JsonView)
    requires
        v.null_free(),
    ensures
        v.pruned() == v,
        v.assembled() == Some(v),
    decreases v,
{
    law_strategies_agree(v);
    match v {
        JsonView::Array(items) => {
            lemma_null_free_items_unchanged(items);
        },
        JsonView::Object(entries) => {
            lemma_null_free_entries_unchanged(entries);
        },
        _ => {},
    }
}

proof fn lemma_null_free_items_unchanged(items: Seq<JsonView>)
    requires
        forall|i: int| 0 <= i < items.len() ==> (#[trigger] items[i]).null_free(),
    ensures
        pruned_items(items) == items,
    decreases items,
{
    if items.len() > 0 {
        let front = items.drop_last();
        assert forall|i: int| 0 <= i < front.len() implies (#[trigger] front[i]).null_free() by {
            assert(front[i] == items[i]);
        }
        lemma_null_free_items_unchanged(front);
        law_null_free_is_unchanged(items.last());
        assert(front.push(items.last()) =~= items);
    } else {
        assert(items =~= Seq::empty());
    }
}

proof fn lemma_null_free_entries_unchanged(entries: Seq<EntryView>)
    requires
        forall|i: int| 0 <= i < entries.len() ==> (#[trigger] entries[i]).1.null_free(),
    ensures
        pruned_entries(entries) == entries,
    decreases entries,
{
    if entries.len() > 0 {
        let front = entries.drop_last();
        assert forall|i: int| 0 <= i < front.len() implies (#[trigger] front[i]).1.null_free() by {
            assert(front[i] == entries[i]);
        }
        lemma_null_free_entries_unchanged(front);
        law_null_free_is_unchanged(entries.last().1);
        assert(front.push(entries.last()) =~= entries);
    } else {
        assert(entries =~= Seq::empty());
    }
}

/// Pruning what was pruned changes nothing more.
pub proof fn law_pruning_is_idempotent(v: JsonView)
    ensures
        v.pruned().pruned() == v.pruned(),
{
    if !(v is Null) {
        law_pruned_is_null_free(v);
        law_null_free_is_unchanged(v.pruned());
    }
}

/// Array order is preserved: two survivors stand in the order in which
/// their sources stood, and each is its source, pruned.
pub proof fn law_array_order_is_kept(items: Seq<JsonView>, i: int, j: int)
    requires
        0 <= i < j < pruned_items(items).len(),
    ensures
        ({
            let p = source_index(items, item_is_present(), i);
            let q = source_index(items, item_is_present(), j);
            &&& 0 <= p < q < items.len()
            &&& pruned_items(items)[i] == items[p].pruned()
            &&& pruned_items(items)[j] == items[q].pruned()
        }),
{
    lemma_pruned_items_by_kept(items);
    lemma_filter_sources(items, item_is_present());
    assert(kept_items(items)[i] == items[source_index(items, item_is_present(), i)]);
    assert(kept_items(items)[j] == items[source_index(items, item_is_present(), j)]);
}

/// Object order is preserved: two surviving members stand in the order in
/// which their sources stood, each under its source's key and with its
/// source's value, pruned.
pub proof fn law_object_order_is_kept(entries: Seq<EntryView>, i: int, j: int)
    requires
        0 <= i < j < pruned_entries(entries).len(),
    ensures
        ({
            let p = source_index(entries, entry_is_present(), i);
            let q = source_index(entries, entry_is_present(), j);
            &&& 0 <= p < q < entries.len()
            &&& pruned_entries(entries)[i] == (entries[p].0, entries[p].1.pruned())
            &&& pruned_entries(entries)[j] == (entries[q].0, entries[q].1.pruned())
        }),
{
    lemma_pruned_entries_by_kept(entries);
    lemma_filter_sources(entries, entry_is_present());
    assert(kept_entries(entries)[i] == entries[source_index(entries, entry_is_present(), i)]);
    assert(kept_entries(entries)[j] == entries[source_index(entries, entry_is_present(), j)]);
}

/// Every array element that is not null survives, pruned, at the position
/// given by the number of non-null elements before it.
pub proof fn law_present_item_survives(items: Seq<JsonView>, p: int)
    requires
        0 <= p < items.len(),
        !(items[p] is Null),
    ensures
        0 <= kept_items(items.take(p)).len() < pruned_items(items).len(),
        pruned_items(items)[kept_items(items.take(p)).len() as int] == items[p].pruned(),
    decreases items.len(),
{
    let front = items.drop_last();
    lemma_pruned_items_by_kept(front);
    if p == items.len() - 1 {
        assert(items.take(p) =~= front);
    } else {
        law_present_item_survives(front, p);
        assert(items.take(p) =~= front.take(p));
    }
}

/// Every object member whose value is not null survives under its key, its
/// value pruned, at the position given by the number of such members
/// before it.
pub proof fn law_present_entry_survives(entries: Seq<EntryView>, p: int)
    requires
        0 <= p < entries.len(),
        !(entries[p].1 is Null),
    ensures
        0 <= kept_entries(entries.take(p)).len() < pruned_entries(entries).len(),
        pruned_entries(entries)[kept_entries(entries.take(p)).len() as int] == (
            entries[p].0,
            entries[p].1.pruned(),
        ),
    decreases entries.len(),
{
    let front = entries.drop_last();
    lemma_pruned_entries_by_kept(front);
    if p == entries.len() - 1 {
        assert(entries.take(p) =~= front);
    } else {
        law_present_entry_survives(front, p);
        assert(entries.take(p) =~= front.take(p));
    }
}

/// A container that holds only nulls becomes the empty container of its
/// kind, under both strategies.
pub proof fn law_only_nulls_leave_empty(v: JsonView)
    requires
        v.holds_only_nulls(),
    ensures
        v.pruned() == v.emptied(),
        v.assembled() == Some(v.emptied()),
{
    law_strategies_agree(v);
    match v {
        JsonView::Array(items) => lemma_null_items_all_go(items),
        JsonView::Object(entries) => lemma_null_entries_all_go(entries),
        _ => {},
    }
}

proof fn lemma_null_items_all_go(items: Seq<JsonView>)
    requires
        forall|i: int| 0 <= i < items.len() ==> #[trigger] items[i] is Null,
    ensures
        pruned_items(items) == Seq::<JsonView>::empty(),
    decreases items.len(),
{
    if items.len() > 0 {
        let front = items.drop_last();
        assert forall|i: int| 0 <= i < front.len() implies #[trigger] front[i] is Null by {
            assert(front[i] == items[i]);
        }
        lemma_null_items_all_go(front);
    }
}

proof fn lemma_null_entries_all_go(entries: Seq<EntryView>)
    requires
        forall|i: int| 0 <= i < entries.len() ==> (#[trigger] entries[i]).1 is Null,
    ensures
        pruned_entries(entries) == Seq::<EntryView>::empty(),
    decreases entries.len(),
{
    if entries.len() > 0 {
        let front = entries.drop_last();
        assert forall|i: int| 0 <= i < front.len() implies (#[trigger] front[i]).1 is Null by {
            assert(front[i] == entries[i]);
        }
        lemma_null_entries_all_go(front);
    }
}

/// An emptied container is retained: an array element that holds only
/// nulls is still an element after its parent is pruned, as the empty
/// container of its kind and in its place among the survivors.
pub proof fn law_emptied_item_is_retained(items: Seq<JsonView>, p: int)
    requires
        0 <= p < items.len(),
        items[p].holds_only_nulls(),
    ensures
        0 <= kept_items(items.take(p)).len() < pruned_items(items).len(),
        pruned_items(items)[kept_items(items.take(p)).len() as int] == items[p].emptied(),
{
    law_present_item_survives(items, p);
    law_only_nulls_leave_empty(items[p]);
}

/// An emptied container is retained: an object member whose value holds
/// only nulls is still a member after its parent is pruned, under its key,
/// as the empty container of its kind and in its place among the survivors.
pub proof fn law_emptied_member_is_retained(entries: Seq<EntryView>, p: int)
    requires
        0 <= p < entries.len(),
        entries[p].1.holds_only_nulls(),
    ensures
        0 <= kept_entries(entries.take(p)).len() < pruned_entries(entries).len(),
        pruned_entries(entries)[kept_entries(entries.take(p)).len() as int] == (
            entries[p].0,
            entries[p].1.emptied(),
        ),
{
    law_present_entry_survives(entries, p);
    law_only_nulls_leave_empty(entries[p].1);
}

/// A container is never deleted or replaced: pruning keeps the variant of
/// every value.
pub proof fn law_variant_is_kept(v: JsonView)
    ensures
        v is Null <==> v.pruned() is Null,
        v is Bool <==> v.pruned() is Bool,
        v is Number <==> v.pruned() is Number,
        v is String <==> v.pruned() is String,
        v is Array <==> v.pruned() is Array,
        v is Object <==> v.pruned() is Object,
{
}

/// Pruning keeps the keys of every object distinct.
pub proof fn law_keys_stay_unique(v: JsonView)
    requires
        v.keys_unique(),
    ensures
        v.pruned().keys_unique(),
    decreases v,
{
    match v {
        JsonView::Array(items) => {
            lemma_pruned_items_by_kept(items);
            lemma_filter_sources(items, item_is_present());
            assert forall|i: int| 0 <= i < pruned_items(items).len() implies (#[trigger] pruned_items(
                items,
            )[i]).keys_unique() by {
                let p = source_index(items, item_is_present(), i);
                assert(kept_items(items)[i] == items[p]);
                law_keys_stay_unique(items[p]);
            }
        },
        JsonView::Object(entries) => {
            lemma_pruned_entries_by_kept(entries);
            lemma_filter_sources(entries, entry_is_present());
            let out = pruned_entries(entries);
            assert forall|i: int| 0 <= i < out.len() implies (#[trigger] out[i]).1.keys_unique() by {
                let p = source_index(entries, entry_is_present(), i);
                assert(kept_entries(entries)[i] == entries[p]);
                law_keys_stay_unique(entries[p].1);
            }
            assert forall|i: int, j: int| 0 <= i < j < out.len() implies (#[trigger] out[i]).0
                != (#[trigger] out[j]).0 by {
                let p = source_index(entries, entry_is_present(), i);
                let q = source_index(entries, entry_is_present(), j);
                assert(kept_entries(entries)[i] == entries[p]);
                assert(kept_entries(entries)[j] == entries[q]);
                assert(p < q);
            }
        },
        _ => {},
    }
}

} // verus!
