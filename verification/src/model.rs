//! What null elision means on the mathematical view of a document.
//!
//! Two descriptions are given, one for each strategy. [`JsonView::pruned`]
//! deletes the null entries of a container and then prunes the survivors;
//! [`JsonView::assembled`] rebuilds every value as present or absent and
//! keeps what is present. That the two agree is proved with the other laws.

use vstd::prelude::*;
use crate::value::JsonView;

verus! {

/// An object member: its key and its value.
pub type EntryView = (Seq<char>, JsonView);

/// The test that an array element passes when it is not null.
pub open spec fn item_is_present() -> spec_fn(JsonView) -> bool {
    |v: JsonView| !(v is Null)
}

/// The test that an object member passes when its value is not null.
pub open spec fn entry_is_present() -> spec_fn(EntryView) -> bool {
    |e: EntryView| !(e.1 is Null)
}

/// The array elements that are not null, in order.
pub open spec fn kept_items(items: Seq<JsonView>) -> Seq<JsonView> {
    items.filter(item_is_present())
}

/// The object members whose value is not null, in order.
pub open spec fn kept_entries(entries: Seq<EntryView>) -> Seq<EntryView> {
    entries.filter(entry_is_present())
}

/// The array elements that survive pruning: the non-null ones, each pruned,
/// in order.
pub open spec fn pruned_items(items: Seq<JsonView>) -> Seq<JsonView>
    decreases items,
{
    if items.len() == 0 {
        Seq::empty()
    } else {
        let front = pruned_items(items.drop_last());
        let last = items.last();
        if last is Null {
            front
        } else {
            front.push(last.pruned())
        }
    }
}

/// The object members that survive pruning: those whose value is not null,
/// each value pruned, in order and under their keys.
pub open spec fn pruned_entries(entries: Seq<EntryView>) -> Seq<EntryView>
    decreases entries,
{
    if entries.len() == 0 {
        Seq::empty()
    } else {
        let front = pruned_entries(entries.drop_last());
        let last = entries.last();
        if last.1 is Null {
            front
        } else {
            front.push((last.0, last.1.pruned()))
        }
    }
}

/// The array elements whose rebuilt form is present, rebuilt, in order.
pub open spec fn assembled_items(items: Seq<JsonView>) -> Seq<JsonView>
    decreases items,
{
    if items.len() == 0 {
        Seq::empty()
    } else {
        let front = assembled_items(items.drop_last());
        match items.last().assembled() {
            Some(v) => front.push(v),
            None => front,
        }
    }
}

/// The object members whose rebuilt value is present, in order, each key
/// with its rebuilt value.
pub open spec fn assembled_entries(entries: Seq<EntryView>) -> Seq<EntryView>
    decreases entries,
{
    if entries.len() == 0 {
        Seq::empty()
    } else {
        let front = assembled_entries(entries.drop_last());
        match entries.last().1.assembled() {
            Some(v) => front.push((entries.last().0, v)),
            None => front,
        }
    }
}

/// The greatest nesting depth among array elements.
pub open spec fn items_height(items: Seq<JsonView>) -> nat
    decreases items,
{
    if items.len() == 0 {
        0
    } else {
        let front = items_height(items.drop_last());
        let last = items.last().height();
        if last > front { last } else { front }
    }
}

/// The greatest nesting depth among object values.
pub open spec fn entries_height(entries: Seq<EntryView>) -> nat
    decreases entries,
{
    if entries.len() == 0 {
        0
    } else {
        let front = entries_height(entries.drop_last());
        let last = entries.last().1.height();
        if last > front { last } else { front }
    }
}

/// Where in `s` the survivor at position `i` of `s.filter(keep)` stood.
pub open spec fn source_index<T>(s: Seq<T>, keep: spec_fn(T) -> bool, i: int) -> int
    decreases s.len(),
{
    if s.len() == 0 {
        0
    } else if keep(s.last()) && i == s.drop_last().filter(keep).len() {
        s.len() - 1
    } else {
        source_index(s.drop_last(), keep, i)
    }
}

impl JsonView {
    /// The document after in-place pruning: every null entry deleted at
    /// every depth. A container keeps its variant even when nothing in it
    /// survives; a scalar, and a bare null at the root, stays as it is.
    pub open spec fn pruned(self) -> JsonView
        decreases self,
    {
        match self {
            JsonView::Array(items) => JsonView::Array(pruned_items(items)),
            JsonView::Object(entries) => JsonView::Object(pruned_entries(entries)),
            other => other,
        }
    }

    /// The document as rebuilt without nulls: absent for a null, otherwise
    /// present, a container holding the children that are present.
    pub open spec fn assembled(self) -> Option<JsonView>
        decreases self,
    {
        match self {
            JsonView::Null => None,
            JsonView::Array(items) => Some(JsonView::Array(assembled_items(items))),
            JsonView::Object(entries) => Some(JsonView::Object(assembled_entries(entries))),
            other => Some(other),
        }
    }

    /// No null literal occurs anywhere in the document, the root included.
    pub open spec fn null_free(self) -> bool
        decreases self,
    {
        match self {
            JsonView::Null => false,
            JsonView::Array(items) => forall|i: int|
                0 <= i < items.len() ==> (#[trigger] items[i]).null_free(),
            JsonView::Object(entries) => forall|i: int|
                0 <= i < entries.len() ==> (#[trigger] entries[i]).1.null_free(),
            _ => true,
        }
    }

    /// Within every object of the document, no key occurs twice.
    pub open spec fn keys_unique(self) -> bool
        decreases self,
    {
        match self {
            JsonView::Array(items) => forall|i: int|
                0 <= i < items.len() ==> (#[trigger] items[i]).keys_unique(),
            JsonView::Object(entries) => {
                &&& forall|i: int| 0 <= i < entries.len() ==> (#[trigger] entries[i]).1.keys_unique()
                &&& forall|i: int, j: int|
                    0 <= i < j < entries.len() ==> (#[trigger] entries[i]).0 != (#[trigger] entries[j]).0
            },
            _ => true,
        }
    }

    /// A container in which there is nothing but nulls.
    pub open spec fn holds_only_nulls(self) -> bool {
        match self {
            JsonView::Array(items) => forall|i: int| 0 <= i < items.len() ==> #[trigger] items[i] is Null,
            JsonView::Object(entries) => forall|i: int|
                0 <= i < entries.len() ==> (#[trigger] entries[i]).1 is Null,
            _ => false,
        }
    }

    /// The empty container of the same kind; a scalar as it is.
    pub open spec fn emptied(self) -> JsonView {
        match self {
            JsonView::Array(_) => JsonView::Array(Seq::empty()),
            JsonView::Object(_) => JsonView::Object(Seq::empty()),
            other => other,
        }
    }

    /// Nesting depth: 0 for a scalar, one more than its deepest child for a
    /// container.
    pub open spec fn height(self) -> nat
        decreases self,
    {
        match self {
            JsonView::Array(items) => 1 + items_height(items),
            JsonView::Object(entries) => 1 + entries_height(entries),
            _ => 0,
        }
    }
}

/// Appending one element to an array keeps it exactly when it is not null.
pub proof fn lemma_kept_items_push(front: Seq<JsonView>, last: JsonView)
    ensures
        kept_items(front.push(last)) == if last is Null {
            kept_items(front)
        } else {
            kept_items(front).push(last)
        },
{
    front.lemma_filter_push(last, item_is_present());
}

/// Appending one member to an object keeps it exactly when its value is not
/// null.
pub proof fn lemma_kept_entries_push(front: Seq<EntryView>, last: EntryView)
    ensures
        kept_entries(front.push(last)) == if last.1 is Null {
            kept_entries(front)
        } else {
            kept_entries(front).push(last)
        },
{
    front.lemma_filter_push(last, entry_is_present());
}

/// Appending one element to an array appends its rebuilt form to the
/// rebuilt array, or nothing when that form is absent.
pub proof fn lemma_assembled_items_push(front: Seq<JsonView>, last: JsonView)
    ensures
        assembled_items(front.push(last)) == match last.assembled() {
            Some(v) => assembled_items(front).push(v),
            None => assembled_items(front),
        },
{
    assert(front.push(last).drop_last() =~= front);
    assert(front.push(last).last() == last);
}

/// Appending one member to an object appends it with its rebuilt value, or
/// nothing when that value is absent.
pub proof fn lemma_assembled_entries_push(front: Seq<EntryView>, last: EntryView)
    ensures
        assembled_entries(front.push(last)) == match last.1.assembled() {
            Some(v) => assembled_entries(front).push((last.0, v)),
            None => assembled_entries(front),
        },
{
    assert(front.push(last).drop_last() =~= front);
    assert(front.push(last).last() == last);
}

/// No array element is nested deeper than the array's greatest depth.
pub proof fn lemma_items_height_bound(items: Seq<JsonView>, i: int)
    requires
        0 <= i < items.len(),
    ensures
        items[i].height() <= items_height(items),
    decreases items.len(),
{
    if i < items.len() - 1 {
        lemma_items_height_bound(items.drop_last(), i);
    }
}

/// No object value is nested deeper than the object's greatest depth.
pub proof fn lemma_entries_height_bound(entries: Seq<EntryView>, i: int)
    requires
        0 <= i < entries.len(),
    ensures
        entries[i].1.height() <= entries_height(entries),
    decreases entries.len(),
{
    if i < entries.len() - 1 {
        lemma_entries_height_bound(entries.drop_last(), i);
    }
}

/// Pruning an array is dropping its null elements and then pruning each
/// survivor where it stands; no survivor is null or nested deeper than the
/// array was.
pub proof fn lemma_pruned_items_by_kept(items: Seq<JsonView>)
    ensures
        pruned_items(items).len() == kept_items(items).len(),
        kept_items(items).len() <= items.len(),
        forall|i: int|
            0 <= i < kept_items(items).len() ==> {
                &&& !(#[trigger] kept_items(items)[i] is Null)
                &&& pruned_items(items)[i] == kept_items(items)[i].pruned()
                &&& kept_items(items)[i].height() <= items_height(items)
            },
    decreases items.len(),
{
    reveal(Seq::filter);
    if items.len() > 0 {
        lemma_pruned_items_by_kept(items.drop_last());
    }
}

/// Pruning an object is dropping its null-valued members and then pruning
/// each surviving value where it stands, under its key; no surviving value
/// is null or nested deeper than the object was.
pub proof fn lemma_pruned_entries_by_kept(entries: Seq<EntryView>)
    ensures
        pruned_entries(entries).len() == kept_entries(entries).len(),
        kept_entries(entries).len() <= entries.len(),
        forall|i: int|
            0 <= i < kept_entries(entries).len() ==> {
                &&& !((#[trigger] kept_entries(entries)[i]).1 is Null)
                &&& pruned_entries(entries)[i] == (
                    kept_entries(entries)[i].0,
                    kept_entries(entries)[i].1.pruned(),
                )
                &&& kept_entries(entries)[i].1.height() <= entries_height(entries)
            },
    decreases entries.len(),
{
    reveal(Seq::filter);
    if entries.len() > 0 {
        lemma_pruned_entries_by_kept(entries.drop_last());
    }
}

/// Filtering keeps order: each survivor stood at its source index, passes
/// the test, and a later survivor stood later in the source.
pub proof fn lemma_filter_sources<T>(s: Seq<T>, keep: spec_fn(T) -> bool)
    ensures
        forall|i: int|
            0 <= i < s.filter(keep).len() ==> {
                &&& 0 <= #[trigger] source_index(s, keep, i) < s.len()
                &&& s[source_index(s, keep, i)] == s.filter(keep)[i]
                &&& keep(s[source_index(s, keep, i)])
            },
        forall|i: int, j: int|
            0 <= i < j < s.filter(keep).len() ==> #[trigger] source_index(s, keep, i)
                < #[trigger] source_index(s, keep, j),
    decreases s.len(),
{
    reveal(Seq::filter);
    if s.len() > 0 {
        let front = s.drop_last();
        lemma_filter_sources(front, keep);
        let kept = s.filter(keep);
        assert forall|i: int| 0 <= i < kept.len() implies {
            &&& 0 <= #[trigger] source_index(s, keep, i) < s.len()
            &&& s[source_index(s, keep, i)] == kept[i]
            &&& keep(s[source_index(s, keep, i)])
        } by {
            if !(keep(s.last()) && i == front.filter(keep).len()) {
                assert(source_index(s, keep, i) == source_index(front, keep, i));
                assert(front[source_index(front, keep, i)] == front.filter(keep)[i]);
            }
        }
        assert forall|i: int, j: int| 0 <= i < j < kept.len() implies #[trigger] source_index(s, keep, i)
            < #[trigger] source_index(s, keep, j) by {
            assert(source_index(s, keep, i) == source_index(front, keep, i));
            assert(0 <= source_index(front, keep, i) < front.len());
            if !(keep(s.last()) && j == front.filter(keep).len()) {
                assert(source_index(s, keep, j) == source_index(front, keep, j));
            }
        }
    }
}

} // verus!
