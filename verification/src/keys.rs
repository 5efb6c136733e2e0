//! Going through ordered maps and sets from the smallest key up.

use std::collections::{BTreeMap, BTreeSet};

use vstd::prelude::*;
use vstd::seq_lib::*;
use vstd::std_specs::btree::{spec_btree_keys_iter, spec_keys_iter};
use vstd::std_specs::iter::IteratorSpec;

use crate::model::{Track, TrackId};
use crate::order::{law_sorting_keeps_items, law_sorting_sorts, sort_stably, sorted_by};

verus! {

broadcast use vstd::std_specs::btree::group_btree_axioms;

/// Whether numbers rise from each to the next.
pub open spec fn rising(keys: Seq<int>) -> bool {
    forall|i: int, j: int| 0 <= i < j < keys.len() ==> #[trigger] keys[i] < #[trigger] keys[j]
}

pub open spec fn id_numbers(ids: Seq<TrackId>) -> Seq<int> {
    ids.map_values(|id: TrackId| id as int)
}

pub open spec fn row_numbers(rows: Seq<usize>) -> Seq<int> {
    rows.map_values(|row: usize| row as int)
}

/// Whether a list holds the identifiers of a set, from the smallest up.
pub open spec fn lists_ids(list: Seq<TrackId>, ids: Set<TrackId>) -> bool {
    rising(id_numbers(list)) && list.to_set() == ids
}

/// The identifiers of a set, from the smallest up.
pub open spec fn ids_in_order(ids: Set<TrackId>) -> Seq<TrackId> {
    choose|list: Seq<TrackId>| lists_ids(list, ids)
}

/// Whether a list holds the rows of a set, from the smallest up.
pub open spec fn lists_rows(list: Seq<usize>, rows: Set<usize>) -> bool {
    rising(row_numbers(list)) && list.to_set() == rows
}

/// The rows of a set, from the smallest up.
pub open spec fn rows_in_order(rows: Set<usize>) -> Seq<usize> {
    choose|list: Seq<usize>| lists_rows(list, rows)
}

/// The tracks of a library, by rising identifier.
pub open spec fn tracks_in_order(tracks: Map<TrackId, Track>) -> Seq<Track> {
    ids_in_order(tracks.dom()).map_values(|id: TrackId| tracks[id])
}

/// Rising numbers are known by which they are.
proof fn lemma_rising_unique(a: Seq<int>, b: Seq<int>)
    requires
        rising(a),
        rising(b),
        forall|x: int| a.contains(x) <==> b.contains(x),
    ensures
        a == b,
    decreases a.len(),
{
    if a.len() == 0 {
        if b.len() > 0 {
            assert(b.contains(b[0]));
            assert(a.contains(b[0]));
        }
        assert(a =~= b);
    } else {
        assert(a.contains(a.last()));
        assert(b.contains(a.last()));
        let k = choose|k: int| 0 <= k < b.len() && b[k] == a.last();
        assert(b.contains(b.last()));
        assert(a.contains(b.last()));
        let m = choose|m: int| 0 <= m < a.len() && a[m] == b.last();
        if k < b.len() - 1 {
            assert(b[k] < b[b.len() - 1]);
        }
        if m < a.len() - 1 {
            assert(a[m] < a[a.len() - 1]);
        }
        assert(a.last() == b.last());
        let c = a.drop_last();
        let d = b.drop_last();
        assert forall|x: int| c.contains(x) <==> d.contains(x) by {
            if c.contains(x) {
                let i = choose|i: int| 0 <= i < c.len() && c[i] == x;
                assert(a[i] == x && a[i] < a[a.len() - 1]);
                assert(a.contains(x));
                let j = choose|j: int| 0 <= j < b.len() && b[j] == x;
                assert(d[j] == x);
            }
            if d.contains(x) {
                let i = choose|i: int| 0 <= i < d.len() && d[i] == x;
                assert(b[i] == x && b[i] < b[b.len() - 1]);
                assert(b.contains(x));
                let j = choose|j: int| 0 <= j < a.len() && a[j] == x;
                assert(c[j] == x);
            }
        }
        lemma_rising_unique(c, d);
        assert(a =~= c.push(a.last()));
        assert(b =~= d.push(b.last()));
    }
}

/// A rising list of a set's identifiers is the one in order.
pub proof fn lemma_ids_in_order(list: Seq<TrackId>, ids: Set<TrackId>)
    requires
        lists_ids(list, ids),
    ensures
        list == ids_in_order(ids),
{
    let other = ids_in_order(ids);
    assert(lists_ids(other, ids));
    let a = id_numbers(list);
    let b = id_numbers(other);
    assert forall|x: int| a.contains(x) <==> b.contains(x) by {
        if a.contains(x) {
            let i = choose|i: int| 0 <= i < a.len() && a[i] == x;
            assert(list.to_set().contains(list[i]));
            assert(other.to_set().contains(list[i]));
            let j = choose|j: int| 0 <= j < other.len() && other[j] == list[i];
            assert(b[j] == x);
        }
        if b.contains(x) {
            let i = choose|i: int| 0 <= i < b.len() && b[i] == x;
            assert(other.to_set().contains(other[i]));
            assert(list.to_set().contains(other[i]));
            let j = choose|j: int| 0 <= j < list.len() && list[j] == other[i];
            assert(a[j] == x);
        }
    }
    lemma_rising_unique(a, b);
    assert forall|i: int| 0 <= i < list.len() implies list[i] == other[i] by {
        assert(a[i] == b[i]);
    }
    assert(a.len() == b.len());
    assert(list =~= other);
}

/// A rising list of a set's rows is the one in order.
pub proof fn lemma_rows_in_order(list: Seq<usize>, rows: Set<usize>)
    requires
        lists_rows(list, rows),
    ensures
        list == rows_in_order(rows),
{
    let other = rows_in_order(rows);
    assert(lists_rows(other, rows));
    let a = row_numbers(list);
    let b = row_numbers(other);
    assert forall|x: int| a.contains(x) <==> b.contains(x) by {
        if a.contains(x) {
            let i = choose|i: int| 0 <= i < a.len() && a[i] == x;
            assert(list.to_set().contains(list[i]));
            assert(other.to_set().contains(list[i]));
            let j = choose|j: int| 0 <= j < other.len() && other[j] == list[i];
            assert(b[j] == x);
        }
        if b.contains(x) {
            let i = choose|i: int| 0 <= i < b.len() && b[i] == x;
            assert(other.to_set().contains(other[i]));
            assert(list.to_set().contains(other[i]));
            let j = choose|j: int| 0 <= j < list.len() && list[j] == other[i];
            assert(a[j] == x);
        }
    }
    lemma_rising_unique(a, b);
    assert forall|i: int| 0 <= i < list.len() implies list[i] == other[i] by {
        assert(a[i] == b[i]);
    }
    assert(a.len() == b.len());
    assert(list =~= other);
}

proof fn lemma_sorted_ids(before: Seq<TrackId>)
    requires
        before.no_duplicates(),
    ensures
        lists_ids(sorted_by(before, |a: TrackId, b: TrackId| a < b), before.to_set()),
{
    broadcast use group_to_multiset_ensures;

    let less = |a: TrackId, b: TrackId| a < b;
    let out = sorted_by(before, less);
    law_sorting_keeps_items(before, less);
    law_sorting_sorts(before, less);
    before.lemma_multiset_has_no_duplicates();
    out.lemma_multiset_has_no_duplicates_conv();
    assert(rising(id_numbers(out))) by {
        assert forall|i: int, j: int| 0 <= i < j < out.len() implies #[trigger] id_numbers(out)[i]
            < #[trigger] id_numbers(out)[j] by {
            assert(!less(out[j], out[i]));
            assert(out[i] != out[j]);
        }
    }
    assert(out.to_set() =~= before.to_set()) by {
        assert forall|x: TrackId| out.contains(x) <==> before.contains(x) by {
            assert(out.to_multiset().count(x) == before.to_multiset().count(x));
        }
    }
}

proof fn lemma_some_list<T>(ids: Set<T>) -> (list: Seq<T>)
    requires
        ids.finite(),
    ensures
        list.no_duplicates(),
        list.to_set() == ids,
    decreases ids.len(),
{
    if ids.len() == 0 {
        let none = Seq::<T>::empty();
        assert(none.to_set() =~= ids);
        none
    } else {
        let id = ids.choose();
        let rest = lemma_some_list(ids.remove(id));
        let list = rest.push(id);
        assert(!rest.contains(id)) by {
            assert(rest.to_set().contains(id) <==> rest.contains(id));
        }
        assert(list.to_set() =~= ids) by {
            assert forall|x: T| list.to_set().contains(x) <==> ids.contains(x) by {
                crate::order::lemma_push_contains(rest, id, x);
                assert(rest.to_set().contains(x) <==> rest.contains(x));
            }
        }
        list
    }
}

/// A set that ends has its list, which holds the set's elements and no others.
pub proof fn law_ids_are_listed(ids: Set<TrackId>)
    requires
        ids.finite(),
    ensures
        lists_ids(ids_in_order(ids), ids),
        forall|id: TrackId| ids_in_order(ids).contains(id) <==> ids.contains(id),
{
    let some = lemma_some_list(ids);
    lemma_sorted_ids(some);
    let list = sorted_by(some, |a: TrackId, b: TrackId| a < b);
    assert(lists_ids(list, ids));
    assert(lists_ids(ids_in_order(ids), ids));
    assert forall|id: TrackId| ids_in_order(ids).contains(id) <==> ids.contains(id) by {
        assert(ids_in_order(ids).to_set().contains(id) <==> ids.contains(id));
    }
}

/// The same of a set of rows.
pub proof fn law_rows_are_listed(rows: Set<usize>)
    requires
        rows.finite(),
    ensures
        lists_rows(rows_in_order(rows), rows),
        forall|row: usize| rows_in_order(rows).contains(row) <==> rows.contains(row),
{
    broadcast use group_to_multiset_ensures;

    let before = lemma_some_list(rows);
    let less = |a: usize, b: usize| a < b;
    let out = sorted_by(before, less);
    law_sorting_keeps_items(before, less);
    law_sorting_sorts(before, less);
    before.lemma_multiset_has_no_duplicates();
    out.lemma_multiset_has_no_duplicates_conv();
    assert(rising(row_numbers(out))) by {
        assert forall|i: int, j: int| 0 <= i < j < out.len() implies #[trigger] row_numbers(out)[i]
            < #[trigger] row_numbers(out)[j] by {
            assert(!less(out[j], out[i]));
            assert(out[i] != out[j]);
        }
    }
    assert(out.to_set() =~= before.to_set()) by {
        assert forall|x: usize| out.contains(x) <==> before.contains(x) by {
            assert(out.to_multiset().count(x) == before.to_multiset().count(x));
        }
    }
    assert(lists_rows(out, rows));
    assert(lists_rows(rows_in_order(rows), rows));
    assert forall|row: usize| rows_in_order(rows).contains(row) <==> rows.contains(row) by {
        assert(rows_in_order(rows).to_set().contains(row) <==> rows.contains(row));
    }
}

fn sort_ids(ids: &mut Vec<TrackId>)
    requires
        old(ids)@.no_duplicates(),
    ensures
        lists_ids(final(ids)@, old(ids)@.to_set()),
{
    let ghost before = ids@;
    let smaller = |a: &TrackId, b: &TrackId| -> (r: bool)
        ensures
            r == (*a < *b),
        { *a < *b };
    sort_stably(ids, smaller, Ghost(|a: TrackId, b: TrackId| a < b));
    proof {
        lemma_sorted_ids(before);
    }
}

fn sort_rows(rows: &mut Vec<usize>)
    requires
        old(rows)@.no_duplicates(),
    ensures
        lists_rows(final(rows)@, old(rows)@.to_set()),
{
    broadcast use group_to_multiset_ensures;

    let ghost before = rows@;
    let ghost less = |a: usize, b: usize| a < b;
    let smaller = |a: &usize, b: &usize| -> (r: bool)
        ensures
            r == (*a < *b),
        { *a < *b };
    sort_stably(rows, smaller, Ghost(less));
    proof {
        law_sorting_keeps_items(before, less);
        law_sorting_sorts(before, less);
        before.lemma_multiset_has_no_duplicates();
        rows@.lemma_multiset_has_no_duplicates_conv();
        let out = rows@;
        assert(rising(row_numbers(out))) by {
            assert forall|i: int, j: int| 0 <= i < j < out.len() implies #[trigger] row_numbers(
                out,
            )[i] < #[trigger] row_numbers(out)[j] by {
                assert(!less(out[j], out[i]));
                assert(out[i] != out[j]);
            }
        }
        assert(out.to_set() =~= before.to_set()) by {
            assert forall|x: usize| out.contains(x) <==> before.contains(x) by {
                assert(out.to_multiset().count(x) == before.to_multiset().count(x));
            }
        }
    }
}

/// The identifiers of the library's tracks, from the smallest up.
pub fn track_keys(tracks: &BTreeMap<TrackId, Track>) -> (ids: Vec<TrackId>)
    ensures
        ids@ == ids_in_order(tracks@.dom()),
        lists_ids(ids@, tracks@.dom()),
{
    let ghost all = spec_keys_iter(tracks).remaining().unref();
    let mut ids: Vec<TrackId> = Vec::new();
    for id in it: tracks.keys()
        invariant
            it.seq().unref() == all,
            ids@.len() == it.index(),
            ids@ == all.take(it.index() as int),
    {
        ids.push(*id);
        assert(all.take(it.index() + 1) =~= all.take(it.index() as int).push(*id));
    }
    proof {
        assert(ids@ =~= all);
        let keys = spec_keys_iter(tracks).remaining();
        assert(keys.no_duplicates() && all.to_set() == tracks@.dom());
        assert forall|i: int, j: int| 0 <= i < j < all.len() implies all[i] != all[j] by {
            assert(keys[i] != keys[j]);
        }
    }
    sort_ids(&mut ids);
    proof {
        lemma_ids_in_order(ids@, tracks@.dom());
    }
    ids
}

/// The identifiers of a set, from the smallest up.
pub fn id_list(set: &BTreeSet<TrackId>) -> (ids: Vec<TrackId>)
    ensures
        ids@ == ids_in_order(set@),
        lists_ids(ids@, set@),
{
    let ghost all = spec_btree_keys_iter(set).remaining().unref();
    let mut ids: Vec<TrackId> = Vec::new();
    for id in it: set.iter()
        invariant
            it.seq().unref() == all,
            ids@.len() == it.index(),
            ids@ == all.take(it.index() as int),
    {
        ids.push(*id);
        assert(all.take(it.index() + 1) =~= all.take(it.index() as int).push(*id));
    }
    proof {
        assert(ids@ =~= all);
        let keys = spec_btree_keys_iter(set).remaining();
        assert(keys.no_duplicates() && all.to_set() == set@);
        assert forall|i: int, j: int| 0 <= i < j < all.len() implies all[i] != all[j] by {
            assert(keys[i] != keys[j]);
        }
    }
    sort_ids(&mut ids);
    proof {
        lemma_ids_in_order(ids@, set@);
    }
    ids
}

/// The rows of a set, from the smallest up.
pub fn row_list(set: &BTreeSet<usize>) -> (rows: Vec<usize>)
    ensures
        rows@ == rows_in_order(set@),
        lists_rows(rows@, set@),
{
    let ghost all = spec_btree_keys_iter(set).remaining().unref();
    let mut rows: Vec<usize> = Vec::new();
    for row in it: set.iter()
        invariant
            it.seq().unref() == all,
            rows@.len() == it.index(),
            rows@ == all.take(it.index() as int),
    {
        rows.push(*row);
        assert(all.take(it.index() + 1) =~= all.take(it.index() as int).push(*row));
    }
    proof {
        assert(rows@ =~= all);
        let keys = spec_btree_keys_iter(set).remaining();
        assert(keys.no_duplicates() && all.to_set() == set@);
        assert forall|i: int, j: int| 0 <= i < j < all.len() implies all[i] != all[j] by {
            assert(keys[i] != keys[j]);
        }
    }
    sort_rows(&mut rows);
    proof {
        lemma_rows_in_order(rows@, set@);
    }
    rows
}

} // verus!
