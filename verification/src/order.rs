//! Order and duplicates: the order of texts, stable sorting, sets of texts.

use vstd::prelude::*;
use vstd::seq_lib::*;
use vstd::string::*;

use crate::text::{chars_of, same_text};

verus! {

/// Whether `a` comes before `b` in a dictionary that goes by code points.
pub open spec fn text_less(a: Seq<char>, b: Seq<char>) -> bool
    decreases a.len(),
{
    if b.len() == 0 {
        false
    } else if a.len() == 0 {
        true
    } else if a[0] != b[0] {
        (a[0] as u32) < (b[0] as u32)
    } else {
        text_less(a.drop_first(), b.drop_first())
    }
}

/// The order of texts is strict and total.
pub proof fn law_text_order(a: Seq<char>, b: Seq<char>, c: Seq<char>)
    ensures
        !text_less(a, a),
        text_less(a, b) ==> !text_less(b, a),
        text_less(a, b) && text_less(b, c) ==> text_less(a, c),
        a != b ==> text_less(a, b) || text_less(b, a),
    decreases a.len(),
{
    if a.len() > 0 {
        law_text_order(a.drop_first(), b.drop_first(), c.drop_first());
        if b.len() > 0 && a[0] == b[0] && a.drop_first() == b.drop_first() {
            assert(a =~= seq![a[0]] + a.drop_first());
            assert(b =~= seq![b[0]] + b.drop_first());
        }
    }
    if a.len() == 0 && b.len() == 0 {
        assert(a =~= b);
    }
    if a.len() > 0 && b.len() > 0 {
        lemma_code_points(a[0], b[0]);
    }
}

/// A character is known by its code point.
proof fn lemma_code_points(x: char, y: char)
    ensures
        x as u32 == y as u32 ==> x == y,
{
}

/// What a list holds once an element has been put behind it.
pub broadcast proof fn lemma_push_contains<T>(s: Seq<T>, x: T, y: T)
    ensures
        #[trigger] s.push(x).contains(y) <==> (s.contains(y) || y == x),
{
    if s.contains(y) {
        let k = choose|k: int| 0 <= k < s.len() && s[k] == y;
        assert(s.push(x)[k] == y);
    }
    assert(s.push(x)[s.len() as int] == x);
}

/// Whether `a` comes before `b`.
pub fn text_before(a: &str, b: &str) -> (before: bool)
    ensures
        before == text_less(a@, b@),
{
    let left = chars_of(a);
    let right = chars_of(b);
    let mut i: usize = 0;
    assert(left@.skip(0) =~= a@);
    assert(right@.skip(0) =~= b@);
    while i < left.len() && i < right.len()
        invariant
            i <= left@.len(),
            i <= right@.len(),
            text_less(a@, b@) == text_less(left@.skip(i as int), right@.skip(i as int)),
        decreases left@.len() - i,
    {
        if left[i] != right[i] {
            return (left[i] as u32) < (right[i] as u32);
        }
        assert(left@.skip(i as int).drop_first() =~= left@.skip(i + 1));
        assert(right@.skip(i as int).drop_first() =~= right@.skip(i + 1));
        i = i + 1;
    }
    i < right.len()
}

/// The place of `x` at the end of a sorted list: before every trailing element that
/// `x` precedes.
pub open spec fn place<T>(sorted: Seq<T>, x: T, less: spec_fn(T, T) -> bool) -> int
    decreases sorted.len(),
{
    if sorted.len() == 0 || !less(x, sorted.last()) {
        sorted.len() as int
    } else {
        place(sorted.drop_last(), x, less)
    }
}

/// The elements put in order one after the other; equal ones keep their order.
pub open spec fn sorted_by<T>(items: Seq<T>, less: spec_fn(T, T) -> bool) -> Seq<T>
    decreases items.len(),
{
    if items.len() == 0 {
        items
    } else {
        let rest = sorted_by(items.drop_last(), less);
        rest.insert(place(rest, items.last(), less), items.last())
    }
}

/// Whether no element precedes one that stands before it.
pub open spec fn in_order<T>(items: Seq<T>, less: spec_fn(T, T) -> bool) -> bool {
    forall|i: int, j: int| 0 <= i < j < items.len() ==> !less(#[trigger] items[j], #[trigger] items[i])
}

/// Whether `less` can sort: nothing precedes what precedes it, and what is equal
/// under it is equal to all else in the same way.
pub open spec fn sorts<T>(less: spec_fn(T, T) -> bool) -> bool {
    &&& forall|a: T, b: T| #[trigger] less(a, b) ==> !less(b, a)
    &&& forall|a: T, b: T, c: T|
        (#[trigger] less(a, b)) && !(#[trigger] less(c, b)) ==> less(a, c)
}

pub proof fn lemma_place<T>(sorted: Seq<T>, x: T, less: spec_fn(T, T) -> bool)
    ensures
        0 <= place(sorted, x, less) <= sorted.len(),
        forall|i: int| place(sorted, x, less) <= i < sorted.len() ==> less(x, #[trigger] sorted[i]),
        place(sorted, x, less) > 0 ==> !less(x, sorted[place(sorted, x, less) - 1]),
    decreases sorted.len(),
{
    if sorted.len() > 0 && less(x, sorted.last()) {
        let rest = sorted.drop_last();
        lemma_place(rest, x, less);
        assert forall|i: int| place(sorted, x, less) <= i < sorted.len() implies less(
            x,
            #[trigger] sorted[i],
        ) by {
            if i < sorted.len() - 1 {
                assert(rest[i] == sorted[i]);
            }
        }
    }
}

/// Sorting keeps what a list holds.
pub proof fn law_sorting_keeps_items<T>(items: Seq<T>, less: spec_fn(T, T) -> bool)
    ensures
        sorted_by(items, less).len() == items.len(),
        sorted_by(items, less).to_multiset() == items.to_multiset(),
    decreases items.len(),
{
    broadcast use group_to_multiset_ensures;

    if items.len() > 0 {
        let rest = sorted_by(items.drop_last(), less);
        law_sorting_keeps_items(items.drop_last(), less);
        lemma_place(rest, items.last(), less);
        to_multiset_insert(rest, place(rest, items.last(), less), items.last());
        assert(items =~= items.drop_last().push(items.last()));
    }
}

/// What comes out of a sort is in order.
pub proof fn law_sorting_sorts<T>(items: Seq<T>, less: spec_fn(T, T) -> bool)
    requires
        sorts(less),
    ensures
        in_order(sorted_by(items, less), less),
    decreases items.len(),
{
    if items.len() > 0 {
        let rest = sorted_by(items.drop_last(), less);
        let x = items.last();
        law_sorting_sorts(items.drop_last(), less);
        lemma_place(rest, x, less);
        let at = place(rest, x, less);
        let all = rest.insert(at, x);
        assert forall|i: int, j: int| 0 <= i < j < all.len() implies !less(
            #[trigger] all[j],
            #[trigger] all[i],
        ) by {
            let oi = if i < at { i } else { i - 1 };
            let oj = if j < at { j } else { j - 1 };
            if i != at && j != at {
                assert(all[i] == rest[oi] && all[j] == rest[oj]);
            } else if i == at {
                assert(all[j] == rest[oj] && less(x, rest[oj]));
            } else {
                assert(all[i] == rest[oi]);
                // `x` does not precede the element before its place, which no element
                // further in front comes after.
                let p = rest[at - 1];
                assert(!less(x, p));
                if less(x, rest[oi]) {
                    if oi < at - 1 {
                        assert(!less(p, rest[oi]));
                        assert(less(x, p));
                    }
                }
            }
        }
    }
}

/// The elements of a list that are equal to `key` under `less`, in their order.
pub open spec fn equals_of<T>(items: Seq<T>, key: T, less: spec_fn(T, T) -> bool) -> Seq<T> {
    items.filter(|e: T| !less(e, key) && !less(key, e))
}

/// Elements that are equal under the order keep the order in which they came.
pub proof fn law_sorting_is_stable<T>(items: Seq<T>, key: T, less: spec_fn(T, T) -> bool)
    requires
        sorts(less),
    ensures
        equals_of(sorted_by(items, less), key, less) == equals_of(items, key, less),
    decreases items.len(),
{
    reveal(Seq::filter);
    if items.len() > 0 {
        let rest = sorted_by(items.drop_last(), less);
        let x = items.last();
        let same = |e: T| !less(e, key) && !less(key, e);
        law_sorting_is_stable(items.drop_last(), key, less);
        law_sorting_sorts(items.drop_last(), less);
        lemma_place(rest, x, less);
        let at = place(rest, x, less);
        let head = rest.take(at);
        let tail = rest.skip(at);
        assert(rest.insert(at, x) =~= head.push(x) + tail);
        assert(rest =~= head + tail);
        lemma_filter_concat(head.push(x), tail, same);
        lemma_filter_concat(head, tail, same);
        assert(head.push(x).drop_last() =~= head);
        if same(x) {
            assert forall|i: int| 0 <= i < tail.len() implies !same(#[trigger] tail[i]) by {
                assert(tail[i] == rest[at + i]);
                assert(less(x, rest[at + i]));
                if same(tail[i]) {
                    // x < tail[i] <= key, so x < key
                    assert(!less(key, tail[i]));
                    assert(less(x, key));
                }
            }
            lemma_filter_none(tail, same);
        }
        assert(equals_of(rest.insert(at, x), key, less) =~= equals_of(items, key, less));
    }
}

/// Filtering goes through concatenation.
pub proof fn lemma_filter_concat<T>(a: Seq<T>, b: Seq<T>, keep: spec_fn(T) -> bool)
    ensures
        (a + b).filter(keep) == a.filter(keep) + b.filter(keep),
    decreases b.len(),
{
    reveal(Seq::filter);
    if b.len() == 0 {
        assert(a + b =~= a);
        assert(a.filter(keep) + b.filter(keep) =~= a.filter(keep));
    } else {
        assert((a + b).drop_last() =~= a + b.drop_last());
        lemma_filter_concat(a, b.drop_last(), keep);
        assert((a + b).filter(keep) =~= a.filter(keep) + b.filter(keep));
    }
}

/// A filter that keeps nothing leaves nothing.
pub proof fn lemma_filter_none<T>(a: Seq<T>, keep: spec_fn(T) -> bool)
    requires
        forall|i: int| 0 <= i < a.len() ==> !keep(#[trigger] a[i]),
    ensures
        a.filter(keep).len() == 0,
    decreases a.len(),
{
    reveal(Seq::filter);
    if a.len() > 0 {
        assert forall|i: int| 0 <= i < a.drop_last().len() implies !keep(
            #[trigger] a.drop_last()[i],
        ) by {
            assert(a.drop_last()[i] == a[i]);
        }
        assert(!keep(a[a.len() - 1]));
        lemma_filter_none(a.drop_last(), keep);
    }
}

/// A filter that lets everything through changes nothing.
pub proof fn lemma_filter_all<T>(a: Seq<T>, keep: spec_fn(T) -> bool)
    requires
        forall|i: int| 0 <= i < a.len() ==> keep(#[trigger] a[i]),
    ensures
        a.filter(keep) == a,
    decreases a.len(),
{
    reveal(Seq::filter);
    if a.len() > 0 {
        assert forall|i: int| 0 <= i < a.drop_last().len() implies keep(
            #[trigger] a.drop_last()[i],
        ) by {
            assert(a.drop_last()[i] == a[i]);
        }
        assert(keep(a[a.len() - 1]));
        lemma_filter_all(a.drop_last(), keep);
        assert(a =~= a.drop_last().push(a.last()));
    } else {
        assert(a.filter(keep) =~= a);
    }
}

/// What a filter keeps comes from the list and passes the test.
pub proof fn lemma_filter_members<T>(a: Seq<T>, keep: spec_fn(T) -> bool)
    ensures
        forall|x: T| #[trigger] a.filter(keep).contains(x) <==> (a.contains(x) && keep(x)),
    decreases a.len(),
{
    reveal(Seq::filter);
    if a.len() > 0 {
        lemma_filter_members(a.drop_last(), keep);
        assert(a =~= a.drop_last().push(a.last()));
        assert forall|x: T| #[trigger] a.filter(keep).contains(x) <==> (a.contains(x) && keep(x)) by {
            lemma_push_contains(a.drop_last(), a.last(), x);
            lemma_push_contains(a.drop_last().filter(keep), a.last(), x);
        }
    }
}

/// Filtering one element more.
pub proof fn lemma_filter_take<T>(s: Seq<T>, keep: spec_fn(T) -> bool, i: int)
    requires
        0 <= i < s.len(),
    ensures
        s.take(i + 1).filter(keep) == if keep(s[i]) {
            s.take(i).filter(keep).push(s[i])
        } else {
            s.take(i).filter(keep)
        },
{
    reveal(Seq::filter);
    assert(s.take(i + 1).drop_last() =~= s.take(i));
}

/// Sorts in place; equal elements keep their order.
pub fn sort_stably<T, F: Fn(&T, &T) -> bool>(
    items: &mut Vec<T>,
    before: F,
    Ghost(less): Ghost<spec_fn(T, T) -> bool>,
)
    requires
        forall|a: &T, b: &T| #[trigger] before.requires((a, b)),
        forall|a: &T, b: &T, r: bool| #[trigger] before.ensures((a, b), r) ==> r == less(*a, *b),
    ensures
        final(items)@ == sorted_by(old(items)@, less),
{
    let mut rest: Vec<T> = Vec::new();
    core::mem::swap(&mut rest, items);
    let ghost all = rest@;
    let ghost mut done: int = 0;
    assert(all.take(0) =~= Seq::empty());
    while rest.len() > 0
        invariant
            0 <= done <= all.len(),
            rest@ == all.skip(done),
            items@ == sorted_by(all.take(done), less),
            forall|a: &T, b: &T| #[trigger] before.requires((a, b)),
            forall|a: &T, b: &T, r: bool| #[trigger]
                before.ensures((a, b), r) ==> r == less(*a, *b),
        decreases rest@.len(),
    {
        let x = rest.remove(0);
        let mut at: usize = items.len();
        assert(items@.take(at as int) =~= items@);
        while at > 0 && before(&x, &items[at - 1])
            invariant
                at <= items@.len(),
                place(items@, x, less) == place(items@.take(at as int), x, less),
                forall|a: &T, b: &T| #[trigger] before.requires((a, b)),
                forall|a: &T, b: &T, r: bool| #[trigger]
                    before.ensures((a, b), r) ==> r == less(*a, *b),
            decreases at,
        {
            assert(items@.take(at as int).drop_last() =~= items@.take(at - 1));
            at = at - 1;
        }
        items.insert(at, x);
        proof {
            assert(all.take(done + 1).drop_last() =~= all.take(done));
            assert(all.skip(done).remove(0) =~= all.skip(done + 1));
            done = done + 1;
        }
    }
    assert(all.take(done) =~= all);
}

/// Every element once, in the order of first appearance.
pub open spec fn distinct<T>(items: Seq<T>) -> Seq<T>
    decreases items.len(),
{
    if items.len() == 0 {
        items
    } else {
        let rest = distinct(items.drop_last());
        if rest.contains(items.last()) {
            rest
        } else {
            rest.push(items.last())
        }
    }
}

/// `distinct` holds the same elements, none of them twice.
pub proof fn lemma_distinct<T>(items: Seq<T>)
    ensures
        distinct(items).no_duplicates(),
        forall|x: T| distinct(items).contains(x) <==> items.contains(x),
    decreases items.len(),
{
    if items.len() > 0 {
        let rest = distinct(items.drop_last());
        lemma_distinct(items.drop_last());
        assert forall|x: T| distinct(items).contains(x) <==> items.contains(x) by {
            if items.contains(x) {
                let i = choose|i: int| 0 <= i < items.len() && items[i] == x;
                if i < items.len() - 1 {
                    assert(items.drop_last()[i] == x);
                    assert(items.drop_last().contains(x));
                    let k = choose|k: int| 0 <= k < rest.len() && rest[k] == x;
                    assert(distinct(items)[k] == x);
                } else if !rest.contains(x) {
                    assert(distinct(items)[rest.len() as int] == x);
                }
            }
            if distinct(items).contains(x) {
                let i = choose|i: int| 0 <= i < distinct(items).len() && distinct(items)[i] == x;
                if i < rest.len() {
                    assert(rest[i] == x);
                    assert(items.drop_last().contains(x));
                    let k = choose|k: int|
                        0 <= k < items.drop_last().len() && items.drop_last()[k] == x;
                    assert(items[k] == x);
                } else {
                    assert(items[items.len() - 1] == x);
                }
            }
        }
        assert(items.last() == items[items.len() - 1]);
    }
}

/// The lists that a function gives for the elements of a list, one behind the other.
pub open spec fn concat_map<A, B>(items: Seq<A>, f: spec_fn(A) -> Seq<B>) -> Seq<B>
    decreases items.len(),
{
    if items.len() == 0 {
        Seq::empty()
    } else {
        concat_map(items.drop_last(), f) + f(items.last())
    }
}

pub proof fn lemma_concat_add<A, B>(a: Seq<A>, b: Seq<A>, f: spec_fn(A) -> Seq<B>)
    ensures
        concat_map(a + b, f) == concat_map(a, f) + concat_map(b, f),
    decreases b.len(),
{
    if b.len() == 0 {
        assert(a + b =~= a);
        assert(concat_map(a, f) + concat_map(b, f) =~= concat_map(a, f));
    } else {
        lemma_concat_add(a, b.drop_last(), f);
        assert((a + b).drop_last() =~= a + b.drop_last());
        assert((a + b).last() == b.last());
        assert(concat_map(a + b, f) =~= concat_map(a, f) + concat_map(b, f));
    }
}

pub proof fn lemma_concat_one_item<A, B>(item: A, f: spec_fn(A) -> Seq<B>)
    ensures
        concat_map(seq![item], f) == f(item),
{
    reveal_with_fuel(concat_map, 2);
    assert(seq![item].drop_last() =~= Seq::empty());
    assert(concat_map(seq![item], f) =~= f(item));
}

/// Functions that give the same for every element give the same list.
pub proof fn lemma_concat_same<A, B>(
    items: Seq<A>,
    f: spec_fn(A) -> Seq<B>,
    g: spec_fn(A) -> Seq<B>,
)
    requires
        forall|i: int| 0 <= i < items.len() ==> f(#[trigger] items[i]) == g(items[i]),
    ensures
        concat_map(items, f) == concat_map(items, g),
    decreases items.len(),
{
    if items.len() > 0 {
        assert forall|i: int| 0 <= i < items.drop_last().len() implies f(
            #[trigger] items.drop_last()[i],
        ) == g(items.drop_last()[i]) by {
            assert(items.drop_last()[i] == items[i]);
        }
        lemma_concat_same(items.drop_last(), f, g);
        assert(items.last() == items[items.len() - 1]);
    }
}

pub proof fn lemma_concat_nested<A, B, C>(
    items: Seq<A>,
    f: spec_fn(A) -> Seq<B>,
    g: spec_fn(B) -> Seq<C>,
)
    ensures
        concat_map(concat_map(items, f), g) == concat_map(items, |a: A| concat_map(f(a), g)),
    decreases items.len(),
{
    if items.len() > 0 {
        lemma_concat_nested(items.drop_last(), f, g);
        lemma_concat_add(concat_map(items.drop_last(), f), f(items.last()), g);
    }
}

pub proof fn lemma_concat_mapped<A, B, C>(
    items: Seq<A>,
    f: spec_fn(A) -> B,
    g: spec_fn(B) -> Seq<C>,
)
    ensures
        concat_map(items.map_values(f), g) == concat_map(items, |a: A| g(f(a))),
    decreases items.len(),
{
    if items.len() > 0 {
        lemma_concat_mapped(items.drop_last(), f, g);
        assert(items.map_values(f).drop_last() =~= items.drop_last().map_values(f));
    }
}

/// A function that gives a list of one for each element.
pub proof fn lemma_concat_singles<A, B>(
    items: Seq<A>,
    f: spec_fn(A) -> Seq<B>,
    g: spec_fn(A) -> B,
)
    requires
        forall|i: int| 0 <= i < items.len() ==> f(#[trigger] items[i]) == seq![g(items[i])],
    ensures
        concat_map(items, f) == items.map_values(g),
    decreases items.len(),
{
    if items.len() > 0 {
        assert forall|i: int| 0 <= i < items.drop_last().len() implies f(
            #[trigger] items.drop_last()[i],
        ) == seq![g(items.drop_last()[i])] by {
            assert(items.drop_last()[i] == items[i]);
        }
        lemma_concat_singles(items.drop_last(), f, g);
        assert(items.last() == items[items.len() - 1]);
    }
    assert(concat_map(items, f) =~= items.map_values(g));
}

/// A function that gives something for one element alone.
pub proof fn lemma_concat_only<A, B>(items: Seq<A>, f: spec_fn(A) -> Seq<B>, at: int)
    requires
        forall|i: int| 0 <= i < items.len() && i != at ==> f(#[trigger] items[i]).len() == 0,
    ensures
        concat_map(items, f) == if 0 <= at < items.len() {
            f(items[at])
        } else {
            Seq::empty()
        },
    decreases items.len(),
{
    if items.len() > 0 {
        assert forall|i: int| 0 <= i < items.drop_last().len() && i != at implies f(
            #[trigger] items.drop_last()[i],
        ).len() == 0 by {
            assert(items.drop_last()[i] == items[i]);
        }
        lemma_concat_only(items.drop_last(), f, at);
        assert(items.last() == items[items.len() - 1]);
    }
    assert(concat_map(items, f) =~= if 0 <= at < items.len() {
        f(items[at])
    } else {
        Seq::empty()
    });
}

/// The list taken apart round one element.
pub proof fn lemma_concat_split<A, B>(items: Seq<A>, f: spec_fn(A) -> Seq<B>, m: int)
    requires
        0 <= m < items.len(),
    ensures
        concat_map(items, f) == concat_map(items.take(m), f) + f(items[m]) + concat_map(
            items.skip(m + 1),
            f,
        ),
{
    assert(items =~= items.take(m) + seq![items[m]] + items.skip(m + 1));
    lemma_concat_add(items.take(m) + seq![items[m]], items.skip(m + 1), f);
    lemma_concat_add(items.take(m), seq![items[m]], f);
    lemma_concat_one_item(items[m], f);
}

/// Finds the element that the `i`-th entry of the list comes from.
pub proof fn lemma_concat_locate<A, B>(items: Seq<A>, f: spec_fn(A) -> Seq<B>, i: int) -> (m: int)
    requires
        0 <= i < concat_map(items, f).len(),
    ensures
        0 <= m < items.len(),
        concat_map(items.take(m), f).len() <= i < concat_map(items.take(m), f).len() + f(
            items[m],
        ).len(),
    decreases items.len(),
{
    let rest = items.drop_last();
    if i < concat_map(rest, f).len() {
        let m = lemma_concat_locate(rest, f, i);
        assert(items.take(m) =~= rest.take(m));
        m
    } else {
        assert(items.take(items.len() - 1) =~= rest);
        items.len() - 1
    }
}

/// Functions that give the same elements, in whatever order, give the same elements.
pub proof fn lemma_concat_multisets<A, B>(
    items: Seq<A>,
    f: spec_fn(A) -> Seq<B>,
    g: spec_fn(A) -> Seq<B>,
)
    requires
        forall|i: int|
            0 <= i < items.len() ==> f(#[trigger] items[i]).to_multiset() == g(
                items[i],
            ).to_multiset(),
    ensures
        concat_map(items, f).to_multiset() == concat_map(items, g).to_multiset(),
    decreases items.len(),
{
    if items.len() > 0 {
        let rest = items.drop_last();
        assert forall|i: int| 0 <= i < rest.len() implies f(#[trigger] rest[i]).to_multiset() == g(
            rest[i],
        ).to_multiset() by {
            assert(rest[i] == items[i]);
        }
        lemma_concat_multisets(rest, f, g);
        assert(items.last() == items[items.len() - 1]);
        vstd::seq_lib::lemma_multiset_commutative(concat_map(rest, f), f(items.last()));
        vstd::seq_lib::lemma_multiset_commutative(concat_map(rest, g), g(items.last()));
    }
}

/// What one of two conditions that exclude one another keeps.
pub proof fn lemma_filter_either<T>(
    items: Seq<T>,
    p: spec_fn(T) -> bool,
    q: spec_fn(T) -> bool,
    either: spec_fn(T) -> bool,
)
    requires
        forall|x: T| #[trigger] either(x) <==> p(x) || q(x),
        forall|x: T| !(#[trigger] p(x) && q(x)),
    ensures
        items.filter(either).to_multiset() == items.filter(p).to_multiset().add(
            items.filter(q).to_multiset(),
        ),
    decreases items.len(),
{
    broadcast use group_to_multiset_ensures;

    reveal(Seq::filter);
    if items.len() == 0 {
        assert(items.filter(either).to_multiset() =~= items.filter(p).to_multiset().add(
            items.filter(q).to_multiset(),
        ));
    } else {
        lemma_filter_either(items.drop_last(), p, q, either);
        assert(items.filter(either).to_multiset() =~= items.filter(p).to_multiset().add(
            items.filter(q).to_multiset(),
        ));
    }
}

/// A list sorted into boxes holds what the boxes' keys ask for.
pub proof fn lemma_boxes_hold_all<K, T>(
    keys: Seq<K>,
    items: Seq<T>,
    base: spec_fn(T) -> bool,
    key: spec_fn(T) -> K,
)
    requires
        keys.no_duplicates(),
    ensures
        concat_map(keys, |k: K| items.filter(|x: T| base(x) && key(x) == k)).to_multiset()
            == items.filter(|x: T| base(x) && keys.contains(key(x))).to_multiset(),
    decreases keys.len(),
{
    let kept = |x: T| base(x) && keys.contains(key(x));
    let boxed = |k: K| items.filter(|x: T| base(x) && key(x) == k);
    if keys.len() == 0 {
        lemma_filter_none(items, kept);
        assert(items.filter(kept) =~= concat_map(keys, boxed));
    } else {
        let rest = keys.drop_last();
        let last = keys.last();
        let p = |x: T| base(x) && rest.contains(key(x));
        let q = |x: T| base(x) && key(x) == last;
        lemma_boxes_hold_all(rest, items, base, key);
        assert(keys =~= rest.push(last));
        assert forall|x: T| #[trigger] kept(x) <==> p(x) || q(x) by {
            if keys.contains(key(x)) {
                let i = choose|i: int| 0 <= i < keys.len() && keys[i] == key(x);
                if i < rest.len() {
                    assert(rest[i] == key(x));
                }
            }
            if rest.contains(key(x)) {
                let i = choose|i: int| 0 <= i < rest.len() && rest[i] == key(x);
                assert(keys[i] == key(x));
            }
            assert(keys[keys.len() - 1] == last);
        }
        assert forall|x: T| !(#[trigger] p(x) && q(x)) by {
            if rest.contains(last) {
                let i = choose|i: int| 0 <= i < rest.len() && rest[i] == last;
                assert(keys[i] == keys[keys.len() - 1]);
            }
        }
        lemma_filter_either(items, p, q, kept);
        vstd::seq_lib::lemma_multiset_commutative(concat_map(rest, boxed), boxed(last));
        assert(boxed(last) == items.filter(q));
    }
}

/// The characters of a list of texts.
pub open spec fn views(texts: Seq<String>) -> Seq<Seq<char>> {
    texts.map_values(|t: String| t@)
}

/// Whether one of the texts holds these characters.
pub fn holds_text(texts: &Vec<String>, text: &str) -> (found: bool)
    ensures
        found == views(texts@).contains(text@),
{
    let mut i: usize = 0;
    while i < texts.len()
        invariant
            i <= texts@.len(),
            forall|j: int| 0 <= j < i ==> views(texts@)[j] != text@,
        decreases texts@.len() - i,
    {
        if same_text(&texts[i], text) {
            assert(views(texts@)[i as int] == text@);
            return true;
        }
        i = i + 1;
    }
    false
}

proof fn lemma_place_views(sorted: Seq<String>, x: String)
    ensures
        place(sorted, x, |a: String, b: String| text_less(a@, b@)) == place(
            views(sorted),
            x@,
            |a: Seq<char>, b: Seq<char>| text_less(a, b),
        ),
    decreases sorted.len(),
{
    if sorted.len() > 0 {
        lemma_place_views(sorted.drop_last(), x);
        assert(views(sorted).drop_last() =~= views(sorted.drop_last()));
        assert(views(sorted).last() == sorted.last()@);
    }
}

/// Sorting texts and looking at what they hold can change places.
proof fn lemma_sorted_views(items: Seq<String>)
    ensures
        views(sorted_by(items, |a: String, b: String| text_less(a@, b@))) == sorted_by(
            views(items),
            |a: Seq<char>, b: Seq<char>| text_less(a, b),
        ),
    decreases items.len(),
{
    let less = |a: String, b: String| text_less(a@, b@);
    if items.len() > 0 {
        lemma_sorted_views(items.drop_last());
        let rest = sorted_by(items.drop_last(), less);
        assert(views(items).drop_last() =~= views(items.drop_last()));
        lemma_place_views(rest, items.last());
        lemma_place(rest, items.last(), less);
        assert(views(items).last() == items.last()@);
        assert(views(rest.insert(place(rest, items.last(), less), items.last())) =~= views(
            rest,
        ).insert(place(rest, items.last(), less), items.last()@));
    } else {
        assert(views(items) =~= Seq::empty());
        assert(views(sorted_by(items, less)) =~= Seq::empty());
    }
}

/// Every text once, in order.
pub open spec fn ordered_texts(texts: Seq<Seq<char>>) -> Seq<Seq<char>> {
    sorted_by(distinct(texts), |a: Seq<char>, b: Seq<char>| text_less(a, b))
}

/// The ordered texts rise strictly and are the given ones.
pub proof fn law_ordered_texts(texts: Seq<Seq<char>>)
    ensures
        forall|i: int, j: int|
            0 <= i < j < ordered_texts(texts).len() ==> text_less(
                #[trigger] ordered_texts(texts)[i],
                #[trigger] ordered_texts(texts)[j],
            ),
        forall|t: Seq<char>| ordered_texts(texts).contains(t) <==> texts.contains(t),
{
    broadcast use group_to_multiset_ensures;

    let less = |a: Seq<char>, b: Seq<char>| text_less(a, b);
    let out = ordered_texts(texts);
    assert(sorts(less)) by {
        assert forall|a: Seq<char>, b: Seq<char>| #[trigger] less(a, b) implies !less(b, a) by {
            law_text_order(a, b, a);
        }
        assert forall|a: Seq<char>, b: Seq<char>, c: Seq<char>|
            (#[trigger] less(a, b)) && !(#[trigger] less(c, b)) implies less(a, c) by {
            law_text_order(a, b, c);
            law_text_order(c, b, a);
            law_text_order(b, c, a);
        }
    }
    lemma_distinct(texts);
    law_sorting_keeps_items(distinct(texts), less);
    law_sorting_sorts(distinct(texts), less);
    assert forall|t: Seq<char>| out.contains(t) <==> texts.contains(t) by {
        assert(out.to_multiset().count(t) == distinct(texts).to_multiset().count(t));
    }
    distinct(texts).lemma_multiset_has_no_duplicates();
    out.lemma_multiset_has_no_duplicates_conv();
    assert forall|i: int, j: int| 0 <= i < j < out.len() implies text_less(
        #[trigger] out[i],
        #[trigger] out[j],
    ) by {
        assert(!less(out[j], out[i]));
        law_text_order(out[i], out[j], out[i]);
    }
}

/// Every text once, in order.
pub fn order_texts(texts: &Vec<String>) -> (ordered: Vec<String>)
    ensures
        views(ordered@) == ordered_texts(views(texts@)),
{
    let ghost all = views(texts@);
    let mut ordered: Vec<String> = Vec::new();
    let mut i: usize = 0;
    assert(views(ordered@) =~= distinct(all.take(0)));
    while i < texts.len()
        invariant
            i <= texts@.len(),
            all == views(texts@),
            views(ordered@) == distinct(all.take(i as int)),
        decreases texts@.len() - i,
    {
        assert(all.take(i + 1).drop_last() =~= all.take(i as int));
        if !holds_text(&ordered, &texts[i]) {
            let ghost before = views(ordered@);
            ordered.push(texts[i].clone());
            assert(views(ordered@) =~= before.push(all[i as int]));
        }
        i = i + 1;
    }
    assert(all.take(i as int) =~= all);
    proof {
        lemma_sorted_views(ordered@);
    }
    let before = |a: &String, b: &String| -> (r: bool)
        ensures
            r == text_less(a@, b@),
        { text_before(a, b) };
    sort_stably(&mut ordered, before, Ghost(|a: String, b: String| text_less(a@, b@)));
    ordered
}

/// A copy of a list of texts.
pub fn clone_texts(texts: &Vec<String>) -> (copy: Vec<String>)
    ensures
        copy@ == texts@,
{
    let mut copy: Vec<String> = Vec::new();
    let mut i: usize = 0;
    while i < texts.len()
        invariant
            i <= texts@.len(),
            copy@ == texts@.take(i as int),
        decreases texts@.len() - i,
    {
        copy.push(texts[i].clone());
        assert(texts@.take(i + 1) =~= texts@.take(i as int).push(texts@[i as int]));
        i = i + 1;
    }
    assert(texts@.take(i as int) =~= texts@);
    copy
}

/// A copy of a list of track numbers or the like.
pub fn clone_ids(ids: &Vec<i64>) -> (copy: Vec<i64>)
    ensures
        copy@ == ids@,
{
    let mut copy: Vec<i64> = Vec::new();
    let mut i: usize = 0;
    while i < ids.len()
        invariant
            i <= ids@.len(),
            copy@ == ids@.take(i as int),
        decreases ids@.len() - i,
    {
        copy.push(ids[i]);
        assert(ids@.take(i + 1) =~= ids@.take(i as int).push(ids@[i as int]));
        i = i + 1;
    }
    assert(ids@.take(i as int) =~= ids@);
    copy
}

/// A set of texts.
#[derive(Debug)]
pub struct TextSet {
    items: Vec<String>,
}

impl View for TextSet {
    type V = Set<Seq<char>>;

    closed spec fn view(&self) -> Set<Seq<char>> {
        views(self.items@).to_set()
    }
}

impl TextSet {
    pub fn new() -> (set: TextSet)
        ensures
            set@ == Set::<Seq<char>>::empty(),
    {
        let set = TextSet { items: Vec::new() };
        assert(set@ =~= Set::<Seq<char>>::empty());
        set
    }

    pub fn contains(&self, text: &str) -> (found: bool)
        ensures
            found == self@.contains(text@),
    {
        holds_text(&self.items, text)
    }

    /// Puts a text in; says whether it was missing.
    pub fn insert(&mut self, text: String) -> (added: bool)
        ensures
            final(self)@ == old(self)@.insert(text@),
            added == !old(self)@.contains(text@),
    {
        if self.contains(&text) {
            assert(self@ =~= old(self)@.insert(text@));
            return false;
        }
        let ghost before = views(self.items@);
        let ghost added = text@;
        self.items.push(text);
        assert(views(self.items@) =~= before.push(added));
        assert(self@ =~= old(self)@.insert(added)) by {
            broadcast use lemma_push_contains;
        }
        true
    }

    /// Takes a text out; says whether it was there.
    pub fn remove(&mut self, text: &str) -> (removed: bool)
        ensures
            final(self)@ == old(self)@.remove(text@),
            removed == old(self)@.contains(text@),
    {
        let ghost before = views(self.items@);
        let mut kept: Vec<String> = Vec::new();
        let mut removed = false;
        let mut i: usize = 0;
        while i < self.items.len()
            invariant
                i <= self.items@.len(),
                *self == *old(self),
                before == views(self.items@),
                removed == before.take(i as int).contains(text@),
                forall|x: Seq<char>|
                    views(kept@).contains(x) <==> (before.take(i as int).contains(x) && x != text@),
            decreases self.items@.len() - i,
        {
            let ghost old_kept = views(kept@);
            let ghost head = before.take(i as int);
            let item = self.items[i].clone();
            assert(before.take(i + 1) =~= head.push(item@));
            let ghost added = item@;
            if same_text(&item, text) {
                removed = true;
            } else {
                kept.push(item);
                assert(views(kept@) =~= old_kept.push(added));
            }
            assert forall|x: Seq<char>| views(kept@).contains(x) <==> (before.take(
                i + 1,
            ).contains(x) && x != text@) by {
                lemma_push_contains(head, added, x);
                lemma_push_contains(old_kept, added, x);
            }
            assert(before.take(i + 1).contains(text@) == removed) by {
                lemma_push_contains(head, added, text@);
            }
            i = i + 1;
        }
        assert(before.take(i as int) =~= before);
        self.items = kept;
        assert(self@ =~= old(self)@.remove(text@));
        removed
    }

    pub fn clear(&mut self)
        ensures
            final(self)@ == Set::<Seq<char>>::empty(),
    {
        self.items.clear();
        assert(self@ =~= Set::<Seq<char>>::empty());
    }
}

impl Clone for TextSet {
    fn clone(&self) -> (copy: TextSet)
        ensures
            copy@ == self@,
    {
        TextSet { items: clone_texts(&self.items) }
    }
}

/// Texts are compared from the front: the first character in which they differ decides, by its
/// code point, and a text stands before those that go on behind it.
pub proof fn law_texts_are_compared_from_the_front(
    common: Seq<char>,
    a: char,
    b: char,
    rest: Seq<char>,
    other: Seq<char>,
)
    ensures
        (a as u32) < (b as u32) ==> text_less(common.push(a) + rest, common.push(b) + other),
        text_less(common, common.push(a) + rest),
    decreases common.len(),
{
    let x = common.push(a) + rest;
    let y = common.push(b) + other;
    if common.len() > 0 {
        let tail = common.drop_first();
        law_texts_are_compared_from_the_front(tail, a, b, rest, other);
        assert(x.drop_first() =~= tail.push(a) + rest);
        assert(y.drop_first() =~= tail.push(b) + other);
        assert(x[0] == common[0] && y[0] == common[0]);
    } else {
        assert(x[0] == a && y[0] == b);
    }
}

} // verus!
