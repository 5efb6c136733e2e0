//! Index arithmetic, shuffling and small phrases.

use std::collections::BTreeSet;

use vstd::prelude::*;
use vstd::seq_lib::*;
use vstd::string::*;

use crate::text::{append_decimal, decimal};

verus! {

broadcast use vstd::std_specs::btree::group_btree_axioms;

/// Calls `<[T]>::swap`, which exchanges two elements.
#[verifier::external_body]
fn swap_items<T>(items: &mut [T], a: usize, b: usize)
    requires
        a < old(items)@.len(),
        b < old(items)@.len(),
    ensures
        final(items)@ == exchanged(old(items)@, a as int, b as int),
{
    items.swap(a, b)
}

/// `n` moved into the range from `lo` to `hi`.
pub open spec fn clamped(n: int, lo: int, hi: int) -> int {
    if n < lo {
        lo
    } else if n > hi {
        hi
    } else {
        n
    }
}

/// The index that is `delta` away from `current`, held inside a list of `len` rows.
pub open spec fn stepped(current: int, delta: int, len: int) -> int {
    if len == 0 {
        0
    } else {
        clamped(current + delta, 0, len - 1)
    }
}

/// The index that is `delta` away from `current`, around a list of `len` rows.
pub open spec fn wrapped(current: int, delta: int, len: int) -> int {
    if len == 0 {
        0
    } else {
        (current + delta) % len
    }
}

/// Moves by `delta` and stops at both ends; 0 in an empty list.
pub fn step_index(current: usize, delta: i32, len: usize) -> (index: usize)
    ensures
        index == stepped(current as int, delta as int, len as int),
{
    if len == 0 {
        0
    } else {
        let moved: i128 = current as i128 + delta as i128;
        if moved < 0 {
            0
        } else if moved > len as i128 - 1 {
            len - 1
        } else {
            moved as usize
        }
    }
}

/// Moves by `delta` and goes on at the other end; 0 in an empty list.
pub fn wrap_index(current: usize, delta: i32, len: usize) -> (index: usize)
    ensures
        index == wrapped(current as int, delta as int, len as int),
        len > 0 ==> index < len,
{
    if len == 0 {
        0
    } else {
        let moved: i128 = current as i128 + delta as i128;
        let n: i128 = len as i128;
        proof {
            vstd::arithmetic::div_mod::lemma_mod_bound(moved as int, n as int);
        }
        if moved >= 0 {
            (moved % n) as usize
        } else {
            // Rust's `%` goes towards zero, so the remainder is taken of the
            // distance to the row before the first.
            let below: i128 = -1 - moved;
            proof {
                vstd::arithmetic::div_mod::lemma_mod_bound(below as int, n as int);
                vstd::arithmetic::div_mod::lemma_fundamental_div_mod(below as int, n as int);
                let q = below as int / n as int;
                let r = below as int % n as int;
                assert(moved == n * (-q - 1) + (n - 1 - r)) by (nonlinear_arith)
                    requires
                        below == n * q + r,
                        below == -1 - moved,
                ;
                vstd::arithmetic::div_mod::lemma_fundamental_div_mod_converse(
                    moved as int,
                    n as int,
                    -q - 1,
                    n - 1 - r,
                );
            }
            (n - 1 - below % n) as usize
        }
    }
}

/// The last index of a list that is not beyond `current`; 0 in an empty list.
pub fn clamp_index(current: usize, len: usize) -> (index: usize)
    ensures
        index == stepped(current as int, 0, len as int),
{
    if len == 0 {
        0
    } else if current < len - 1 {
        current
    } else {
        len - 1
    }
}

/// Every index from the smaller to the larger of two, both ends among them.
pub open spec fn index_range(a: int, b: int) -> Set<usize> {
    Set::new(|i: usize| a <= i <= b || b <= i <= a)
}

/// Collects the indices between two rows, both among them.
pub fn range_set(a: usize, b: usize) -> (rows: BTreeSet<usize>)
    ensures
        rows@ == index_range(a as int, b as int),
{
    let lo: usize = if a <= b { a } else { b };
    let hi: usize = if a <= b { b } else { a };
    let mut rows: BTreeSet<usize> = BTreeSet::new();
    let mut at: usize = lo;
    while at < hi
        invariant
            lo <= at <= hi,
            rows@ == Set::new(|i: usize| lo <= i < at),
        decreases hi - at,
    {
        rows.insert(at);
        at = at + 1;
        assert(rows@ =~= Set::new(|i: usize| lo <= i < at));
    }
    rows.insert(hi);
    assert(rows@ =~= index_range(a as int, b as int));
    rows
}

/// One step of the generator: shifts by 13, 7 and 17.
pub open spec fn xorshift(state: u64) -> u64 {
    let a = state ^ (state << 13);
    let b = a ^ (a >> 7);
    b ^ (b << 17)
}

/// Two elements exchanged.
pub open spec fn exchanged<T>(items: Seq<T>, a: int, b: int) -> Seq<T> {
    items.update(a, items[b]).update(b, items[a])
}

/// `items` after the exchanges for the positions from `index` down to 1, each with
/// a position that the generator picks at or below it.
pub open spec fn shuffled_from<T>(items: Seq<T>, state: u64, index: nat) -> Seq<T>
    decreases index,
{
    if index == 0 {
        items
    } else {
        let next = xorshift(state);
        shuffled_from(
            exchanged(items, index as int, (next as usize) as int % (index + 1) as int),
            next,
            (index - 1) as nat,
        )
    }
}

/// The order that a seed gives to a list.
pub open spec fn shuffled<T>(items: Seq<T>, seed: u64) -> Seq<T> {
    if items.len() == 0 {
        items
    } else {
        shuffled_from(items, seed, (items.len() - 1) as nat)
    }
}

/// Shuffles in place; the same seed gives the same order.
pub fn xorshift_shuffle<T>(items: &mut [T], seed: u64)
    ensures
        final(items)@ == shuffled(old(items)@, seed),
        final(items)@.len() == old(items)@.len(),
        final(items)@.to_multiset() == old(items)@.to_multiset(),
{
    proof {
        law_shuffle_is_a_permutation(items@, seed);
    }
    if items.len() == 0 {
        return;
    }
    let mut state: u64 = seed;
    let len: usize = items.len();
    let mut index: usize = len - 1;
    let ghost goal = shuffled(items@, seed);
    while index > 0
        invariant
            index < len == items@.len(),
            shuffled_from(items@, state, index as nat) == goal,
        decreases index,
    {
        state = state ^ (state << 13);
        state = state ^ (state >> 7);
        state = state ^ (state << 17);
        let other: usize = #[verifier::truncate]
        (state as usize) % (index + 1);
        swap_items(items, index, other);
        index = index - 1;
    }
}

/// An exchange keeps what a list holds.
pub proof fn lemma_exchange_keeps_items<T>(items: Seq<T>, a: int, b: int)
    requires
        0 <= a < items.len(),
        0 <= b < items.len(),
    ensures
        exchanged(items, a, b).to_multiset() == items.to_multiset(),
{
    broadcast use group_to_multiset_ensures;

    let first = items.update(a, items[b]);
    to_multiset_update(items, a, items[b]);
    to_multiset_update(first, b, items[a]);
    assert(exchanged(items, a, b).to_multiset() =~= items.to_multiset());
}

proof fn lemma_shuffled_from_is_a_permutation<T>(items: Seq<T>, state: u64, index: nat)
    requires
        index < items.len(),
    ensures
        shuffled_from(items, state, index).len() == items.len(),
        shuffled_from(items, state, index).to_multiset() == items.to_multiset(),
    decreases index,
{
    if index > 0 {
        let next = xorshift(state);
        let other = (next as usize) as int % (index + 1) as int;
        lemma_exchange_keeps_items(items, index as int, other);
        lemma_shuffled_from_is_a_permutation(
            exchanged(items, index as int, other),
            next,
            (index - 1) as nat,
        );
    }
}

/// Shuffling loses nothing and adds nothing.
pub proof fn law_shuffle_is_a_permutation<T>(items: Seq<T>, seed: u64)
    ensures
        shuffled(items, seed).len() == items.len(),
        shuffled(items, seed).to_multiset() == items.to_multiset(),
{
    if items.len() > 0 {
        lemma_shuffled_from_is_a_permutation(items, seed, (items.len() - 1) as nat);
    }
}

/// The exchanges at lower places leave the places above them as they are.
proof fn lemma_above_stays<T>(items: Seq<T>, state: u64, index: nat, at: int)
    requires
        index < at < items.len(),
    ensures
        shuffled_from(items, state, index)[at] == items[at],
    decreases index,
{
    if index > 0 {
        let next = xorshift(state);
        let other = (next as usize) as int % (index + 1) as int;
        lemma_above_stays(exchanged(items, index as int, other), next, (index - 1) as nat, at);
    }
}

/// The first number of the generator picks which item comes to the end, so seeds with numbers that
/// pick different places end a list with different items.
pub proof fn law_the_generator_picks_the_item<T>(items: Seq<T>, seed: u64)
    requires
        items.len() >= 2,
    ensures
        shuffled(items, seed).last() == items[(xorshift(seed) as usize) as int
            % items.len() as int],
{
    law_shuffle_is_a_permutation(items, seed);
    let last = items.len() - 1;
    let next = xorshift(seed);
    let other = (next as usize) as int % items.len() as int;
    let once = exchanged(items, last, other);
    if last > 0 {
        lemma_above_stays(once, next, (last - 1) as nat, last);
    }
}

/// A number of things, with an `s` where there is not exactly one.
pub open spec fn counted_text(n: int, singular: Seq<char>) -> Seq<char> {
    if n == 1 {
        "1 "@ + singular
    } else {
        decimal(n as nat) + " "@ + singular + "s"@
    }
}

/// `1 track`, `2 tracks`.
pub fn counted(n: usize, singular: &str) -> (text: String)
    ensures
        text@ == counted_text(n as int, singular@),
{
    if n == 1 {
        let mut text = "1 ".to_owned();
        text.append(singular);
        text
    } else {
        let mut text = String::new();
        append_decimal(&mut text, n as u64);
        text.append(" ");
        text.append(singular);
        text.append("s");
        assert(text@ =~= counted_text(n as int, singular@));
        text
    }
}

/// The word for a switch.
pub open spec fn on_off_text(value: bool) -> Seq<char> {
    if value {
        "On"@
    } else {
        "Off"@
    }
}

/// `On` or `Off`.
pub fn on_off(value: bool) -> (text: String)
    ensures
        text@ == on_off_text(value),
{
    if value {
        "On".to_owned()
    } else {
        "Off".to_owned()
    }
}

} // verus!
