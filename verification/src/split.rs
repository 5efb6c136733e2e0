//! Taking texts apart.

use vstd::prelude::*;
use vstd::slice::slice_subrange;
use vstd::string::*;

use crate::order::views;
use crate::text::{chars_of, is_whitespace, occurs_at, stands_at, text_of, white_space};

verus! {

/// The pieces of a text between the characters that separate; there is always one.
pub open spec fn pieces(text: Seq<char>, separates: spec_fn(char) -> bool) -> Seq<Seq<char>>
    decreases text.len(),
{
    if text.len() == 0 {
        seq![Seq::empty()]
    } else {
        let before = pieces(text.drop_last(), separates);
        if separates(text.last()) {
            before.push(Seq::empty())
        } else {
            before.drop_last().push(before.last().push(text.last()))
        }
    }
}

/// There is at least one piece.
pub proof fn lemma_pieces(text: Seq<char>, separates: spec_fn(char) -> bool)
    ensures
        pieces(text, separates).len() > 0,
    decreases text.len(),
{
    if text.len() > 0 {
        lemma_pieces(text.drop_last(), separates);
    }
}

/// A piece holds none of the characters that separate.
pub proof fn law_pieces_hold_no_separator(
    text: Seq<char>,
    separates: spec_fn(char) -> bool,
    i: int,
    k: int,
)
    requires
        0 <= i < pieces(text, separates).len(),
        0 <= k < pieces(text, separates)[i].len(),
    ensures
        !separates(pieces(text, separates)[i][k]),
    decreases text.len(),
{
    if text.len() > 0 {
        let before = pieces(text.drop_last(), separates);
        lemma_pieces(text.drop_last(), separates);
        if i < before.len() && k < before[i].len() {
            law_pieces_hold_no_separator(text.drop_last(), separates, i, k);
        }
    }
}

/// Whether a character is this one.
pub open spec fn only(separator: char) -> spec_fn(char) -> bool {
    |c: char| c == separator
}

/// The pieces of a text between one character.
pub open spec fn parts(text: Seq<char>, separator: char) -> Seq<Seq<char>> {
    pieces(text, only(separator))
}

/// Splits a text at every occurrence of a character.
pub fn split_at_char(text: &str, separator: char) -> (found: Vec<String>)
    ensures
        views(found@) == parts(text@, separator),
{
    let chars = chars_of(text);
    let ghost sep = only(separator);
    let mut done: Vec<String> = Vec::new();
    let mut open = String::new();
    let mut i: usize = 0;
    assert(views(done@).push(open@) =~= pieces(chars@.take(0), sep));
    while i < chars.len()
        invariant
            i <= chars@.len(),
            sep == only(separator),
            views(done@).push(open@) == pieces(chars@.take(i as int), sep),
        decreases chars@.len() - i,
    {
        assert(chars@.take(i + 1).drop_last() =~= chars@.take(i as int));
        let ghost before = views(done@).push(open@);
        assert(before.drop_last() =~= views(done@));
        let ghost earlier = done@;
        if chars[i] == separator {
            let mut next = String::new();
            core::mem::swap(&mut next, &mut open);
            done.push(next);
            assert(views(done@) =~= views(earlier).push(next@));
            assert(open@ =~= Seq::empty());
        } else {
            open.push(chars[i]);
        }
        i = i + 1;
        assert(views(done@).push(open@) =~= pieces(chars@.take(i as int), sep));
    }
    assert(chars@.take(i as int) =~= text@);
    let ghost earlier = done@;
    done.push(open);
    assert(views(done@) =~= views(earlier).push(open@));
    done
}

/// The words of a text: what stands between white space.
pub open spec fn words(text: Seq<char>) -> Seq<Seq<char>> {
    pieces(text, |c: char| white_space(c)).filter(|piece: Seq<char>| piece.len() > 0)
}

proof fn lemma_filter_last<T>(items: Seq<T>, keep: spec_fn(T) -> bool)
    requires
        items.len() > 0,
    ensures
        items.filter(keep) == if keep(items.last()) {
            items.drop_last().filter(keep).push(items.last())
        } else {
            items.drop_last().filter(keep)
        },
{
    reveal(Seq::filter);
}

/// Splits a text into its words.
pub fn split_words(text: &str) -> (found: Vec<String>)
    ensures
        views(found@) == words(text@),
{
    let chars = chars_of(text);
    let ghost sep = |c: char| white_space(c);
    let ghost full = |piece: Seq<char>| piece.len() > 0;
    let mut done: Vec<String> = Vec::new();
    let mut open = String::new();
    let mut i: usize = 0;
    proof {
        reveal(Seq::filter);
        assert(pieces(chars@.take(0), sep).drop_last() =~= Seq::empty());
        assert(views(done@) =~= pieces(chars@.take(0), sep).drop_last().filter(full));
        assert(open@ =~= Seq::empty());
    }
    while i < chars.len()
        invariant
            i <= chars@.len(),
            sep == (|c: char| white_space(c)),
            full == (|piece: Seq<char>| piece.len() > 0),
            pieces(chars@.take(i as int), sep).len() > 0,
            open@ == pieces(chars@.take(i as int), sep).last(),
            views(done@) == pieces(chars@.take(i as int), sep).drop_last().filter(full),
        decreases chars@.len() - i,
    {
        let ghost before = pieces(chars@.take(i as int), sep);
        assert(chars@.take(i + 1).drop_last() =~= chars@.take(i as int));
        let ghost after = pieces(chars@.take(i + 1), sep);
        let ghost earlier = done@;
        if is_whitespace(chars[i]) {
            proof {
                assert(after.drop_last() =~= before);
                lemma_filter_last(before, full);
            }
            let mut next = String::new();
            core::mem::swap(&mut next, &mut open);
            if !next.as_str().is_empty() {
                done.push(next);
                assert(views(done@) =~= views(earlier).push(next@));
            }
            assert(open@ =~= Seq::empty());
        } else {
            assert(after.drop_last() =~= before.drop_last());
            open.push(chars[i]);
        }
        i = i + 1;
    }
    assert(chars@.take(i as int) =~= text@);
    proof {
        lemma_filter_last(pieces(text@, sep), full);
    }
    let ghost earlier = done@;
    if !open.as_str().is_empty() {
        done.push(open);
        assert(views(done@) =~= views(earlier).push(open@));
    }
    done
}

/// The first place of a character, or the length where there is none.
pub open spec fn first_index(text: Seq<char>, c: char) -> int
    decreases text.len(),
{
    if text.len() == 0 || text[0] == c {
        0
    } else {
        1 + first_index(text.skip(1), c)
    }
}

pub proof fn lemma_first_index(text: Seq<char>, c: char)
    ensures
        0 <= first_index(text, c) <= text.len(),
        first_index(text, c) < text.len() ==> text[first_index(text, c)] == c,
        forall|i: int| 0 <= i < first_index(text, c) ==> text[i] != c,
    decreases text.len(),
{
    if text.len() > 0 && text[0] != c {
        let rest = text.skip(1);
        lemma_first_index(rest, c);
        assert forall|i: int| 0 <= i < first_index(text, c) implies text[i] != c by {
            if i > 0 {
                assert(rest[i - 1] == text[i]);
            }
        }
    }
}

proof fn lemma_first_index_is(text: Seq<char>, c: char, at: int)
    requires
        0 <= at <= text.len(),
        at < text.len() ==> text[at] == c,
        forall|i: int| 0 <= i < at ==> text[i] != c,
    ensures
        first_index(text, c) == at,
{
    lemma_first_index(text, c);
    let found = first_index(text, c);
    if found < at {
        assert(text[found] != c);
    }
}

/// What stands before and after the first occurrence of a character.
pub open spec fn cut(text: Seq<char>, c: char) -> Option<(Seq<char>, Seq<char>)> {
    let at = first_index(text, c);
    if at < text.len() {
        Some((text.take(at), text.skip(at + 1)))
    } else {
        None
    }
}

/// Cuts a text in two at the first occurrence of a character.
pub fn split_once(text: &str, c: char) -> (halves: Option<(String, String)>)
    ensures
        cut(text@, c) == match halves {
            Some((left, right)) => Some((left@, right@)),
            None => None,
        },
{
    let chars = chars_of(text);
    let mut at: usize = 0;
    while at < chars.len() && chars[at] != c
        invariant
            at <= chars@.len(),
            forall|i: int| 0 <= i < at ==> chars@[i] != c,
        decreases chars@.len() - at,
    {
        at = at + 1;
    }
    proof {
        lemma_first_index_is(chars@, c, at as int);
    }
    if at < chars.len() {
        let left = text_of(slice_subrange(&chars, 0, at));
        let right = text_of(slice_subrange(&chars, at + 1, chars.len()));
        assert(left@ =~= text@.take(at as int));
        assert(right@ =~= text@.skip(at + 1));
        Some((left, right))
    } else {
        None
    }
}

/// Whether a text begins with another.
pub open spec fn begins(text: Seq<char>, prefix: Seq<char>) -> bool {
    prefix.len() <= text.len() && text.take(prefix.len() as int) == prefix
}

pub fn starts_with(text: &str, prefix: &str) -> (found: bool)
    ensures
        found == begins(text@, prefix@),
{
    let chars = chars_of(text);
    let lead = chars_of(prefix);
    assert(prefix@.len() <= text@.len() ==> text@.subrange(0, prefix@.len() as int)
        =~= text@.take(prefix@.len() as int));
    stands_at(&lead, &chars, 0)
}

/// What is left of a text behind a beginning.
pub open spec fn behind(text: Seq<char>, prefix: Seq<char>) -> Option<Seq<char>> {
    if begins(text, prefix) {
        Some(text.skip(prefix.len() as int))
    } else {
        None
    }
}

pub fn strip_prefix(text: &str, prefix: &str) -> (rest: Option<String>)
    ensures
        behind(text@, prefix@) == match rest {
            Some(rest) => Some(rest@),
            None => None,
        },
{
    let chars = chars_of(text);
    let lead = chars_of(prefix);
    assert(prefix@.len() <= text@.len() ==> text@.subrange(0, prefix@.len() as int)
        =~= text@.take(prefix@.len() as int));
    if stands_at(&lead, &chars, 0) {
        let rest = text_of(slice_subrange(&chars, lead.len(), chars.len()));
        assert(rest@ =~= text@.skip(prefix@.len() as int));
        Some(rest)
    } else {
        None
    }
}

/// A text without an ending, as often as it has it.
pub open spec fn without_ending(text: Seq<char>, ending: Seq<char>) -> Seq<char>
    decreases text.len(),
{
    if ending.len() > 0 && occurs_at(ending, text, text.len() - ending.len()) {
        without_ending(text.take(text.len() - ending.len()), ending)
    } else {
        text
    }
}

pub fn trim_ending(text: &str, ending: &str) -> (rest: String)
    ensures
        rest@ == without_ending(text@, ending@),
{
    let chars = chars_of(text);
    let last = chars_of(ending);
    let mut end: usize = chars.len();
    assert(chars@.take(end as int) =~= chars@);
    while last.len() > 0 && end >= last.len() && stands_at(
        &last,
        slice_subrange(&chars, 0, end),
        end - last.len(),
    )
        invariant
            end <= chars@.len(),
            without_ending(chars@, last@) == without_ending(chars@.take(end as int), last@),
        decreases end,
    {
        let ghost before = chars@.take(end as int);
        assert(chars@.subrange(0, end as int) =~= before);
        assert(before.take(end - last@.len()) =~= chars@.take(end - last@.len()));
        end = end - last.len();
    }
    assert(chars@.subrange(0, end as int) =~= chars@.take(end as int));
    text_of(slice_subrange(&chars, 0, end))
}

} // verus!
