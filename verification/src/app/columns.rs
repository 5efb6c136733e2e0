//! The order of tracks by a column of the playlist table.

use std::collections::BTreeMap;

use vstd::prelude::*;
use vstd::string::*;

use crate::model::{PlaylistColumn, Track, TrackId};
use crate::order::{
    law_sorting_keeps_items, law_sorting_sorts, law_text_order, sort_stably, sorted_by, sorts,
    text_before, text_less,
};
use crate::text::{lowercase, same_text, to_lowercase};

verus! {

broadcast use vstd::std_specs::btree::group_btree_axioms;

/// Whether a number comes before another; what is missing comes first.
pub open spec fn number_less(a: Option<u32>, b: Option<u32>) -> bool {
    match (a, b) {
        (None, Some(_)) => true,
        (Some(x), Some(y)) => x < y,
        _ => false,
    }
}

/// Whether a text comes before another, letter case left aside.
pub open spec fn word_less(a: Seq<char>, b: Seq<char>) -> bool {
    text_less(lowercase(a), lowercase(b))
}

/// Whether two texts are the same, letter case left aside.
pub open spec fn word_same(a: Seq<char>, b: Seq<char>) -> bool {
    lowercase(a) == lowercase(b)
}

/// Whether a track comes before another under a column.
pub open spec fn track_less(a: Track, b: Track, column: PlaylistColumn) -> bool {
    match column {
        PlaylistColumn::Number => number_less(a.track_number, b.track_number) || (a.track_number
            == b.track_number && word_less(a.title@, b.title@)),
        PlaylistColumn::Artist => word_less(a.artist@, b.artist@) || (word_same(
            a.artist@,
            b.artist@,
        ) && (word_less(a.album@, b.album@) || (word_same(a.album@, b.album@) && number_less(
            a.track_number,
            b.track_number,
        )))),
        PlaylistColumn::Title => word_less(a.title@, b.title@),
        PlaylistColumn::Album => word_less(a.album@, b.album@) || (word_same(a.album@, b.album@)
            && number_less(a.track_number, b.track_number)),
        PlaylistColumn::Date => number_less(a.date, b.date),
        PlaylistColumn::Time => a.duration.before(b.duration),
    }
}

/// Whether an item comes before another under a column; unknown tracks come last.
pub open spec fn item_less(
    tracks: Map<TrackId, Track>,
    column: PlaylistColumn,
    a: TrackId,
    b: TrackId,
) -> bool {
    tracks.contains_key(a) && (!tracks.contains_key(b) || track_less(
        tracks[a],
        tracks[b],
        column,
    ))
}

/// The order that a column gives, from its beginning or from its end.
pub open spec fn column_order(
    tracks: Map<TrackId, Track>,
    column: PlaylistColumn,
    ascending: bool,
) -> spec_fn(TrackId, TrackId) -> bool {
    |a: TrackId, b: TrackId|
        if ascending {
            item_less(tracks, column, a, b)
        } else {
            item_less(tracks, column, b, a)
        }
}

fn is_number_less(a: Option<u32>, b: Option<u32>) -> (less: bool)
    ensures
        less == number_less(a, b),
{
    match a {
        None => b.is_some(),
        Some(x) => match b {
            None => false,
            Some(y) => x < y,
        },
    }
}

fn same_number(a: Option<u32>, b: Option<u32>) -> (same: bool)
    ensures
        same == (a == b),
{
    match a {
        None => b.is_none(),
        Some(x) => match b {
            None => false,
            Some(y) => x == y,
        },
    }
}

fn is_word_less(a: &str, b: &str) -> (less: bool)
    ensures
        less == word_less(a@, b@),
{
    let left = to_lowercase(a);
    let right = to_lowercase(b);
    text_before(&left, &right)
}

fn is_word_same(a: &str, b: &str) -> (same: bool)
    ensures
        same == word_same(a@, b@),
{
    let left = to_lowercase(a);
    let right = to_lowercase(b);
    same_text(&left, &right)
}

fn is_track_less(a: &Track, b: &Track, column: PlaylistColumn) -> (less: bool)
    ensures
        less == track_less(*a, *b, column),
{
    match column {
        PlaylistColumn::Number => is_number_less(a.track_number, b.track_number) || (same_number(
            a.track_number,
            b.track_number,
        ) && is_word_less(&a.title, &b.title)),
        PlaylistColumn::Artist => is_word_less(&a.artist, &b.artist) || (is_word_same(
            &a.artist,
            &b.artist,
        ) && (is_word_less(&a.album, &b.album) || (is_word_same(&a.album, &b.album)
            && is_number_less(a.track_number, b.track_number)))),
        PlaylistColumn::Title => is_word_less(&a.title, &b.title),
        PlaylistColumn::Album => is_word_less(&a.album, &b.album) || (is_word_same(
            &a.album,
            &b.album,
        ) && is_number_less(a.track_number, b.track_number)),
        PlaylistColumn::Date => is_number_less(a.date, b.date),
        PlaylistColumn::Time => a.duration.is_before(b.duration),
    }
}

/// Whether an item comes before another under a column.
pub fn is_item_less(
    tracks: &BTreeMap<TrackId, Track>,
    column: PlaylistColumn,
    a: TrackId,
    b: TrackId,
) -> (less: bool)
    ensures
        less == item_less(tracks@, column, a, b),
{
    match tracks.get(&a) {
        None => false,
        Some(left) => match tracks.get(&b) {
            None => true,
            Some(right) => is_track_less(left, right, column),
        },
    }
}

/// Sorts items by a column.
pub fn sort_items(
    items: &mut Vec<TrackId>,
    tracks: &BTreeMap<TrackId, Track>,
    column: PlaylistColumn,
    ascending: bool,
)
    ensures
        final(items)@ == sorted_by(old(items)@, column_order(tracks@, column, ascending)),
{
    let ghost less = column_order(tracks@, column, ascending);
    let before = |a: &TrackId, b: &TrackId| -> (r: bool)
        ensures
            r == less(*a, *b),
        {
            if ascending {
                is_item_less(tracks, column, *a, *b)
            } else {
                is_item_less(tracks, column, *b, *a)
            }
        };
    sort_stably(items, before, Ghost(less));
}

proof fn lemma_words(a: Seq<char>, b: Seq<char>, c: Seq<char>)
    ensures
        word_less(a, b) ==> !word_less(b, a),
        word_less(a, b) ==> !word_same(a, b),
        word_less(a, b) && !word_less(c, b) ==> word_less(a, c),
        !word_less(a, b) && !word_less(b, a) ==> word_same(a, b),
        word_same(a, b) && word_same(b, c) ==> word_same(a, c),
        word_same(a, b) ==> word_less(b, c) == word_less(a, c),
        word_same(a, b) ==> word_less(c, b) == word_less(c, a),
{
    law_text_order(lowercase(a), lowercase(b), lowercase(c));
    law_text_order(lowercase(a), lowercase(c), lowercase(b));
    law_text_order(lowercase(c), lowercase(b), lowercase(a));
    law_text_order(lowercase(b), lowercase(c), lowercase(a));
    law_text_order(lowercase(b), lowercase(a), lowercase(c));
}

proof fn lemma_track_order(a: Track, b: Track, c: Track, column: PlaylistColumn)
    ensures
        track_less(a, b, column) ==> !track_less(b, a, column),
        track_less(a, b, column) && !track_less(c, b, column) ==> track_less(a, c, column),
{
    lemma_words(a.title@, b.title@, c.title@);
    lemma_words(b.title@, a.title@, c.title@);
    lemma_words(a.title@, c.title@, b.title@);
    lemma_words(c.title@, b.title@, a.title@);
    lemma_words(a.artist@, b.artist@, c.artist@);
    lemma_words(b.artist@, a.artist@, c.artist@);
    lemma_words(a.artist@, c.artist@, b.artist@);
    lemma_words(c.artist@, b.artist@, a.artist@);
    lemma_words(a.album@, b.album@, c.album@);
    lemma_words(b.album@, a.album@, c.album@);
    lemma_words(a.album@, c.album@, b.album@);
    lemma_words(c.album@, b.album@, a.album@);
}

/// Every column orders tracks in a way that can sort them, forwards and backwards.
pub proof fn law_columns_sort(
    tracks: Map<TrackId, Track>,
    column: PlaylistColumn,
    ascending: bool,
)
    ensures
        sorts(column_order(tracks, column, ascending)),
{
    let less = column_order(tracks, column, ascending);
    assert forall|a: TrackId, b: TrackId| #[trigger] less(a, b) implies !less(b, a) by {
        lemma_track_order(tracks[a], tracks[b], tracks[a], column);
        lemma_track_order(tracks[b], tracks[a], tracks[a], column);
    }
    assert forall|a: TrackId, b: TrackId, c: TrackId|
        (#[trigger] less(a, b)) && !(#[trigger] less(c, b)) implies less(a, c) by {
        lemma_track_order(tracks[a], tracks[b], tracks[c], column);
        lemma_track_order(tracks[b], tracks[a], tracks[c], column);
        lemma_track_order(tracks[c], tracks[b], tracks[a], column);
        lemma_track_order(tracks[b], tracks[c], tracks[a], column);
        lemma_track_order(tracks[c], tracks[a], tracks[b], column);
        lemma_track_order(tracks[a], tracks[c], tracks[b], column);
    }
}

/// Whether a text does not come after another, letter case left aside.
pub open spec fn not_after(a: Seq<char>, b: Seq<char>) -> bool {
    !text_less(lowercase(b), lowercase(a))
}

/// Whether a number does not come after another; a missing one comes first.
pub open spec fn number_not_after(a: Option<u32>, b: Option<u32>) -> bool {
    let x: int = if a is Some { a->0 as int } else { -1 };
    let y: int = if b is Some { b->0 as int } else { -1 };
    x <= y
}

/// Whether the fields that a column is named after, and those that settle a tie, do not fall
/// from one track to another.
pub open spec fn fields_rise(a: Track, b: Track, column: PlaylistColumn) -> bool {
    let same_artist = lowercase(a.artist@) == lowercase(b.artist@);
    let same_album = lowercase(a.album@) == lowercase(b.album@);
    match column {
        PlaylistColumn::Number => number_not_after(a.track_number, b.track_number) && (
        a.track_number == b.track_number ==> not_after(a.title@, b.title@)),
        PlaylistColumn::Artist => not_after(a.artist@, b.artist@) && (same_artist ==> not_after(
            a.album@,
            b.album@,
        )) && (same_artist && same_album ==> number_not_after(a.track_number, b.track_number)),
        PlaylistColumn::Title => not_after(a.title@, b.title@),
        PlaylistColumn::Album => not_after(a.album@, b.album@) && (same_album ==> number_not_after(
            a.track_number,
            b.track_number,
        )),
        PlaylistColumn::Date => number_not_after(a.date, b.date),
        PlaylistColumn::Time => a.duration.secs < b.duration.secs || (a.duration.secs
            == b.duration.secs && a.duration.nanos <= b.duration.nanos),
    }
}

/// Sorted by a column, the tracks of a playlist rise from top to bottom in the field that the
/// column is named after, and tracks that are not known stand at the end. Sorted the other way
/// round, they fall, and those stand at the beginning.
pub proof fn law_sorted_columns_rise(
    items: Seq<TrackId>,
    tracks: Map<TrackId, Track>,
    column: PlaylistColumn,
    i: int,
    j: int,
)
    requires
        0 <= i < j < items.len(),
    ensures
        ({
            let up = sorted_by(items, column_order(tracks, column, true));
            &&& tracks.contains_key(up[j]) ==> tracks.contains_key(up[i]) && fields_rise(
                tracks[up[i]],
                tracks[up[j]],
                column,
            )
        }),
        ({
            let down = sorted_by(items, column_order(tracks, column, false));
            &&& tracks.contains_key(down[i]) ==> tracks.contains_key(down[j]) && fields_rise(
                tracks[down[j]],
                tracks[down[i]],
                column,
            )
        }),
        sorted_by(items, column_order(tracks, column, true)).to_multiset() == items.to_multiset(),
        sorted_by(items, column_order(tracks, column, false)).to_multiset() == items.to_multiset(),
{
    let rising = column_order(tracks, column, true);
    let falling = column_order(tracks, column, false);
    let up = sorted_by(items, rising);
    let down = sorted_by(items, falling);
    law_columns_sort(tracks, column, true);
    law_columns_sort(tracks, column, false);
    law_sorting_sorts(items, rising);
    law_sorting_sorts(items, falling);
    law_sorting_keeps_items(items, rising);
    law_sorting_keeps_items(items, falling);
    assert(!rising(up[j], up[i]));
    assert(!falling(down[j], down[i]));
    if tracks.contains_key(up[j]) {
        lemma_not_less_rises(tracks[up[i]], tracks[up[j]], column);
    }
    if tracks.contains_key(down[i]) {
        lemma_not_less_rises(tracks[down[j]], tracks[down[i]], column);
    }
}

proof fn lemma_not_less_rises(a: Track, b: Track, column: PlaylistColumn)
    requires
        !track_less(b, a, column),
    ensures
        fields_rise(a, b, column),
{
    lemma_words(a.artist@, b.artist@, a.artist@);
    lemma_words(b.artist@, a.artist@, b.artist@);
    lemma_words(a.album@, b.album@, a.album@);
    lemma_words(b.album@, a.album@, b.album@);
}

} // verus!
