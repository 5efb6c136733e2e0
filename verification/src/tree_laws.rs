//! What the library list is for.

use vstd::prelude::*;
use vstd::seq_lib::*;
use vstd::string::*;

use crate::model::Track;
use crate::order::{
    concat_map, law_sorting_keeps_items, law_sorting_sorts, law_text_order, sorts, text_less,
};
use crate::text::lowercase;
use crate::tree::{
    album_block, album_order, albums_of, artist_block, artists_of, before_on_album, by_artist,
    from_server, grouped, ids_of, lemma_parts, local_tracks, on_album, server_block, servers_of,
    tree_rows, EntryView,
};

verus! {

/// Whether a row is the one of a track.
pub open spec fn is_row_of(row: EntryView, track: Track) -> bool {
    &&& row.track_id == Some(track.id)
    &&& row.label == track.title@
    &&& row.track_ids =~= seq![track.id]
    &&& row.unavailable == (track.unavailable || track.scan_error is Some)
}

/// Whether a track may stand before another on an album: its number is no larger, where a
/// missing number counts as the largest; under one number the titles do not fall, letter case
/// left aside.
pub open spec fn may_stand_before(a: Track, b: Track) -> bool {
    let x = if a.track_number is Some { a.track_number->0 } else { u32::MAX };
    let y = if b.track_number is Some { b.track_number->0 } else { u32::MAX };
    x <= y && (x == y ==> !text_less(lowercase(b.title@), lowercase(a.title@)))
}

/// Whether two rows of one album are tracks of that album, in order.
pub open spec fn stand_in_order(tracks: Seq<Track>, upper: EntryView, lower: EntryView) -> bool {
    exists|a: Track, b: Track|
        {
            &&& tracks.contains(a)
            &&& tracks.contains(b)
            &&& #[trigger] is_row_of(upper, a)
            &&& #[trigger] is_row_of(lower, b)
            &&& a.artist@ == b.artist@
            &&& a.album@ == b.album@
            &&& may_stand_before(a, b)
        }
}

/// Whether the rows from one to another are tracks, with no heading between them.
pub open spec fn under_one_heading(rows: Seq<EntryView>, i: int, j: int) -> bool {
    forall|k: int| i <= k <= j ==> (#[trigger] rows[k]).track_id is Some
}

/// The heading of a depth that a row stands below.
pub open spec fn heading_above(rows: Seq<EntryView>, i: int, depth: int) -> Option<EntryView>
    decreases i + 1,
{
    if i < 0 || i >= rows.len() {
        None
    } else if rows[i].track_id is None && rows[i].depth == depth {
        Some(rows[i])
    } else {
        heading_above(rows, i - 1, depth)
    }
}

/// Whether a track's row stands below its album and its artist.
pub open spec fn stands_below(tracks: Seq<Track>, rows: Seq<EntryView>, i: int) -> bool {
    exists|a: Track|
        {
            &&& tracks.contains(a)
            &&& #[trigger] is_row_of(rows[i], a)
            &&& heading_above(rows, i, rows[i].depth - 1) matches Some(album) && album.label
                == a.album@
            &&& heading_above(rows, i, rows[i].depth - 2) matches Some(artist) && artist.label
                == a.artist@
        }
}

/// Whether a heading right above a track lists the tracks below it, from top to bottom, and no
/// others.
pub open spec fn lists_what_is_below(rows: Seq<EntryView>, g: int) -> bool {
    let ids = rows[g].track_ids;
    &&& g + ids.len() < rows.len()
    &&& forall|k: int| 0 <= k < ids.len() ==> rows[g + 1 + k].track_id == Some(#[trigger] ids[k])
    &&& g + 1 + ids.len() < rows.len() ==> rows[g + 1 + ids.len()].track_id is None
}

/// Whether rows are those of a library: tracks below their artists and albums, in order.
pub open spec fn library_rows(tracks: Seq<Track>, rows: Seq<EntryView>) -> bool {
    &&& forall|i: int, j: int|
        0 <= i < j < rows.len() && #[trigger] under_one_heading(rows, i, j) ==> stand_in_order(
            tracks,
            rows[i],
            rows[j],
        )
    &&& forall|i: int|
        0 <= i < rows.len() && (#[trigger] rows[i]).track_id is Some ==> stands_below(
            tracks,
            rows,
            i,
        )
    &&& forall|g: int|
        #![trigger rows[g]]
        0 <= g < rows.len() - 1 && rows[g].track_id is None && rows[g + 1].track_id is Some
            ==> lists_what_is_below(rows, g)
    &&& rows.len() > 0 ==> rows[0].track_id is None
}

proof fn lemma_heading_front(front: Seq<EntryView>, back: Seq<EntryView>, i: int, depth: int)
    requires
        i < front.len(),
    ensures
        heading_above(front + back, i, depth) == heading_above(front, i, depth),
    decreases i + 1,
{
    if i >= 0 {
        assert((front + back)[i] == front[i]);
        lemma_heading_front(front, back, i - 1, depth);
    }
}

proof fn lemma_heading_back(front: Seq<EntryView>, back: Seq<EntryView>, i: int, depth: int)
    requires
        0 <= i < back.len(),
        heading_above(back, i, depth) is Some,
    ensures
        heading_above(front + back, front.len() + i, depth) == heading_above(back, i, depth),
    decreases i,
{
    assert((front + back)[front.len() + i] == back[i]);
    if !(back[i].track_id is None && back[i].depth == depth) {
        assert(i > 0) by {
            if i == 0 {
                assert(heading_above(back, -1, depth) is None);
            }
        }
        lemma_heading_back(front, back, i - 1, depth);
    }
}

/// Rows of a library behind rows of a library are rows of a library.
proof fn lemma_joined(tracks: Seq<Track>, front: Seq<EntryView>, back: Seq<EntryView>)
    requires
        library_rows(tracks, front),
        library_rows(tracks, back),
    ensures
        library_rows(tracks, front + back),
{
    let rows = front + back;
    let n = front.len() as int;
    if back.len() == 0 {
        assert(rows =~= front);
    } else {
        assert forall|i: int, j: int|
            0 <= i < j < rows.len() && #[trigger] under_one_heading(rows, i, j) implies stand_in_order(
            tracks,
            rows[i],
            rows[j],
        ) by {
            if j < n {
                assert(under_one_heading(front, i, j)) by {
                    assert forall|k: int| i <= k <= j implies (#[trigger] front[k]).track_id is Some by {
                        assert(rows[k] == front[k]);
                    }
                }
            } else if i >= n {
                assert(under_one_heading(back, i - n, j - n)) by {
                    assert forall|k: int| i - n <= k <= j - n implies (
                    #[trigger] back[k]).track_id is Some by {
                        assert(rows[k + n] == back[k]);
                    }
                }
            } else {
                assert(rows[n] == back[0]);
            }
        }
        assert forall|i: int|
            0 <= i < rows.len() && (#[trigger] rows[i]).track_id is Some implies stands_below(
            tracks,
            rows,
            i,
        ) by {
            let d = rows[i].depth;
            if i < n {
                assert(front[i] == rows[i]);
                assert(stands_below(tracks, front, i));
                lemma_heading_front(front, back, i, d - 1);
                lemma_heading_front(front, back, i, d - 2);
            } else {
                assert(back[i - n] == rows[i]);
                assert(stands_below(tracks, back, i - n));
                lemma_heading_back(front, back, i - n, d - 1);
                lemma_heading_back(front, back, i - n, d - 2);
            }
        }
        assert forall|g: int|
            #![trigger rows[g]]
            0 <= g < rows.len() - 1 && rows[g].track_id is None && rows[g
                + 1].track_id is Some implies lists_what_is_below(rows, g) by {
            if g < n - 1 {
                assert(front[g] == rows[g] && front[g + 1] == rows[g + 1]);
                assert(lists_what_is_below(front, g));
                let ids = rows[g].track_ids;
                assert forall|k: int| 0 <= k < ids.len() implies rows[g + 1 + k].track_id == Some(
                    #[trigger] ids[k],
                ) by {
                    assert(front[g + 1 + k] == rows[g + 1 + k]);
                }
                if g + 1 + ids.len() < n {
                    assert(front[g + 1 + ids.len()] == rows[g + 1 + ids.len()]);
                } else {
                    assert(rows[n] == back[0]);
                }
            } else if g == n - 1 {
                assert(rows[g + 1] == back[0]);
            } else {
                let h = g - n;
                assert(back[h] == rows[g] && back[h + 1] == rows[g + 1]);
                assert(lists_what_is_below(back, h));
                let ids = rows[g].track_ids;
                assert forall|k: int| 0 <= k < ids.len() implies rows[g + 1 + k].track_id == Some(
                    #[trigger] ids[k],
                ) by {
                    assert(back[h + 1 + k] == rows[g + 1 + k]);
                }
                if g + 1 + ids.len() < rows.len() {
                    assert(back[h + 1 + ids.len()] == rows[g + 1 + ids.len()]);
                }
            }
        }
    }
}

proof fn lemma_concat_library<T>(
    tracks: Seq<Track>,
    items: Seq<T>,
    block: spec_fn(T) -> Seq<EntryView>,
)
    requires
        forall|i: int| 0 <= i < items.len() ==> library_rows(tracks, block(#[trigger] items[i])),
    ensures
        library_rows(tracks, concat_map(items, block)),
    decreases items.len(),
{
    if items.len() > 0 {
        let rest = items.drop_last();
        assert forall|i: int| 0 <= i < rest.len() implies library_rows(
            tracks,
            block(#[trigger] rest[i]),
        ) by {
            assert(rest[i] == items[i]);
        }
        lemma_concat_library(tracks, rest, block);
        assert(items.last() == items[items.len() - 1]);
        lemma_joined(tracks, concat_map(rest, block), block(items.last()));
    }
}

proof fn lemma_album_order(own: Seq<Track>)
    ensures
        ({
            let ordered = album_order(own);
            &&& ordered.len() == own.len()
            &&& forall|k: int| 0 <= k < ordered.len() ==> own.contains(#[trigger] ordered[k])
            &&& forall|i: int, j: int|
                0 <= i < j < ordered.len() ==> may_stand_before(
                    #[trigger] ordered[i],
                    #[trigger] ordered[j],
                )
        }),
{
    let less = |a: Track, b: Track| before_on_album(a, b);
    let ordered = album_order(own);
    assert(sorts(less)) by {
        assert forall|a: Track, b: Track| #[trigger] less(a, b) implies !less(b, a) by {
            law_text_order(lowercase(a.title@), lowercase(b.title@), lowercase(a.title@));
        }
        assert forall|a: Track, b: Track, c: Track|
            (#[trigger] less(a, b)) && !(#[trigger] less(c, b)) implies less(a, c) by {
            law_text_order(lowercase(a.title@), lowercase(b.title@), lowercase(c.title@));
            law_text_order(lowercase(b.title@), lowercase(c.title@), lowercase(a.title@));
            law_text_order(lowercase(a.title@), lowercase(c.title@), lowercase(b.title@));
        }
    }
    law_sorting_sorts(own, less);
    law_sorting_keeps_items(own, less);
    own.to_multiset_ensures();
    ordered.to_multiset_ensures();
    assert forall|k: int| 0 <= k < ordered.len() implies own.contains(#[trigger] ordered[k]) by {
        assert(ordered.contains(ordered[k]));
        assert(ordered.to_multiset().contains(ordered[k]));
        assert(own.to_multiset().contains(ordered[k]));
    }
    assert forall|i: int, j: int| 0 <= i < j < ordered.len() implies may_stand_before(
        #[trigger] ordered[i],
        #[trigger] ordered[j],
    ) by {
        assert(!less(ordered[j], ordered[i]));
    }
}

/// Whether a row is one of a track on an artist's album.
spec fn on_disc(tracks: Seq<Track>, row: EntryView, artist: Seq<char>, album: Seq<char>) -> bool {
    exists|a: Track|
        tracks.contains(a) && #[trigger] is_row_of(row, a) && a.artist@ == artist && a.album@
            == album
}

proof fn lemma_album_block(
    tracks: Seq<Track>,
    own: Seq<Track>,
    artist: Seq<char>,
    album: Seq<char>,
    depth: int,
)
    requires
        forall|track: Track| #[trigger]
            own.contains(track) ==> tracks.contains(track) && track.artist@ == artist,
    ensures
        ({
            let rows = album_block(own, album, depth);
            &&& rows.len() > 0
            &&& rows[0].track_id is None && rows[0].depth == depth + 1
            &&& forall|i: int| 0 < i < rows.len() ==> (#[trigger] rows[i]).depth == depth + 2
                && rows[i].track_id is Some
            &&& forall|i: int|
                0 < i < rows.len() ==> on_disc(tracks, #[trigger] rows[i], artist, album)
            &&& forall|i: int, j: int|
                0 < i < j < rows.len() ==> stand_in_order(
                    tracks,
                    #[trigger] rows[i],
                    #[trigger] rows[j],
                )
            &&& rows[0].label == album
            &&& rows[0].track_ids.len() == rows.len() - 1
            &&& forall|k: int|
                0 <= k < rows.len() - 1 ==> rows[k + 1].track_id == Some(
                    #[trigger] rows[0].track_ids[k],
                )
        }),
{
    let rows = album_block(own, album, depth);
    let disc = on_album(own, album);
    let ordered = album_order(disc);
    lemma_album_order(disc);
    lemma_parts(own, album);
    assert forall|k: int| 0 <= k < ordered.len() implies tracks.contains(#[trigger] ordered[k])
        && ordered[k].artist@ == artist && ordered[k].album@ == album && is_row_of(
        rows[k + 1],
        ordered[k],
    ) by {
        assert(disc.contains(ordered[k]));
        assert(own.contains(ordered[k]));
    }
    assert forall|i: int| 0 < i < rows.len() implies on_disc(
        tracks,
        #[trigger] rows[i],
        artist,
        album,
    ) by {
        assert(is_row_of(rows[i], ordered[i - 1]));
    }
    assert forall|i: int, j: int| 0 < i < j < rows.len() implies stand_in_order(
        tracks,
        #[trigger] rows[i],
        #[trigger] rows[j],
    ) by {
        let a = ordered[i - 1];
        let b = ordered[j - 1];
        assert(is_row_of(rows[i], a) && is_row_of(rows[j], b));
        assert(may_stand_before(a, b));
    }
    assert(rows[0].track_ids == ids_of(ordered));
    assert forall|k: int| 0 <= k < rows.len() - 1 implies rows[k + 1].track_id == Some(
        #[trigger] rows[0].track_ids[k],
    ) by {
        assert(is_row_of(rows[k + 1], ordered[k]));
    }
}

/// The headings above the tracks of an album's block, behind whatever stands above it.
proof fn lemma_heading_of_block(front: Seq<EntryView>, block: Seq<EntryView>, i: int, depth: int)
    requires
        block.len() > 0,
        block[0].track_id is None,
        block[0].depth == depth + 1,
        forall|k: int| 0 < k < block.len() ==> (#[trigger] block[k]).track_id is Some,
        0 < i < block.len(),
    ensures
        heading_above(front + block, front.len() + i, depth + 1) == Some(block[0]),
        heading_above(front + block, front.len() + i, depth) == heading_above(
            front,
            front.len() - 1,
            depth,
        ),
    decreases i,
{
    let rows = front + block;
    reveal_with_fuel(heading_above, 2);
    assert(rows[front.len() + i] == block[i]);
    if i == 1 {
        assert(rows[front.len() as int] == block[0]);
        lemma_heading_front(front, block, front.len() - 1, depth);
    } else {
        lemma_heading_of_block(front, block, i - 1, depth);
    }
}

/// An album's block behind an artist's row and some of the artist's albums.
proof fn lemma_album_joined(
    tracks: Seq<Track>,
    front: Seq<EntryView>,
    own: Seq<Track>,
    artist: Seq<char>,
    album: Seq<char>,
    depth: int,
)
    requires
        library_rows(tracks, front),
        front.len() > 0,
        heading_above(front, front.len() - 1, depth) matches Some(row) && row.label == artist,
        forall|track: Track| #[trigger]
            own.contains(track) ==> tracks.contains(track) && track.artist@ == artist,
    ensures
        ({
            let rows = front + album_block(own, album, depth);
            &&& library_rows(tracks, rows)
            &&& heading_above(rows, rows.len() - 1, depth) == heading_above(
                front,
                front.len() - 1,
                depth,
            )
        }),
{
    let block = album_block(own, album, depth);
    let rows = front + block;
    let n = front.len() as int;
    lemma_album_block(tracks, own, artist, album, depth);
    if block.len() > 1 {
        lemma_heading_of_block(front, block, block.len() - 1, depth);
    } else {
        reveal_with_fuel(heading_above, 2);
        assert(rows[n] == block[0]);
        lemma_heading_front(front, block, n - 1, depth);
    }
    assert forall|i: int, j: int|
        0 <= i < j < rows.len() && #[trigger] under_one_heading(rows, i, j) implies stand_in_order(
        tracks,
        rows[i],
        rows[j],
    ) by {
        if j < n {
            assert(under_one_heading(front, i, j)) by {
                assert forall|k: int| i <= k <= j implies (#[trigger] front[k]).track_id is Some by {
                    assert(rows[k] == front[k]);
                }
            }
        } else if i > n {
            assert(rows[i] == block[i - n] && rows[j] == block[j - n]);
        } else {
            assert(rows[n] == block[0]);
        }
    }
    assert forall|i: int|
        0 <= i < rows.len() && (#[trigger] rows[i]).track_id is Some implies stands_below(
        tracks,
        rows,
        i,
    ) by {
        if i < n {
            assert(front[i] == rows[i]);
            assert(stands_below(tracks, front, i));
            lemma_heading_front(front, block, i, rows[i].depth - 1);
            lemma_heading_front(front, block, i, rows[i].depth - 2);
        } else {
            assert(rows[i] == block[i - n]);
            lemma_heading_of_block(front, block, i - n, depth);
            let a = choose|a: Track|
                tracks.contains(a) && #[trigger] is_row_of(block[i - n], a) && a.artist@ == artist
                    && a.album@ == album;
            assert(is_row_of(rows[i], a));
        }
    }
    assert forall|g: int|
        #![trigger rows[g]]
        0 <= g < rows.len() - 1 && rows[g].track_id is None && rows[g
            + 1].track_id is Some implies lists_what_is_below(rows, g) by {
        let ids = rows[g].track_ids;
        if g < n - 1 {
            assert(front[g] == rows[g] && front[g + 1] == rows[g + 1]);
            assert(lists_what_is_below(front, g));
            assert forall|k: int| 0 <= k < ids.len() implies rows[g + 1 + k].track_id == Some(
                #[trigger] ids[k],
            ) by {
                assert(front[g + 1 + k] == rows[g + 1 + k]);
            }
            if g + 1 + ids.len() < n {
                assert(front[g + 1 + ids.len()] == rows[g + 1 + ids.len()]);
            } else {
                assert(rows[n] == block[0]);
            }
        } else if g == n - 1 {
            assert(rows[g + 1] == block[0]);
        } else {
            assert(rows[g] == block[g - n]);
            assert(g == n);
            assert forall|k: int| 0 <= k < ids.len() implies rows[g + 1 + k].track_id == Some(
                #[trigger] ids[k],
            ) by {
                assert(rows[g + 1 + k] == block[k + 1]);
            }
        }
    }
    assert(rows[0] == front[0]);
}

proof fn lemma_albums_joined(
    tracks: Seq<Track>,
    front: Seq<EntryView>,
    own: Seq<Track>,
    artist: Seq<char>,
    albums: Seq<Seq<char>>,
    depth: int,
)
    requires
        library_rows(tracks, front),
        front.len() > 0,
        heading_above(front, front.len() - 1, depth) matches Some(row) && row.label == artist,
        forall|track: Track| #[trigger]
            own.contains(track) ==> tracks.contains(track) && track.artist@ == artist,
    ensures
        ({
            let rows = front + concat_map(
                albums,
                |album: Seq<char>| album_block(own, album, depth),
            );
            &&& library_rows(tracks, rows)
            &&& heading_above(rows, rows.len() - 1, depth) matches Some(row) && row.label == artist
        }),
    decreases albums.len(),
{
    let block = |album: Seq<char>| album_block(own, album, depth);
    let rows = front + concat_map(albums, block);
    if albums.len() == 0 {
        assert(rows =~= front);
    } else {
        let rest = albums.drop_last();
        lemma_albums_joined(tracks, front, own, artist, rest, depth);
        let before = front + concat_map(rest, block);
        lemma_album_joined(tracks, before, own, artist, albums.last(), depth);
        assert(rows =~= before + block(albums.last()));
    }
}

proof fn lemma_single(tracks: Seq<Track>, head: EntryView)
    requires
        head.track_id is None,
    ensures
        library_rows(tracks, seq![head]),
        heading_above(seq![head], 0, head.depth) == Some(head),
{
    reveal_with_fuel(heading_above, 2);
    let one = seq![head];
    assert forall|i: int, j: int|
        0 <= i < j < one.len() && #[trigger] under_one_heading(one, i, j) implies stand_in_order(
        tracks,
        one[i],
        one[j],
    ) by {}
}

proof fn lemma_artist_block(tracks: Seq<Track>, own: Seq<Track>, artist: Seq<char>, depth: int)
    requires
        forall|track: Track| #[trigger] own.contains(track) ==> tracks.contains(track),
    ensures
        library_rows(tracks, artist_block(own, artist, depth)),
{
    let theirs = by_artist(own, artist);
    lemma_parts(own, artist);
    assert forall|track: Track| #[trigger] theirs.contains(track) implies tracks.contains(track)
        && track.artist@ == artist by {
        assert(own.contains(track));
    }
    let rows = artist_block(own, artist, depth);
    lemma_single(tracks, rows[0]);
    lemma_albums_joined(tracks, seq![rows[0]], theirs, artist, albums_of(theirs), depth);
    assert(rows =~= seq![rows[0]] + concat_map(
        albums_of(theirs),
        |album: Seq<char>| album_block(theirs, album, depth),
    ));
}

proof fn lemma_grouped(tracks: Seq<Track>, own: Seq<Track>, depth: int)
    requires
        forall|track: Track| #[trigger] own.contains(track) ==> tracks.contains(track),
    ensures
        library_rows(tracks, grouped(own, depth)),
{
    let artists = artists_of(own);
    let block = |artist: Seq<char>| artist_block(own, artist, depth);
    assert forall|i: int| 0 <= i < artists.len() implies library_rows(
        tracks,
        block(#[trigger] artists[i]),
    ) by {
        lemma_artist_block(tracks, own, artists[i], depth);
    }
    lemma_concat_library(tracks, artists, block);
}

proof fn lemma_head_joined(tracks: Seq<Track>, head: EntryView, rows: Seq<EntryView>)
    requires
        head.track_id is None,
        library_rows(tracks, rows),
    ensures
        library_rows(tracks, seq![head] + rows),
{
    lemma_single(tracks, head);
    lemma_joined(tracks, seq![head], rows);
}

/// The library list shows tracks below their albums and these below their artists. The tracks
/// of an album stand in the order of their numbers, those without one last, and under one
/// number by title. The row of an album lists its tracks in the order in which they stand
/// below it, and no others.
pub proof fn law_tracks_stand_below_their_albums_in_order(
    tracks: Seq<Track>,
    split_origins: bool,
    disconnected: bool,
    keep_empty_local: bool,
)
    ensures
        library_rows(tracks, tree_rows(tracks, split_origins, disconnected, keep_empty_local)),
{
    if !split_origins {
        lemma_grouped(tracks, tracks, 0);
    } else {
        let rows = tree_rows(tracks, split_origins, disconnected, keep_empty_local);
        let local = local_tracks(tracks);
        let head = if keep_empty_local || local.len() > 0 {
            rows.take(1 + grouped(local, 1).len() as int)
        } else {
            Seq::empty()
        };
        lemma_parts(tracks, Seq::empty());
        lemma_grouped(tracks, local, 1);
        let servers = servers_of(tracks);
        let block = |server: Seq<char>| server_block(tracks, server, disconnected);
        assert forall|i: int| 0 <= i < servers.len() implies library_rows(
            tracks,
            block(#[trigger] servers[i]),
        ) by {
            let server = servers[i];
            let own = from_server(tracks, server);
            lemma_parts(tracks, server);
            lemma_grouped(tracks, own, 1);
            let whole = block(server);
            lemma_head_joined(tracks, whole[0], grouped(own, 1));
            assert(whole =~= seq![whole[0]] + grouped(own, 1));
        }
        lemma_concat_library(tracks, servers, block);
        if keep_empty_local || local.len() > 0 {
            lemma_head_joined(tracks, rows[0], grouped(local, 1));
            assert(head =~= seq![rows[0]] + grouped(local, 1));
        } else {
            assert(library_rows(tracks, head)) by {
                assert forall|i: int, j: int|
                    0 <= i < j < head.len() && #[trigger] under_one_heading(head, i, j) implies
                    stand_in_order(tracks, head[i], head[j]) by {}
            }
        }
        lemma_joined(tracks, head, concat_map(servers, block));
        assert(rows =~= head + concat_map(servers, block));
    }
}

} // verus!
