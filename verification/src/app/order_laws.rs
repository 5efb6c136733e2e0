//! What the orders of play are for.

use vstd::prelude::*;
use vstd::seq_lib::*;

use crate::app::deal::{
    dealt_groups, group_with, groups_of, key_at, keys_of, law_a_shuffle_holds_every_item_once,
    lemma_keys_distinct, lemma_listed_albums_have_members, lemma_shuffled_member, members,
    place_or, places,
};
use crate::app::state::DealView;
use crate::model::{PlaybackOrder, PlaylistId, PlaylistView, Track, TrackId};
use crate::text::lowercase;
use crate::util::{law_shuffle_is_a_permutation, shuffled};

verus! {

/// Whether the tracks at two places of a list are known and on one album: the same artist and
/// the same title of the album, letter case left aside.
pub open spec fn on_one_album(
    items: Seq<TrackId>,
    tracks: Map<TrackId, Track>,
    i: int,
    j: int,
) -> bool {
    &&& tracks.contains_key(items[i])
    &&& tracks.contains_key(items[j])
    &&& lowercase(tracks[items[i]].artist@) == lowercase(tracks[items[j]].artist@)
    &&& lowercase(tracks[items[i]].album@) == lowercase(tracks[items[j]].album@)
}

/// Whether a deal is the one for a playlist, or is still to be made.
pub open spec fn dealt_for(
    deal: DealView,
    playlist: PlaylistView,
    tracks: Map<TrackId, Track>,
) -> bool {
    deal.album_groups.len() == 0 || deal == deal.regrouped(Some(playlist), tracks)
}

/// In the order of the list, an item is followed by all items behind it, the next one first, and
/// by nothing else.
pub proof fn law_the_list_is_played_in_its_order(
    deal: DealView,
    playlist: PlaylistView,
    tracks: Map<TrackId, Track>,
    playing: Option<(PlaylistId, usize)>,
    current: usize,
)
    requires
        current < playlist.items.len() <= usize::MAX,
    ensures
        ({
            let next = deal.successors(
                Some(playlist),
                tracks,
                playing,
                current,
                PlaybackOrder::Default,
            ).1;
            &&& next.len() == playlist.items.len() - 1 - current
            &&& forall|i: int| 0 <= i < next.len() ==> #[trigger] next[i] == current + 1 + i
        }),
{
}

/// When the list is repeated, an item is followed by every item once: those behind it, then
/// those from the beginning on, itself last.
pub proof fn law_a_repeated_list_goes_round(
    deal: DealView,
    playlist: PlaylistView,
    tracks: Map<TrackId, Track>,
    playing: Option<(PlaylistId, usize)>,
    current: usize,
)
    requires
        current < playlist.items.len() <= usize::MAX,
    ensures
        ({
            let n = playlist.items.len() as int;
            let next = deal.successors(
                Some(playlist),
                tracks,
                playing,
                current,
                PlaybackOrder::RepeatPlaylist,
            ).1;
            &&& next.len() == n
            &&& forall|i: int|
                0 <= i < n - 1 - current ==> #[trigger] next[i] == current + 1 + i
            &&& forall|i: int|
                n - 1 - current <= i < n ==> #[trigger] next[i] == i - (n - 1 - current)
        }),
{
    let n = playlist.items.len() as int;
    let next = deal.successors(
        Some(playlist),
        tracks,
        playing,
        current,
        PlaybackOrder::RepeatPlaylist,
    ).1;
    assert forall|i: int| 0 <= i < n - 1 - current implies #[trigger] next[i] == current + 1
        + i by {
        vstd::arithmetic::div_mod::lemma_small_mod((current + 1 + i) as nat, n as nat);
    }
    assert forall|i: int| n - 1 - current <= i < n implies #[trigger] next[i] == i - (n - 1
        - current) by {
        vstd::arithmetic::div_mod::lemma_mod_sub_multiples_vanish(current + 1 + i, n);
        vstd::arithmetic::div_mod::lemma_small_mod((current + 1 + i - n) as nat, n as nat);
        vstd::arithmetic::div_mod::lemma_mod_add_multiples_vanish(current + 1 + i - n, n);
    }
}

/// When a track is repeated, it follows itself.
pub proof fn law_a_repeated_track_follows_itself(
    deal: DealView,
    playlist: PlaylistView,
    tracks: Map<TrackId, Track>,
    playing: Option<(PlaylistId, usize)>,
    current: usize,
)
    requires
        playlist.items.len() > 0,
    ensures
        deal.successors(
            Some(playlist),
            tracks,
            playing,
            current,
            PlaybackOrder::RepeatTrack,
        ).1 =~= seq![current],
{
}

/// When tracks are shuffled, an item is followed by every item once, itself last: nothing is
/// heard twice before everything has been heard. Going on from what comes next, the rest
/// follows in the same order.
pub proof fn law_a_shuffle_plays_everything_once(
    deal: DealView,
    playlist: PlaylistView,
    tracks: Map<TrackId, Track>,
    current: usize,
)
    requires
        current < playlist.items.len() <= usize::MAX,
        deal.shuffle.len() != playlist.items.len() || deal == deal.reshuffled(
            Some(playlist),
            Some((playlist.id, current)),
        ),
    ensures
        ({
            let n = playlist.items.len() as int;
            let next = deal.successors(
                Some(playlist),
                tracks,
                Some((playlist.id, current)),
                current,
                PlaybackOrder::Shuffle,
            ).1;
            &&& next.len() == n
            &&& next.last() == current
            &&& forall|i: int| 0 <= i < n ==> #[trigger] next[i] < n
            &&& forall|i: int, j: int| 0 <= i < j < n ==> next[i] != next[j]
        }),
{
    let n = playlist.items.len() as int;
    let playing = Some((playlist.id, current));
    let dealt = deal.reshuffled(Some(playlist), playing);
    let all = places(n as nat);
    law_a_shuffle_holds_every_item_once(deal, Some(playlist), playing);
    let shuffle = dealt.shuffle;
    assert(all.no_duplicates());
    lemma_shuffled_once(all, crate::app::deal::shuffle_seed(Some(playlist)));
    assert(all[current as int] == current);
    assert(shuffle.contains(current)) by {
        broadcast use group_to_multiset_ensures;

        assert(all.contains(current));
        assert(all.to_multiset().count(current) > 0);
        assert(shuffle.to_multiset().count(current) > 0);
    }
    lemma_found(shuffle, current, 0, 0);
    let cursor = dealt.shuffle_cursor;
    assert(shuffle[cursor] == current);
    let (after, next) = deal.successors(
        Some(playlist),
        tracks,
        playing,
        current,
        PlaybackOrder::Shuffle,
    );
    assert(after.shuffle == shuffle && after.shuffle_cursor == cursor);
    vstd::arithmetic::div_mod::lemma_mod_add_multiples_vanish(cursor, n);
    vstd::arithmetic::div_mod::lemma_small_mod(cursor as nat, n as nat);
    assert(next.last() == shuffle[(cursor + n) % n]);
    assert forall|i: int| 0 <= i < n implies #[trigger] next[i] < n by {
        vstd::arithmetic::div_mod::lemma_mod_bound(cursor + 1 + i, n);
        lemma_shuffled_member(
            all,
            crate::app::deal::shuffle_seed(Some(playlist)),
            (cursor + 1 + i) % n,
        );
        let k = choose|k: int| 0 <= k < n && all[k] == next[i];
    }
    assert forall|i: int, j: int| 0 <= i < j < n implies next[i] != next[j] by {
        lemma_different_places(cursor + 1, i, j, n);
        vstd::arithmetic::div_mod::lemma_mod_bound(cursor + 1 + i, n);
        vstd::arithmetic::div_mod::lemma_mod_bound(cursor + 1 + j, n);
    }
}

proof fn lemma_different_places(start: int, i: int, j: int, n: int)
    requires
        0 <= i < j < n,
        start >= 0,
    ensures
        (start + i) % n != (start + j) % n,
{
    vstd::arithmetic::div_mod::lemma_fundamental_div_mod(start + i, n);
    vstd::arithmetic::div_mod::lemma_fundamental_div_mod(start + j, n);
    if (start + i) % n == (start + j) % n {
        let a = (start + i) / n;
        let b = (start + j) / n;
        assert(n * (b - a) == j - i) by (nonlinear_arith)
            requires
                start + i == n * a + (start + i) % n,
                start + j == n * b + (start + i) % n,
        ;
        assert(false) by (nonlinear_arith)
            requires
                n * (b - a) == j - i,
                0 < j - i < n,
        ;
    }
}

/// A shuffle of different elements holds different elements.
proof fn lemma_shuffled_once<T>(items: Seq<T>, seed: u64)
    requires
        items.no_duplicates(),
    ensures
        shuffled(items, seed).no_duplicates(),
{
    law_shuffle_is_a_permutation(items, seed);
    items.lemma_multiset_has_no_duplicates();
    shuffled(items, seed).lemma_multiset_has_no_duplicates_conv();
}

/// What a list holds is found at its place.
proof fn lemma_found(s: Seq<usize>, x: usize, or: int, from: int)
    requires
        0 <= from <= s.len(),
        exists|i: int| from <= i < s.len() && s[i] == x,
    ensures
        from <= place_or(s, x, or, from) < s.len(),
        s[place_or(s, x, or, from)] == x,
    decreases s.len() - from,
{
    if s[from] != x {
        lemma_found(s, x, or, from + 1);
    }
}

/// The members of an album are its places, in rising order.
proof fn lemma_members(
    items: Seq<TrackId>,
    tracks: Map<TrackId, Track>,
    key: (Seq<char>, Seq<char>),
    n: nat,
)
    requires
        n <= items.len() <= usize::MAX,
    ensures
        forall|p: int|
            0 <= p < n ==> (#[trigger] key_at(items, tracks, p) == Some(key) <==> members(
                items,
                tracks,
                key,
                n,
            ).contains(p as usize)),
        forall|k: int|
            0 <= k < members(items, tracks, key, n).len() ==> (#[trigger] members(
                items,
                tracks,
                key,
                n,
            )[k]) < n && key_at(items, tracks, members(items, tracks, key, n)[k] as int) == Some(
                key,
            ),
        forall|j: int, k: int|
            0 <= j < k < members(items, tracks, key, n).len() ==> (#[trigger] members(
                items,
                tracks,
                key,
                n,
            )[j]) < (#[trigger] members(items, tracks, key, n)[k]),
    decreases n,
{
    if n > 0 {
        let m = (n - 1) as nat;
        lemma_members(items, tracks, key, m);
        let before = members(items, tracks, key, m);
        let all = members(items, tracks, key, n);
        assert forall|p: int| 0 <= p < n implies (#[trigger] key_at(items, tracks, p) == Some(key)
            <==> all.contains(p as usize)) by {
            if all.len() > before.len() {
                crate::order::lemma_push_contains(before, m as usize, p as usize);
            }
            if p == m && before.contains(p as usize) {
                let k = choose|k: int| 0 <= k < before.len() && before[k] == p as usize;
                assert(before[k] < m);
            }
        }
    }
}

/// Every known track's album is listed.
proof fn lemma_listed(items: Seq<TrackId>, tracks: Map<TrackId, Track>, n: nat, p: int)
    requires
        0 <= p < n,
        key_at(items, tracks, p) is Some,
    ensures
        keys_of(items, tracks, n).contains(key_at(items, tracks, p)->0),
    decreases n,
{
    let before = keys_of(items, tracks, (n - 1) as nat);
    let key = key_at(items, tracks, p)->0;
    if p < n - 1 {
        lemma_listed(items, tracks, (n - 1) as nat, p);
    }
    if key_at(items, tracks, n - 1) is Some {
        crate::order::lemma_push_contains(before, key_at(items, tracks, n - 1)->0, key);
    }
}

/// Whether places are those of a listed album.
spec fn is_album(
    items: Seq<TrackId>,
    tracks: Map<TrackId, Track>,
    group: Seq<usize>,
    key: (Seq<char>, Seq<char>),
) -> bool {
    keys_of(items, tracks, items.len()).contains(key) && group == members(
        items,
        tracks,
        key,
        items.len(),
    )
}

spec fn some_album(items: Seq<TrackId>, tracks: Map<TrackId, Track>, group: Seq<usize>) -> bool {
    exists|key: (Seq<char>, Seq<char>)| is_album(items, tracks, group, key)
}

/// The dealt albums: each is the places of a listed album, none comes twice, and none is
/// missing.
proof fn lemma_dealt(playlist: PlaylistView, tracks: Map<TrackId, Track>)
    requires
        playlist.items.len() <= usize::MAX,
    ensures
        ({
            let n = playlist.items.len();
            let keys = keys_of(playlist.items, tracks, n);
            let dealt = dealt_groups(Some(playlist), tracks);
            &&& dealt.no_duplicates()
            &&& forall|g: int|
                0 <= g < dealt.len() ==> some_album(playlist.items, tracks, #[trigger] dealt[g])
            &&& forall|key: (Seq<char>, Seq<char>)| #[trigger]
                keys.contains(key) ==> dealt.contains(members(playlist.items, tracks, key, n))
        }),
{
    let items = playlist.items;
    let n = items.len();
    let keys = keys_of(items, tracks, n);
    let groups = groups_of(items, tracks, n);
    let seed = (playlist.id as u64) ^ (groups.len() as u64).wrapping_mul(0x9E37_79B9);
    let dealt = shuffled(groups, seed);
    lemma_keys_distinct(items, tracks, n);
    assert forall|a: int, b: int| 0 <= a < groups.len() && 0 <= b < groups.len() && a != b implies
        groups[a] != groups[b] by {
        assert(keys.contains(keys[a]));
        assert(keys.contains(keys[b]));
        lemma_listed_albums_have_members(items, tracks, n, keys[a]);
        lemma_members(items, tracks, keys[a], n);
        lemma_members(items, tracks, keys[b], n);
        if groups[a] == groups[b] {
            assert(key_at(items, tracks, groups[a][0] as int) == Some(keys[a]));
            assert(key_at(items, tracks, groups[b][0] as int) == Some(keys[b]));
        }
    }
    lemma_shuffled_once(groups, seed);
    law_shuffle_is_a_permutation(groups, seed);
    assert(dealt == dealt_groups(Some(playlist), tracks));
    assert forall|g: int| 0 <= g < dealt.len() implies some_album(
        items,
        tracks,
        #[trigger] dealt[g],
    ) by {
        lemma_shuffled_member(groups, seed, g);
        let k = choose|k: int| 0 <= k < groups.len() && groups[k] == dealt[g];
        assert(keys.contains(keys[k]));
        assert(is_album(items, tracks, dealt[g], keys[k]));
    }
    assert forall|key: (Seq<char>, Seq<char>)| #[trigger] keys.contains(key) implies dealt.contains(
        members(items, tracks, key, n),
    ) by {
        broadcast use group_to_multiset_ensures;

        let k = choose|k: int| 0 <= k < keys.len() && keys[k] == key;
        assert(groups[k] == members(items, tracks, key, n));
        assert(groups.contains(groups[k]));
        assert(groups.to_multiset().count(groups[k]) > 0);
        assert(dealt.to_multiset().count(groups[k]) > 0);
    }
}

/// Finds the album of a place among the dealt ones.
proof fn lemma_group_with(groups: Seq<Seq<usize>>, x: usize, from: int)
    requires
        0 <= from <= groups.len(),
        exists|g: int| from <= g < groups.len() && (#[trigger] groups[g]).contains(x),
    ensures
        group_with(groups, x, from) is Some,
        from <= group_with(groups, x, from)->0 < groups.len(),
        groups[group_with(groups, x, from)->0].contains(x),
    decreases groups.len() - from,
{
    if !groups[from].contains(x) {
        lemma_group_with(groups, x, from + 1);
    }
}

/// The album of a place, as the deal has it.
proof fn lemma_album_of(
    playlist: PlaylistView,
    tracks: Map<TrackId, Track>,
    current: usize,
) -> (g: int)
    requires
        current < playlist.items.len() <= usize::MAX,
        tracks.contains_key(playlist.items[current as int]),
    ensures
        ({
            let items = playlist.items;
            let dealt = dealt_groups(Some(playlist), tracks);
            let key = key_at(items, tracks, current as int)->0;
            &&& group_with(dealt, current, 0) == Some(g)
            &&& 0 <= g < dealt.len()
            &&& dealt[g] == members(items, tracks, key, items.len())
            &&& dealt[g].contains(current)
        }),
{
    let items = playlist.items;
    let n = items.len();
    let dealt = dealt_groups(Some(playlist), tracks);
    let key = key_at(items, tracks, current as int)->0;
    lemma_dealt(playlist, tracks);
    lemma_listed(items, tracks, n, current as int);
    lemma_members(items, tracks, key, n);
    let own = members(items, tracks, key, n);
    assert(own.contains(current));
    assert(dealt.contains(own));
    let at = choose|g: int| 0 <= g < dealt.len() && dealt[g] == own;
    assert(dealt[at].contains(current));
    lemma_group_with(dealt, current, 0);
    let g = group_with(dealt, current, 0)->0;
    let other = choose|other: (Seq<char>, Seq<char>)| is_album(items, tracks, dealt[g], other);
    lemma_members(items, tracks, other, n);
    assert(key_at(items, tracks, current as int) == Some(other));
    g
}

/// When albums are shuffled, an album is played through: the track that plays is followed by the
/// next one of the same artist and the same album in the playlist.
pub proof fn law_albums_are_played_through(
    deal: DealView,
    playlist: PlaylistView,
    tracks: Map<TrackId, Track>,
    playing: Option<(PlaylistId, usize)>,
    current: usize,
    later: usize,
)
    requires
        current < later < playlist.items.len() <= usize::MAX,
        dealt_for(deal, playlist, tracks),
        on_one_album(playlist.items, tracks, current as int, later as int),
        forall|p: int|
            current < p < later ==> !#[trigger] on_one_album(
                playlist.items,
                tracks,
                current as int,
                p,
            ),
    ensures
        ({
            let next = deal.successors(
                Some(playlist),
                tracks,
                playing,
                current,
                PlaybackOrder::ShuffleAlbums,
            ).1;
            next.len() > 0 && next[0] == later
        }),
{
    let items = playlist.items;
    let n = items.len();
    let key = key_at(items, tracks, current as int)->0;
    let g = lemma_album_of(playlist, tracks, current);
    let group = dealt_groups(Some(playlist), tracks)[g];
    lemma_members(items, tracks, key, n);
    assert(key_at(items, tracks, later as int) == Some(key));
    assert(group.contains(later));
    lemma_found(group, current, 0, 0);
    let at = place_or(group, current, 0, 0);
    let k = choose|k: int| 0 <= k < group.len() && group[k] == later;
    assert(at < k) by {
        if k < at {
            assert(group[k] < group[at]);
        }
    }
    let follower = group[at + 1] as int;
    assert(group[at] < group[at + 1]);
    if k > at + 1 {
        assert(group[at + 1] < group[k]);
        assert(key_at(items, tracks, follower) == Some(key));
        assert(on_one_album(items, tracks, current as int, follower));
    }
}

/// When albums are shuffled, the last track of an album is followed by the first tracks of the
/// albums, each album once and its own last: another album begins only then, and it begins
/// with its first track in the playlist.
pub proof fn law_another_album_begins_after_the_last_track(
    deal: DealView,
    playlist: PlaylistView,
    tracks: Map<TrackId, Track>,
    playing: Option<(PlaylistId, usize)>,
    current: usize,
)
    requires
        current < playlist.items.len() <= usize::MAX,
        dealt_for(deal, playlist, tracks),
        tracks.contains_key(playlist.items[current as int]),
        forall|p: int|
            current < p < playlist.items.len() ==> !#[trigger] on_one_album(
                playlist.items,
                tracks,
                current as int,
                p,
            ),
    ensures
        ({
            let items = playlist.items;
            let next = deal.successors(
                Some(playlist),
                tracks,
                playing,
                current,
                PlaybackOrder::ShuffleAlbums,
            ).1;
            &&& next.len() > 0
            &&& on_one_album(items, tracks, current as int, next.last() as int)
            &&& forall|i: int|
                0 <= i < next.len() ==> (#[trigger] next[i]) < items.len()
                    && tracks.contains_key(items[next[i] as int])
            &&& forall|i: int, p: int|
                0 <= i < next.len() && 0 <= p < next[i] ==> !#[trigger] on_one_album(
                    items,
                    tracks,
                    next[i] as int,
                    p,
                )
            &&& forall|i: int, j: int|
                0 <= i < j < next.len() ==> !#[trigger] on_one_album(
                    items,
                    tracks,
                    next[i] as int,
                    next[j] as int,
                )
            &&& forall|p: int|
                0 <= p < items.len() && #[trigger] tracks.contains_key(items[p]) ==> exists|i: int|
                    0 <= i < next.len() && #[trigger] on_one_album(
                        items,
                        tracks,
                        next[i] as int,
                        p,
                    )
        }),
{
    let items = playlist.items;
    let n = items.len();
    let key = key_at(items, tracks, current as int)->0;
    let dealt = dealt_groups(Some(playlist), tracks);
    let g = lemma_album_of(playlist, tracks, current);
    let group = dealt[g];
    let count = dealt.len() as int;
    lemma_dealt(playlist, tracks);
    lemma_members(items, tracks, key, n);
    lemma_found(group, current, 0, 0);
    let at = place_or(group, current, 0, 0);
    if at + 1 < group.len() {
        assert(group[at] < group[at + 1]);
        assert(key_at(items, tracks, group[at + 1] as int) == Some(key));
        assert(on_one_album(items, tracks, current as int, group[at + 1] as int));
    }
    let next = deal.successors(
        Some(playlist),
        tracks,
        playing,
        current,
        PlaybackOrder::ShuffleAlbums,
    ).1;
    assert(next =~= Seq::new(count as nat, |i: int| dealt[(g + 1 + i) % count][0]));
    vstd::arithmetic::div_mod::lemma_mod_add_multiples_vanish(g, count);
    vstd::arithmetic::div_mod::lemma_small_mod(g as nat, count as nat);
    assert(next.last() == dealt[(g + count) % count][0]);
    assert forall|i: int| 0 <= i < count implies exists|other: (Seq<char>, Seq<char>)|
        #[trigger] keys_of(items, tracks, n).contains(other) && dealt[(g + 1 + i) % count]
            == members(items, tracks, other, n) && (#[trigger] next[i]) < n && key_at(
            items,
            tracks,
            next[i] as int,
        ) == Some(other) && forall|p: int|
            0 <= p < next[i] ==> #[trigger] key_at(items, tracks, p) != Some(other) by {
        vstd::arithmetic::div_mod::lemma_mod_bound(g + 1 + i, count);
        let own = dealt[(g + 1 + i) % count];
        let other = choose|other: (Seq<char>, Seq<char>)| is_album(items, tracks, own, other);
        lemma_listed_albums_have_members(items, tracks, n, other);
        lemma_members(items, tracks, other, n);
        assert(own[0] == next[i]);
        assert forall|p: int| 0 <= p < next[i] implies #[trigger] key_at(items, tracks, p) != Some(
            other,
        ) by {
            if key_at(items, tracks, p) == Some(other) {
                assert(own.contains(p as usize));
                let k = choose|k: int| 0 <= k < own.len() && own[k] == p as usize;
                if k > 0 {
                    assert(own[0] < own[k]);
                }
            }
        }
    }
    assert(next[count - 1] == next.last());
    assert(key_at(items, tracks, group[0] as int) == Some(key));
    assert forall|i: int, p: int| 0 <= i < next.len() && 0 <= p < next[i] implies !#[trigger]
        on_one_album(items, tracks, next[i] as int, p) by {
        assert(next[i] < n);
        assert(key_at(items, tracks, p) != key_at(items, tracks, next[i] as int));
    }
    assert forall|i: int, j: int| 0 <= i < j < next.len() implies !#[trigger] on_one_album(
        items,
        tracks,
        next[i] as int,
        next[j] as int,
    ) by {
        lemma_different_places(g + 1, i, j, count);
        vstd::arithmetic::div_mod::lemma_mod_bound(g + 1 + i, count);
        vstd::arithmetic::div_mod::lemma_mod_bound(g + 1 + j, count);
        assert(dealt[(g + 1 + i) % count] != dealt[(g + 1 + j) % count]);
        assert(next[i] < n && next[j] < n);
    }
    assert forall|p: int| 0 <= p < n && #[trigger] tracks.contains_key(items[p]) implies exists|
        i: int,
    | 0 <= i < next.len() && #[trigger] on_one_album(items, tracks, next[i] as int, p) by {
        let other = key_at(items, tracks, p)->0;
        lemma_listed(items, tracks, n, p);
        let own = members(items, tracks, other, n);
        assert(dealt.contains(own));
        let h = choose|h: int| 0 <= h < dealt.len() && dealt[h] == own;
        let i = if h > g { h - g - 1 } else { h - g - 1 + count };
        if h <= g {
            vstd::arithmetic::div_mod::lemma_mod_add_multiples_vanish(h, count);
        }
        vstd::arithmetic::div_mod::lemma_small_mod(h as nat, count as nat);
        assert((g + 1 + i) % count == h);
        assert(next[i] < n);
        lemma_listed_albums_have_members(items, tracks, n, other);
        lemma_members(items, tracks, other, n);
        assert(own[0] == next[i]);
        assert(on_one_album(items, tracks, next[i] as int, p));
    }
}

} // verus!
