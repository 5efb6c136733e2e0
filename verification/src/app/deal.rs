//! The order of play under shuffling.

use std::collections::BTreeMap;

use vstd::prelude::*;
use vstd::seq_lib::*;
use vstd::string::*;

use crate::app::state::{group_views, Deal, DealView};
use crate::model::{PlaybackOrder, Playlist, PlaylistId, PlaylistView, Track, TrackId};
use crate::text::{lowercase, same_text, to_lowercase};
use crate::util::{
    exchanged, law_shuffle_is_a_permutation, shuffled, shuffled_from, xorshift, xorshift_shuffle,
};

verus! {

broadcast use vstd::std_specs::btree::group_btree_axioms;

/// The first place of `x` at or behind `from`; `or` where there is none.
pub open spec fn place_or(s: Seq<usize>, x: usize, or: int, from: int) -> int
    decreases s.len() - from,
{
    if from >= s.len() || from < 0 {
        or
    } else if s[from] == x {
        from
    } else {
        place_or(s, x, or, from + 1)
    }
}

/// The first place of `x`, or `or` where there is none.
pub(crate) fn find_or(items: &Vec<usize>, x: usize, or: usize) -> (at: usize)
    ensures
        at == place_or(items@, x, or as int, 0),
        at == or || at < items@.len(),
{
    let mut i: usize = 0;
    while i < items.len()
        invariant
            i <= items@.len(),
            place_or(items@, x, or as int, 0) == place_or(items@, x, or as int, i as int),
        decreases items@.len() - i,
    {
        if items[i] == x {
            return i;
        }
        i = i + 1;
    }
    or
}

/// The places of a list, from the first on.
pub open spec fn places(len: nat) -> Seq<usize> {
    Seq::new(len, |i: int| i as usize)
}

/// The seed for a playlist's shuffle: its identifier and its length.
pub open spec fn shuffle_seed(playlist: Option<PlaylistView>) -> u64 {
    match playlist {
        Some(playlist) => (playlist.id as u64) ^ (playlist.items.len() as u64).wrapping_mul(
            0x9E37_79B9_7F4A_7C15,
        ),
        None => 1u64 ^ 0u64.wrapping_mul(0x9E37_79B9_7F4A_7C15),
    }
}

pub open spec fn item_count(playlist: Option<PlaylistView>) -> nat {
    match playlist {
        Some(playlist) => playlist.items.len(),
        None => 0,
    }
}

pub open spec fn opt_playlist(playlist: Option<&Playlist>) -> Option<PlaylistView> {
    match playlist {
        Some(playlist) => Some(playlist@),
        None => None,
    }
}

/// What an album is told apart by: artist and title, letter case left aside.
pub open spec fn album_key(track: Track) -> (Seq<char>, Seq<char>) {
    (lowercase(track.artist@), lowercase(track.album@))
}

/// The album of an item, where its track is known.
pub open spec fn key_at(
    items: Seq<TrackId>,
    tracks: Map<TrackId, Track>,
    i: int,
) -> Option<(Seq<char>, Seq<char>)> {
    if tracks.contains_key(items[i]) {
        Some(album_key(tracks[items[i]]))
    } else {
        None
    }
}

/// The albums of the first `n` items, in the order in which they first occur.
pub open spec fn keys_of(items: Seq<TrackId>, tracks: Map<TrackId, Track>, n: nat) -> Seq<
    (Seq<char>, Seq<char>),
>
    decreases n,
{
    if n == 0 {
        Seq::empty()
    } else {
        let before = keys_of(items, tracks, (n - 1) as nat);
        match key_at(items, tracks, n - 1) {
            None => before,
            Some(key) => if before.contains(key) {
                before
            } else {
                before.push(key)
            },
        }
    }
}

/// The places of an album's tracks among the first `n` items.
pub open spec fn members(
    items: Seq<TrackId>,
    tracks: Map<TrackId, Track>,
    key: (Seq<char>, Seq<char>),
    n: nat,
) -> Seq<usize>
    decreases n,
{
    if n == 0 {
        Seq::empty()
    } else if key_at(items, tracks, n - 1) == Some(key) {
        members(items, tracks, key, (n - 1) as nat).push((n - 1) as usize)
    } else {
        members(items, tracks, key, (n - 1) as nat)
    }
}

/// The albums of the first `n` items, each as the places of its tracks.
pub open spec fn groups_of(items: Seq<TrackId>, tracks: Map<TrackId, Track>, n: nat) -> Seq<
    Seq<usize>,
> {
    keys_of(items, tracks, n).map_values(
        |key: (Seq<char>, Seq<char>)| members(items, tracks, key, n),
    )
}

/// The albums of a playlist in the order in which they are played.
pub open spec fn dealt_groups(
    playlist: Option<PlaylistView>,
    tracks: Map<TrackId, Track>,
) -> Seq<Seq<usize>> {
    match playlist {
        None => Seq::empty(),
        Some(playlist) => {
            let groups = groups_of(playlist.items, tracks, playlist.items.len());
            shuffled(
                groups,
                (playlist.id as u64) ^ (groups.len() as u64).wrapping_mul(0x9E37_79B9),
            )
        },
    }
}

/// The first group at or behind `from` that holds `x`.
pub open spec fn group_with(groups: Seq<Seq<usize>>, x: usize, from: int) -> Option<int>
    decreases groups.len() - from,
{
    if from >= groups.len() || from < 0 {
        None
    } else if groups[from].contains(x) {
        Some(from)
    } else {
        group_with(groups, x, from + 1)
    }
}

impl DealView {
    /// A playlist's items in random order; the cursor stands on what plays.
    pub open spec fn reshuffled(
        self,
        playlist: Option<PlaylistView>,
        playing: Option<(PlaylistId, usize)>,
    ) -> DealView {
        let shuffle = shuffled(places(item_count(playlist)), shuffle_seed(playlist));
        DealView {
            shuffle,
            shuffle_cursor: match playing {
                Some((_, current)) => place_or(shuffle, current, 0, 0),
                None => 0,
            },
            shuffle_playlist: match playlist {
                Some(playlist) => Some(playlist.id),
                None => None,
            },
            ..self
        }
    }

    pub open spec fn regrouped(
        self,
        playlist: Option<PlaylistView>,
        tracks: Map<TrackId, Track>,
    ) -> DealView {
        DealView { album_groups: dealt_groups(playlist, tracks), ..self }
    }

    /// Dealt anew for a playlist.
    pub open spec fn rebuilt(
        self,
        playlist: Option<PlaylistView>,
        tracks: Map<TrackId, Track>,
        playing: Option<(PlaylistId, usize)>,
    ) -> DealView {
        self.reshuffled(playlist, playing).regrouped(playlist, tracks)
    }

    /// What follows an item when albums are shuffled: the rest of its album, else the
    /// first tracks of the other albums in their order, its own last.
    pub open spec fn album_successors(self, len: nat, current: usize) -> Seq<usize> {
        match group_with(self.album_groups, current, 0) {
            None => if current + 1 >= len {
                Seq::empty()
            } else {
                Seq::new((len - current - 1) as nat, |i: int| (current + 1 + i) as usize)
            },
            Some(g) => {
                let group = self.album_groups[g];
                let at = place_or(group, current, 0, 0);
                if at + 1 < group.len() {
                    group.skip(at + 1)
                } else {
                    let n = self.album_groups.len() as int;
                    Seq::new(n as nat, |i: int| self.album_groups[(g + 1 + i) % n][0])
                }
            },
        }
    }

    /// The deal after a look at what follows an item, and the places that follow, the
    /// most wanted first.
    pub open spec fn successors(
        self,
        playlist: Option<PlaylistView>,
        tracks: Map<TrackId, Track>,
        playing: Option<(PlaylistId, usize)>,
        current: usize,
        order: PlaybackOrder,
    ) -> (DealView, Seq<usize>) {
        let len = item_count(playlist) as int;
        if len == 0 {
            (self, Seq::empty())
        } else {
            match order {
                PlaybackOrder::RepeatTrack => (self, seq![current]),
                PlaybackOrder::Shuffle => {
                    let deal = if self.shuffle.len() != len || self.shuffle_playlist != Some(
                        playlist->0.id,
                    ) {
                        self.reshuffled(playlist, playing)
                    } else {
                        self
                    };
                    (
                        deal,
                        Seq::new(
                            len as nat,
                            |i: int| deal.shuffle[(deal.shuffle_cursor + 1 + i) % len],
                        ),
                    )
                },
                PlaybackOrder::ShuffleAlbums => {
                    let deal = if self.album_groups.len() == 0 {
                        self.regrouped(playlist, tracks)
                    } else {
                        self
                    };
                    (deal, deal.album_successors(len as nat, current))
                },
                PlaybackOrder::RepeatPlaylist => (
                    self,
                    Seq::new(len as nat, |i: int| ((current + 1 + i) % len) as usize),
                ),
                PlaybackOrder::Default => (
                    self,
                    if current + 1 >= len {
                        Seq::empty()
                    } else {
                        Seq::new((len - current - 1) as nat, |i: int| (current + 1 + i) as usize)
                    },
                ),
            }
        }
    }
}

/// Shuffling and looking at what the elements hold can change places.
proof fn lemma_shuffled_from_groups(items: Seq<Vec<usize>>, state: u64, index: nat)
    requires
        index < items.len(),
    ensures
        group_views(shuffled_from(items, state, index)) == shuffled_from(
            group_views(items),
            state,
            index,
        ),
    decreases index,
{
    if index > 0 {
        let next = xorshift(state);
        let other = (next as usize) as int % (index + 1) as int;
        let swapped = exchanged(items, index as int, other);
        lemma_shuffled_from_groups(swapped, next, (index - 1) as nat);
        assert(group_views(swapped) =~= exchanged(group_views(items), index as int, other));
    }
}

proof fn lemma_shuffled_groups(items: Seq<Vec<usize>>, seed: u64)
    ensures
        group_views(shuffled(items, seed)) == shuffled(group_views(items), seed),
{
    if items.len() > 0 {
        lemma_shuffled_from_groups(items, seed, (items.len() - 1) as nat);
    } else {
        assert(group_views(items) =~= Seq::empty());
    }
}

/// An album that is listed has a member.
pub proof fn lemma_listed_albums_have_members(
    items: Seq<TrackId>,
    tracks: Map<TrackId, Track>,
    n: nat,
    key: (Seq<char>, Seq<char>),
)
    requires
        keys_of(items, tracks, n).contains(key),
    ensures
        members(items, tracks, key, n).len() > 0,
    decreases n,
{
    if n > 0 {
        let before = keys_of(items, tracks, (n - 1) as nat);
        if before.contains(key) {
            lemma_listed_albums_have_members(items, tracks, (n - 1) as nat, key);
        } else {
            let fresh = key_at(items, tracks, n - 1)->0;
            crate::order::lemma_push_contains(before, fresh, key);
        }
    }
}

/// What a shuffle holds was in the list.
pub proof fn lemma_shuffled_member<T>(items: Seq<T>, seed: u64, i: int)
    requires
        0 <= i < items.len(),
    ensures
        items.contains(shuffled(items, seed)[i]),
{
    broadcast use group_to_multiset_ensures;

    law_shuffle_is_a_permutation(items, seed);
    let x = shuffled(items, seed)[i];
    assert(shuffled(items, seed).contains(x));
    assert(shuffled(items, seed).to_multiset().count(x) > 0);
}

/// No dealt album is empty.
pub proof fn law_dealt_albums_are_not_empty(
    deal: DealView,
    playlist: Option<PlaylistView>,
    tracks: Map<TrackId, Track>,
)
    ensures
        deal.regrouped(playlist, tracks).wf(),
{
    if playlist is Some {
        let items = playlist->0.items;
        let n = items.len();
        let groups = groups_of(items, tracks, n);
        let seed = (playlist->0.id as u64) ^ (groups.len() as u64).wrapping_mul(0x9E37_79B9);
        law_shuffle_is_a_permutation(groups, seed);
        assert forall|i: int| 0 <= i < shuffled(groups, seed).len() implies #[trigger] shuffled(
            groups,
            seed,
        )[i].len() > 0 by {
            lemma_shuffled_member(groups, seed, i);
            let k = choose|k: int| 0 <= k < groups.len() && groups[k] == shuffled(groups, seed)[i];
            let key = keys_of(items, tracks, n)[k];
            assert(keys_of(items, tracks, n).contains(key));
            lemma_listed_albums_have_members(items, tracks, n, key);
        }
    }
}

/// A shuffle holds every item of the playlist once.
pub proof fn law_a_shuffle_holds_every_item_once(
    deal: DealView,
    playlist: Option<PlaylistView>,
    playing: Option<(PlaylistId, usize)>,
)
    ensures
        deal.reshuffled(playlist, playing).shuffle.to_multiset() == places(
            item_count(playlist),
        ).to_multiset(),
        deal.reshuffled(playlist, playing).shuffle.len() == item_count(playlist),
{
    law_shuffle_is_a_permutation(places(item_count(playlist)), shuffle_seed(playlist));
}

impl Deal {
    /// Shuffles a playlist's items; the cursor stands on what plays.
    pub fn rebuild_shuffle(
        &mut self,
        playlist: Option<&Playlist>,
        playing: Option<(PlaylistId, usize)>,
    )
        ensures
            final(self)@ == old(self)@.reshuffled(opt_playlist(playlist), playing),
            final(self)@.shuffle.len() == item_count(opt_playlist(playlist)),
            final(self)@.album_groups == old(self)@.album_groups,
    {
        let ghost view = opt_playlist(playlist);
        let len: usize = match playlist {
            Some(playlist) => playlist.items.len(),
            None => 0,
        };
        let seed: u64 = match playlist {
            Some(playlist) => #[verifier::truncate]
            (playlist.id as u64) ^ (len as u64).wrapping_mul(0x9E37_79B9_7F4A_7C15),
            None => 1u64 ^ 0u64.wrapping_mul(0x9E37_79B9_7F4A_7C15),
        };
        let mut shuffle: Vec<usize> = Vec::new();
        let mut i: usize = 0;
        while i < len
            invariant
                i <= len,
                shuffle@ == places(i as nat),
            decreases len - i,
        {
            shuffle.push(i);
            i = i + 1;
            assert(shuffle@ =~= places(i as nat));
        }
        xorshift_shuffle(&mut shuffle, seed);
        assert(shuffle@ == shuffled(places(item_count(view)), shuffle_seed(view)));
        self.shuffle_cursor = match playing {
            Some((_, current)) => find_or(&shuffle, current, 0),
            None => 0,
        };
        self.shuffle = shuffle;
        self.shuffle_playlist = match playlist {
            Some(playlist) => Some(playlist.id),
            None => None,
        };
    }

    /// Groups a playlist's items by album, the albums in random order.
    pub fn rebuild_album_groups(
        &mut self,
        playlist: Option<&Playlist>,
        tracks: &BTreeMap<TrackId, Track>,
    )
        ensures
            final(self)@ == old(self)@.regrouped(opt_playlist(playlist), tracks@),
            final(self)@.wf(),
    {
        proof {
            law_dealt_albums_are_not_empty(self@, opt_playlist(playlist), tracks@);
        }
        let playlist = match playlist {
            Some(playlist) => playlist,
            None => {
                self.album_groups = Vec::new();
                assert(group_views(self.album_groups@) =~= Seq::empty());
                return;
            },
        };
        let ghost items = playlist.items@;
        let mut keys: Vec<(String, String)> = Vec::new();
        let mut groups: Vec<Vec<usize>> = Vec::new();
        let mut i: usize = 0;
        assert(key_views(keys@) =~= keys_of(items, tracks@, 0));
        assert(group_views(groups@) =~= groups_of(items, tracks@, 0));
        while i < playlist.items.len()
            invariant
                i <= playlist.items@.len(),
                items == playlist.items@,
                key_views(keys@) == keys_of(items, tracks@, i as nat),
                group_views(groups@) == groups_of(items, tracks@, i as nat),
            decreases playlist.items@.len() - i,
        {
            let ghost old_keys = key_views(keys@);
            let ghost old_groups = group_views(groups@);
            proof {
                lemma_keys_distinct(items, tracks@, i as nat);
                assert(old_keys.len() == keys@.len() && old_groups.len() == groups@.len());
            }
            if let Some(track) = tracks.get(&playlist.items[i]) {
                let artist = to_lowercase(&track.artist);
                let album = to_lowercase(&track.album);
                let ghost key = (artist@, album@);
                assert(key_at(items, tracks@, i as int) == Some(key));
                let at: usize = find_key(&keys, &artist, &album);
                if at < keys.len() {
                    assert(old_keys[at as int] == key);
                    groups[at].push(i);
                    proof {
                        assert(keys_of(items, tracks@, (i + 1) as nat) == old_keys);
                        assert(groups@.len() == old_groups.len());
                        assert forall|k: int| 0 <= k < old_keys.len() implies #[trigger] groups@[k]@
                            == members(items, tracks@, old_keys[k], (i + 1) as nat) by {
                            assert(old_groups[k] == members(
                                items,
                                tracks@,
                                old_keys[k],
                                i as nat,
                            ));
                            if k != at {
                                assert(old_keys[k] != old_keys[at as int]);
                            }
                        }
                        assert(group_views(groups@) =~= groups_of(
                            items,
                            tracks@,
                            (i + 1) as nat,
                        ));
                    }
                } else {
                    assert(!old_keys.contains(key));
                    keys.push((artist, album));
                    let mut group: Vec<usize> = Vec::new();
                    group.push(i);
                    groups.push(group);
                    proof {
                        assert(key_views(keys@) =~= old_keys.push(key));
                        lemma_no_members_yet(items, tracks@, i as nat, key);
                        assert forall|k: int| 0 <= k < keys@.len() implies #[trigger] groups@[k]@
                            == members(
                            items,
                            tracks@,
                            key_views(keys@)[k],
                            (i + 1) as nat,
                        ) by {
                            if k < old_keys.len() {
                                assert(old_groups[k] == members(
                                    items,
                                    tracks@,
                                    old_keys[k],
                                    i as nat,
                                ));
                                assert(old_keys.contains(old_keys[k]));
                            } else {
                                assert(groups@[k]@ =~= seq![i]);
                                assert(members(items, tracks@, key, (i + 1) as nat) =~= seq![i]);
                            }
                        }
                        assert(group_views(groups@) =~= groups_of(
                            items,
                            tracks@,
                            (i + 1) as nat,
                        ));
                    }
                }
            } else {
                proof {
                    assert(key_at(items, tracks@, i as int) is None);
                    assert(groups_of(items, tracks@, (i + 1) as nat) =~= old_groups);
                }
            }
            i = i + 1;
        }
        let ghost whole = groups_of(items, tracks@, items.len());
        let seed: u64 = #[verifier::truncate]
        (playlist.id as u64) ^ (groups.len() as u64).wrapping_mul(0x9E37_79B9);
        proof {
            lemma_shuffled_groups(groups@, seed);
        }
        xorshift_shuffle(&mut groups, seed);
        self.album_groups = groups;
    }

    fn album_candidates(&self, len: usize, current: usize) -> (next: Vec<usize>)
        requires
            self@.wf(),
        ensures
            next@ == self@.album_successors(len as nat, current),
    {
        let groups = &self.album_groups;
        let ghost all = group_views(groups@);
        let mut g: usize = 0;
        let mut at: usize = 0;
        let mut found = false;
        while g < groups.len() && !found
            invariant
                g <= groups@.len(),
                groups@ == self.album_groups@,
                all == group_views(groups@),
                !found ==> group_with(all, current, 0) == group_with(all, current, g as int),
                found ==> g < groups@.len() && group_with(all, current, 0) == Some(g as int) && at
                    == place_or(all[g as int], current, 0, 0) && at < all[g as int].len(),
            decreases groups@.len() - g + (if found {
                0int
            } else {
                1
            }),
        {
            let size: usize = groups[g].len();
            let place: usize = find_or(&groups[g], current, size);
            proof {
                lemma_place_or(groups@[g as int]@, current, size as int, 0, 0);
                assert(all[g as int] == groups@[g as int]@);
            }
            if place < size {
                at = place;
                found = true;
            } else {
                g = g + 1;
            }
        }
        let mut next: Vec<usize> = Vec::new();
        if !found {
            if current >= len {
                assert(next@ =~= self@.album_successors(len as nat, current));
                return next;
            }
            let mut i: usize = current + 1;
            while i < len
                invariant
                    current < i <= len,
                    next@ == Seq::new((i - current - 1) as nat, |k: int| (current + 1 + k) as usize),
                decreases len - i,
            {
                next.push(i);
                i = i + 1;
                assert(next@ =~= Seq::new(
                    (i - current - 1) as nat,
                    |k: int| (current + 1 + k) as usize,
                ));
            }
            assert(next@ =~= self@.album_successors(len as nat, current));
            return next;
        }
        let size: usize = groups[g].len();
        assert(all[g as int] == groups@[g as int]@);
        if at < size - 1 {
            let mut i: usize = at + 1;
            while i < size
                invariant
                    at < i <= size,
                    g < groups@.len(),
                    size == groups@[g as int]@.len(),
                    next@ == groups@[g as int]@.subrange(at + 1, i as int),
                decreases size - i,
            {
                next.push(groups[g][i]);
                i = i + 1;
                assert(next@ =~= groups@[g as int]@.subrange(at + 1, i as int));
            }
            assert(next@ =~= self@.album_successors(len as nat, current));
            return next;
        }
        let n: usize = groups.len();
        let mut i: usize = 0;
        while i < n
            invariant
                i <= n == groups@.len(),
                g < n,
                self@.wf(),
                groups@ == self.album_groups@,
                all == group_views(groups@),
                next@ == Seq::new(i as nat, |k: int| all[(g + 1 + k) % n as int][0]),
            decreases n - i,
        {
            let room: usize = n - g - 1;
            let k: usize = if i < room {
                g + 1 + i
            } else {
                i - room
            };
            proof {
                if i < room {
                    vstd::arithmetic::div_mod::lemma_small_mod((g + 1 + i) as nat, n as nat);
                } else {
                    vstd::arithmetic::div_mod::lemma_mod_add_multiples_vanish(i - room, n as int);
                    vstd::arithmetic::div_mod::lemma_small_mod((i - room) as nat, n as nat);
                    assert(g + 1 + i == n + (i - room));
                }
                assert(all[k as int] == groups@[k as int]@);
                assert(self@.album_groups[k as int].len() > 0);
            }
            next.push(groups[k][0]);
            i = i + 1;
            assert(next@ =~= Seq::new(i as nat, |k: int| all[(g + 1 + k) % n as int][0]));
        }
        assert(next@ =~= self@.album_successors(len as nat, current));
        next
    }

    /// The places that follow an item, the most wanted first.
    pub fn successor_indices(
        &mut self,
        playlist: Option<&Playlist>,
        tracks: &BTreeMap<TrackId, Track>,
        playing: Option<(PlaylistId, usize)>,
        current: usize,
        order: PlaybackOrder,
    ) -> (next: Vec<usize>)
        requires
            old(self)@.wf(),
        ensures
            (final(self)@, next@) == old(self)@.successors(
                opt_playlist(playlist),
                tracks@,
                playing,
                current,
                order,
            ),
            final(self)@.wf(),
    {
        let ghost view = opt_playlist(playlist);
        let mut next: Vec<usize> = Vec::new();
        let (len, id): (usize, PlaylistId) = match playlist {
            Some(playlist) => (playlist.items.len(), playlist.id),
            None => (0, 0),
        };
        if len == 0 {
            assert(next@ =~= Seq::empty());
            return next;
        }
        match order {
            PlaybackOrder::RepeatTrack => {
                next.push(current);
                assert(next@ =~= seq![current]);
                next
            },
            PlaybackOrder::Shuffle => {
                if self.shuffle.len() != len || self.shuffle_playlist != Some(id) {
                    self.rebuild_shuffle(playlist, playing);
                }
                let ghost deal = self@;
                let start: usize = self.shuffle_cursor % len;
                let mut i: usize = 0;
                while i < len
                    invariant
                        i <= len,
                        0 < len == self.shuffle@.len(),
                        self@ == deal,
                        start == self.shuffle_cursor as int % len as int,
                        next@ == Seq::new(
                            i as nat,
                            |k: int| deal.shuffle[(deal.shuffle_cursor + 1 + k) % len as int],
                        ),
                    decreases len - i,
                {
                    let room: usize = len - start - 1;
                    let k: usize = if i < room {
                        start + 1 + i
                    } else {
                        i - room
                    };
                    proof {
                        lemma_around(self.shuffle_cursor as int, len as int, 1 + i);
                        if i < room {
                            vstd::arithmetic::div_mod::lemma_small_mod(
                                (start + 1 + i) as nat,
                                len as nat,
                            );
                        } else {
                            vstd::arithmetic::div_mod::lemma_mod_add_multiples_vanish(
                                i - room,
                                len as int,
                            );
                            vstd::arithmetic::div_mod::lemma_small_mod(
                                (i - room) as nat,
                                len as nat,
                            );
                            assert(start + 1 + i == len + (i - room));
                        }
                    }
                    next.push(self.shuffle[k]);
                    i = i + 1;
                    assert(next@ =~= Seq::new(
                        i as nat,
                        |k: int| deal.shuffle[(deal.shuffle_cursor + 1 + k) % len as int],
                    ));
                }
                next
            },
            PlaybackOrder::ShuffleAlbums => {
                assert(group_views(self.album_groups@).len() == self.album_groups@.len());
                if self.album_groups.len() == 0 {
                    self.rebuild_album_groups(playlist, tracks);
                }
                self.album_candidates(len, current)
            },
            PlaybackOrder::RepeatPlaylist => {
                let start: usize = current % len;
                let mut i: usize = 0;
                while i < len
                    invariant
                        i <= len,
                        0 < len,
                        start == current as int % len as int,
                        next@ == Seq::new(
                            i as nat,
                            |k: int| ((current + 1 + k) % len as int) as usize,
                        ),
                    decreases len - i,
                {
                    let room: usize = len - start - 1;
                    let k: usize = if i < room {
                        start + 1 + i
                    } else {
                        i - room
                    };
                    proof {
                        lemma_around(current as int, len as int, 1 + i);
                        if i < room {
                            vstd::arithmetic::div_mod::lemma_small_mod(
                                (start + 1 + i) as nat,
                                len as nat,
                            );
                        } else {
                            vstd::arithmetic::div_mod::lemma_mod_add_multiples_vanish(
                                i - room,
                                len as int,
                            );
                            vstd::arithmetic::div_mod::lemma_small_mod(
                                (i - room) as nat,
                                len as nat,
                            );
                            assert(start + 1 + i == len + (i - room));
                        }
                    }
                    next.push(k);
                    i = i + 1;
                    assert(next@ =~= Seq::new(
                        i as nat,
                        |k: int| ((current + 1 + k) % len as int) as usize,
                    ));
                }
                next
            },
            PlaybackOrder::Default => {
                if current >= len {
                    assert(next@ =~= Seq::empty());
                    return next;
                }
                let mut i: usize = current + 1;
                while i < len
                    invariant
                        current < i <= len,
                        next@ == Seq::new(
                            (i - current - 1) as nat,
                            |k: int| (current + 1 + k) as usize,
                        ),
                    decreases len - i,
                {
                    next.push(i);
                    i = i + 1;
                    assert(next@ =~= Seq::new(
                        (i - current - 1) as nat,
                        |k: int| (current + 1 + k) as usize,
                    ));
                }
                assert(next@ =~= self@.successors(view, tracks@, playing, current, order).1);
                next
            },
        }
    }
}

/// Steps around a ring do not depend on how often the start has gone round.
proof fn lemma_around(start: int, len: int, step: int)
    requires
        len > 0,
    ensures
        (start + step) % len == (start % len + step) % len,
{
    vstd::arithmetic::div_mod::lemma_add_mod_noop(start, step, len);
    vstd::arithmetic::div_mod::lemma_add_mod_noop(start % len, step, len);
    vstd::arithmetic::div_mod::lemma_mod_twice(start, len);
}

/// What is found does not depend on what stands for not finding.
proof fn lemma_place_or(s: Seq<usize>, x: usize, a: int, b: int, from: int)
    requires
        a >= s.len(),
        0 <= from <= s.len(),
    ensures
        place_or(s, x, a, from) < s.len() ==> place_or(s, x, b, from) == place_or(s, x, a, from)
            && s.contains(x) && from <= place_or(s, x, a, from),
        place_or(s, x, a, from) >= s.len() ==> forall|i: int| from <= i < s.len() ==> s[i] != x,
    decreases s.len() - from,
{
    if from < s.len() && s[from] != x {
        lemma_place_or(s, x, a, b, from + 1);
    }
}

/// The characters of a list of keys.
pub open spec fn key_views(keys: Seq<(String, String)>) -> Seq<(Seq<char>, Seq<char>)> {
    keys.map_values(|key: (String, String)| (key.0@, key.1@))
}

/// The place of a key, or the length where it is missing.
fn find_key(keys: &Vec<(String, String)>, artist: &str, album: &str) -> (at: usize)
    ensures
        at < keys@.len() ==> key_views(keys@)[at as int] == (artist@, album@),
        at >= keys@.len() ==> at == keys@.len() && !key_views(keys@).contains((artist@, album@)),
{
    let mut i: usize = 0;
    while i < keys.len()
        invariant
            i <= keys@.len(),
            forall|j: int| 0 <= j < i ==> key_views(keys@)[j] != (artist@, album@),
        decreases keys@.len() - i,
    {
        if same_text(&keys[i].0, artist) && same_text(&keys[i].1, album) {
            return i;
        }
        i = i + 1;
    }
    i
}

pub proof fn lemma_keys_distinct(items: Seq<TrackId>, tracks: Map<TrackId, Track>, n: nat)
    ensures
        keys_of(items, tracks, n).no_duplicates(),
    decreases n,
{
    if n > 0 {
        lemma_keys_distinct(items, tracks, (n - 1) as nat);
    }
}

/// An album that is not listed has no members.
proof fn lemma_no_members_yet(
    items: Seq<TrackId>,
    tracks: Map<TrackId, Track>,
    n: nat,
    key: (Seq<char>, Seq<char>),
)
    requires
        !keys_of(items, tracks, n).contains(key),
    ensures
        members(items, tracks, key, n).len() == 0,
    decreases n,
{
    if n > 0 {
        let before = keys_of(items, tracks, (n - 1) as nat);
        if key_at(items, tracks, n - 1) is Some {
            let fresh = key_at(items, tracks, n - 1)->0;
            if !before.contains(fresh) {
                crate::order::lemma_push_contains(before, fresh, key);
            }
        }
        lemma_no_members_yet(items, tracks, (n - 1) as nat, key);
    }
}

} // verus!
