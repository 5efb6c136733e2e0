//! What the two lists show, and what is selected in them.

use std::collections::BTreeSet;

use vstd::prelude::*;
use vstd::string::*;

use crate::app::deal::places;
use crate::app::state::{App, AppView, Shelf, ShelfView};
use crate::audio::AudioEngine;
use crate::keys::{
    id_list, ids_in_order, lists_ids, row_list, rows_in_order, track_keys, tracks_in_order,
};
use crate::model::{found_in, text_matches, texts, Focus, Playlist, ScannedTrack, Track, TrackId};
use crate::order::lemma_filter_take;
use crate::path_codec::{show_path, shown_path};
use crate::text::{lowercase, to_lowercase, trim, trimmed};
use crate::tree::{album_tree, derefs, entry_views, kept_tracks, tree_rows, AlbumEntry, EntryView};

verus! {

broadcast use vstd::std_specs::btree::group_btree_axioms;

/// Whether a track is found by a text: in its title, artist, album or in its path as it is shown.
pub open spec fn track_found(track: Track, needle: Seq<char>) -> bool {
    found_in(
        needle,
        seq![track.title@, track.artist@, track.album@, shown_path(track.path@)],
    )
}

fn track_matches(track: &Track, needle: &str) -> (found: bool)
    ensures
        found == track_found(*track, needle@),
{
    let path = show_path(&track.path);
    let parts: [&str; 4] = [&track.title, &track.artist, &track.album, &path];
    assert(texts(parts@) =~= seq![
        track.title@,
        track.artist@,
        track.album@,
        shown_path(track.path@),
    ]);
    text_matches(needle, &parts)
}

impl ShelfView {
    /// Whether a track of the library comes from a server.
    pub open spec fn has_remote(self) -> bool {
        exists|i: int|
            0 <= i < tracks_in_order(self.tracks).len() && (#[trigger] tracks_in_order(
                self.tracks,
            )[i]).origin is Remote
    }

    /// The rows of the library list under a filter.
    pub open spec fn album_rows(self, filter: Seq<char>, connected: bool) -> Seq<EntryView> {
        let all = tracks_in_order(self.tracks);
        let needle = trimmed(filter);
        if needle.len() == 0 {
            tree_rows(all, self.has_remote(), !connected, true)
        } else {
            let lower = lowercase(needle);
            tree_rows(
                all.filter(|track: Track| track_found(track, lower)),
                self.has_remote(),
                !connected,
                false,
            )
        }
    }

    /// Whether an item of the active playlist is shown under a filter.
    pub open spec fn item_shown(self, needle: Seq<char>, index: usize) -> bool {
        needle.len() == 0 || match self.track(self.active().items[index as int]) {
            Some(track) => track_found(track, needle),
            None => false,
        }
    }

    /// The items of the active playlist that are shown under a filter.
    pub open spec fn visible_items(self, filter: Seq<char>) -> Seq<usize> {
        let needle = trimmed(filter);
        places(self.active().items.len()).filter(|i: usize| self.item_shown(needle, i))
    }

    /// The marked items that the active playlist holds.
    pub open spec fn held_items(self, marked: Set<TrackId>) -> Seq<TrackId> {
        let items = self.active().items;
        ids_in_order(marked).filter(|id: TrackId| items.contains(id))
    }

    /// The marked items that the active playlist holds, or else what the cursor is on.
    pub open spec fn selected_items(self, marked: Set<TrackId>, selection: int) -> Seq<TrackId> {
        let items = self.active().items;
        let held = ids_in_order(marked).filter(|id: TrackId| items.contains(id));
        if held.len() == 0 && 0 <= selection < items.len() {
            held.push(items[selection])
        } else {
            held
        }
    }
}

/// The tracks that the rows of the library are made of.
pub proof fn lemma_album_rows(shelf: ShelfView, filter: Seq<char>, connected: bool) -> (kept: Seq<
    Track,
>)
    ensures
        shelf.album_rows(filter, connected) == tree_rows(
            kept,
            shelf.has_remote(),
            !connected,
            trimmed(filter).len() == 0,
        ),
        forall|track: Track| #[trigger]
            kept.contains(track) <==> tracks_in_order(shelf.tracks).contains(track) && (trimmed(
                filter,
            ).len() == 0 || track_found(track, lowercase(trimmed(filter)))),
{
    let all = tracks_in_order(shelf.tracks);
    if trimmed(filter).len() == 0 {
        all
    } else {
        let lower = lowercase(trimmed(filter));
        let found = |track: Track| track_found(track, lower);
        crate::order::lemma_filter_members(all, found);
        all.filter(found)
    }
}

/// What is shown under a filter are places of the playlist, in rising order.
pub proof fn lemma_visible(shelf: ShelfView, filter: Seq<char>)
    requires
        shelf.active().items.len() <= usize::MAX,
    ensures
        forall|i: usize| #[trigger]
            shelf.visible_items(filter).contains(i) <==> places(
                shelf.active().items.len(),
            ).contains(i) && shelf.item_shown(trimmed(filter), i),
        forall|j: int, k: int|
            0 <= j < k < shelf.visible_items(filter).len() ==> shelf.visible_items(filter)[j]
                < shelf.visible_items(filter)[k],
{
    let needle = trimmed(filter);
    let keep = |i: usize| shelf.item_shown(needle, i);
    crate::order::lemma_filter_members(places(shelf.active().items.len()), keep);
    lemma_kept_places_rise(shelf.active().items.len(), keep);
}

proof fn lemma_kept_places_rise(n: nat, keep: spec_fn(usize) -> bool)
    requires
        n <= usize::MAX,
    ensures
        forall|k: int|
            0 <= k < places(n).filter(keep).len() ==> #[trigger] places(n).filter(keep)[k] < n,
        forall|j: int, k: int|
            0 <= j < k < places(n).filter(keep).len() ==> places(n).filter(keep)[j] < places(
                n,
            ).filter(keep)[k],
    decreases n,
{
    reveal(Seq::filter);
    if n > 0 {
        let m = (n - 1) as nat;
        lemma_kept_places_rise(m, keep);
        assert(places(n).drop_last() =~= places(m));
        assert(places(n).last() == m);
        let before = places(m).filter(keep);
        assert(places(n).filter(keep) == if keep(m as usize) {
            before.push(m as usize)
        } else {
            before
        });
    }
}

/// The selection of a playlist holds its marked items, or what the cursor is on.
pub proof fn lemma_selected_items(shelf: ShelfView, marked: Set<TrackId>, selection: int)
    requires
        marked.finite(),
    ensures
        ({
            let items = shelf.active().items;
            let taken = shelf.selected_items(marked, selection);
            &&& forall|id: TrackId|
                marked.contains(id) && items.contains(id) ==> #[trigger] taken.contains(id)
            &&& taken == shelf.held_items(marked) || (shelf.held_items(marked).len() == 0 && 0
                <= selection < items.len() && taken == seq![items[selection]])
            &&& forall|id: TrackId| #[trigger]
                shelf.held_items(marked).contains(id) <==> marked.contains(id) && items.contains(
                    id,
                )
            &&& 0 <= selection < items.len() ==> taken.len() > 0
        }),
{
    let items = shelf.active().items;
    let held = shelf.held_items(marked);
    let taken = shelf.selected_items(marked, selection);
    crate::keys::law_ids_are_listed(marked);
    crate::order::lemma_filter_members(ids_in_order(marked), |id: TrackId| items.contains(id));
    if held.len() == 0 && 0 <= selection < items.len() {
        assert(held.push(items[selection]) =~= seq![items[selection]]);
        assert forall|id: TrackId|
            marked.contains(id) && items.contains(id) implies #[trigger] taken.contains(id) by {
            assert(held.contains(id));
        }
    }
}

/// The tracks below the marked rows, or below the cursor where none is marked, each once.
pub open spec fn row_tracks(rows: Seq<EntryView>, marked: Set<usize>, selection: usize) -> Seq<
    TrackId,
> {
    let marks = if marked == Set::<usize>::empty() && rows.len() > 0 {
        Set::empty().insert(selection)
    } else {
        marked
    };
    tracks_below(rows, rows_in_order(marks), rows_in_order(marks).len())
}

/// The tracks below the first `n` rows of a list, each once.
pub open spec fn tracks_below(rows: Seq<EntryView>, list: Seq<usize>, n: nat) -> Seq<TrackId>
    decreases n,
{
    if n == 0 {
        Seq::empty()
    } else {
        let before = tracks_below(rows, list, (n - 1) as nat);
        if list[n - 1] < rows.len() {
            with_new(before, rows[list[n - 1] as int].track_ids)
        } else {
            before
        }
    }
}

/// A list with the elements of another put behind it that it does not hold yet.
pub open spec fn with_new(list: Seq<TrackId>, more: Seq<TrackId>) -> Seq<TrackId>
    decreases more.len(),
{
    if more.len() == 0 {
        list
    } else {
        let before = with_new(list, more.drop_last());
        if before.contains(more.last()) {
            before
        } else {
            before.push(more.last())
        }
    }
}

/// Whether a list holds an identifier.
pub(crate) fn holds_id(ids: &Vec<TrackId>, id: TrackId) -> (found: bool)
    ensures
        found == ids@.contains(id),
{
    let mut i: usize = 0;
    while i < ids.len()
        invariant
            i <= ids@.len(),
            forall|j: int| 0 <= j < i ==> ids@[j] != id,
        decreases ids@.len() - i,
    {
        if ids[i] == id {
            assert(ids@[i as int] == id);
            return true;
        }
        i = i + 1;
    }
    false
}

/// Puts the elements of a list behind another that does not hold them yet; says how
/// many there were.
pub(crate) fn add_new(list: &mut Vec<TrackId>, more: &Vec<TrackId>) -> (added: usize)
    ensures
        final(list)@ == with_new(old(list)@, more@),
        added == final(list)@.len() - old(list)@.len(),
{
    let mut added: usize = 0;
    let mut i: usize = 0;
    assert(more@.take(0) =~= Seq::empty());
    while i < more.len()
        invariant
            i <= more@.len(),
            list@ == with_new(old(list)@, more@.take(i as int)),
            added == list@.len() - old(list)@.len(),
            added <= i,
        decreases more@.len() - i,
    {
        assert(more@.take(i + 1).drop_last() =~= more@.take(i as int));
        if !holds_id(list, more[i]) {
            list.push(more[i]);
            added = added + 1;
        }
        i = i + 1;
    }
    assert(more@.take(i as int) =~= more@);
    added
}

impl Shelf {
    /// The tracks of the library, by rising identifier.
    pub fn all_tracks(&self) -> (tracks: Vec<&Track>)
        ensures
            derefs(tracks@) == tracks_in_order(self@.tracks),
    {
        let ids = track_keys(&self.tracks);
        let mut tracks: Vec<&Track> = Vec::new();
        let mut i: usize = 0;
        let ghost all = tracks_in_order(self@.tracks);
        while i < ids.len()
            invariant
                i <= ids@.len(),
                ids@ == ids_in_order(self.tracks@.dom()),
                lists_ids(ids@, self.tracks@.dom()),
                all == tracks_in_order(self@.tracks),
                derefs(tracks@) == all.take(i as int),
            decreases ids@.len() - i,
        {
            assert(ids@.to_set().contains(ids@[i as int]));
            let ghost before = derefs(tracks@);
            if let Some(track) = self.tracks.get(&ids[i]) {
                tracks.push(track);
                assert(derefs(tracks@) =~= before.push(all[i as int]));
            }
            i = i + 1;
            assert(derefs(tracks@) =~= all.take(i as int));
        }
        assert(all.take(i as int) =~= all);
        tracks
    }

    /// What a scan need not look at again.
    pub fn known_files(&self) -> (known: Vec<ScannedTrack>)
        ensures
            known@ == self@.known_files(),
    {
        let tracks = self.all_tracks();
        let mut known: Vec<ScannedTrack> = Vec::new();
        let mut i: usize = 0;
        while i < tracks.len()
            invariant
                i <= tracks@.len(),
                derefs(tracks@) == tracks_in_order(self@.tracks),
                known@ == self@.known_files().take(i as int),
            decreases tracks@.len() - i,
        {
            assert(derefs(tracks@)[i as int] == *tracks@[i as int]);
            known.push(tracks[i].to_scanned());
            i = i + 1;
            assert(known@ =~= self@.known_files().take(i as int));
        }
        assert(known@ =~= self@.known_files());
        known
    }

    /// The rows of the library list under a filter.
    pub fn album_entries(&self, filter: &str, connected: bool) -> (entries: Vec<AlbumEntry>)
        ensures
            entry_views(entries@) == self@.album_rows(filter@, connected),
    {
        let all = self.all_tracks();
        let ghost tracks = tracks_in_order(self@.tracks);
        let mut has_remote = false;
        let mut i: usize = 0;
        while i < all.len()
            invariant
                i <= all@.len(),
                derefs(all@) == tracks,
                has_remote == exists|j: int| 0 <= j < i && (#[trigger] tracks[j]).origin is Remote,
            decreases all@.len() - i,
        {
            assert(tracks[i as int] == *all@[i as int]);
            if all[i].origin.is_remote() {
                has_remote = true;
            }
            i = i + 1;
        }
        assert(has_remote == self@.has_remote());
        let needle = trim(filter);
        if needle.as_str().is_empty() {
            return album_tree(&all, has_remote, !connected, true);
        }
        let lower = to_lowercase(&needle);
        let ghost p = |track: Track| track_found(track, lower@);
        let keep = |track: &Track| -> (r: bool)
            ensures
                r == p(*track),
            { track_matches(track, &lower) };
        let found = kept_tracks(&all, keep, Ghost(p));
        album_tree(&found, has_remote, !connected, false)
    }

    /// The items of the active playlist that are shown under a filter.
    pub fn visible_items(&self, filter: &str) -> (visible: Vec<usize>)
        requires
            self@.wf(),
        ensures
            visible@ == self@.visible_items(filter@),
    {
        let needle = trim(filter);
        let at: usize = self.active_playlist;
        assert(self@.playlists[at as int] == self.playlists@[at as int]@);
        let items = &self.playlists[at].items;
        let ghost p = |i: usize| self@.item_shown(needle@, i);
        let ghost all = places(items@.len());
        let mut visible: Vec<usize> = Vec::new();
        let mut i: usize = 0;
        proof {
            reveal(Seq::filter);
        }
        assert(visible@ =~= all.take(0).filter(p));
        while i < items.len()
            invariant
                i <= items@.len(),
                items@ == self@.active().items,
                p == (|i: usize| self@.item_shown(needle@, i)),
                all == places(items@.len()),
                visible@ == all.take(i as int).filter(p),
            decreases items@.len() - i,
        {
            proof {
                lemma_filter_take(all, p, i as int);
            }
            let shown = needle.as_str().is_empty() || match self.tracks.get(&items[i]) {
                Some(track) => track_matches(track, &needle),
                None => false,
            };
            if shown {
                visible.push(i);
            }
            i = i + 1;
        }
        assert(all.take(i as int) =~= all);
        visible
    }

    /// The marked items that the active playlist holds, or else what the cursor is on.
    pub fn selected_items(&self, marked: &BTreeSet<TrackId>, selection: usize) -> (ids: Vec<
        TrackId,
    >)
        requires
            self@.wf(),
        ensures
            ids@ == self@.selected_items(marked@, selection as int),
    {
        let at: usize = self.active_playlist;
        assert(self@.playlists[at as int] == self.playlists@[at as int]@);
        let items = &self.playlists[at].items;
        let all = id_list(marked);
        let ghost p = |id: TrackId| items@.contains(id);
        let mut ids: Vec<TrackId> = Vec::new();
        let mut i: usize = 0;
        proof {
            reveal(Seq::filter);
        }
        assert(ids@ =~= all@.take(0).filter(p));
        while i < all.len()
            invariant
                i <= all@.len(),
                p == (|id: TrackId| items@.contains(id)),
                ids@ == all@.take(i as int).filter(p),
            decreases all@.len() - i,
        {
            proof {
                lemma_filter_take(all@, p, i as int);
            }
            if holds_id(items, all[i]) {
                ids.push(all[i]);
            }
            i = i + 1;
        }
        assert(all@.take(i as int) =~= all@);
        if ids.len() == 0 && selection < items.len() {
            ids.push(items[selection]);
        }
        ids
    }

    /// The identifier at a place of the active playlist.
    pub fn active_item(&self, index: usize) -> (id: Option<TrackId>)
        requires
            self@.wf(),
        ensures
            id == self@.active_item(index as int),
    {
        let at: usize = self.active_playlist;
        assert(self@.playlists[at as int] == self.playlists@[at as int]@);
        if index < self.playlists[at].items.len() {
            Some(self.playlists[at].items[index])
        } else {
            None
        }
    }

    pub fn active(&self) -> (playlist: &Playlist)
        requires
            self@.wf(),
        ensures
            playlist@ == self@.active(),
            *playlist == self.playlists@[self.active_playlist as int],
    {
        assert(self@.playlists[self.active_playlist as int]
            == self.playlists@[self.active_playlist as int]@);
        &self.playlists[self.active_playlist]
    }
}

/// The tracks below the marked rows, or below the cursor where none is marked, each once.
pub(crate) fn tracks_of_rows(
    entries: &Vec<AlbumEntry>,
    marked: &BTreeSet<usize>,
    selection: usize,
) -> (ids: Vec<TrackId>)
    ensures
        ids@ == row_tracks(entry_views(entries@), marked@, selection),
{
    let ghost rows = entry_views(entries@);
    let mut list = row_list(marked);
    proof {
        if list@.len() == 0 {
            assert(marked@ =~= Set::empty());
        } else {
            assert(list@.to_set().contains(list@[0]));
            assert(marked@.contains(list@[0]));
        }
    }
    if list.len() == 0 && entries.len() > 0 {
        let mut only: BTreeSet<usize> = BTreeSet::new();
        only.insert(selection);
        list = row_list(&only);
    }
    let mut ids: Vec<TrackId> = Vec::new();
    let mut i: usize = 0;
    while i < list.len()
        invariant
            i <= list@.len(),
            rows == entry_views(entries@),
            ids@ == tracks_below(rows, list@, i as nat),
        decreases list@.len() - i,
    {
        let at: usize = list[i];
        if at < entries.len() {
            assert(rows[at as int] == entries@[at as int]@);
            add_new(&mut ids, &entries[at].track_ids);
        }
        i = i + 1;
    }
    ids
}

impl AppView {
    pub open spec fn album_rows(self) -> Seq<EntryView> {
        self.shelf.album_rows(self.lists.album_filter, self.link.remote)
    }

    pub open spec fn visible_items(self) -> Seq<usize> {
        self.shelf.visible_items(self.lists.playlist_filter)
    }

    pub open spec fn selected_album_tracks(self) -> Seq<TrackId> {
        row_tracks(
            self.album_rows(),
            self.lists.album_marked,
            self.lists.album_selection as usize,
        )
    }

    pub open spec fn selected_playlist_tracks(self) -> Seq<TrackId> {
        self.shelf.selected_items(self.lists.playlist_marked, self.lists.playlist_selection)
    }

    /// What an action on the selection takes.
    pub open spec fn selected_library_tracks(self) -> Seq<TrackId> {
        if self.lists.focus == Focus::AlbumList || self.lists.focus == Focus::AlbumFilter {
            self.selected_album_tracks()
        } else {
            self.selected_playlist_tracks()
        }
    }

    /// What a context menu's entry takes.
    pub open spec fn selected_context_tracks(self) -> Seq<TrackId> {
        if self.lists.focus == Focus::AlbumList || self.lists.focus == Focus::AlbumFilter {
            self.selected_album_tracks()
        } else if self.panes.queue_open {
            if 0 <= self.transport.queue_selection < self.transport.queue.len() {
                seq![self.transport.queue[self.transport.queue_selection]]
            } else {
                Seq::empty()
            }
        } else {
            self.selected_playlist_tracks()
        }
    }
}

impl<E: AudioEngine> App<E> {
    pub fn visible_album_entries(&self) -> (entries: Vec<AlbumEntry>)
        ensures
            entry_views(entries@) == self@.album_rows(),
            entries@.len() == self@.album_rows().len(),
    {
        let entries = self.shelf.album_entries(&self.lists.album_filter, self.link.remote);
        assert(entry_views(entries@).len() == entries@.len());
        entries
    }

    pub fn album_entries(&self) -> (entries: Vec<AlbumEntry>)
        ensures
            entry_views(entries@) == self@.shelf.album_rows(Seq::empty(), self@.link.remote),
    {
        let empty = String::new();
        assert(empty@ =~= Seq::empty());
        self.shelf.album_entries(&empty, self.link.remote)
    }

    pub fn visible_playlist_indices(&self) -> (visible: Vec<usize>)
        requires
            self@.wf(),
        ensures
            visible@ == self@.visible_items(),
    {
        self.shelf.visible_items(&self.lists.playlist_filter)
    }

    pub fn active_playlist(&self) -> (playlist: &Playlist)
        requires
            self@.wf(),
        ensures
            playlist@ == self@.shelf.active(),
    {
        self.shelf.active()
    }

    pub fn selected_album_tracks(&self) -> (ids: Vec<TrackId>)
        ensures
            ids@ == self@.selected_album_tracks(),
    {
        let entries = self.visible_album_entries();
        tracks_of_rows(&entries, &self.lists.album_marked, self.lists.album_selection)
    }

    pub fn selected_playlist_tracks(&self) -> (ids: Vec<TrackId>)
        requires
            self@.wf(),
        ensures
            ids@ == self@.selected_playlist_tracks(),
    {
        self.shelf.selected_items(&self.lists.playlist_marked, self.lists.playlist_selection)
    }

    pub fn selected_library_tracks(&self) -> (ids: Vec<TrackId>)
        requires
            self@.wf(),
        ensures
            ids@ == self@.selected_library_tracks(),
    {
        if self.lists.focus == Focus::AlbumList || self.lists.focus == Focus::AlbumFilter {
            self.selected_album_tracks()
        } else {
            self.selected_playlist_tracks()
        }
    }

    pub fn selected_context_tracks(&self) -> (ids: Vec<TrackId>)
        requires
            self@.wf(),
        ensures
            ids@ == self@.selected_context_tracks(),
    {
        if self.lists.focus == Focus::AlbumList || self.lists.focus == Focus::AlbumFilter {
            self.selected_album_tracks()
        } else if self.panes.queue_open {
            let mut ids: Vec<TrackId> = Vec::new();
            if self.transport.queue_selection < self.transport.queue.len() {
                ids.push(self.transport.queue[self.transport.queue_selection]);
            }
            assert(ids@ =~= self@.selected_context_tracks());
            ids
        } else {
            self.selected_playlist_tracks()
        }
    }
}

} // verus!
