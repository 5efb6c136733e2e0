//! Making, closing, renaming, sorting and changing playlists; the queue.

use std::collections::BTreeSet;

use vstd::prelude::*;
use vstd::seq_lib::*;
use vstd::set_lib::*;
use vstd::string::*;

use crate::app::advance::queue_cursor;
use crate::app::browse::{add_new, with_new};
use crate::app::columns::{column_order, sort_items};
use crate::app::flow::{
    failed_with, saves_items, saves_state, AfterItems, Ask, Flow, Next,
};
use crate::app::state::{playlist_views, App, AppView, ListsView, Shelf, TransportView};
use crate::audio::AudioEngine;
use crate::model::{clone_text, Playlist, PlaylistColumn, PlaylistView, TrackId};
use crate::order::{clone_ids, lemma_filter_members, lemma_filter_take, sorted_by};
use crate::storage::SavedState;
use crate::text::{decimal, digit, push_decimal, same_text};
use crate::util::{counted, counted_text, exchanged, step_index, stepped};

verus! {

broadcast use vstd::std_specs::btree::group_btree_axioms;

/// The name of the `n`-th new playlist.
pub open spec fn numbered_name(n: nat) -> Seq<char> {
    "New Playlist ("@ + decimal(n) + ")"@
}

/// Whether a name is the one for a new playlist beside these: the plain one where it is
/// free, else the one with the first free number from 2 on.
pub open spec fn is_fresh_name(names: Seq<Seq<char>>, name: Seq<char>) -> bool {
    if !names.contains("New Playlist"@) {
        name == "New Playlist"@
    } else {
        exists|n: nat|
            n >= 2 && name == #[trigger] numbered_name(n) && !names.contains(name) && forall|m: nat|
                2 <= m < n ==> names.contains(#[trigger] numbered_name(m))
    }
}

pub open spec fn names_of(playlists: Seq<PlaylistView>) -> Seq<Seq<char>> {
    playlists.map_values(|playlist: PlaylistView| playlist.name)
}

/// A number is known by its digits.
pub proof fn lemma_decimal_injective(a: nat, b: nat)
    requires
        decimal(a) == decimal(b),
    ensures
        a == b,
    decreases a,
{
    lemma_decimal_len(a);
    lemma_decimal_len(b);
    if a < 10 {
        assert(decimal(a).len() == 1);
        if b >= 10 {
            lemma_decimal_len(b / 10);
            assert(decimal(b).len() >= 2);
        }
        assert(decimal(a) =~= seq![digit(a)]);
        assert(decimal(b) =~= seq![digit(b)]);
        assert(decimal(a)[0] == digit(a) && decimal(b)[0] == digit(b));
        lemma_digit_injective(a, b);
    } else if b < 10 {
        lemma_decimal_len(a / 10);
        assert(decimal(a).len() >= 2);
        assert(decimal(b).len() == 1);
    } else {
        assert(decimal(a).last() == digit(a % 10));
        assert(decimal(b).last() == digit(b % 10));
        lemma_digit_injective(a % 10, b % 10);
        assert(decimal(a).drop_last() =~= decimal(a / 10));
        assert(decimal(b).drop_last() =~= decimal(b / 10));
        lemma_decimal_injective(a / 10, b / 10);
    }
}

proof fn lemma_decimal_len(a: nat)
    ensures
        decimal(a).len() >= 1,
    decreases a,
{
    if a >= 10 {
        lemma_decimal_len(a / 10);
    }
}

proof fn lemma_digit_injective(a: nat, b: nat)
    requires
        a < 10,
        b < 10,
        digit(a) == digit(b),
    ensures
        a == b,
{
}

proof fn lemma_names_differ(a: nat, b: nat)
    requires
        numbered_name(a) == numbered_name(b),
    ensures
        a == b,
{
    let head = "New Playlist ("@;
    let tail = ")"@;
    reveal_strlit(")");
    assert(numbered_name(a).len() == head.len() + decimal(a).len() + 1);
    assert(numbered_name(b).len() == head.len() + decimal(b).len() + 1);
    assert(numbered_name(a).subrange(
        head.len() as int,
        head.len() + decimal(a).len() as int,
    ) =~= decimal(a));
    assert(numbered_name(b).subrange(
        head.len() as int,
        head.len() + decimal(b).len() as int,
    ) =~= decimal(b));
    lemma_decimal_injective(a, b);
}

/// As many numbers as there are playlists can be taken, and no more.
proof fn lemma_taken_numbers(names: Seq<Seq<char>>, k: nat)
    requires
        forall|m: nat| 2 <= m < 2 + k ==> names.contains(#[trigger] numbered_name(m)),
    ensures
        k <= names.len(),
{
    let taken = Seq::new(k, |i: int| numbered_name((i + 2) as nat));
    assert(taken.no_duplicates()) by {
        assert forall|i: int, j: int| 0 <= i < k && 0 <= j < k && i != j implies taken[i]
            != taken[j] by {
            if taken[i] == taken[j] {
                lemma_names_differ((i + 2) as nat, (j + 2) as nat);
            }
        }
    }
    taken.unique_seq_to_set();
    seq_to_set_is_finite(names);
    seq_to_set_is_finite(taken);
    assert(taken.to_set().subset_of(names.to_set())) by {
        assert forall|x: Seq<char>| taken.to_set().contains(x) implies names.to_set().contains(
            x,
        ) by {
            let i = choose|i: int| 0 <= i < taken.len() && taken[i] == x;
            assert(names.contains(numbered_name((i + 2) as nat)));
        }
    }
    lemma_len_subset(taken.to_set(), names.to_set());
    names.lemma_cardinality_of_set();
}

fn name_taken(playlists: &Vec<Playlist>, name: &str) -> (taken: bool)
    ensures
        taken == names_of(playlist_views(playlists@)).contains(name@),
{
    let ghost names = names_of(playlist_views(playlists@));
    let mut i: usize = 0;
    while i < playlists.len()
        invariant
            i <= playlists@.len(),
            names == names_of(playlist_views(playlists@)),
            forall|j: int| 0 <= j < i ==> names[j] != name@,
        decreases playlists@.len() - i,
    {
        assert(names[i as int] == playlists@[i as int].name@);
        if same_text(&playlists[i].name, name) {
            return true;
        }
        i = i + 1;
    }
    false
}

/// The name for a new playlist beside these.
pub fn unique_playlist_name(playlists: &Vec<Playlist>) -> (name: String)
    ensures
        is_fresh_name(names_of(playlist_views(playlists@)), name@),
{
    let ghost names = names_of(playlist_views(playlists@));
    if !name_taken(playlists, "New Playlist") {
        return "New Playlist".to_owned();
    }
    let len: usize = playlists.len();
    let mut n: u128 = 2;
    loop
        invariant
            2 <= n <= len + 2,
            len == playlists@.len(),
            names == names_of(playlist_views(playlists@)),
            names.len() == len,
            names.contains("New Playlist"@),
            forall|m: nat| 2 <= m < n ==> names.contains(#[trigger] numbered_name(m)),
        decreases len + 3 - n,
    {
        let mut name = "New Playlist (".to_owned();
        push_decimal(&mut name, n);
        name.append(")");
        assert(name@ =~= numbered_name(n as nat));
        if !name_taken(playlists, &name) {
            return name;
        }
        proof {
            assert forall|m: nat| 2 <= m < n + 1 implies names.contains(
                #[trigger] numbered_name(m),
            ) by {}
            lemma_taken_numbers(names, (n - 1) as nat);
        }
        n = n + 1;
    }
}

/// A new playlist's name is not taken.
pub proof fn law_fresh_names_are_free(names: Seq<Seq<char>>, name: Seq<char>)
    requires
        is_fresh_name(names, name),
    ensures
        !names.contains(name),
{
}

/// Items with the marked ones at these places moved up one place, one after the other.
pub open spec fn moved_up(items: Seq<TrackId>, places: Seq<usize>, n: nat) -> Seq<TrackId>
    decreases n,
{
    if n == 0 {
        items
    } else {
        let before = moved_up(items, places, (n - 1) as nat);
        exchanged(before, places[n - 1] as int, places[n - 1] - 1)
    }
}

/// Items with the last `n` of these places moved down one place, from the last one up.
pub open spec fn moved_down(items: Seq<TrackId>, places: Seq<usize>, n: nat) -> Seq<TrackId>
    decreases n,
{
    if n == 0 {
        items
    } else {
        let before = moved_down(items, places, (n - 1) as nat);
        let at = places[places.len() - n] as int;
        exchanged(before, at, at + 1)
    }
}

/// The places of the marked items, or of the cursor where none is marked.
pub open spec fn moving_places(items: Seq<TrackId>, marked: Set<TrackId>, selection: int) -> Seq<
    usize,
> {
    let all = crate::app::deal::places(items.len()).filter(
        |i: usize| marked.contains(items[i as int]),
    );
    if all.len() == 0 {
        if 0 <= selection < items.len() {
            seq![selection as usize]
        } else {
            Seq::empty()
        }
    } else {
        all
    }
}

impl AppView {
    /// What is said of tracks that were added.
    pub open spec fn added_text(count: int, name: Seq<char>) -> Seq<char> {
        "Added "@ + counted_text(count, "track"@) + " to "@ + name
    }

    /// A question after a playlist's items have changed.
    pub open spec fn items_changed(
        self,
        index: int,
        items: Seq<TrackId>,
        then: AfterItems,
        post: AppView,
        flow: Flow,
    ) -> bool {
        &&& post == (AppView { shelf: self.shelf.with_items(index, items), ..self })
        &&& saves_items(flow, PlaylistView { items, ..self.shelf.playlists[index] }, then)
    }

    /// Tracks put into a playlist that it does not hold yet.
    pub open spec fn tracks_added(
        self,
        index: int,
        ids: Seq<TrackId>,
        report: bool,
        post: AppView,
        flow: Flow,
    ) -> bool {
        let before = self.shelf.playlists[index];
        let items = with_new(before.items, ids);
        let count = items.len() - before.items.len();
        if count > 0 {
            self.items_changed(
                index,
                items,
                AfterItems::Added {
                    count: count as usize,
                    report: if report {
                        Some(index as usize)
                    } else {
                        None
                    },
                },
                post,
                flow,
            )
        } else {
            &&& flow is Done
            &&& post == if report {
                self.said(AppView::added_text(0, before.name))
            } else {
                self
            }
        }
    }

    /// What follows once a playlist's contents have been stored.
    pub open spec fn after_items(
        self,
        stored: Result<(), Seq<char>>,
        then: AfterItems,
        post: AppView,
        flow: Flow,
    ) -> bool {
        match stored {
            Err(error) => post == self && failed_with(flow, error),
            Ok(()) => flow is Done && match then {
                AfterItems::Reshuffle => exists|refusal: Option<Seq<char>>|
                    post == #[trigger] self.redealt().restaged(refusal),
                AfterItems::Sorted { column, ascending } => exists|refusal: Option<Seq<char>>|
                    post == (#[trigger] self.redealt().restaged(refusal)).said(
                        "Sorted by "@ + column.label_text() + " ("@ + (if ascending {
                            "ascending"@
                        } else {
                            "descending"@
                        }) + ")"@,
                    ),
                AfterItems::Added { count, report } => post == match report {
                    Some(index) => if index < self.shelf.playlists.len() {
                        self.redealt().said(
                            AppView::added_text(
                                count as int,
                                self.shelf.playlists[index as int].name,
                            ),
                        )
                    } else {
                        self.redealt()
                    },
                    None => self.redealt(),
                },
            },
        }
    }

    /// The tracks that a removal takes out.
    pub open spec fn removed_tracks(self) -> Set<TrackId> {
        if self.lists.playlist_marked == Set::<TrackId>::empty() {
            match self.shelf.active_item(self.lists.playlist_selection) {
                Some(id) => Set::empty().insert(id),
                None => Set::empty(),
            }
        } else {
            self.lists.playlist_marked
        }
    }

    /// The selection taken out of the active playlist; what plays stops if it is among it.
    pub open spec fn selection_removed(self, post: AppView, flow: Flow) -> bool {
        let gone = self.removed_tracks();
        if gone == Set::<TrackId>::empty() {
            post == self && flow is Done
        } else {
            let items = self.shelf.active().items.filter(|id: TrackId| !gone.contains(id));
            let stopped = match self.transport.audio.shown.track_id {
                Some(id) => if gone.contains(id) {
                    self.with_transport(self.transport.cleared())
                } else {
                    self
                },
                None => self,
            };
            stopped.with_lists(
                ListsView {
                    playlist_selection: queue_cursor(
                        self.lists.playlist_selection,
                        items.len() as int,
                    ),
                    playlist_marked: Set::empty(),
                    ..self.lists
                },
            ).items_changed(
                self.shelf.active_playlist,
                items,
                AfterItems::Reshuffle,
                post,
                flow,
            )
        }
    }

    /// The marked items moved by one place, towards the top where `delta` is negative.
    pub open spec fn items_moved(self, delta: int, post: AppView, flow: Flow) -> bool {
        if self.panes.queue_open {
            let queue = self.transport.queue;
            let from = self.transport.queue_selection;
            let to = stepped(from, delta, queue.len() as int);
            &&& flow is Done
            &&& if queue.len() < 2 || from == to {
                post == self
            } else {
                exists|refusal: Option<Seq<char>>|
                    post == #[trigger] self.with_transport(
                        TransportView {
                            queue: exchanged(queue, from, to),
                            queue_selection: to,
                            ..self.transport
                        },
                    ).restaged(refusal)
            }
        } else {
            let items = self.shelf.active().items;
            let places = moving_places(
                items,
                self.lists.playlist_marked,
                self.lists.playlist_selection,
            );
            let at_end = if delta < 0 {
                places.len() == 0 || places[0] == 0
            } else {
                places.len() == 0 || places.last() == items.len() - 1
            };
            if items.len() < 2 || at_end {
                post == self && flow is Done
            } else if delta < 0 {
                self.with_lists(
                    ListsView {
                        playlist_selection: if self.lists.playlist_selection == 0 {
                            0
                        } else {
                            self.lists.playlist_selection - 1
                        },
                        ..self.lists
                    },
                ).items_changed(
                    self.shelf.active_playlist,
                    moved_up(items, places, places.len()),
                    AfterItems::Reshuffle,
                    post,
                    flow,
                )
            } else {
                self.with_lists(
                    ListsView {
                        playlist_selection: if self.lists.playlist_selection + 1 < items.len()
                            - 1 {
                            self.lists.playlist_selection + 1
                        } else {
                            items.len() - 1
                        },
                        ..self.lists
                    },
                ).items_changed(
                    self.shelf.active_playlist,
                    moved_down(items, places, places.len()),
                    AfterItems::Reshuffle,
                    post,
                    flow,
                )
            }
        }
    }

    /// The active playlist sorted by a column, the other way round the second time.
    pub open spec fn playlist_sorted(
        self,
        column: PlaylistColumn,
        post: AppView,
        flow: Flow,
    ) -> bool {
        let ascending = match self.lists.playlist_sort {
            Some((current, ascending)) => if current == column {
                !ascending
            } else {
                true
            },
            None => true,
        };
        self.with_lists(
            ListsView { playlist_sort: Some((column, ascending)), ..self.lists },
        ).items_changed(
            self.shelf.active_playlist,
            sorted_by(
                self.shelf.active().items,
                column_order(self.shelf.tracks, column, ascending),
            ),
            AfterItems::Sorted { column, ascending },
            post,
            flow,
        )
    }

    /// The selection put at the end of the queue.
    pub open spec fn selection_queued(self, post: AppView) -> bool {
        let ids = self.selected_library_tracks();
        if ids.len() == 0 {
            post == self
        } else {
            exists|refusal: Option<Seq<char>>|
                post == (#[trigger] self.with_transport(
                    TransportView { queue: self.transport.queue + ids, ..self.transport },
                ).restaged(refusal)).said("Queued "@ + counted_text(ids.len() as int, "track"@))
        }
    }

    /// The entry under the queue's cursor taken out.
    pub open spec fn entry_dequeued(self, post: AppView) -> bool {
        let queue = self.transport.queue;
        if queue.len() == 0 {
            post == self
        } else {
            let rest = queue.remove(
                queue_cursor(self.transport.queue_selection, queue.len() as int),
            );
            exists|refusal: Option<Seq<char>>|
                post == #[trigger] self.with_transport(
                    TransportView {
                        queue: rest,
                        queue_selection: queue_cursor(
                            self.transport.queue_selection,
                            rest.len() as int,
                        ),
                        ..self.transport
                    },
                ).restaged(refusal)
        }
    }
}

/// What a removal leaves in the playlist.
pub proof fn lemma_removed(app: AppView, post: AppView, flow: Flow)
    requires
        app.wf(),
        app.selection_removed(post, flow),
    ensures
        forall|id: TrackId| #[trigger]
            post.shelf.playlists[app.shelf.active_playlist].items.contains(id)
                <==> app.shelf.active().items.contains(id) && !app.removed_tracks().contains(id),
        app.removed_tracks() == Set::<TrackId>::empty() ==> post == app,
{
    let gone = app.removed_tracks();
    lemma_filter_members(app.shelf.active().items, |id: TrackId| !gone.contains(id));
}

impl Shelf {
    /// Gives a playlist other items.
    pub(crate) fn set_items(&mut self, index: usize, items: Vec<TrackId>)
        requires
            index < old(self).playlists@.len(),
        ensures
            final(self)@ == old(self)@.with_items(index as int, items@),
            final(self).playlists@[index as int]@ == (PlaylistView {
                items: items@,
                ..old(self)@.playlists[index as int]
            }),
            final(self).playlists@.len() == old(self).playlists@.len(),
            final(self).active_playlist == old(self).active_playlist,
            final(self).tracks == old(self).tracks,
    {
        let ghost before = self@;
        let ghost view = items@;
        self.playlists[index].items = items;
        assert(self@.playlists =~= before.with_items(index as int, view).playlists);
    }

    /// Asks for a playlist's contents to be stored.
    pub(crate) fn ask_items(&self, index: usize, then: AfterItems) -> (flow: Flow)
        requires
            index < self.playlists@.len(),
        ensures
            saves_items(flow, self@.playlists[index as int], then),
    {
        assert(self@.playlists[index as int] == self.playlists@[index as int]@);
        Flow::Ask(
            Ask::SaveItems {
                playlist: self.playlists[index].id,
                items: clone_ids(&self.playlists[index].items),
            },
            Next::ItemsSaved(then),
        )
    }
}

fn added_text(count: usize, name: &str) -> (text: String)
    ensures
        text@ == AppView::added_text(count as int, name@),
{
    let mut text = "Added ".to_owned();
    let tracks = counted(count, "track");
    text.append(&tracks);
    text.append(" to ");
    text.append(name);
    text
}

/// The places of the marked items, or of the cursor where none is marked.
fn marked_places(items: &Vec<TrackId>, marked: &BTreeSet<TrackId>, selection: usize) -> (found: Vec<
    usize,
>)
    ensures
        found@ == moving_places(items@, marked@, selection as int),
        forall|i: int| 0 <= i < found@.len() ==> #[trigger] found@[i] < items@.len(),
        forall|i: int, j: int| 0 <= i < j < found@.len() ==> found@[i] < found@[j],
{
    let ghost all = crate::app::deal::places(items@.len());
    let ghost p = |i: usize| marked@.contains(items@[i as int]);
    let mut found: Vec<usize> = Vec::new();
    let mut i: usize = 0;
    proof {
        reveal(Seq::filter);
    }
    assert(found@ =~= all.take(0).filter(p));
    while i < items.len()
        invariant
            i <= items@.len(),
            all == crate::app::deal::places(items@.len()),
            p == (|i: usize| marked@.contains(items@[i as int])),
            found@ == all.take(i as int).filter(p),
            forall|k: int| 0 <= k < found@.len() ==> #[trigger] found@[k] < i,
            forall|j: int, k: int| 0 <= j < k < found@.len() ==> found@[j] < found@[k],
        decreases items@.len() - i,
    {
        proof {
            lemma_filter_take(all, p, i as int);
        }
        if marked.contains(&items[i]) {
            found.push(i);
        }
        i = i + 1;
    }
    assert(all.take(i as int) =~= all);
    if found.len() == 0 && selection < items.len() {
        found.push(selection);
        assert(found@ =~= seq![selection]);
    }
    assert(found@ =~= moving_places(items@, marked@, selection as int));
    found
}

/// Exchanges two identifiers.
fn exchange(items: &mut Vec<TrackId>, a: usize, b: usize)
    requires
        a < old(items)@.len(),
        b < old(items)@.len(),
    ensures
        final(items)@ == exchanged(old(items)@, a as int, b as int),
{
    let x: TrackId = items[a];
    let y: TrackId = items[b];
    items[a] = y;
    items[b] = x;
}

fn move_up(items: &mut Vec<TrackId>, places: &Vec<usize>)
    requires
        forall|i: int| 0 <= i < places@.len() ==> 0 < #[trigger] places@[i] < old(items)@.len(),
    ensures
        final(items)@ == moved_up(old(items)@, places@, places@.len()),
        final(items)@.len() == old(items)@.len(),
{
    let mut n: usize = 0;
    while n < places.len()
        invariant
            n <= places@.len(),
            forall|i: int| 0 <= i < places@.len() ==> 0 < #[trigger] places@[i] < old(items)@.len(),
            items@ == moved_up(old(items)@, places@, n as nat),
            items@.len() == old(items)@.len(),
        decreases places@.len() - n,
    {
        let at: usize = places[n];
        exchange(items, at, at - 1);
        n = n + 1;
    }
}

fn move_down(items: &mut Vec<TrackId>, places: &Vec<usize>)
    requires
        forall|i: int|
            0 <= i < places@.len() ==> #[trigger] places@[i] + 1 < old(items)@.len(),
    ensures
        final(items)@ == moved_down(old(items)@, places@, places@.len()),
        final(items)@.len() == old(items)@.len(),
{
    let mut n: usize = 0;
    let len: usize = items.len();
    while n < places.len()
        invariant
            n <= places@.len(),
            len == old(items)@.len(),
            forall|i: int| 0 <= i < places@.len() ==> #[trigger] places@[i] + 1 < len,
            items@ == moved_down(old(items)@, places@, n as nat),
            items@.len() == old(items)@.len(),
        decreases places@.len() - n,
    {
        let k: usize = places.len() - 1 - n;
        assert(places@[k as int] + 1 < len);
        let at: usize = places[k];
        exchange(items, at, at + 1);
        n = n + 1;
    }
}

impl<E: AudioEngine> App<E> {
    /// The state that is kept between runs.
    pub fn saved_state(&self) -> (state: SavedState)
        ensures
            state@ == self@.saved_state(),
    {
        SavedState {
            active_playlist: self.shelf.active_playlist,
            volume: self.transport.audio.snapshot().volume,
            playback_order: self.transport.playback_order,
            cursor_follows_playback: self.prefs.cursor_follows_playback,
            replay_gain_mode: self.prefs.replay_gain_mode,
            replay_gain_preamp: self.prefs.replay_gain_preamp,
            replay_gain_prevent_clip: self.prefs.replay_gain_prevent_clip,
            show_album_art: self.prefs.show_album_art,
            show_spectrum: self.prefs.show_spectrum,
            nerd_font: self.prefs.nerd_font,
            preferred_output_device: clone_text(&self.prefs.preferred_output_device),
        }
    }

    /// Asks for the state to be stored.
    pub(crate) fn save_state(&self) -> (flow: Flow)
        ensures
            saves_state(flow, self@.saved_state()),
    {
        Flow::Ask(Ask::SaveState(self.saved_state()), Next::Finish)
    }

    /// Puts tracks into a playlist that it does not hold yet.
    pub fn add_tracks_to(&mut self, index: usize, ids: &Vec<TrackId>, report: bool) -> (flow: Flow)
        requires
            old(self)@.wf(),
            index < old(self)@.shelf.playlists.len(),
        ensures
            old(self)@.tracks_added(index as int, ids@, report, final(self)@, flow),
            final(self)@.wf(),
    {
        let ghost before = self@;
        assert(self@.shelf.playlists[index as int] == self.shelf.playlists@[index as int]@);
        let mut items = clone_ids(&self.shelf.playlists[index].items);
        let count: usize = add_new(&mut items, ids);
        if count > 0 {
            self.shelf.set_items(index, items);
            return self.shelf.ask_items(
                index,
                AfterItems::Added {
                    count,
                    report: if report {
                        Some(index)
                    } else {
                        None
                    },
                },
            );
        }
        if report {
            let text = added_text(0, &self.shelf.playlists[index].name);
            self.say(text);
        }
        Flow::Done
    }

    /// Goes on once a playlist's contents have been stored.
    pub fn items_saved(&mut self, stored: Result<(), String>, then: AfterItems) -> (flow: Flow)
        requires
            old(self)@.wf(),
        ensures
            old(self)@.after_items(
                crate::app::playback::result_view(stored),
                then,
                final(self)@,
                flow,
            ),
            final(self)@.wf(),
    {
        if let Err(error) = stored {
            return Flow::Failed(error);
        }
        let ghost start = self@;
        self.rebuild_shuffle();
        match then {
            AfterItems::Reshuffle => {
                let refusal = self.restage_traced();
                assert(self@ == start.redealt().restaged(refusal@));
            },
            AfterItems::Sorted { column, ascending } => {
                let refusal = self.restage_traced();
                let ghost staged = self@;
                let mut text = "Sorted by ".to_owned();
                text.append(column.label());
                text.append(" (");
                text.append(
                    if ascending {
                        "ascending"
                    } else {
                        "descending"
                    },
                );
                text.append(")");
                self.say(text);
                assert(staged == start.redealt().restaged(refusal@));
            },
            AfterItems::Added { count, report } => {
                if let Some(index) = report {
                    if index < self.shelf.playlists.len() {
                        assert(self@.shelf.playlists[index as int]
                            == self.shelf.playlists@[index as int]@);
                        let text = added_text(count, &self.shelf.playlists[index].name);
                        self.say(text);
                    }
                }
            },
        }
        Flow::Done
    }

    /// Takes the selection out of the active playlist.
    pub fn remove_selection(&mut self) -> (flow: Flow)
        requires
            old(self)@.wf(),
        ensures
            old(self)@.selection_removed(final(self)@, flow),
            final(self)@.wf(),
    {
        let ghost start = self@;
        let at: usize = self.shelf.active_playlist;
        let marked = crate::keys::id_list(&self.lists.playlist_marked);
        proof {
            if marked@.len() == 0 {
                assert(start.lists.playlist_marked =~= Set::empty());
            } else {
                assert(marked@.to_set().contains(marked@[0]));
                assert(start.lists.playlist_marked.contains(marked@[0]));
            }
        }
        let mut gone: BTreeSet<TrackId> = BTreeSet::new();
        if marked.len() == 0 {
            match self.shelf.active_item(self.lists.playlist_selection) {
                Some(id) => {
                    gone.insert(id);
                    assert(gone@.contains(id));
                },
                None => {
                    return Flow::Done;
                },
            }
        } else {
            gone = self.lists.playlist_marked.clone();
        }
        assert(gone@ == start.removed_tracks());
        let stop = match self.transport.audio.snapshot().track_id {
            Some(id) => gone.contains(&id),
            None => false,
        };
        if stop {
            self.clear_transport();
        }
        assert(self@.shelf.playlists[at as int] == self.shelf.playlists@[at as int]@);
        let items = kept_items(&self.shelf.playlists[at].items, &gone);
        let top: usize = if items.len() == 0 {
            0
        } else {
            items.len() - 1
        };
        if self.lists.playlist_selection > top {
            self.lists.playlist_selection = top;
        }
        self.lists.playlist_marked.clear();
        self.shelf.set_items(at, items);
        self.shelf.ask_items(at, AfterItems::Reshuffle)
    }

    fn move_queue_entry(&mut self, delta: i32)
        requires
            old(self)@.wf(),
            old(self)@.panes.queue_open,
        ensures
            old(self)@.items_moved(delta as int, final(self)@, Flow::Done),
            final(self)@.wf(),
    {
        let ghost start = self@;
        let len: usize = self.transport.queue.len();
        if len < 2 {
            return;
        }
        let from: usize = self.transport.queue_selection;
        let to: usize = step_index(from, delta, len);
        if from != to {
            exchange(&mut self.transport.queue, from, to);
            self.transport.queue_selection = to;
            let ghost moved = self@;
            let refusal = self.restage_traced();
            assert(self@ == moved.restaged(refusal@));
            assert(moved == start.with_transport(
                TransportView {
                    queue: exchanged(start.transport.queue, from as int, to as int),
                    queue_selection: to as int,
                    ..start.transport
                },
            ));
        }
    }

    /// Moves the marked items, or the queue's entry, by one place.
    pub fn move_playlist_items(&mut self, delta: i32) -> (flow: Flow)
        requires
            old(self)@.wf(),
        ensures
            old(self)@.items_moved(delta as int, final(self)@, flow),
            final(self)@.wf(),
    {
        if self.panes.queue_open {
            self.move_queue_entry(delta);
            return Flow::Done;
        }
        let ghost start = self@;
        let at: usize = self.shelf.active_playlist;
        assert(self@.shelf.playlists[at as int] == self.shelf.playlists@[at as int]@);
        let mut items = clone_ids(&self.shelf.playlists[at].items);
        let len: usize = items.len();
        if len < 2 {
            return Flow::Done;
        }
        let places = marked_places(
            &items,
            &self.lists.playlist_marked,
            self.lists.playlist_selection,
        );
        if places.len() == 0 {
            return Flow::Done;
        }
        if delta < 0 {
            if places[0] == 0 {
                return Flow::Done;
            }
            assert forall|i: int| 0 <= i < places@.len() implies 0 < #[trigger] places@[i]
                < items@.len() by {
                if i > 0 {
                    assert(places@[0] < places@[i]);
                }
            }
            move_up(&mut items, &places);
            if self.lists.playlist_selection > 0 {
                self.lists.playlist_selection = self.lists.playlist_selection - 1;
            }
        } else {
            let last: usize = places.len() - 1;
            if places[last] == len - 1 {
                return Flow::Done;
            }
            assert forall|i: int| 0 <= i < places@.len() implies #[trigger] places@[i] + 1
                < items@.len() by {
                if i < last {
                    assert(places@[i] < places@[last as int]);
                }
            }
            move_down(&mut items, &places);
            self.lists.playlist_selection = if self.lists.playlist_selection < len - 2 {
                self.lists.playlist_selection + 1
            } else {
                len - 1
            };
        }
        self.shelf.set_items(at, items);
        self.shelf.ask_items(at, AfterItems::Reshuffle)
    }

    /// Sorts the active playlist.
    pub fn sort_playlist(&mut self, column: PlaylistColumn) -> (flow: Flow)
        requires
            old(self)@.wf(),
        ensures
            old(self)@.playlist_sorted(column, final(self)@, flow),
            final(self)@.wf(),
    {
        let ascending = match self.lists.playlist_sort {
            Some((current, ascending)) => if current == column {
                !ascending
            } else {
                true
            },
            None => true,
        };
        self.lists.playlist_sort = Some((column, ascending));
        let at: usize = self.shelf.active_playlist;
        assert(self@.shelf.playlists[at as int] == self.shelf.playlists@[at as int]@);
        let mut items = clone_ids(&self.shelf.playlists[at].items);
        sort_items(&mut items, &self.shelf.tracks, column, ascending);
        self.shelf.set_items(at, items);
        self.shelf.ask_items(at, AfterItems::Sorted { column, ascending })
    }

    /// Puts the selection at the end of the queue.
    pub fn queue_selection(&mut self)
        requires
            old(self)@.wf(),
        ensures
            old(self)@.selection_queued(final(self)@),
            final(self)@.wf(),
    {
        let ghost start = self@;
        let mut ids = self.selected_library_tracks();
        let count: usize = ids.len();
        if count == 0 {
            return;
        }
        self.transport.queue.append(&mut ids);
        let ghost queued = self@;
        assert(queued.transport.queue =~= start.transport.queue + start.selected_library_tracks());
        let refusal = self.restage_traced();
        let ghost staged = self@;
        let mut text = "Queued ".to_owned();
        let tracks = counted(count, "track");
        text.append(&tracks);
        self.say(text);
        proof {
            assert(queued == start.with_transport(
                TransportView {
                    queue: start.transport.queue + start.selected_library_tracks(),
                    ..start.transport
                },
            ));
            assert(staged == queued.restaged(refusal@));
        }
    }

    /// Takes the entry under the queue's cursor out.
    pub fn remove_from_queue(&mut self)
        requires
            old(self)@.wf(),
        ensures
            old(self)@.entry_dequeued(final(self)@),
            final(self)@.wf(),
    {
        let ghost start = self@;
        let len: usize = self.transport.queue.len();
        if len == 0 {
            return;
        }
        let at: usize = if self.transport.queue_selection > len - 1 {
            len - 1
        } else {
            self.transport.queue_selection
        };
        self.transport.queue.remove(at);
        let rest: usize = self.transport.queue.len();
        let top: usize = if rest == 0 {
            0
        } else {
            rest - 1
        };
        if self.transport.queue_selection > top {
            self.transport.queue_selection = top;
        }
        let ghost shorter = self@;
        let refusal = self.restage_traced();
        proof {
            assert(self@ == shorter.restaged(refusal@));
            let queue = start.transport.queue;
            let left = queue.remove(
                queue_cursor(start.transport.queue_selection, queue.len() as int),
            );
            assert(shorter == start.with_transport(
                TransportView {
                    queue: left,
                    queue_selection: queue_cursor(
                        start.transport.queue_selection,
                        left.len() as int,
                    ),
                    ..start.transport
                },
            ));
        }
    }
}

/// The items that are not to go.
fn kept_items(items: &Vec<TrackId>, gone: &BTreeSet<TrackId>) -> (kept: Vec<TrackId>)
    ensures
        kept@ == items@.filter(|id: TrackId| !gone@.contains(id)),
{
    let ghost p = |id: TrackId| !gone@.contains(id);
    let mut kept: Vec<TrackId> = Vec::new();
    let mut i: usize = 0;
    proof {
        reveal(Seq::filter);
    }
    assert(kept@ =~= items@.take(0).filter(p));
    while i < items.len()
        invariant
            i <= items@.len(),
            p == (|id: TrackId| !gone@.contains(id)),
            kept@ == items@.take(i as int).filter(p),
        decreases items@.len() - i,
    {
        proof {
            lemma_filter_take(items@, p, i as int);
        }
        if !gone.contains(&items[i]) {
            kept.push(items[i]);
        }
        i = i + 1;
    }
    assert(items@.take(i as int) =~= items@);
    kept
}

} // verus!
