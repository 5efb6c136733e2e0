//! Cursors, marks, filters and focus.

use std::collections::BTreeSet;

use vstd::prelude::*;
use vstd::string::*;

use crate::app::deal::{find_or, place_or};
use crate::app::state::{
    App, AppView, ContentPane, Lists, ListsView, Panes, Shelf, SoulseekTabView, TransportView,
};
use crate::audio::AudioEngine;
use crate::keys::row_list;
use crate::model::{Focus, TrackId};
use crate::overlay::{pop_char, shortened, Overlay};
use crate::settings::{self, next_item, setting_at, setting_id};
use crate::soulseek::{SoulseekPhase, SoulseekView};
use crate::text::chars_of;
use crate::util::{clamp_index, index_range, range_set, step_index, stepped};

verus! {

broadcast use vstd::std_specs::btree::group_btree_axioms;

impl ListsView {
    /// The cursor of the library list on a row, which alone is marked.
    pub open spec fn on_album_row(self, row: int, len: int) -> ListsView {
        ListsView {
            album_selection: row,
            album_anchor: row,
            album_marked: if len > 0 {
                Set::empty().insert(row as usize)
            } else {
                Set::empty()
            },
            ..self
        }
    }

    /// The cursor of the playlist on an item, which alone is marked.
    pub open spec fn on_item(self, item: int, id: Option<TrackId>) -> ListsView {
        ListsView {
            playlist_selection: item,
            playlist_anchor: item,
            playlist_marked: match id {
                Some(id) => Set::empty().insert(id),
                None => Set::empty(),
            },
            ..self
        }
    }

    /// The library list's cursor moved back into a list of `len` rows, and marks beyond
    /// it dropped.
    pub open spec fn album_clamped(self, len: int) -> ListsView {
        ListsView {
            album_selection: stepped(self.album_selection, 0, len),
            album_marked: self.album_marked.filter(|row: usize| row < len),
            ..self
        }
    }

    /// The playlist's cursor moved to an item that is shown.
    pub open spec fn items_clamped(self, visible: Seq<usize>) -> ListsView {
        if visible.len() == 0 {
            ListsView { playlist_selection: 0, ..self }
        } else if visible.contains(self.playlist_selection as usize) {
            self
        } else {
            ListsView { playlist_selection: visible[0] as int, ..self }
        }
    }

    /// A mark set, or taken away where it was set.
    pub open spec fn mark_toggled(self, id: TrackId) -> ListsView {
        ListsView {
            playlist_marked: if self.playlist_marked.contains(id) {
                self.playlist_marked.remove(id)
            } else {
                self.playlist_marked.insert(id)
            },
            ..self
        }
    }
}

impl Lists {
    pub(crate) fn go_to_album_row(&mut self, row: usize, len: usize)
        ensures
            final(self)@ == old(self)@.on_album_row(row as int, len as int),
    {
        self.album_selection = row;
        self.album_anchor = row;
        self.album_marked.clear();
        if len > 0 {
            self.album_marked.insert(row);
        }
    }

    pub(crate) fn go_to_item(&mut self, item: usize, id: Option<TrackId>)
        ensures
            final(self)@ == old(self)@.on_item(item as int, id),
    {
        self.playlist_selection = item;
        self.playlist_anchor = item;
        self.playlist_marked.clear();
        if let Some(id) = id {
            self.playlist_marked.insert(id);
        }
    }

    pub(crate) fn clamp_album(&mut self, len: usize)
        ensures
            final(self)@ == old(self)@.album_clamped(len as int),
    {
        self.album_selection = clamp_index(self.album_selection, len);
        let rows = row_list(&self.album_marked);
        let ghost marked = self.album_marked@;
        let mut kept: BTreeSet<usize> = BTreeSet::new();
        let mut i: usize = 0;
        while i < rows.len()
            invariant
                i <= rows@.len(),
                forall|row: usize| #[trigger]
                    kept@.contains(row) <==> (row < len && rows@.take(i as int).contains(row)),
            decreases rows@.len() - i,
        {
            let ghost before = rows@.take(i as int);
            assert(rows@.take(i + 1) =~= before.push(rows@[i as int]));
            if rows[i] < len {
                kept.insert(rows[i]);
            }
            assert forall|row: usize| #[trigger] kept@.contains(row) <==> (row < len
                && rows@.take(i + 1).contains(row)) by {
                crate::order::lemma_push_contains(before, rows@[i as int], row);
            }
            i = i + 1;
        }
        assert(rows@.take(i as int) =~= rows@);
        self.album_marked = kept;
        assert(self.album_marked@ =~= marked.filter(|row: usize| row < len)) by {
            assert forall|row: usize| rows@.contains(row) <==> marked.contains(row) by {
                assert(rows@.to_set().contains(row) <==> marked.contains(row));
            }
        }
    }

    pub(crate) fn clamp_items(&mut self, visible: &Vec<usize>)
        ensures
            final(self)@ == old(self)@.items_clamped(visible@),
    {
        let len: usize = visible.len();
        if len == 0 {
            self.playlist_selection = 0;
            return;
        }
        let at: usize = find_or(visible, self.playlist_selection, len);
        proof {
            lemma_found(visible@, self.playlist_selection, len as int, 0);
        }
        if at >= len {
            self.playlist_selection = visible[0];
        }
    }

    pub(crate) fn toggle_item_mark(&mut self, id: TrackId)
        ensures
            final(self)@ == old(self)@.mark_toggled(id),
    {
        if !self.playlist_marked.remove(&id) {
            self.playlist_marked.insert(id);
        }
        assert(self@.playlist_marked =~= old(self)@.mark_toggled(id).playlist_marked);
    }
}

/// A search that ends before the end has found what it was looking for.
pub(crate) proof fn lemma_found(s: Seq<usize>, x: usize, or: int, from: int)
    requires
        or >= s.len(),
        0 <= from <= s.len(),
    ensures
        place_or(s, x, or, from) >= s.len() <==> (forall|i: int| from <= i < s.len() ==> s[i] != x),
        place_or(s, x, or, from) < s.len() ==> from <= place_or(s, x, or, from) && s[place_or(
            s,
            x,
            or,
            from,
        )] == x,
    decreases s.len() - from,
{
    if from < s.len() && s[from] != x {
        lemma_found(s, x, or, from + 1);
    }
}

/// The setting that `n` steps lead to.
pub open spec fn settings_moved(row: int, step: int, n: nat) -> int
    decreases n,
{
    if n == 0 {
        row
    } else {
        next_item(settings_moved(row, step, (n - 1) as nat), step, 0)
    }
}

pub open spec fn distance(delta: int) -> nat {
    if delta < 0 {
        (-delta) as nat
    } else {
        delta as nat
    }
}

impl AppView {
    pub open spec fn with_lists(self, lists: ListsView) -> AppView {
        AppView { lists, ..self }
    }

    pub open spec fn filters_available(self) -> bool {
        self.panes.soulseek_open && self.soulseek.ui.phase == SoulseekPhase::Ready
    }

    /// Whether what is typed goes into a prompt of the Soulseek tab.
    pub open spec fn soulseek_captures(self) -> bool {
        self.panes.soulseek_open && self.front.overlay is Closed && (self.lists.focus
            == Focus::SoulseekQuery || self.soulseek.ui.phase == SoulseekPhase::Username
            || self.soulseek.ui.phase == SoulseekPhase::Password)
    }

    /// Whether what is typed is text.
    pub open spec fn captures(self) -> bool {
        self.soulseek_captures() || (self.front.overlay is Closed && (self.lists.focus
            == Focus::AlbumFilter || self.lists.focus == Focus::PlaylistFilter))
    }

    /// The places that the tab key goes through.
    pub open spec fn ring(self) -> Seq<Focus> {
        (if self.lists.album_filter.len() > 0 || self.lists.focus == Focus::AlbumFilter {
            seq![Focus::AlbumFilter]
        } else {
            Seq::empty()
        }) + seq![Focus::AlbumList, Focus::PlaylistTabs] + (match self.panes.pane() {
            ContentPane::Soulseek => if self.filters_available() {
                seq![Focus::SoulseekQuery, Focus::SoulseekFilter, Focus::Playlist]
            } else {
                seq![Focus::SoulseekQuery, Focus::Playlist]
            },
            ContentPane::Queue => seq![Focus::Queue],
            ContentPane::Settings => seq![Focus::Settings],
            ContentPane::Playlist => if self.lists.playlist_filter.len() > 0 || self.lists.focus
                == Focus::PlaylistFilter {
                seq![Focus::PlaylistFilter, Focus::Playlist]
            } else {
                seq![Focus::Playlist]
            },
        }) + seq![Focus::Toolbar]
    }

    pub open spec fn album_row_selected(self, index: int) -> AppView {
        let len = self.album_rows().len() as int;
        self.focused(Focus::AlbumList).with_lists(
            ListsView { focus: Focus::AlbumList, ..self.lists }.on_album_row(
                stepped(index, 0, len),
                len,
            ),
        )
    }

    pub open spec fn with_soulseek_cursor(self, selected: int) -> AppView {
        AppView {
            soulseek: SoulseekTabView {
                ui: SoulseekView { selected, ..self.soulseek.ui },
                ..self.soulseek
            },
            ..self
        }
    }

    pub open spec fn with_queue_cursor(self, selected: int) -> AppView {
        AppView {
            transport: TransportView { queue_selection: selected, ..self.transport },
            ..self
        }
    }

    /// A row of the main pane selected.
    pub open spec fn row_selected(self, index: int) -> AppView {
        match self.panes.pane() {
            ContentPane::Soulseek => self.focused(Focus::Playlist).with_soulseek_cursor(
                stepped(index, 0, self.soulseek.ui.rows().len() as int),
            ),
            ContentPane::Queue => self.focused(Focus::Queue).with_queue_cursor(
                stepped(index, 0, self.transport.queue.len() as int),
            ),
            ContentPane::Settings => if setting_at(index) is Some {
                AppView {
                    panes: Panes { settings_selected: index as usize, ..self.panes },
                    ..self.focused(Focus::Settings)
                }
            } else {
                self.focused(Focus::Settings)
            },
            ContentPane::Playlist => if 0 <= index < self.visible_items().len() {
                let item = self.visible_items()[index] as int;
                self.with_lists(
                    ListsView { focus: Focus::Playlist, ..self.lists }.on_item(
                        item,
                        self.shelf.active_item(item),
                    ),
                )
            } else {
                self.focused(Focus::Playlist)
            },
        }
    }

    pub open spec fn filter_begun(self) -> AppView {
        if self.panes.soulseek_open || self.panes.settings_open || self.front.overlay is Help
            || self.front.overlay is Menu {
            self
        } else if self.lists.focus == Focus::AlbumList || self.lists.focus == Focus::AlbumFilter {
            self.focused(Focus::AlbumFilter)
        } else if !self.panes.queue_open {
            self.focused(Focus::PlaylistFilter)
        } else {
            self
        }
    }

    pub open spec fn album_clamped(self) -> AppView {
        self.with_lists(self.lists.album_clamped(self.album_rows().len() as int))
    }

    pub open spec fn items_clamped(self) -> AppView {
        self.with_lists(self.lists.items_clamped(self.visible_items()))
    }

    pub open spec fn filter_cleared(self) -> AppView {
        match self.lists.focus {
            Focus::AlbumFilter | Focus::AlbumList => self.with_lists(
                ListsView {
                    album_filter: Seq::empty(),
                    focus: Focus::AlbumList,
                    ..self.lists
                },
            ).album_clamped(),
            Focus::PlaylistFilter | Focus::Playlist => self.with_lists(
                ListsView {
                    playlist_filter: Seq::empty(),
                    focus: Focus::Playlist,
                    ..self.lists
                },
            ).items_clamped(),
            _ => self,
        }
    }

    pub open spec fn mark_toggled(self) -> AppView {
        match self.lists.focus {
            Focus::AlbumList => {
                let row = self.lists.album_selection as usize;
                self.with_lists(
                    ListsView {
                        album_marked: if self.lists.album_marked.contains(row) {
                            self.lists.album_marked.remove(row)
                        } else {
                            self.lists.album_marked.insert(row)
                        },
                        ..self.lists
                    },
                )
            },
            Focus::Playlist => if !self.panes.soulseek_open && !self.panes.queue_open {
                match self.shelf.active_item(self.lists.playlist_selection) {
                    Some(id) => self.with_lists(self.lists.mark_toggled(id)),
                    None => self,
                }
            } else {
                self
            },
            _ => self,
        }
    }

    pub open spec fn item_row_toggled(self, index: int) -> AppView {
        let shown = self.focused(Focus::Playlist);
        if 0 <= index < self.visible_items().len() {
            let item = self.visible_items()[index] as int;
            let moved = ListsView { playlist_selection: item, ..shown.lists };
            shown.with_lists(
                match self.shelf.active_item(item) {
                    Some(id) => moved.mark_toggled(id),
                    None => moved,
                },
            )
        } else {
            shown
        }
    }

    /// The marked range drawn out by `delta` rows.
    pub open spec fn selection_extended(self, delta: int) -> AppView {
        if self.lists.focus == Focus::AlbumList {
            let len = self.album_rows().len() as int;
            if len == 0 {
                self
            } else {
                let row = stepped(self.lists.album_selection, delta, len);
                self.with_lists(
                    ListsView {
                        album_selection: row,
                        album_marked: index_range(self.lists.album_anchor, row),
                        ..self.lists
                    },
                )
            }
        } else if self.lists.focus == Focus::Playlist && !self.panes.soulseek_open
            && !self.panes.queue_open {
            let visible = self.visible_items();
            if visible.len() == 0 {
                self
            } else {
                let current = place_or(visible, self.lists.playlist_selection as usize, 0, 0);
                let next = stepped(current, delta, visible.len() as int);
                let anchor = place_or(visible, self.lists.playlist_anchor as usize, next, 0);
                self.with_lists(
                    ListsView {
                        playlist_selection: visible[next] as int,
                        playlist_marked: Set::new(
                            |id: TrackId|
                                exists|k: int|
                                    0 <= k < visible.len() && (anchor <= k <= next || next <= k
                                        <= anchor) && self.shelf.active_item(
                                        #[trigger] visible[k] as int,
                                    ) == Some(id),
                        ),
                        ..self.lists
                    },
                )
            }
        } else {
            self
        }
    }

    /// The focus above the results of the Soulseek tab.
    pub open spec fn above_results(self) -> Focus {
        if self.filters_available() {
            Focus::SoulseekFilter
        } else {
            Focus::SoulseekQuery
        }
    }

    /// The playlist's cursor moved over the items that are shown.
    pub open spec fn item_moved(self, delta: int) -> AppView {
        let visible = self.visible_items();
        if visible.len() == 0 {
            self
        } else {
            let current = place_or(visible, self.lists.playlist_selection as usize, 0, 0);
            let item = visible[stepped(current, delta, visible.len() as int)] as int;
            self.with_lists(self.lists.on_item(item, self.shelf.active_item(item)))
        }
    }

    pub open spec fn results_moved(self, delta: int) -> AppView {
        let len = self.soulseek.ui.rows().len() as int;
        let selected = self.soulseek.ui.selected;
        if len == 0 {
            if delta < 0 {
                self.focused(self.above_results())
            } else {
                self
            }
        } else if selected + delta < 0 {
            self.focused(self.above_results()).with_soulseek_cursor(0)
        } else {
            self.with_soulseek_cursor(stepped(selected, delta, len))
        }
    }

    /// The cursor of whatever has the focus moved by `delta` rows.
    pub open spec fn cursor_moved(self, delta: int) -> AppView {
        let focus = self.lists.focus;
        let open = self.panes.soulseek_open;
        if focus == Focus::AlbumFilter {
            if delta > 0 {
                self.focused(Focus::AlbumList)
            } else {
                self
            }
        } else if focus == Focus::PlaylistFilter {
            if delta > 0 {
                self.focused(Focus::Playlist)
            } else {
                self
            }
        } else if focus == Focus::AlbumList {
            let len = self.album_rows().len() as int;
            self.with_lists(
                self.lists.on_album_row(stepped(self.lists.album_selection, delta, len), len),
            )
        } else if focus == Focus::Queue {
            self.with_queue_cursor(
                stepped(
                    self.transport.queue_selection,
                    delta,
                    self.transport.queue.len() as int,
                ),
            )
        } else if focus == Focus::Settings {
            AppView {
                panes: Panes {
                    settings_selected: settings_moved(
                        self.panes.settings_selected as int,
                        if delta < 0 {
                            -1
                        } else {
                            1
                        },
                        distance(delta),
                    ) as usize,
                    ..self.panes
                },
                ..self
            }
        } else if focus == Focus::SoulseekQuery && open {
            if delta > 0 {
                self.focused(
                    if self.filters_available() {
                        Focus::SoulseekFilter
                    } else {
                        Focus::Playlist
                    },
                )
            } else {
                self
            }
        } else if focus == Focus::SoulseekFilter && open {
            if delta > 0 {
                self.focused(Focus::Playlist)
            } else if delta < 0 {
                self.focused(Focus::SoulseekQuery)
            } else {
                self
            }
        } else if focus == Focus::Playlist && open {
            self.results_moved(delta)
        } else {
            self.item_moved(delta)
        }
    }

    /// The text that the Soulseek prompt takes.
    pub open spec fn soulseek_text(self) -> Seq<char> {
        match self.soulseek.ui.phase {
            SoulseekPhase::Username => self.soulseek.ui.username,
            SoulseekPhase::Password => self.soulseek.ui.password,
            SoulseekPhase::Ready => self.soulseek.ui.query,
        }
    }

    pub open spec fn with_soulseek_text(self, text: Seq<char>) -> AppView {
        AppView {
            soulseek: SoulseekTabView {
                ui: match self.soulseek.ui.phase {
                    SoulseekPhase::Username => SoulseekView { username: text, ..self.soulseek.ui },
                    SoulseekPhase::Password => SoulseekView { password: text, ..self.soulseek.ui },
                    SoulseekPhase::Ready => SoulseekView { query: text, ..self.soulseek.ui },
                },
                ..self.soulseek
            },
            ..self
        }
    }

    /// A text changed that takes what is typed.
    pub open spec fn text_changed(self, change: spec_fn(Seq<char>) -> Seq<char>) -> AppView {
        let shown = match self.front.overlay.text() {
            Some(text) => self.showing(self.front.overlay.with_text(change(text))),
            None => self,
        };
        if shown.soulseek_captures() {
            shown.with_soulseek_text(change(shown.soulseek_text()))
        } else if shown.lists.focus == Focus::AlbumFilter {
            shown.with_lists(
                ListsView { album_filter: change(shown.lists.album_filter), ..shown.lists },
            ).album_clamped()
        } else if shown.lists.focus == Focus::PlaylistFilter {
            shown.with_lists(
                ListsView { playlist_filter: change(shown.lists.playlist_filter), ..shown.lists },
            ).items_clamped()
        } else {
            shown
        }
    }

    /// A character typed; control characters are left out.
    pub open spec fn typed(self, c: char) -> AppView {
        if control(c) {
            self
        } else {
            self.text_changed(|text: Seq<char>| text.push(c))
        }
    }

    /// A text typed, one character after the other.
    pub open spec fn pasted(self, text: Seq<char>) -> AppView
        decreases text.len(),
    {
        if text.len() == 0 {
            self
        } else {
            self.pasted(text.drop_last()).typed(text.last())
        }
    }

    pub open spec fn backspaced(self) -> AppView {
        self.text_changed(|text: Seq<char>| shortened(text))
    }
}

/// Whether a character is a control character: its code point is at most 0x1f, or
/// from 0x7f to 0x9f.
pub open spec fn control(c: char) -> bool {
    c as u32 <= 0x1f || 0x7f <= c as u32 <= 0x9f
}

fn is_control(c: char) -> (is: bool)
    ensures
        is == control(c),
{
    let code: u32 = c as u32;
    code <= 0x1f || (0x7f <= code && code <= 0x9f)
}

impl Shelf {
    /// The identifiers of the shown items from place `lo` to before place `end`.
    fn items_between(&self, visible: &Vec<usize>, lo: usize, end: usize) -> (ids: BTreeSet<TrackId>)
        requires
            self@.wf(),
            lo <= end <= visible@.len(),
        ensures
            forall|id: TrackId|
                ids@.contains(id) <==> exists|k: int|
                    lo <= k < end && self@.active_item(#[trigger] visible@[k] as int) == Some(id),
    {
        let mut ids: BTreeSet<TrackId> = BTreeSet::new();
        let mut k: usize = lo;
        while k < end
            invariant
                lo <= k <= end <= visible@.len(),
                self@.wf(),
                forall|id: TrackId|
                    ids@.contains(id) <==> exists|j: int|
                        lo <= j < k && self@.active_item(#[trigger] visible@[j] as int) == Some(id),
            decreases end - k,
        {
            let ghost before = ids@;
            let found = self.active_item(visible[k]);
            if let Some(id) = found {
                ids.insert(id);
            }
            proof {
                assert forall|id: TrackId|
                    ids@.contains(id) <==> exists|j: int|
                        lo <= j < k + 1 && self@.active_item(#[trigger] visible@[j] as int)
                            == Some(id) by {
                    if before.contains(id) {
                        let j = choose|j: int|
                            lo <= j < k && self@.active_item(#[trigger] visible@[j] as int)
                                == Some(id);
                        assert(self@.active_item(visible@[j] as int) == Some(id));
                    }
                    if found == Some(id) {
                        assert(self@.active_item(visible@[k as int] as int) == Some(id));
                    }
                }
            }
            k = k + 1;
        }
        ids
    }
}

impl<E: AudioEngine> App<E> {
    pub fn soulseek_filters_available(&self) -> (available: bool)
        ensures
            available == self@.filters_available(),
    {
        self.panes.soulseek_open && self.soulseek.ui.phase == SoulseekPhase::Ready
    }

    pub fn soulseek_captures_text(&self) -> (captures: bool)
        ensures
            captures == self@.soulseek_captures(),
    {
        let closed = match &self.front.overlay {
            Overlay::Closed => true,
            _ => false,
        };
        self.panes.soulseek_open && closed && (self.lists.focus == Focus::SoulseekQuery
            || self.soulseek.ui.phase == SoulseekPhase::Username || self.soulseek.ui.phase
            == SoulseekPhase::Password)
    }

    pub fn captures_text(&self) -> (captures: bool)
        ensures
            captures == self@.captures(),
    {
        let closed = match &self.front.overlay {
            Overlay::Closed => true,
            _ => false,
        };
        self.soulseek_captures_text() || (closed && (self.lists.focus == Focus::AlbumFilter
            || self.lists.focus == Focus::PlaylistFilter))
    }

    /// The places that the tab key goes through.
    pub fn focus_ring(&self) -> (ring: Vec<Focus>)
        ensures
            ring@ == self@.ring(),
    {
        let mut ring: Vec<Focus> = Vec::new();
        if !self.lists.album_filter.as_str().is_empty() || self.lists.focus == Focus::AlbumFilter {
            ring.push(Focus::AlbumFilter);
        }
        ring.push(Focus::AlbumList);
        ring.push(Focus::PlaylistTabs);
        match self.panes.content_pane() {
            ContentPane::Soulseek => {
                ring.push(Focus::SoulseekQuery);
                if self.soulseek_filters_available() {
                    ring.push(Focus::SoulseekFilter);
                }
                ring.push(Focus::Playlist);
            },
            ContentPane::Queue => ring.push(Focus::Queue),
            ContentPane::Settings => ring.push(Focus::Settings),
            ContentPane::Playlist => {
                if !self.lists.playlist_filter.as_str().is_empty() || self.lists.focus
                    == Focus::PlaylistFilter {
                    ring.push(Focus::PlaylistFilter);
                }
                ring.push(Focus::Playlist);
            },
        }
        ring.push(Focus::Toolbar);
        assert(ring@ =~= self@.ring());
        ring
    }

    pub fn select_album_row(&mut self, index: usize)
        ensures
            final(self)@ == old(self)@.album_row_selected(index as int),
    {
        let entries = self.visible_album_entries();
        let len: usize = entries.len();
        self.lists.focus = Focus::AlbumList;
        self.lists.go_to_album_row(clamp_index(index, len), len);
    }

    pub fn select_playlist_row(&mut self, index: usize)
        requires
            old(self)@.wf(),
        ensures
            final(self)@ == old(self)@.row_selected(index as int),
            final(self)@.wf(),
    {
        match self.panes.content_pane() {
            ContentPane::Soulseek => {
                let rows = self.soulseek.ui.visible_rows();
                assert(rows@.len() == self@.soulseek.ui.rows().len());
                self.lists.focus = Focus::Playlist;
                self.soulseek.ui.selected = clamp_index(index, rows.len());
            },
            ContentPane::Queue => {
                self.lists.focus = Focus::Queue;
                self.transport.queue_selection = clamp_index(index, self.transport.queue.len());
            },
            ContentPane::Settings => {
                self.lists.focus = Focus::Settings;
                if setting_id(index).is_some() {
                    self.panes.settings_selected = index;
                }
            },
            ContentPane::Playlist => {
                let visible = self.visible_playlist_indices();
                self.lists.focus = Focus::Playlist;
                if index < visible.len() {
                    let item: usize = visible[index];
                    let id = self.shelf.active_item(item);
                    self.lists.go_to_item(item, id);
                }
            },
        }
    }

    pub fn begin_filter(&mut self)
        ensures
            final(self)@ == old(self)@.filter_begun(),
    {
        let blocked = match &self.front.overlay {
            Overlay::Help(_) => true,
            Overlay::Menu { .. } => true,
            _ => false,
        };
        if self.panes.soulseek_open || self.panes.settings_open || blocked {
            return;
        }
        if self.lists.focus == Focus::AlbumList || self.lists.focus == Focus::AlbumFilter {
            self.lists.focus = Focus::AlbumFilter;
        } else if !self.panes.queue_open {
            self.lists.focus = Focus::PlaylistFilter;
        }
    }

    pub fn clamp_album_selection(&mut self)
        ensures
            final(self)@ == old(self)@.album_clamped(),
    {
        let entries = self.visible_album_entries();
        self.lists.clamp_album(entries.len());
    }

    pub fn clamp_playlist_selection(&mut self)
        requires
            old(self)@.wf(),
        ensures
            final(self)@ == old(self)@.items_clamped(),
    {
        let visible = self.visible_playlist_indices();
        self.lists.clamp_items(&visible);
    }

    pub fn clear_filter(&mut self)
        requires
            old(self)@.wf(),
        ensures
            final(self)@ == old(self)@.filter_cleared(),
            final(self)@.wf(),
    {
        match self.lists.focus {
            Focus::AlbumFilter | Focus::AlbumList => {
                self.lists.album_filter = String::new();
                self.lists.focus = Focus::AlbumList;
                assert(self.lists.album_filter@ =~= Seq::empty());
                self.clamp_album_selection();
            },
            Focus::PlaylistFilter | Focus::Playlist => {
                self.lists.playlist_filter = String::new();
                self.lists.focus = Focus::Playlist;
                assert(self.lists.playlist_filter@ =~= Seq::empty());
                self.clamp_playlist_selection();
            },
            _ => {},
        }
    }

    pub fn toggle_mark(&mut self)
        requires
            old(self)@.wf(),
        ensures
            final(self)@ == old(self)@.mark_toggled(),
            final(self)@.wf(),
    {
        match self.lists.focus {
            Focus::AlbumList => {
                let row: usize = self.lists.album_selection;
                if !self.lists.album_marked.remove(&row) {
                    self.lists.album_marked.insert(row);
                }
                assert(self@.lists.album_marked =~= old(self)@.mark_toggled().lists.album_marked);
            },
            Focus::Playlist => {
                if !self.panes.soulseek_open && !self.panes.queue_open {
                    if let Some(id) = self.shelf.active_item(self.lists.playlist_selection) {
                        self.lists.toggle_item_mark(id);
                    }
                }
            },
            _ => {},
        }
    }

    pub fn toggle_playlist_row(&mut self, index: usize)
        requires
            old(self)@.wf(),
        ensures
            final(self)@ == old(self)@.item_row_toggled(index as int),
            final(self)@.wf(),
    {
        let visible = self.visible_playlist_indices();
        self.lists.focus = Focus::Playlist;
        if index < visible.len() {
            let item: usize = visible[index];
            self.lists.playlist_selection = item;
            if let Some(id) = self.shelf.active_item(item) {
                self.lists.toggle_item_mark(id);
            }
        }
    }

    pub fn extend_selection(&mut self, delta: i32)
        requires
            old(self)@.wf(),
        ensures
            final(self)@ == old(self)@.selection_extended(delta as int),
            final(self)@.wf(),
    {
        if self.lists.focus == Focus::AlbumList {
            let len: usize = self.visible_album_entries().len();
            if len == 0 {
                return;
            }
            let row: usize = step_index(self.lists.album_selection, delta, len);
            self.lists.album_selection = row;
            self.lists.album_marked = range_set(self.lists.album_anchor, row);
            return;
        }
        if self.lists.focus == Focus::Playlist && !self.panes.soulseek_open
            && !self.panes.queue_open {
            let visible = self.visible_playlist_indices();
            if visible.len() == 0 {
                return;
            }
            let current: usize = find_or(&visible, self.lists.playlist_selection, 0);
            let next: usize = step_index(current, delta, visible.len());
            let anchor: usize = find_or(&visible, self.lists.playlist_anchor, next);
            let lo: usize = if anchor < next {
                anchor
            } else {
                next
            };
            let hi: usize = if anchor < next {
                next
            } else {
                anchor
            };
            let marked = self.shelf.items_between(&visible, lo, hi + 1);
            assert(marked@ =~= self@.selection_extended(delta as int).lists.playlist_marked);
            self.lists.playlist_selection = visible[next];
            self.lists.playlist_marked = marked;
        }
    }

    fn above_results(&self) -> (focus: Focus)
        ensures
            focus == self@.above_results(),
    {
        if self.soulseek_filters_available() {
            Focus::SoulseekFilter
        } else {
            Focus::SoulseekQuery
        }
    }

    fn move_results(&mut self, delta: i32)
        ensures
            final(self)@ == old(self)@.results_moved(delta as int),
    {
        let rows = self.soulseek.ui.visible_rows();
        let len: usize = rows.len();
        assert(len == self@.soulseek.ui.rows().len());
        if len == 0 {
            if delta < 0 {
                self.lists.focus = self.above_results();
            }
            return;
        }
        let next: i128 = self.soulseek.ui.selected as i128 + delta as i128;
        if next < 0 {
            self.lists.focus = self.above_results();
            self.soulseek.ui.selected = 0;
        } else {
            self.soulseek.ui.selected = step_index(self.soulseek.ui.selected, delta, len);
        }
    }

    fn move_item(&mut self, delta: i32)
        requires
            old(self)@.wf(),
        ensures
            final(self)@ == old(self)@.item_moved(delta as int),
    {
        let visible = self.visible_playlist_indices();
        if visible.len() == 0 {
            return;
        }
        let current: usize = find_or(&visible, self.lists.playlist_selection, 0);
        let next: usize = step_index(current, delta, visible.len());
        let item: usize = visible[next];
        let id = self.shelf.active_item(item);
        self.lists.go_to_item(item, id);
    }

    fn move_setting(&mut self, delta: i32)
        ensures
            final(self)@ == (AppView {
                panes: Panes {
                    settings_selected: settings_moved(
                        old(self)@.panes.settings_selected as int,
                        if delta < 0 {
                            -1
                        } else {
                            1
                        },
                        distance(delta as int),
                    ) as usize,
                    ..old(self)@.panes
                },
                ..old(self)@
            }),
    {
        let step: i32 = if delta < 0 {
            -1
        } else {
            1
        };
        let count: i64 = if delta < 0 {
            -(delta as i64)
        } else {
            delta as i64
        };
        let start: usize = self.panes.settings_selected;
        let mut row: usize = start;
        let mut i: i64 = 0;
        while i < count
            invariant
                0 <= i <= count,
                row == settings_moved(start as int, step as int, i as nat),
            decreases count - i,
        {
            row = settings::step(row, step);
            i = i + 1;
        }
        self.panes.settings_selected = row;
    }

    /// Moves the cursor of whatever has the focus.
    pub fn move_selection(&mut self, delta: i32)
        requires
            old(self)@.wf(),
        ensures
            final(self)@ == old(self)@.cursor_moved(delta as int),
            final(self)@.wf(),
    {
        let open = self.panes.soulseek_open;
        match self.lists.focus {
            Focus::AlbumFilter => {
                if delta > 0 {
                    self.lists.focus = Focus::AlbumList;
                }
            },
            Focus::PlaylistFilter => {
                if delta > 0 {
                    self.lists.focus = Focus::Playlist;
                }
            },
            Focus::AlbumList => {
                let len: usize = self.visible_album_entries().len();
                let row: usize = step_index(self.lists.album_selection, delta, len);
                self.lists.go_to_album_row(row, len);
            },
            Focus::Queue => {
                self.transport.queue_selection = step_index(
                    self.transport.queue_selection,
                    delta,
                    self.transport.queue.len(),
                );
            },
            Focus::Settings => self.move_setting(delta),
            Focus::SoulseekQuery if open => {
                if delta > 0 {
                    self.lists.focus = if self.soulseek_filters_available() {
                        Focus::SoulseekFilter
                    } else {
                        Focus::Playlist
                    };
                }
            },
            Focus::SoulseekFilter if open => {
                if delta > 0 {
                    self.lists.focus = Focus::Playlist;
                } else if delta < 0 {
                    self.lists.focus = Focus::SoulseekQuery;
                }
            },
            Focus::Playlist if open => self.move_results(delta),
            _ => self.move_item(delta),
        }
    }

    fn push_overlay_char(&mut self, c: char)
        ensures
            final(self)@ == match old(self)@.front.overlay.text() {
                Some(text) => old(self)@.showing(old(self)@.front.overlay.with_text(text.push(c))),
                None => old(self)@,
            },
    {
        self.front.overlay.push_char(c);
    }

    fn pop_overlay_char(&mut self)
        ensures
            final(self)@ == match old(self)@.front.overlay.text() {
                Some(text) => old(self)@.showing(
                    old(self)@.front.overlay.with_text(shortened(text)),
                ),
                None => old(self)@,
            },
    {
        self.front.overlay.pop_char();
    }

    fn push_soulseek_char(&mut self, c: char)
        ensures
            final(self)@ == old(self)@.with_soulseek_text(old(self)@.soulseek_text().push(c)),
    {
        match self.soulseek.ui.phase {
            SoulseekPhase::Username => self.soulseek.ui.username.push(c),
            SoulseekPhase::Password => self.soulseek.ui.password.push(c),
            SoulseekPhase::Ready => self.soulseek.ui.query.push(c),
        }
    }

    fn pop_soulseek_char(&mut self)
        ensures
            final(self)@ == old(self)@.with_soulseek_text(shortened(old(self)@.soulseek_text())),
    {
        match self.soulseek.ui.phase {
            SoulseekPhase::Username => pop_char(&mut self.soulseek.ui.username),
            SoulseekPhase::Password => pop_char(&mut self.soulseek.ui.password),
            SoulseekPhase::Ready => pop_char(&mut self.soulseek.ui.query),
        }
    }

    /// Types a character into whatever takes text.
    pub fn text_input(&mut self, character: char)
        requires
            old(self)@.wf(),
        ensures
            final(self)@ == old(self)@.typed(character),
            final(self)@.wf(),
    {
        if is_control(character) {
            return;
        }
        self.push_overlay_char(character);
        if self.soulseek_captures_text() {
            self.push_soulseek_char(character);
        } else if self.lists.focus == Focus::AlbumFilter {
            self.lists.album_filter.push(character);
            self.clamp_album_selection();
        } else if self.lists.focus == Focus::PlaylistFilter {
            self.lists.playlist_filter.push(character);
            self.clamp_playlist_selection();
        }
    }

    /// Takes the last character off whatever takes text.
    pub fn text_backspace(&mut self)
        requires
            old(self)@.wf(),
        ensures
            final(self)@ == old(self)@.backspaced(),
            final(self)@.wf(),
    {
        self.pop_overlay_char();
        if self.soulseek_captures_text() {
            self.pop_soulseek_char();
        } else if self.lists.focus == Focus::AlbumFilter {
            pop_char(&mut self.lists.album_filter);
            self.clamp_album_selection();
        } else if self.lists.focus == Focus::PlaylistFilter {
            pop_char(&mut self.lists.playlist_filter);
            self.clamp_playlist_selection();
        }
    }

    /// Types a text, one character after the other.
    pub fn paste_text(&mut self, text: &str)
        requires
            old(self)@.wf(),
        ensures
            final(self)@ == old(self)@.pasted(text@),
            final(self)@.wf(),
    {
        let chars = chars_of(text);
        let ghost start = self@;
        let mut i: usize = 0;
        assert(chars@.take(0) =~= Seq::empty());
        while i < chars.len()
            invariant
                i <= chars@.len(),
                self@ == start.pasted(chars@.take(i as int)),
                self@.wf(),
            decreases chars@.len() - i,
        {
            self.text_input(chars[i]);
            assert(chars@.take(i + 1).drop_last() =~= chars@.take(i as int));
            i = i + 1;
        }
        assert(chars@.take(i as int) =~= text@);
    }
}

} // verus!
