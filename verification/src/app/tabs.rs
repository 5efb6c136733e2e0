//! The tabs: playlists, the queue, Soulseek and the preferences.

use vstd::prelude::*;
use vstd::string::*;

use crate::app::flow::{failed_with, saves_state, Ask, Flow, Next};
use crate::app::playback::result_view;
use crate::app::playlists::{is_fresh_name, names_of, unique_playlist_name};
use crate::app::state::{App, AppView, ContentPane, ListsView, Panes, ShelfView};
use crate::audio::AudioEngine;
use crate::model::{Focus, Playlist, PlaylistId, PlaylistView};
use crate::overlay::{Overlay, OverlayView};
use crate::settings::{first_item, setting_at, setting_id};
use crate::text::{trim, trimmed};
use crate::util::{clamp_index, stepped};

verus! {

/// The number of tabs behind those of the playlists: the queue, Soulseek and the
/// preferences.
pub const EXTRA_TABS: usize = 3;

/// The identifiers of playlists.
pub open spec fn playlist_ids(playlists: Seq<PlaylistView>) -> Seq<PlaylistId> {
    playlists.map_values(|playlist: PlaylistView| playlist.id)
}

impl AppView {
    pub open spec fn with_panes(self, panes: Panes) -> AppView {
        AppView { panes, ..self }
    }

    /// A pane opened in place of the others.
    pub open spec fn pane_shown(self, pane: ContentPane) -> AppView {
        let closed = self.panes.closed();
        match pane {
            ContentPane::Playlist => self.with_panes(closed),
            ContentPane::Queue => self.with_panes(Panes { queue_open: true, ..closed }).focused(
                Focus::Queue,
            ).with_queue_cursor(
                stepped(
                    self.transport.queue_selection,
                    0,
                    self.transport.queue.len() as int,
                ),
            ),
            ContentPane::Settings => self.with_panes(
                Panes {
                    settings_open: true,
                    settings_selected: if setting_at(
                        self.panes.settings_selected as int,
                    ) is Some {
                        self.panes.settings_selected
                    } else {
                        1
                    },
                    ..closed
                },
            ).focused(Focus::Settings),
            ContentPane::Soulseek => self.with_panes(
                Panes { soulseek_open: true, ..closed },
            ).focused(Focus::SoulseekQuery),
        }
    }

    /// The preferences opened, or closed where they were open.
    pub open spec fn settings_toggled(self) -> AppView {
        if self.panes.settings_open {
            self.with_panes(Panes { settings_open: false, ..self.panes }).focused(Focus::Playlist)
        } else {
            self.pane_shown(ContentPane::Settings)
        }
    }

    /// The tab that is selected.
    pub open spec fn tab(self) -> int {
        let n = self.shelf.playlists.len() as int;
        if self.panes.settings_open {
            n + 2
        } else if self.panes.soulseek_open {
            n + 1
        } else if self.panes.queue_open {
            n
        } else {
            self.shelf.active_playlist
        }
    }

    /// A playlist's tab selected.
    pub open spec fn playlist_tab_selected(self, index: int, post: AppView, flow: Flow) -> bool {
        let moved = AppView {
            shelf: ShelfView { active_playlist: index, ..self.shelf },
            panes: self.panes.closed(),
            lists: ListsView {
                focus: match self.lists.focus {
                    Focus::SoulseekQuery
                    | Focus::SoulseekFilter
                    | Focus::Queue
                    | Focus::Settings
                    | Focus::AlbumFilter
                    | Focus::PlaylistFilter => Focus::Playlist,
                    other => other,
                },
                ..self.lists
            },
            ..self
        };
        if index == self.shelf.active_playlist {
            post == moved && flow is Done
        } else {
            &&& post == moved.with_lists(
                ListsView { playlist_selection: 0, ..moved.lists },
            ).redealt()
            &&& saves_state(flow, post.saved_state())
        }
    }

    /// The pane on top closed; the playlist itself where none is open.
    pub open spec fn view_closed(self, post: AppView, flow: Flow) -> bool {
        match self.panes.pane() {
            ContentPane::Soulseek => flow is Done && post == {
                let closed = self.with_panes(Panes { soulseek_open: false, ..self.panes });
                if self.lists.focus == Focus::SoulseekQuery || self.lists.focus
                    == Focus::SoulseekFilter {
                    closed.focused(Focus::Playlist)
                } else {
                    closed
                }
            },
            ContentPane::Queue => flow is Done && post == self.with_panes(
                Panes { queue_open: false, ..self.panes },
            ).focused(Focus::Playlist),
            ContentPane::Settings => flow is Done && post == self.with_panes(
                Panes { settings_open: false, ..self.panes },
            ).focused(Focus::Playlist),
            ContentPane::Playlist => self.playlist_closed(post, flow),
        }
    }

    /// The active playlist closed, unless it is the last one. What plays from it stops.
    pub open spec fn playlist_closed(self, post: AppView, flow: Flow) -> bool {
        if self.shelf.playlists.len() == 1 {
            post == self.said("At least one playlist must remain"@) && flow is Done
        } else {
            let gone = self.shelf.active();
            let left = self.shelf.playlists.remove(self.shelf.active_playlist);
            let shelf = ShelfView {
                playlists: left,
                active_playlist: if self.shelf.active_playlist > left.len() - 1 {
                    left.len() - 1
                } else {
                    self.shelf.active_playlist
                },
                ..self.shelf
            };
            let stopped = match self.transport.playing {
                Some((id, _)) => if id == gone.id {
                    self.transport.cleared()
                } else {
                    self.transport
                },
                None => self.transport,
            };
            &&& post == (AppView { shelf, transport: stopped, ..self })
            &&& flow matches Flow::Ask(Ask::DeletePlaylist { id }, Next::Deleted) && id == gone.id
        }
    }

    /// What follows once a playlist has been deleted from the store.
    pub open spec fn after_delete(
        self,
        stored: Result<(), Seq<char>>,
        post: AppView,
        flow: Flow,
    ) -> bool {
        &&& post == self
        &&& match stored {
            Err(error) => failed_with(flow, error),
            Ok(()) => flow matches Flow::Ask(Ask::SavePositions { ids }, Next::PositionsSaved)
                && ids@ == playlist_ids(self.shelf.playlists),
        }
    }

    /// What follows once the order of the playlists has been stored.
    pub open spec fn after_positions(
        self,
        stored: Result<(), Seq<char>>,
        post: AppView,
        flow: Flow,
    ) -> bool {
        &&& post == self
        &&& match stored {
            Err(error) => failed_with(flow, error),
            Ok(()) => flow matches Flow::Ask(Ask::SaveState(state), Next::StateSavedAfterClose)
                && state@ == self.saved_state(),
        }
    }

    /// A playlist that the store has made.
    pub open spec fn playlist_made(
        self,
        made: Result<PlaylistView, Seq<char>>,
        post: AppView,
        flow: Flow,
    ) -> bool {
        match made {
            Err(error) => post == self && failed_with(flow, error),
            Ok(playlist) => {
                &&& post == (AppView {
                    shelf: ShelfView {
                        playlists: self.shelf.playlists.push(playlist),
                        active_playlist: self.shelf.playlists.len() as int,
                        ..self.shelf
                    },
                    lists: ListsView { playlist_selection: 0, ..self.lists },
                    ..self
                }).redealt()
                &&& saves_state(flow, post.saved_state())
            },
        }
    }

    /// A playlist's name changed, once it is stored; empty names change nothing.
    pub open spec fn rename_asked(
        self,
        id: PlaylistId,
        name: Seq<char>,
        post: AppView,
        flow: Flow,
    ) -> bool {
        if trimmed(name).len() == 0 {
            post == self.showing(OverlayView::Closed) && flow is Done
        } else {
            &&& post == self
            &&& flow matches Flow::Ask(
                Ask::RenamePlaylist { id: asked, name: stored },
                Next::Renamed { id: later, name: kept },
            ) && asked == id && later == id && stored@ == trimmed(name) && kept@ == trimmed(name)
        }
    }

    pub open spec fn after_rename(
        self,
        stored: Result<(), Seq<char>>,
        id: PlaylistId,
        name: Seq<char>,
        post: AppView,
        flow: Flow,
    ) -> bool {
        match stored {
            Err(error) => post == self && failed_with(flow, error),
            Ok(()) => {
                &&& flow is Done
                &&& post == (match self.shelf.playlist_place(id) {
                    Some(place) => AppView {
                        shelf: ShelfView {
                            playlists: self.shelf.playlists.update(
                                place,
                                PlaylistView { name, ..self.shelf.playlists[place] },
                            ),
                            ..self.shelf
                        },
                        ..self
                    },
                    None => self,
                }).showing(OverlayView::Closed)
            },
        }
    }
}

impl<E: AudioEngine> App<E> {
    pub fn extra_tab_count(&self) -> (count: usize)
        ensures
            count == EXTRA_TABS,
    {
        EXTRA_TABS
    }

    pub fn tab_count(&self) -> (count: usize)
        ensures
            count == if self@.shelf.playlists.len() + EXTRA_TABS > usize::MAX {
                usize::MAX as int
            } else {
                self@.shelf.playlists.len() + EXTRA_TABS
            },
    {
        assert(self@.shelf.playlists.len() == self.shelf.playlists@.len());
        self.shelf.playlists.len().saturating_add(EXTRA_TABS)
    }

    pub fn selected_tab(&self) -> (tab: usize)
        requires
            self@.shelf.playlists.len() + EXTRA_TABS <= usize::MAX,
        ensures
            tab == self@.tab(),
    {
        let n: usize = self.shelf.playlists.len();
        assert(self@.shelf.playlists.len() == n);
        if self.panes.settings_open {
            n + 2
        } else if self.panes.soulseek_open {
            n + 1
        } else if self.panes.queue_open {
            n
        } else {
            self.shelf.active_playlist
        }
    }

    /// Opens a pane in place of the others.
    pub fn show_pane(&mut self, pane: ContentPane)
        requires
            old(self)@.wf(),
        ensures
            final(self)@ == old(self)@.pane_shown(pane),
            final(self)@.wf(),
    {
        self.panes.soulseek_open = false;
        self.panes.queue_open = false;
        self.panes.settings_open = false;
        match pane {
            ContentPane::Playlist => {},
            ContentPane::Queue => {
                self.panes.queue_open = true;
                self.lists.focus = Focus::Queue;
                self.transport.queue_selection = clamp_index(
                    self.transport.queue_selection,
                    self.transport.queue.len(),
                );
            },
            ContentPane::Settings => {
                self.panes.settings_open = true;
                self.lists.focus = Focus::Settings;
                if setting_id(self.panes.settings_selected).is_none() {
                    self.panes.settings_selected = first_item();
                }
            },
            ContentPane::Soulseek => {
                self.panes.soulseek_open = true;
                self.lists.focus = Focus::SoulseekQuery;
            },
        }
    }

    /// Opens the preferences, or closes them.
    pub fn open_settings_tab(&mut self)
        requires
            old(self)@.wf(),
        ensures
            final(self)@ == old(self)@.settings_toggled(),
            final(self)@.wf(),
    {
        if self.panes.settings_open {
            self.panes.settings_open = false;
            self.lists.focus = Focus::Playlist;
        } else {
            self.show_pane(ContentPane::Settings);
        }
    }

    /// Selects a playlist's tab.
    pub fn select_playlist(&mut self, index: usize) -> (flow: Flow)
        requires
            old(self)@.wf(),
            index < old(self)@.shelf.playlists.len(),
        ensures
            old(self)@.playlist_tab_selected(index as int, final(self)@, flow),
            final(self)@.wf(),
    {
        let same = index == self.shelf.active_playlist;
        self.panes.soulseek_open = false;
        self.panes.queue_open = false;
        self.panes.settings_open = false;
        self.shelf.active_playlist = index;
        match self.lists.focus {
            Focus::SoulseekQuery
            | Focus::SoulseekFilter
            | Focus::Queue
            | Focus::Settings
            | Focus::AlbumFilter
            | Focus::PlaylistFilter => {
                self.lists.focus = Focus::Playlist;
            },
            _ => {},
        }
        if same {
            return Flow::Done;
        }
        self.lists.playlist_selection = 0;
        self.rebuild_shuffle();
        self.save_state()
    }

    /// Asks for a new playlist.
    pub fn new_playlist(&self) -> (flow: Flow)
        ensures
            flow matches Flow::Ask(
                Ask::CreatePlaylist { name, position },
                Next::PlaylistCreated,
            ) && is_fresh_name(names_of(self@.shelf.playlists), name@) && position
                == self@.shelf.playlists.len(),
    {
        let name = unique_playlist_name(&self.shelf.playlists);
        assert(self@.shelf.playlists.len() == self.shelf.playlists@.len());
        Flow::Ask(
            Ask::CreatePlaylist { name, position: self.shelf.playlists.len() },
            Next::PlaylistCreated,
        )
    }

    /// Goes on with the playlist that the store has made.
    pub fn playlist_created(&mut self, made: Result<Playlist, String>) -> (flow: Flow)
        requires
            old(self)@.wf(),
        ensures
            old(self)@.playlist_made(
                match made {
                    Ok(playlist) => Ok(playlist@),
                    Err(error) => Err(error@),
                },
                final(self)@,
                flow,
            ),
            final(self)@.wf(),
    {
        let playlist = match made {
            Ok(playlist) => playlist,
            Err(error) => {
                return Flow::Failed(error);
            },
        };
        let ghost before = self@.shelf.playlists;
        let ghost added = playlist@;
        self.shelf.playlists.push(playlist);
        assert(self@.shelf.playlists =~= before.push(added));
        self.shelf.active_playlist = self.shelf.playlists.len() - 1;
        self.lists.playlist_selection = 0;
        self.rebuild_shuffle();
        self.save_state()
    }

    pub fn begin_rename_playlist(&mut self)
        requires
            old(self)@.wf(),
        ensures
            final(self)@ == old(self)@.showing(
                OverlayView::Rename {
                    playlist_id: old(self)@.shelf.active().id,
                    text: old(self)@.shelf.active().name,
                },
            ),
            final(self)@.wf(),
    {
        let playlist = self.shelf.active();
        let overlay = Overlay::Rename { playlist_id: playlist.id, text: playlist.name.clone() };
        self.front.overlay = overlay;
    }

    /// Asks for a playlist to be renamed.
    pub fn rename_playlist(&mut self, id: PlaylistId, name: &str) -> (flow: Flow)
        ensures
            old(self)@.rename_asked(id, name@, final(self)@, flow),
    {
        let name = trim(name);
        if name.as_str().is_empty() {
            self.front.overlay = Overlay::Closed;
            return Flow::Done;
        }
        Flow::Ask(
            Ask::RenamePlaylist { id, name: name.clone() },
            Next::Renamed { id, name },
        )
    }

    /// Goes on once a playlist's name has been stored.
    pub fn playlist_renamed(
        &mut self,
        stored: Result<(), String>,
        id: PlaylistId,
        name: String,
    ) -> (flow: Flow)
        requires
            old(self)@.wf(),
        ensures
            old(self)@.after_rename(result_view(stored), id, name@, final(self)@, flow),
            final(self)@.wf(),
    {
        if let Err(error) = stored {
            return Flow::Failed(error);
        }
        let ghost before = self@.shelf;
        let ghost text = name@;
        if let Some(place) = self.shelf.find_playlist(id) {
            self.shelf.playlists[place].name = name;
            assert(self@.shelf.playlists =~= before.playlists.update(
                place as int,
                PlaylistView { name: text, ..before.playlists[place as int] },
            ));
        }
        self.front.overlay = Overlay::Closed;
        Flow::Done
    }

    /// Closes the pane on top, or the active playlist.
    pub fn close_current_view(&mut self) -> (flow: Flow)
        requires
            old(self)@.wf(),
        ensures
            old(self)@.view_closed(final(self)@, flow),
            final(self)@.wf(),
    {
        match self.panes.content_pane() {
            ContentPane::Soulseek => {
                self.panes.soulseek_open = false;
                if self.lists.focus == Focus::SoulseekQuery || self.lists.focus
                    == Focus::SoulseekFilter {
                    self.lists.focus = Focus::Playlist;
                }
                Flow::Done
            },
            ContentPane::Queue => {
                self.panes.queue_open = false;
                self.lists.focus = Focus::Playlist;
                Flow::Done
            },
            ContentPane::Settings => {
                self.panes.settings_open = false;
                self.lists.focus = Focus::Playlist;
                Flow::Done
            },
            ContentPane::Playlist => self.close_active_playlist(),
        }
    }

    /// Closes the active playlist.
    pub fn close_active_playlist(&mut self) -> (flow: Flow)
        requires
            old(self)@.wf(),
        ensures
            old(self)@.playlist_closed(final(self)@, flow),
            final(self)@.wf(),
    {
        let len: usize = self.shelf.playlists.len();
        assert(self@.shelf.playlists.len() == len);
        if len == 1 {
            self.say("At least one playlist must remain".to_owned());
            return Flow::Done;
        }
        let at: usize = self.shelf.active_playlist;
        let ghost before = self@;
        assert(self@.shelf.playlists[at as int] == self.shelf.playlists@[at as int]@);
        let gone = self.shelf.playlists.remove(at);
        assert(self@.shelf.playlists =~= before.shelf.playlists.remove(at as int));
        if at > len - 2 {
            self.shelf.active_playlist = len - 2;
        }
        let stop = match self.transport.playing {
            Some((id, _)) => id == gone.id,
            None => false,
        };
        if stop {
            self.transport.clear();
        }
        Flow::Ask(Ask::DeletePlaylist { id: gone.id }, Next::Deleted)
    }

    /// Goes on once a playlist has been deleted from the store.
    pub fn playlist_deleted(&self, stored: Result<(), String>) -> (flow: Flow)
        ensures
            self@.after_delete(result_view(stored), self@, flow),
    {
        if let Err(error) = stored {
            return Flow::Failed(error);
        }
        let mut ids: Vec<PlaylistId> = Vec::new();
        let mut i: usize = 0;
        while i < self.shelf.playlists.len()
            invariant
                i <= self.shelf.playlists@.len(),
                ids@ == playlist_ids(self@.shelf.playlists).take(i as int),
            decreases self.shelf.playlists@.len() - i,
        {
            ids.push(self.shelf.playlists[i].id);
            i = i + 1;
            assert(ids@ =~= playlist_ids(self@.shelf.playlists).take(i as int));
        }
        assert(ids@ =~= playlist_ids(self@.shelf.playlists));
        Flow::Ask(Ask::SavePositions { ids }, Next::PositionsSaved)
    }

    /// Goes on once the order of the playlists has been stored.
    pub fn positions_saved(&self, stored: Result<(), String>) -> (flow: Flow)
        ensures
            self@.after_positions(result_view(stored), self@, flow),
    {
        if let Err(error) = stored {
            return Flow::Failed(error);
        }
        Flow::Ask(Ask::SaveState(self.saved_state()), Next::StateSavedAfterClose)
    }
}

/// Opening a pane leaves exactly that pane open.
pub proof fn law_one_pane_is_open(app: AppView, pane: ContentPane)
    ensures
        app.pane_shown(pane).panes.pane() == pane,
{
}

} // verus!
