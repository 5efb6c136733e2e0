//! Context menus, properties and the file manager.

use vstd::prelude::*;
use vstd::string::*;

use crate::action::Action;
use crate::app::flow::{Ask, Flow, Next};
use crate::app::state::{App, AppView};
use crate::audio::AudioEngine;
use crate::model::{clock_text, format_duration, Focus, Playlist, PlaylistView, Track, TrackId};
use crate::overlay::{context_items, Overlay, OverlayView};
use crate::path::{parent, parent_of};
use crate::soulseek::{RowView, SoulseekRowKind, SoulseekScope};
use crate::text::{append_decimal, decimal};
use crate::util::{clamp_index, stepped};
use crate::app::advance::queue_cursor;
use crate::path_codec::{show_path, shown_path};

verus! {

broadcast use vstd::std_specs::btree::group_btree_axioms;

/// Where a menu opens: at the pointer, where both coordinates are known.
pub open spec fn place_of(x: Option<u16>, y: Option<u16>) -> Option<(u16, u16)> {
    match (x, y) {
        (Some(x), Some(y)) => Some((x, y)),
        _ => None,
    }
}

/// The entries that put the selection into each of the playlists.
pub open spec fn add_entries(playlists: Seq<PlaylistView>) -> Seq<(Seq<char>, Action)> {
    Seq::new(
        playlists.len(),
        |i: int| ("Add to "@ + playlists[i].name, Action::AddSelectionToPlaylist(i as usize)),
    )
}

/// The context menu of a row of the Soulseek results.
pub open spec fn result_items(row: RowView, expanded: bool) -> Seq<(Seq<char>, Action)> {
    let fold = if expanded {
        "Collapse"@
    } else {
        "Expand"@
    };
    let hide_user = "Hide "@ + row.username;
    let from_user = "Download all from "@ + row.username;
    match row.kind {
        SoulseekRowKind::File => seq![
            ("Download file"@, Action::SoulseekDownload(SoulseekScope::File)),
            ("Download folder"@, Action::SoulseekDownload(SoulseekScope::Folder)),
            (from_user, Action::SoulseekDownload(SoulseekScope::User)),
            ("Hide file"@, Action::SoulseekHide(SoulseekScope::File)),
            ("Hide folder"@, Action::SoulseekHide(SoulseekScope::Folder)),
            (hide_user, Action::SoulseekHide(SoulseekScope::User)),
        ],
        SoulseekRowKind::Folder => seq![
            ("Download folder"@, Action::SoulseekDownload(SoulseekScope::Folder)),
            (fold, Action::SoulseekFold(!expanded)),
            (from_user, Action::SoulseekDownload(SoulseekScope::User)),
            ("Hide folder"@, Action::SoulseekHide(SoulseekScope::Folder)),
            (hide_user, Action::SoulseekHide(SoulseekScope::User)),
        ],
        SoulseekRowKind::User => seq![
            (from_user, Action::SoulseekDownload(SoulseekScope::User)),
            (fold, Action::SoulseekFold(!expanded)),
            (hide_user, Action::SoulseekHide(SoulseekScope::User)),
        ],
    }
}

/// A number, or what stands for its absence.
pub open spec fn number_or(n: Option<nat>, absent: Seq<char>) -> Seq<char> {
    match n {
        Some(n) => decimal(n),
        None => absent,
    }
}

pub open spec fn opt_nat(n: Option<u32>) -> Option<nat> {
    match n {
        Some(n) => Some(n as nat),
        None => None,
    }
}

/// The text of a track's properties; `gain` is its loudness in words.
pub open spec fn properties_text(track: Track, gain: Seq<char>) -> Seq<char> {
    "Title: "@ + track.title@ + "\nArtist: "@ + track.artist@ + "\nAlbum: "@ + track.album@
        + "\nDate: "@ + number_or(opt_nat(track.date), "—"@) + "\nTrack: "@ + number_or(
        opt_nat(track.track_number),
        "—"@,
    ) + "\nTime: "@ + clock_text(track.duration.secs as nat) + "\nCodec: "@ + track.codec@ + " | "@
        + number_or(opt_nat(track.sample_rate), "?"@) + " Hz | "@ + number_or(
        match track.channels {
            Some(n) => Some(n as nat),
            None => None,
        },
        "?"@,
    ) + " ch\nSize: "@ + decimal(track.file_size as nat) + " bytes\nReplayGain: "@ + gain
        + "\nPath: "@ + shown_path(track.path@)
}

impl AppView {
    /// The entries of the context menu of the lists.
    pub open spec fn list_items(self) -> Seq<(Seq<char>, Action)> {
        if self.panes.queue_open {
            seq![
                ("Play"@, Action::ActivateSelection),
                ("Remove from queue"@, Action::RemoveSelection),
                ("Move up"@, Action::MovePlaylistItems((-1) as i32)),
                ("Move down"@, Action::MovePlaylistItems(1)),
                ("Clear queue"@, Action::ClearQueue),
                ("Properties"@, Action::ShowProperties),
                ("Open containing folder"@, Action::OpenContainingFolder),
            ]
        } else {
            seq![
                (
                    if self.lists.focus == Focus::AlbumList {
                        "Add to playlist"@
                    } else {
                        "Play"@
                    },
                    Action::ActivateSelection,
                ),
                ("Add to playback queue"@, Action::QueueSelection),
            ] + (if self.lists.focus == Focus::Playlist {
                seq![
                    ("Remove"@, Action::RemoveSelection),
                    ("Move up"@, Action::MovePlaylistItems((-1) as i32)),
                    ("Move down"@, Action::MovePlaylistItems(1)),
                ]
            } else {
                Seq::empty()
            }) + add_entries(self.shelf.playlists) + seq![
                ("Scan ReplayGain"@, Action::ScanReplayGain),
                ("Properties"@, Action::ShowProperties),
                ("Open containing folder"@, Action::OpenContainingFolder),
            ]
        }
    }

    /// The entries of the context menu of the Soulseek results.
    pub open spec fn soulseek_items(self) -> Seq<(Seq<char>, Action)> {
        match self.soulseek.ui.current() {
            None => Seq::empty(),
            Some(row) => result_items(row, !self.soulseek.ui.collapsed.contains(row.key)),
        }
    }

    /// A context menu opened, where it has entries.
    pub open spec fn context_opened(
        self,
        items: Seq<(Seq<char>, Action)>,
        at: Option<(u16, u16)>,
    ) -> AppView {
        if items.len() == 0 {
            self
        } else {
            self.showing(OverlayView::ContextMenu { selected: 0, items, at })
        }
    }

    /// The context menu of the Soulseek results opened on a row.
    pub open spec fn soulseek_context(
        self,
        row: Option<usize>,
        x: Option<u16>,
        y: Option<u16>,
    ) -> AppView {
        if !self.panes.soulseek_open {
            self
        } else {
            let shown = self.focused(Focus::Playlist);
            let moved = match row {
                Some(index) => shown.with_soulseek_cursor(
                    stepped(index as int, 0, self.soulseek.ui.rows().len() as int),
                ),
                None => shown,
            };
            moved.context_opened(moved.soulseek_items(), place_of(x, y))
        }
    }

    /// The context menu of the list in front opened on a row.
    pub open spec fn list_context(
        self,
        row: Option<usize>,
        x: Option<u16>,
        y: Option<u16>,
    ) -> AppView {
        if self.panes.soulseek_open {
            self.soulseek_context(row, x, y)
        } else {
            let moved = if self.panes.queue_open {
                (match row {
                    Some(index) => self.with_queue_cursor(
                        queue_cursor(index as int, self.transport.queue.len() as int),
                    ),
                    None => self,
                }).focused(Focus::Queue)
            } else if self.lists.focus == Focus::AlbumList || self.lists.focus
                == Focus::AlbumFilter {
                (match row {
                    Some(index) => self.with_lists(
                        crate::app::state::ListsView {
                            album_selection: stepped(
                                index as int,
                                0,
                                self.album_rows().len() as int,
                            ),
                            ..self.lists
                        },
                    ),
                    None => self,
                }).focused(Focus::AlbumList)
            } else {
                match row {
                    Some(index) => (if index < self.visible_items().len() {
                        self.with_lists(
                            crate::app::state::ListsView {
                                playlist_selection: self.visible_items()[index as int] as int,
                                ..self.lists
                            },
                        )
                    } else {
                        self
                    }).focused(Focus::Playlist),
                    None => self,
                }
            };
            moved.context_opened(moved.list_items(), place_of(x, y))
        }
    }

    /// The properties of the selection; of a single track they take a description of its
    /// loudness.
    pub open spec fn properties_asked(self, post: AppView, flow: Flow) -> bool {
        let ids = self.selected_context_tracks();
        if ids.len() == 0 {
            post == self.said("Nothing selected"@) && flow is Done
        } else if ids.len() > 1 {
            &&& flow is Done
            &&& post == self.showing(
                OverlayView::Properties {
                    title: " Properties "@,
                    body: decimal(ids.len()) + " tracks selected"@,
                },
            )
        } else {
            &&& post == self
            &&& match self.shelf.track(ids[0]) {
                None => flow is Done,
                Some(track) => flow matches Flow::Ask(
                    Ask::DescribeGain { info },
                    Next::PropertiesGain { track: id },
                ) && info == track.replay_gain && id == ids[0],
            }
        }
    }

    pub open spec fn properties_shown(self, id: TrackId, gain: Seq<char>) -> AppView {
        match self.shelf.track(id) {
            Some(track) => self.showing(
                OverlayView::Properties {
                    title: " Properties "@,
                    body: properties_text(track, gain),
                },
            ),
            None => self,
        }
    }

    /// The folder of the first selected track, to be shown in the file manager.
    pub open spec fn folder_asked(self, post: AppView, flow: Flow) -> bool {
        let ids = self.selected_context_tracks();
        let track = if ids.len() == 0 {
            None
        } else {
            self.shelf.track(ids[0])
        };
        match track {
            None => post == self.said("Nothing selected"@) && flow is Done,
            Some(track) => match parent_of(track.path@) {
                None => post == self.said("Track has no parent folder"@) && flow is Done,
                Some(folder) => post == self && (flow matches Flow::Ask(
                    Ask::ShowFolder { path },
                    Next::FolderShown { path: kept },
                ) && path@ == folder && kept@ == folder),
            },
        }
    }

    pub open spec fn folder_shown(self, shown: Result<(), Seq<char>>, path: Seq<char>) -> AppView {
        match shown {
            Ok(()) => self.said("Opened "@ + shown_path(path)),
            Err(error) => self.said("Could not open folder: "@ + error),
        }
    }
}

fn item(items: &mut Vec<(String, Action)>, text: String, action: Action)
    ensures
        context_items(final(items)@) == context_items(old(items)@).push((text@, action)),
{
    let ghost before = context_items(items@);
    let ghost view = (text@, action);
    items.push((text, action));
    assert(context_items(items@) =~= before.push(view));
}

fn joined_text(head: &str, tail: &str) -> (text: String)
    ensures
        text@ == head@ + tail@,
{
    let mut text = head.to_owned();
    text.append(tail);
    text
}

fn push_number_or(text: &mut String, n: Option<u64>, absent: &str)
    ensures
        final(text)@ == old(text)@ + number_or(
            match n {
                Some(n) => Some(n as nat),
                None => None,
            },
            absent@,
        ),
{
    match n {
        Some(n) => append_decimal(text, n),
        None => text.append(absent),
    }
}

fn widened(n: Option<u32>) -> (wide: Option<u64>)
    ensures
        match wide {
            Some(w) => n matches Some(m) && m == w,
            None => n is None,
        },
{
    match n {
        Some(n) => Some(n as u64),
        None => None,
    }
}

/// The text of a track's properties.
pub fn track_properties(track: &Track, gain: &str) -> (text: String)
    ensures
        text@ == properties_text(*track, gain@),
{
    let mut text = "Title: ".to_owned();
    text.append(&track.title);
    text.append("\nArtist: ");
    text.append(&track.artist);
    text.append("\nAlbum: ");
    text.append(&track.album);
    text.append("\nDate: ");
    push_number_or(&mut text, widened(track.date), "—");
    text.append("\nTrack: ");
    push_number_or(&mut text, widened(track.track_number), "—");
    text.append("\nTime: ");
    let time = format_duration(track.duration);
    text.append(&time);
    text.append("\nCodec: ");
    text.append(&track.codec);
    text.append(" | ");
    push_number_or(&mut text, widened(track.sample_rate), "?");
    text.append(" Hz | ");
    push_number_or(
        &mut text,
        match track.channels {
            Some(n) => Some(n as u64),
            None => None,
        },
        "?",
    );
    text.append(" ch\nSize: ");
    append_decimal(&mut text, track.file_size);
    text.append(" bytes\nReplayGain: ");
    text.append(gain);
    text.append("\nPath: ");
    text.append(&show_path(&track.path));
    text
}

impl<E: AudioEngine> App<E> {
    fn list_context_items(&self) -> (items: Vec<(String, Action)>)
        ensures
            context_items(items@) == self@.list_items(),
            context_items(items@).len() == items@.len(),
    {
        let mut items: Vec<(String, Action)> = Vec::new();
        assert(context_items(items@) =~= Seq::empty());
        if self.panes.queue_open {
            item(&mut items, "Play".to_owned(), Action::ActivateSelection);
            item(&mut items, "Remove from queue".to_owned(), Action::RemoveSelection);
            item(&mut items, "Move up".to_owned(), Action::MovePlaylistItems(-1));
            item(&mut items, "Move down".to_owned(), Action::MovePlaylistItems(1));
            item(&mut items, "Clear queue".to_owned(), Action::ClearQueue);
            item(&mut items, "Properties".to_owned(), Action::ShowProperties);
            item(
                &mut items,
                "Open containing folder".to_owned(),
                Action::OpenContainingFolder,
            );
            assert(context_items(items@) =~= self@.list_items());
            return items;
        }
        let first = if self.lists.focus == Focus::AlbumList {
            "Add to playlist".to_owned()
        } else {
            "Play".to_owned()
        };
        item(&mut items, first, Action::ActivateSelection);
        item(&mut items, "Add to playback queue".to_owned(), Action::QueueSelection);
        if self.lists.focus == Focus::Playlist {
            item(&mut items, "Remove".to_owned(), Action::RemoveSelection);
            item(&mut items, "Move up".to_owned(), Action::MovePlaylistItems(-1));
            item(&mut items, "Move down".to_owned(), Action::MovePlaylistItems(1));
        }
        let ghost head = context_items(items@);
        let ghost adds = add_entries(self@.shelf.playlists);
        let mut i: usize = 0;
        assert(context_items(items@) =~= head + adds.take(0));
        while i < self.shelf.playlists.len()
            invariant
                i <= self.shelf.playlists@.len(),
                adds == add_entries(self@.shelf.playlists),
                context_items(items@) == head + adds.take(i as int),
            decreases self.shelf.playlists@.len() - i,
        {
            let text = joined_text("Add to ", &self.shelf.playlists[i].name);
            assert(self@.shelf.playlists[i as int] == self.shelf.playlists@[i as int]@);
            item(&mut items, text, Action::AddSelectionToPlaylist(i));
            i = i + 1;
            assert(context_items(items@) =~= head + adds.take(i as int));
        }
        assert(adds.take(i as int) =~= adds);
        item(&mut items, "Scan ReplayGain".to_owned(), Action::ScanReplayGain);
        item(&mut items, "Properties".to_owned(), Action::ShowProperties);
        item(&mut items, "Open containing folder".to_owned(), Action::OpenContainingFolder);
        assert(context_items(items@) =~= self@.list_items());
        items
    }

    fn soulseek_context_items(&self) -> (items: Vec<(String, Action)>)
        ensures
            context_items(items@) == self@.soulseek_items(),
            context_items(items@).len() == items@.len(),
    {
        let mut items: Vec<(String, Action)> = Vec::new();
        assert(context_items(items@) =~= Seq::empty());
        let row = match self.soulseek.ui.current_row() {
            Some(row) => row,
            None => {
                return items;
            },
        };
        let expanded = !self.soulseek.ui.collapsed.contains(&row.key);
        let fold = if expanded {
            "Collapse".to_owned()
        } else {
            "Expand".to_owned()
        };
        let hide_user = joined_text("Hide ", &row.username);
        let from_user = joined_text("Download all from ", &row.username);
        match row.kind {
            SoulseekRowKind::File => {
                item(
                    &mut items,
                    "Download file".to_owned(),
                    Action::SoulseekDownload(SoulseekScope::File),
                );
                item(
                    &mut items,
                    "Download folder".to_owned(),
                    Action::SoulseekDownload(SoulseekScope::Folder),
                );
                item(&mut items, from_user, Action::SoulseekDownload(SoulseekScope::User));
                item(
                    &mut items,
                    "Hide file".to_owned(),
                    Action::SoulseekHide(SoulseekScope::File),
                );
                item(
                    &mut items,
                    "Hide folder".to_owned(),
                    Action::SoulseekHide(SoulseekScope::Folder),
                );
                item(&mut items, hide_user, Action::SoulseekHide(SoulseekScope::User));
            },
            SoulseekRowKind::Folder => {
                item(
                    &mut items,
                    "Download folder".to_owned(),
                    Action::SoulseekDownload(SoulseekScope::Folder),
                );
                item(&mut items, fold, Action::SoulseekFold(!expanded));
                item(&mut items, from_user, Action::SoulseekDownload(SoulseekScope::User));
                item(
                    &mut items,
                    "Hide folder".to_owned(),
                    Action::SoulseekHide(SoulseekScope::Folder),
                );
                item(&mut items, hide_user, Action::SoulseekHide(SoulseekScope::User));
            },
            SoulseekRowKind::User => {
                item(&mut items, from_user, Action::SoulseekDownload(SoulseekScope::User));
                item(&mut items, fold, Action::SoulseekFold(!expanded));
                item(&mut items, hide_user, Action::SoulseekHide(SoulseekScope::User));
            },
        }
        assert(context_items(items@) =~= self@.soulseek_items());
        items
    }

    /// Opens a context menu, where it has entries.
    pub fn open_context_menu(&mut self, items: Vec<(String, Action)>, at: Option<(u16, u16)>)
        ensures
            final(self)@ == old(self)@.context_opened(context_items(items@), at),
    {
        assert(context_items(items@).len() == items@.len());
        if items.len() > 0 {
            self.front.overlay = Overlay::ContextMenu { selected: 0, items, at };
        }
    }

    /// Opens the context menu of the Soulseek results.
    pub fn open_soulseek_context(&mut self, row: Option<usize>, x: Option<u16>, y: Option<u16>)
        ensures
            final(self)@ == old(self)@.soulseek_context(row, x, y),
    {
        if !self.panes.soulseek_open {
            return;
        }
        self.lists.focus = Focus::Playlist;
        if let Some(index) = row {
            let rows = self.soulseek.ui.visible_rows();
            assert(rows@.len() == self@.soulseek.ui.rows().len());
            self.soulseek.ui.selected = clamp_index(index, rows.len());
        }
        let items = self.soulseek_context_items();
        let at = match (x, y) {
            (Some(x), Some(y)) => Some((x, y)),
            _ => None,
        };
        self.open_context_menu(items, at);
    }

    fn move_to_context_row(&mut self, row: Option<usize>)
        requires
            old(self)@.wf(),
            !old(self)@.panes.soulseek_open,
        ensures
            final(self)@.wf(),
            forall|x: Option<u16>, y: Option<u16>|
                old(self)@.list_context(row, x, y) == #[trigger] final(self)@.context_opened(
                    final(self)@.list_items(),
                    place_of(x, y),
                ),
    {
        if self.panes.queue_open {
            if let Some(index) = row {
                let len: usize = self.transport.queue.len();
                let top: usize = if len == 0 {
                    0
                } else {
                    len - 1
                };
                self.transport.queue_selection = if index > top {
                    top
                } else {
                    index
                };
            }
            self.lists.focus = Focus::Queue;
        } else if self.lists.focus == Focus::AlbumList || self.lists.focus == Focus::AlbumFilter {
            if let Some(index) = row {
                let len: usize = self.visible_album_entries().len();
                self.lists.album_selection = clamp_index(index, len);
            }
            self.lists.focus = Focus::AlbumList;
        } else if let Some(index) = row {
            let visible = self.visible_playlist_indices();
            if index < visible.len() {
                self.lists.playlist_selection = visible[index];
            }
            self.lists.focus = Focus::Playlist;
        }
    }

    /// Opens the context menu of the list in front.
    pub fn open_list_context(&mut self, row: Option<usize>, x: Option<u16>, y: Option<u16>)
        requires
            old(self)@.wf(),
        ensures
            final(self)@ == old(self)@.list_context(row, x, y),
            final(self)@.wf(),
    {
        if self.panes.soulseek_open {
            self.open_soulseek_context(row, x, y);
            return;
        }
        self.move_to_context_row(row);
        let items = self.list_context_items();
        let at = match (x, y) {
            (Some(x), Some(y)) => Some((x, y)),
            _ => None,
        };
        self.open_context_menu(items, at);
    }

    /// Shows the properties of the selection.
    pub fn show_properties(&mut self) -> (flow: Flow)
        requires
            old(self)@.wf(),
        ensures
            old(self)@.properties_asked(final(self)@, flow),
            final(self)@.wf(),
    {
        let ids = self.selected_context_tracks();
        if ids.len() == 0 {
            self.say("Nothing selected".to_owned());
            return Flow::Done;
        }
        if ids.len() > 1 {
            let mut body = String::new();
            append_decimal(&mut body, ids.len() as u64);
            body.append(" tracks selected");
            assert(body@ =~= decimal(ids@.len()) + " tracks selected"@);
            self.front.overlay = Overlay::Properties { title: " Properties ".to_owned(), body };
            return Flow::Done;
        }
        match self.shelf.tracks.get(&ids[0]) {
            None => Flow::Done,
            Some(track) => Flow::Ask(
                Ask::DescribeGain { info: track.replay_gain },
                Next::PropertiesGain { track: ids[0] },
            ),
        }
    }

    /// Shows a track's properties, its loudness being described.
    pub fn gain_described(&mut self, id: TrackId, gain: &str)
        ensures
            final(self)@ == old(self)@.properties_shown(id, gain@),
    {
        let body = match self.shelf.tracks.get(&id) {
            Some(track) => track_properties(track, gain),
            None => {
                return;
            },
        };
        self.front.overlay = Overlay::Properties { title: " Properties ".to_owned(), body };
    }

    /// Shows the folder of the selection in the file manager.
    pub fn open_containing_folder(&mut self) -> (flow: Flow)
        requires
            old(self)@.wf(),
        ensures
            old(self)@.folder_asked(final(self)@, flow),
            final(self)@.wf(),
    {
        let ids = self.selected_context_tracks();
        let folder = if ids.len() == 0 {
            self.say("Nothing selected".to_owned());
            return Flow::Done;
        } else {
            match self.shelf.tracks.get(&ids[0]) {
                Some(track) => parent(&track.path),
                None => {
                    self.say("Nothing selected".to_owned());
                    return Flow::Done;
                },
            }
        };
        match folder {
            None => {
                self.say("Track has no parent folder".to_owned());
                Flow::Done
            },
            Some(path) => Flow::Ask(
                Ask::ShowFolder { path: path.clone() },
                Next::FolderShown { path },
            ),
        }
    }

    /// Says how showing a folder went.
    pub fn folder_opened(&mut self, shown: Result<(), String>, path: &str)
        ensures
            final(self)@ == old(self)@.folder_shown(
                crate::app::playback::result_view(shown),
                path@,
            ),
    {
        let text = match shown {
            Ok(()) => joined_text("Opened ", &show_path(path)),
            Err(error) => joined_text("Could not open folder: ", &error),
        };
        self.say(text);
    }
}

} // verus!
