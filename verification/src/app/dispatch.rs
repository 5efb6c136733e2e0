//! From an action to what it does.

use vstd::prelude::*;
use vstd::string::*;

use crate::action::Action;
use crate::app::flow::{Ask, Flow, Next};
use crate::app::state::{App, AppView, FrontView};
use crate::audio::AudioEngine;
use crate::menus::{labelled, menu_actions, menu_items};
use crate::order::views;
use crate::overlay::{context_items, Overlay, OverlayView, PickerMode};
use crate::util::clamped;

verus! {

/// What an action is about.
#[derive(Clone, Copy, Debug, PartialEq, Eq, Structural)]
pub enum ActionGroup {
    Playback,
    Cursor,
    Playlists,
    Screen,
    Network,
}

impl Action {
    pub open spec fn in_group(self) -> ActionGroup {
        match self {
            Action::TogglePlay
            | Action::Stop
            | Action::Previous
            | Action::Next
            | Action::SeekRelative(_)
            | Action::SeekFraction { .. }
            | Action::VolumeRelative(_)
            | Action::SetVolume { .. }
            | Action::CyclePlaybackOrder
            | Action::QueueSelection
            | Action::ClearQueue
            | Action::ToggleStopAfterCurrent
            | Action::RetryAudio
            | Action::ScanReplayGain
            | Action::SettingsAdjust(_) => ActionGroup::Playback,
            Action::SelectAlbumRow(_)
            | Action::SelectPlaylistRow(_)
            | Action::MoveSelection(_)
            | Action::PageSelection(_)
            | Action::TextInput(_)
            | Action::PasteText(_)
            | Action::TextBackspace
            | Action::FocusNext(_)
            | Action::BeginFilter
            | Action::ClearFilter
            | Action::ToggleMark
            | Action::TogglePlaylistRow(_)
            | Action::ExtendSelection(_) => ActionGroup::Cursor,
            Action::SelectPlaylist(_)
            | Action::NewPlaylist
            | Action::BeginRenamePlaylist
            | Action::RenamePlaylist(_, _)
            | Action::ClosePlaylist
            | Action::ActivateSelection
            | Action::RemoveSelection
            | Action::MovePlaylistItems(_)
            | Action::SortPlaylist(_)
            | Action::AddSelectionToPlaylist(_) => ActionGroup::Playlists,
            Action::Nothing
            | Action::Quit
            | Action::AddPaths(_)
            | Action::AddFromClipboard
            | Action::OpenFiles
            | Action::OpenFolder
            | Action::ToggleHelp
            | Action::OpenMenu(_)
            | Action::ActivateMenuItem(_)
            | Action::OverlayMove(_)
            | Action::OverlayActivate
            | Action::PickerChooseCurrent
            | Action::CloseOverlay
            | Action::OpenListContext { .. }
            | Action::ShowProperties
            | Action::OpenContainingFolder
            | Action::OpenSettings => ActionGroup::Screen,
            Action::RescanLibrary
            | Action::BeginConnect
            | Action::DisconnectServer
            | Action::SubmitConnect
            | Action::SubmitPair
            | Action::BeginSoulseek
            | Action::SoulseekFold(_)
            | Action::SoulseekDownload(_)
            | Action::SoulseekHide(_)
            | Action::SoulseekSetFormat(_)
            | Action::SoulseekCycleFormat(_)
            | Action::SoulseekToggleFreeSlot => ActionGroup::Network,
        }
    }
}

impl AppView {
    /// What the actions on playback do.
    pub open spec fn playback_runs(self, action: Action, post: AppView, flow: Flow) -> bool {
        match action {
            Action::TogglePlay => self.play_toggled(post, flow),
            Action::Stop => flow is Done && post == self.with_transport(
                self.transport.cleared(),
            ).said("Stopped"@),
            Action::Previous => self.goes_back(post, flow),
            Action::Next => self.goes_ahead(post, flow),
            Action::SeekRelative(seconds) => self.seeks_by(seconds as int, post, flow),
            Action::SeekFraction { at, of } => post == self && (flow matches Flow::Ask(
                Ask::ScaleDuration { duration, at: a, of: o },
                Next::SeekScaled,
            ) && duration == self.transport.audio.shown.duration && a == at && o == of),
            Action::VolumeRelative(percent) => post == self && (flow matches Flow::Ask(
                Ask::AddVolume { volume, percent: p },
                Next::VolumeAdded,
            ) && volume == self.transport.audio.shown.volume && p == percent),
            Action::SetVolume { at, of } => post == self && (flow matches Flow::Ask(
                Ask::VolumeFraction { at: a, of: o },
                Next::VolumeScaled,
            ) && a == at && o == of),
            Action::CyclePlaybackOrder => self.order_cycled(post, flow),
            Action::QueueSelection => self.selection_queued(post) && flow is Done,
            Action::ClearQueue => self.queue_cleared(post) && flow is Done,
            Action::ToggleStopAfterCurrent => self.stop_toggled(post) && flow is Done,
            Action::RetryAudio => self.audio_retried(post, flow),
            Action::ScanReplayGain => self.gain_scan_asked(post, flow),
            Action::SettingsAdjust(delta) => self.setting_adjusted(delta, post, flow),
            _ => true,
        }
    }

    /// What the actions on cursors, marks and text do.
    pub open spec fn cursor_runs(self, action: Action, post: AppView) -> bool {
        match action {
            Action::SelectAlbumRow(index) => post == self.album_row_selected(index as int),
            Action::SelectPlaylistRow(index) => post == self.row_selected(index as int),
            Action::MoveSelection(delta) => post == self.cursor_moved(delta as int),
            Action::PageSelection(delta) => post == self.cursor_moved(
                clamped(delta * 10, i32::MIN as int, i32::MAX as int),
            ),
            Action::TextInput(c) => post == self.typed(c),
            Action::PasteText(text) => post == self.pasted(text@),
            Action::TextBackspace => post == self.backspaced(),
            Action::FocusNext(backwards) => post == self.focused(
                self.lists.focus.cycled(backwards, self.ring()),
            ),
            Action::BeginFilter => post == self.filter_begun(),
            Action::ClearFilter => post == self.filter_cleared(),
            Action::ToggleMark => post == self.mark_toggled(),
            Action::TogglePlaylistRow(index) => post == self.item_row_toggled(index as int),
            Action::ExtendSelection(delta) => post == self.selection_extended(delta as int),
            _ => true,
        }
    }

    /// What the actions on playlists do.
    pub open spec fn playlist_runs(self, action: Action, post: AppView, flow: Flow) -> bool {
        match action {
            Action::SelectPlaylist(index) => self.tab_selected(index as int, post, flow),
            Action::NewPlaylist => post == self && (flow matches Flow::Ask(
                Ask::CreatePlaylist { name, position },
                Next::PlaylistCreated,
            ) && crate::app::playlists::is_fresh_name(
                crate::app::playlists::names_of(self.shelf.playlists),
                name@,
            ) && position == self.shelf.playlists.len()),
            Action::BeginRenamePlaylist => flow is Done && post == self.showing(
                OverlayView::Rename {
                    playlist_id: self.shelf.active().id,
                    text: self.shelf.active().name,
                },
            ),
            Action::RenamePlaylist(id, name) => self.rename_asked(id, name@, post, flow),
            Action::ClosePlaylist => self.view_closed(post, flow),
            Action::ActivateSelection => self.selection_activated(post, flow),
            Action::RemoveSelection => self.current_removed(post, flow),
            Action::MovePlaylistItems(delta) => self.items_moved(delta as int, post, flow),
            Action::SortPlaylist(column) => self.playlist_sorted(column, post, flow),
            Action::AddSelectionToPlaylist(index) => self.selection_added(
                index as int,
                post,
                flow,
            ),
            _ => true,
        }
    }

    /// What the actions on what is shown do, where no menu is open.
    pub open spec fn screen_runs(self, action: Action, post: AppView, flow: Flow) -> bool {
        match action {
            Action::Nothing => post == self && flow is Done,
            Action::Quit => flow is Done && post == (AppView {
                front: FrontView { should_quit: true, ..self.front },
                ..self
            }),
            Action::AddPaths(paths) => self.paths_asked(views(paths@), post, flow),
            Action::AddFromClipboard => post == self && (flow matches Flow::Ask(
                Ask::ClipboardPaths,
                Next::ClipboardRead,
            )),
            Action::OpenFiles => post == self && (flow matches Flow::Ask(
                Ask::ListFolder { directory },
                Next::PickerOpened(mode),
            ) && directory is None && mode == PickerMode::Files),
            Action::OpenFolder => post == self && (flow matches Flow::Ask(
                Ask::ListFolder { directory },
                Next::PickerOpened(mode),
            ) && directory is None && mode == PickerMode::Folder),
            Action::ToggleHelp => post == self.help_toggled() && flow is Done,
            Action::OpenMenu(menu) => flow is Done && post == self.showing(
                OverlayView::Menu { menu: menu as int, selected: 0 },
            ),
            Action::ActivateMenuItem(_) => post == self && flow is Done,
            Action::OverlayMove(delta) => flow is Done && post == self.showing(
                self.front.overlay.moved(delta as int),
            ),
            Action::OverlayActivate => flow is Done && post == self.showing(OverlayView::Closed),
            Action::PickerChooseCurrent => self.folder_chosen(post, flow),
            Action::CloseOverlay => flow is Done && post == self.showing(OverlayView::Closed),
            Action::OpenListContext { row, x, y } => flow is Done && post == self.list_context(
                row,
                x,
                y,
            ),
            Action::ShowProperties => self.properties_asked(post, flow),
            Action::OpenContainingFolder => self.folder_asked(post, flow),
            Action::OpenSettings => post == self.settings_toggled() && flow is Done,
            _ => true,
        }
    }

    /// What the actions on servers and Soulseek do.
    pub open spec fn network_runs(self, action: Action, post: AppView, flow: Flow) -> bool {
        match action {
            Action::RescanLibrary => post == self && (flow matches Flow::Ask(
                Ask::LoadRoots,
                Next::RescanRoots,
            )),
            Action::BeginConnect => post == self.connect_begun() && flow is Done,
            Action::DisconnectServer => post == self.disconnected() && flow is Done,
            Action::SubmitConnect => self.connect_asked(post, flow),
            Action::SubmitPair => post == self.pair_submitted() && flow is Done,
            Action::BeginSoulseek => self.soulseek_opened(post, flow),
            Action::SoulseekFold(expand) => flow is Done && post
                == if self.panes.soulseek_open {
                self.with_ui(self.soulseek.ui.toggled(Some(expand)))
            } else {
                self
            },
            Action::SoulseekDownload(scope) => post == self.downloading(scope) && flow is Done,
            Action::SoulseekHide(scope) => post == self.scope_hidden(scope) && flow is Done,
            Action::SoulseekSetFormat(format) => post == self.format_set(format) && flow is Done,
            Action::SoulseekCycleFormat(delta) => flow is Done && post == self.format_cycled(
                delta as int,
            ),
            Action::SoulseekToggleFreeSlot => post == self.free_slot_toggled() && flow is Done,
            _ => true,
        }
    }

    /// What an action does where no menu is open.
    pub open spec fn runs(self, action: Action, post: AppView, flow: Flow) -> bool {
        match action.in_group() {
            ActionGroup::Playback => self.playback_runs(action, post, flow),
            ActionGroup::Cursor => self.cursor_runs(action, post) && flow is Done,
            ActionGroup::Playlists => self.playlist_runs(action, post, flow),
            ActionGroup::Screen => self.screen_runs(action, post, flow),
            ActionGroup::Network => self.network_runs(action, post, flow),
        }
    }

    /// The menu closed and one of its entries run.
    pub open spec fn entry_run(
        self,
        items: Seq<(Seq<char>, Action)>,
        selected: int,
        post: AppView,
        flow: Flow,
    ) -> bool {
        let closed = self.showing(OverlayView::Closed);
        if 0 <= selected < items.len() {
            closed.runs(items[selected].1, post, flow)
        } else {
            post == closed && flow is Done
        }
    }

    /// An entry of the open menu run.
    pub open spec fn menu_item_activated(
        self,
        selected: int,
        post: AppView,
        flow: Flow,
    ) -> bool {
        match self.front.overlay {
            OverlayView::Menu { menu, .. } => self.entry_run(
                menu_items(menu),
                selected,
                post,
                flow,
            ),
            OverlayView::ContextMenu { items, .. } => self.entry_run(items, selected, post, flow),
            _ => post == self && flow is Done,
        }
    }

    /// Enter pressed in what lies over the main screen.
    pub open spec fn overlay_activated(self, post: AppView, flow: Flow) -> bool {
        match self.front.overlay {
            OverlayView::Menu { menu, selected } => self.entry_run(
                menu_items(menu),
                selected,
                post,
                flow,
            ),
            OverlayView::ContextMenu { items, selected, .. } => self.entry_run(
                items,
                selected,
                post,
                flow,
            ),
            OverlayView::PathPicker(_) => self.entry_opened(post, flow),
            OverlayView::Rename { playlist_id, text } => self.rename_asked(
                playlist_id,
                text,
                post,
                flow,
            ),
            OverlayView::Connect { .. } => self.connect_asked(post, flow),
            OverlayView::Pair { .. } => post == self.pair_submitted() && flow is Done,
            OverlayView::Help(help) => flow is Done && post == self.showing(
                OverlayView::Help(help.toggled()),
            ),
            _ => flow is Done && post == self.showing(OverlayView::Closed),
        }
    }

    /// What an action does.
    pub open spec fn handles(self, action: Action, post: AppView, flow: Flow) -> bool {
        match action {
            Action::ActivateMenuItem(selected) => self.menu_item_activated(
                selected as int,
                post,
                flow,
            ),
            Action::OverlayActivate => self.overlay_activated(post, flow),
            _ => self.runs(action, post, flow),
        }
    }
}

impl Action {
    fn group(&self) -> (group: ActionGroup)
        ensures
            group == self.in_group(),
    {
        match self {
            Action::TogglePlay
            | Action::Stop
            | Action::Previous
            | Action::Next
            | Action::SeekRelative(_)
            | Action::SeekFraction { .. }
            | Action::VolumeRelative(_)
            | Action::SetVolume { .. }
            | Action::CyclePlaybackOrder
            | Action::QueueSelection
            | Action::ClearQueue
            | Action::ToggleStopAfterCurrent
            | Action::RetryAudio
            | Action::ScanReplayGain
            | Action::SettingsAdjust(_) => ActionGroup::Playback,
            Action::SelectAlbumRow(_)
            | Action::SelectPlaylistRow(_)
            | Action::MoveSelection(_)
            | Action::PageSelection(_)
            | Action::TextInput(_)
            | Action::PasteText(_)
            | Action::TextBackspace
            | Action::FocusNext(_)
            | Action::BeginFilter
            | Action::ClearFilter
            | Action::ToggleMark
            | Action::TogglePlaylistRow(_)
            | Action::ExtendSelection(_) => ActionGroup::Cursor,
            Action::SelectPlaylist(_)
            | Action::NewPlaylist
            | Action::BeginRenamePlaylist
            | Action::RenamePlaylist(_, _)
            | Action::ClosePlaylist
            | Action::ActivateSelection
            | Action::RemoveSelection
            | Action::MovePlaylistItems(_)
            | Action::SortPlaylist(_)
            | Action::AddSelectionToPlaylist(_) => ActionGroup::Playlists,
            Action::RescanLibrary
            | Action::BeginConnect
            | Action::DisconnectServer
            | Action::SubmitConnect
            | Action::SubmitPair
            | Action::BeginSoulseek
            | Action::SoulseekFold(_)
            | Action::SoulseekDownload(_)
            | Action::SoulseekHide(_)
            | Action::SoulseekSetFormat(_)
            | Action::SoulseekCycleFormat(_)
            | Action::SoulseekToggleFreeSlot => ActionGroup::Network,
            _ => ActionGroup::Screen,
        }
    }
}

impl<E: AudioEngine> App<E> {
    fn run_playback(&mut self, action: Action) -> (flow: Flow)
        requires
            old(self)@.wf(),
            action.in_group() == ActionGroup::Playback,
        ensures
            old(self)@.playback_runs(action, final(self)@, flow),
            final(self)@.wf(),
    {
        match action {
            Action::TogglePlay => self.toggle_play(),
            Action::Stop => {
                self.clear_transport();
                self.say("Stopped".to_owned());
                Flow::Done
            },
            Action::Previous => self.go_back(),
            Action::Next => self.go_ahead(),
            Action::SeekRelative(seconds) => self.seek_by(seconds),
            Action::SeekFraction { at, of } => Flow::Ask(
                Ask::ScaleDuration {
                    duration: self.transport.audio.snapshot().duration,
                    at,
                    of,
                },
                Next::SeekScaled,
            ),
            Action::VolumeRelative(percent) => Flow::Ask(
                Ask::AddVolume { volume: self.transport.audio.snapshot().volume, percent },
                Next::VolumeAdded,
            ),
            Action::SetVolume { at, of } => Flow::Ask(
                Ask::VolumeFraction { at, of },
                Next::VolumeScaled,
            ),
            Action::CyclePlaybackOrder => self.cycle_order(),
            Action::QueueSelection => {
                self.queue_selection();
                Flow::Done
            },
            Action::ClearQueue => {
                self.clear_queue();
                Flow::Done
            },
            Action::ToggleStopAfterCurrent => {
                self.toggle_stop();
                Flow::Done
            },
            Action::RetryAudio => self.retry_audio(),
            Action::ScanReplayGain => self.begin_replaygain_scan(),
            Action::SettingsAdjust(delta) => self.adjust_setting(delta),
            _ => Flow::Done,
        }
    }

    fn page(&mut self, delta: i32)
        requires
            old(self)@.wf(),
        ensures
            final(self)@ == old(self)@.cursor_moved(
                clamped(delta * 10, i32::MIN as int, i32::MAX as int),
            ),
            final(self)@.wf(),
    {
        let wide: i64 = delta as i64 * 10;
        let rows: i32 = if wide < i32::MIN as i64 {
            i32::MIN
        } else if wide > i32::MAX as i64 {
            i32::MAX
        } else {
            wide as i32
        };
        self.move_selection(rows);
    }

    fn run_cursor(&mut self, action: Action)
        requires
            old(self)@.wf(),
            action.in_group() == ActionGroup::Cursor,
        ensures
            old(self)@.cursor_runs(action, final(self)@),
            final(self)@.wf(),
    {
        match action {
            Action::SelectAlbumRow(index) => self.select_album_row(index),
            Action::SelectPlaylistRow(index) => self.select_playlist_row(index),
            Action::MoveSelection(delta) => self.move_selection(delta),
            Action::PageSelection(delta) => self.page(delta),
            Action::TextInput(c) => self.text_input(c),
            Action::PasteText(text) => self.paste_text(&text),
            Action::TextBackspace => self.text_backspace(),
            Action::FocusNext(backwards) => {
                let ring = self.focus_ring();
                self.lists.focus = self.lists.focus.cycle(backwards, &ring);
            },
            Action::BeginFilter => self.begin_filter(),
            Action::ClearFilter => self.clear_filter(),
            Action::ToggleMark => self.toggle_mark(),
            Action::TogglePlaylistRow(index) => self.toggle_playlist_row(index),
            Action::ExtendSelection(delta) => self.extend_selection(delta),
            _ => {},
        }
    }

    fn run_playlists(&mut self, action: Action) -> (flow: Flow)
        requires
            old(self)@.wf(),
            action.in_group() == ActionGroup::Playlists,
        ensures
            old(self)@.playlist_runs(action, final(self)@, flow),
            final(self)@.wf(),
    {
        match action {
            Action::SelectPlaylist(index) => self.select_playlist_tab(index),
            Action::NewPlaylist => self.new_playlist(),
            Action::BeginRenamePlaylist => {
                self.begin_rename_playlist();
                Flow::Done
            },
            Action::RenamePlaylist(id, name) => self.rename_playlist(id, &name),
            Action::ClosePlaylist => self.close_current_view(),
            Action::ActivateSelection => self.activate_selection(),
            Action::RemoveSelection => self.remove_current(),
            Action::MovePlaylistItems(delta) => self.move_playlist_items(delta),
            Action::SortPlaylist(column) => self.sort_playlist(column),
            Action::AddSelectionToPlaylist(index) => self.add_selection_to_playlist(index),
            _ => Flow::Done,
        }
    }

    fn move_overlay(&mut self, delta: i32)
        ensures
            final(self)@ == old(self)@.showing(old(self)@.front.overlay.moved(delta as int)),
    {
        self.front.overlay.move_cursor(delta);
    }

    fn run_screen(&mut self, action: Action) -> (flow: Flow)
        requires
            old(self)@.wf(),
            action.in_group() == ActionGroup::Screen,
        ensures
            old(self)@.screen_runs(action, final(self)@, flow),
            final(self)@.wf(),
    {
        match action {
            Action::Quit => {
                self.front.should_quit = true;
                Flow::Done
            },
            Action::AddPaths(paths) => self.add_paths(paths),
            Action::AddFromClipboard => Flow::Ask(Ask::ClipboardPaths, Next::ClipboardRead),
            Action::OpenFiles => Flow::Ask(
                Ask::ListFolder { directory: None },
                Next::PickerOpened(PickerMode::Files),
            ),
            Action::OpenFolder => Flow::Ask(
                Ask::ListFolder { directory: None },
                Next::PickerOpened(PickerMode::Folder),
            ),
            Action::ToggleHelp => {
                self.toggle_help();
                Flow::Done
            },
            Action::OpenMenu(menu) => {
                self.front.overlay = Overlay::Menu { menu, selected: 0 };
                Flow::Done
            },
            Action::OverlayMove(delta) => {
                self.move_overlay(delta);
                Flow::Done
            },
            Action::OverlayActivate => {
                self.front.overlay = Overlay::Closed;
                Flow::Done
            },
            Action::PickerChooseCurrent => self.picker_choose_current(),
            Action::CloseOverlay => {
                self.front.overlay = Overlay::Closed;
                Flow::Done
            },
            Action::OpenListContext { row, x, y } => {
                self.open_list_context(row, x, y);
                Flow::Done
            },
            Action::ShowProperties => self.show_properties(),
            Action::OpenContainingFolder => self.open_containing_folder(),
            Action::OpenSettings => {
                self.open_settings_tab();
                Flow::Done
            },
            _ => Flow::Done,
        }
    }

    fn run_network(&mut self, action: Action) -> (flow: Flow)
        requires
            old(self)@.wf(),
            action.in_group() == ActionGroup::Network,
        ensures
            old(self)@.network_runs(action, final(self)@, flow),
            final(self)@.wf(),
    {
        match action {
            Action::RescanLibrary => Flow::Ask(Ask::LoadRoots, Next::RescanRoots),
            Action::BeginConnect => {
                self.begin_connect();
                Flow::Done
            },
            Action::DisconnectServer => {
                self.disconnect_remote();
                Flow::Done
            },
            Action::SubmitConnect => self.submit_connect(),
            Action::SubmitPair => {
                self.submit_pair();
                Flow::Done
            },
            Action::BeginSoulseek => self.open_soulseek_tab(),
            Action::SoulseekFold(expand) => {
                if self.panes.soulseek_open {
                    self.soulseek.ui.toggle(Some(expand));
                }
                Flow::Done
            },
            Action::SoulseekDownload(scope) => {
                self.soulseek_download(scope);
                Flow::Done
            },
            Action::SoulseekHide(scope) => {
                self.soulseek_hide(scope);
                Flow::Done
            },
            Action::SoulseekSetFormat(format) => {
                self.apply_soulseek_format(format);
                Flow::Done
            },
            Action::SoulseekCycleFormat(delta) => {
                self.cycle_soulseek_format(delta);
                Flow::Done
            },
            Action::SoulseekToggleFreeSlot => {
                self.toggle_soulseek_free_slot();
                Flow::Done
            },
            _ => Flow::Done,
        }
    }

    /// Runs an action where no menu is open.
    pub(crate) fn run(&mut self, action: Action) -> (flow: Flow)
        requires
            old(self)@.wf(),
        ensures
            old(self)@.runs(action, final(self)@, flow),
            final(self)@.wf(),
    {
        match action.group() {
            ActionGroup::Playback => self.run_playback(action),
            ActionGroup::Cursor => {
                self.run_cursor(action);
                Flow::Done
            },
            ActionGroup::Playlists => self.run_playlists(action),
            ActionGroup::Screen => self.run_screen(action),
            ActionGroup::Network => self.run_network(action),
        }
    }

    fn run_menu_entry(&mut self, menu: usize, selected: usize) -> (flow: Flow)
        requires
            old(self)@.wf(),
        ensures
            old(self)@.entry_run(
                menu_items(menu as int),
                selected as int,
                final(self)@,
                flow,
            ),
            final(self)@.wf(),
    {
        self.front.overlay = Overlay::Closed;
        let mut items = menu_actions(menu);
        assert(labelled(items@).len() == items@.len());
        if selected < items.len() {
            assert(labelled(items@)[selected as int].1 == items@[selected as int].1);
            let (_, action) = items.remove(selected);
            self.run(action)
        } else {
            Flow::Done
        }
    }

    fn run_context_entry(&mut self, items: Vec<(String, Action)>, selected: usize) -> (flow: Flow)
        requires
            old(self)@.wf(),
        ensures
            old(self)@.entry_run(
                context_items(items@),
                selected as int,
                final(self)@,
                flow,
            ),
            final(self)@.wf(),
    {
        self.front.overlay = Overlay::Closed;
        let mut items = items;
        assert(context_items(items@).len() == items@.len());
        if selected < items.len() {
            assert(context_items(items@)[selected as int].1 == items@[selected as int].1);
            let (_, action) = items.remove(selected);
            self.run(action)
        } else {
            Flow::Done
        }
    }

    /// Runs an entry of the open menu.
    pub fn activate_menu_item(&mut self, selected: usize) -> (flow: Flow)
        requires
            old(self)@.wf(),
        ensures
            old(self)@.menu_item_activated(selected as int, final(self)@, flow),
            final(self)@.wf(),
    {
        let ghost start = self@;
        let mut overlay = Overlay::Closed;
        core::mem::swap(&mut overlay, &mut self.front.overlay);
        match overlay {
            Overlay::Menu { menu, .. } => self.run_menu_entry(menu, selected),
            Overlay::ContextMenu { items, .. } => self.run_context_entry(items, selected),
            other => {
                self.front.overlay = other;
                Flow::Done
            },
        }
    }

    /// Acts on what lies over the main screen.
    pub fn overlay_activate(&mut self) -> (flow: Flow)
        requires
            old(self)@.wf(),
        ensures
            old(self)@.overlay_activated(final(self)@, flow),
            final(self)@.wf(),
    {
        let ghost start = self@;
        let mut overlay = Overlay::Closed;
        core::mem::swap(&mut overlay, &mut self.front.overlay);
        match overlay {
            Overlay::Menu { menu, selected } => self.run_menu_entry(menu, selected),
            Overlay::ContextMenu { items, selected, .. } => self.run_context_entry(
                items,
                selected,
            ),
            Overlay::PathPicker(picker) => {
                self.front.overlay = Overlay::PathPicker(picker);
                assert(self@ == start);
                self.picker_open_selected()
            },
            Overlay::Rename { playlist_id, text } => {
                let name = text.clone();
                self.front.overlay = Overlay::Rename { playlist_id, text };
                assert(self@ == start);
                self.rename_playlist(playlist_id, &name)
            },
            Overlay::Connect { text, discovered } => {
                self.front.overlay = Overlay::Connect { text, discovered };
                assert(self@ == start);
                self.submit_connect()
            },
            Overlay::Pair { text } => {
                self.front.overlay = Overlay::Pair { text };
                assert(self@ == start);
                self.submit_pair();
                Flow::Done
            },
            Overlay::Help(help) => {
                let mut help = help;
                help.toggle();
                self.front.overlay = Overlay::Help(help);
                Flow::Done
            },
            _ => Flow::Done,
        }
    }

    /// Does what an action asks for.
    pub fn try_handle(&mut self, action: Action) -> (flow: Flow)
        requires
            old(self)@.wf(),
        ensures
            old(self)@.handles(action, final(self)@, flow),
            final(self)@.wf(),
    {
        match action {
            Action::ActivateMenuItem(selected) => self.activate_menu_item(selected),
            Action::OverlayActivate => self.overlay_activate(),
            other => self.run(other),
        }
    }
}

} // verus!
