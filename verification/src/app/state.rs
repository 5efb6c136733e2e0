//! The player's state.

use std::collections::{BTreeMap, BTreeSet};

use vstd::prelude::*;
use vstd::string::*;

use crate::app::flow::{effect_views, Effect, EffectView};
use crate::audio::{AudioDevice, AudioEngine, AudioSnapshot, EngineView};
use crate::keys::tracks_in_order;
use crate::model::{
    Focus, GainPlan, PlaybackOrder, Playlist, PlaylistColumn, PlaylistId, PlaylistView,
    ReplayGainInfo, ReplayGainMode, ScannedTrack, Track, TrackId,
};
use crate::net::client::{cache_file, cache_path};
use crate::overlay::{Overlay, OverlayView};
use crate::path::{join, joined};
use crate::soulseek::{opt_view, SoulseekUi, SoulseekView};
use crate::storage::SavedStateView;
use crate::text::same_text;

verus! {

/// The tracks and the playlists.
#[derive(Debug)]
pub struct Shelf {
    pub tracks: BTreeMap<TrackId, Track>,
    pub playlists: Vec<Playlist>,
    pub active_playlist: usize,
}

/// What the shelf holds.
pub struct ShelfView {
    pub tracks: Map<TrackId, Track>,
    pub playlists: Seq<PlaylistView>,
    pub active_playlist: int,
}

pub open spec fn playlist_views(playlists: Seq<Playlist>) -> Seq<PlaylistView> {
    playlists.map_values(|playlist: Playlist| playlist@)
}

impl View for Shelf {
    type V = ShelfView;

    open spec fn view(&self) -> ShelfView {
        ShelfView {
            tracks: self.tracks@,
            playlists: playlist_views(self.playlists@),
            active_playlist: self.active_playlist as int,
        }
    }
}

impl ShelfView {
    /// There is an active playlist.
    pub open spec fn wf(self) -> bool {
        0 <= self.active_playlist < self.playlists.len()
    }

    pub open spec fn active(self) -> PlaylistView {
        self.playlists[self.active_playlist]
    }

    /// The track with this identifier.
    pub open spec fn track(self, id: TrackId) -> Option<Track> {
        if self.tracks.contains_key(id) {
            Some(self.tracks[id])
        } else {
            None
        }
    }

    /// The identifier at a place of the active playlist.
    pub open spec fn active_item(self, index: int) -> Option<TrackId> {
        if 0 <= index < self.active().items.len() {
            Some(self.active().items[index])
        } else {
            None
        }
    }

    /// The place of the first playlist with this identifier.
    pub open spec fn playlist_place(self, id: PlaylistId) -> Option<int> {
        self.playlist_from(id, 0)
    }

    pub open spec fn playlist_from(self, id: PlaylistId, from: int) -> Option<int>
        decreases self.playlists.len() - from,
    {
        if from >= self.playlists.len() || from < 0 {
            None
        } else if self.playlists[from].id == id {
            Some(from)
        } else {
            self.playlist_from(id, from + 1)
        }
    }

    pub open spec fn with_items(self, index: int, items: Seq<TrackId>) -> ShelfView {
        ShelfView {
            playlists: self.playlists.update(
                index,
                PlaylistView { items, ..self.playlists[index] },
            ),
            ..self
        }
    }

    /// What a scan need not look at again.
    pub open spec fn known_files(self) -> Seq<ScannedTrack> {
        tracks_in_order(self.tracks).map_values(|track: Track| track.scanned())
    }
}

/// Cursors, marks and filters of the two lists, and what takes the keys.
#[derive(Debug)]
pub struct Lists {
    pub focus: Focus,
    pub album_selection: usize,
    pub album_anchor: usize,
    pub album_filter: String,
    pub album_marked: BTreeSet<usize>,
    pub playlist_selection: usize,
    pub playlist_anchor: usize,
    pub playlist_filter: String,
    pub playlist_marked: BTreeSet<TrackId>,
    pub playlist_sort: Option<(PlaylistColumn, bool)>,
}

/// What the lists show.
pub struct ListsView {
    pub focus: Focus,
    pub album_selection: int,
    pub album_anchor: int,
    pub album_filter: Seq<char>,
    pub album_marked: Set<usize>,
    pub playlist_selection: int,
    pub playlist_anchor: int,
    pub playlist_filter: Seq<char>,
    pub playlist_marked: Set<TrackId>,
    pub playlist_sort: Option<(PlaylistColumn, bool)>,
}

impl View for Lists {
    type V = ListsView;

    open spec fn view(&self) -> ListsView {
        ListsView {
            focus: self.focus,
            album_selection: self.album_selection as int,
            album_anchor: self.album_anchor as int,
            album_filter: self.album_filter@,
            album_marked: self.album_marked@,
            playlist_selection: self.playlist_selection as int,
            playlist_anchor: self.playlist_anchor as int,
            playlist_filter: self.playlist_filter@,
            playlist_marked: self.playlist_marked@,
            playlist_sort: self.playlist_sort,
        }
    }
}

/// What fills the main pane.
#[derive(Clone, Copy, Debug, PartialEq, Eq, Structural)]
pub enum ContentPane {
    Playlist,
    Queue,
    Soulseek,
    Settings,
}

/// Which pane is open, and the cursor of the preferences.
#[derive(Clone, Copy, Debug, PartialEq, Eq, Structural)]
pub struct Panes {
    pub soulseek_open: bool,
    pub queue_open: bool,
    pub settings_open: bool,
    pub settings_selected: usize,
}

impl Panes {
    pub open spec fn pane(self) -> ContentPane {
        if self.soulseek_open {
            ContentPane::Soulseek
        } else if self.queue_open {
            ContentPane::Queue
        } else if self.settings_open {
            ContentPane::Settings
        } else {
            ContentPane::Playlist
        }
    }

    /// The playlist alone.
    pub open spec fn closed(self) -> Panes {
        Panes { soulseek_open: false, queue_open: false, settings_open: false, ..self }
    }

    pub fn content_pane(&self) -> (pane: ContentPane)
        ensures
            pane == self.pane(),
    {
        if self.soulseek_open {
            ContentPane::Soulseek
        } else if self.queue_open {
            ContentPane::Queue
        } else if self.settings_open {
            ContentPane::Settings
        } else {
            ContentPane::Playlist
        }
    }
}

/// The track that is held ready, and where it was taken from.
#[derive(Clone, Copy, Debug, PartialEq, Eq)]
pub struct StagedPlayback {
    pub track_id: TrackId,
    pub generation: u64,
    pub playlist: Option<(PlaylistId, usize)>,
    pub queue_index: Option<usize>,
}

/// What plays, what is held ready and what follows.
pub struct Transport<E: AudioEngine> {
    pub audio: E,
    pub playing: Option<(PlaylistId, usize)>,
    pub staged_playback: Option<StagedPlayback>,
    pub playback_generation: u64,
    pub audio_started_generation: Option<u64>,
    pub pending_play: Option<(usize, usize)>,
    pub pending_track: Option<TrackId>,
    pub queue: Vec<TrackId>,
    pub queue_selection: usize,
    pub stop_after_current: bool,
    pub playback_order: PlaybackOrder,
    pub deal: Deal,
}

/// The order of play under shuffling.
#[derive(Debug)]
pub struct Deal {
    pub shuffle: Vec<usize>,
    pub shuffle_cursor: usize,
    pub shuffle_playlist: Option<PlaylistId>,
    pub album_groups: Vec<Vec<usize>>,
}

/// What the order of play under shuffling is.
pub struct DealView {
    pub shuffle: Seq<usize>,
    pub shuffle_cursor: int,
    pub shuffle_playlist: Option<PlaylistId>,
    pub album_groups: Seq<Seq<usize>>,
}

pub open spec fn group_views(groups: Seq<Vec<usize>>) -> Seq<Seq<usize>> {
    groups.map_values(|group: Vec<usize>| group@)
}

impl View for Deal {
    type V = DealView;

    open spec fn view(&self) -> DealView {
        DealView {
            shuffle: self.shuffle@,
            shuffle_cursor: self.shuffle_cursor as int,
            shuffle_playlist: self.shuffle_playlist,
            album_groups: group_views(self.album_groups@),
        }
    }
}

impl DealView {
    /// No album group is empty.
    pub open spec fn wf(self) -> bool {
        forall|i: int| 0 <= i < self.album_groups.len() ==> #[trigger] self.album_groups[i].len()
            > 0
    }
}

/// What is known of the transport.
pub struct TransportView {
    pub audio: EngineView,
    pub playing: Option<(PlaylistId, usize)>,
    pub staged_playback: Option<StagedPlayback>,
    pub playback_generation: u64,
    pub audio_started_generation: Option<u64>,
    pub pending_play: Option<(usize, usize)>,
    pub pending_track: Option<TrackId>,
    pub queue: Seq<TrackId>,
    pub queue_selection: int,
    pub stop_after_current: bool,
    pub playback_order: PlaybackOrder,
    pub deal: DealView,
}

impl<E: AudioEngine> View for Transport<E> {
    type V = TransportView;

    open spec fn view(&self) -> TransportView {
        TransportView {
            audio: self.audio.state(),
            playing: self.playing,
            staged_playback: self.staged_playback,
            playback_generation: self.playback_generation,
            audio_started_generation: self.audio_started_generation,
            pending_play: self.pending_play,
            pending_track: self.pending_track,
            queue: self.queue@,
            queue_selection: self.queue_selection as int,
            stop_after_current: self.stop_after_current,
            playback_order: self.playback_order,
            deal: self.deal@,
        }
    }
}

impl TransportView {
    /// The queue's cursor stands on a row or at the top, and no album group is empty.
    pub open spec fn wf(self) -> bool {
        &&& self.queue_selection == 0 || 0 <= self.queue_selection < self.queue.len()
        &&& self.deal.wf()
    }
}

/// The preferences.
#[derive(Debug)]
pub struct Prefs {
    pub cursor_follows_playback: bool,
    pub replay_gain_mode: ReplayGainMode,
    pub replay_gain_preamp: u32,
    pub replay_gain_prevent_clip: bool,
    pub show_album_art: bool,
    pub show_spectrum: bool,
    pub nerd_font: bool,
    pub output_devices: Vec<AudioDevice>,
    pub preferred_output_device: Option<String>,
    pub no_audio: bool,
}

/// What the preferences are.
pub struct PrefsView {
    pub cursor_follows_playback: bool,
    pub replay_gain_mode: ReplayGainMode,
    pub replay_gain_preamp: u32,
    pub replay_gain_prevent_clip: bool,
    pub show_album_art: bool,
    pub show_spectrum: bool,
    pub nerd_font: bool,
    pub output_devices: Seq<AudioDevice>,
    pub preferred_output_device: Option<Seq<char>>,
    pub no_audio: bool,
}

impl View for Prefs {
    type V = PrefsView;

    open spec fn view(&self) -> PrefsView {
        PrefsView {
            cursor_follows_playback: self.cursor_follows_playback,
            replay_gain_mode: self.replay_gain_mode,
            replay_gain_preamp: self.replay_gain_preamp,
            replay_gain_prevent_clip: self.replay_gain_prevent_clip,
            show_album_art: self.show_album_art,
            show_spectrum: self.show_spectrum,
            nerd_font: self.nerd_font,
            output_devices: self.output_devices@,
            preferred_output_device: opt_view(self.preferred_output_device),
            no_audio: self.no_audio,
        }
    }
}

impl PrefsView {
    /// How the gain of a track is worked out.
    pub open spec fn gain_plan(self, info: ReplayGainInfo) -> GainPlan {
        GainPlan {
            active: self.replay_gain_mode != ReplayGainMode::Off,
            gain: info.chosen(self.replay_gain_mode).0,
            peak: info.chosen(self.replay_gain_mode).1,
            preamp: self.replay_gain_preamp,
            prevent_clipping: self.replay_gain_prevent_clip,
        }
    }
}

impl Prefs {
    /// How the gain of a track is worked out.
    pub fn gain_for(&self, info: &ReplayGainInfo) -> (plan: GainPlan)
        ensures
            plan == self@.gain_plan(*info),
    {
        let figures = info.pick(self.replay_gain_mode);
        GainPlan {
            active: self.replay_gain_mode != ReplayGainMode::Off,
            gain: figures.0,
            peak: figures.1,
            preamp: self.replay_gain_preamp,
            prevent_clipping: self.replay_gain_prevent_clip,
        }
    }
}

/// A file in the cache of server tracks.
#[derive(Debug)]
pub struct CachedFile {
    pub path: String,
    pub len: u64,
}

/// The connection to a server, and what is cached of it.
#[derive(Debug)]
pub struct Link {
    /// Whether a session runs.
    pub remote: bool,
    pub remote_name: Option<String>,
    pub remote_fingerprint: Option<String>,
    pub remote_revision: Option<u64>,
    pub data_dir: String,
    pub cache: Vec<CachedFile>,
}

/// What is known of the connection.
pub struct LinkView {
    pub remote: bool,
    pub remote_name: Option<Seq<char>>,
    pub remote_fingerprint: Option<Seq<char>>,
    pub remote_revision: Option<u64>,
    pub data_dir: Seq<char>,
    pub cache: Seq<(Seq<char>, u64)>,
}

pub open spec fn cache_views(files: Seq<CachedFile>) -> Seq<(Seq<char>, u64)> {
    files.map_values(|file: CachedFile| (file.path@, file.len))
}

impl View for Link {
    type V = LinkView;

    open spec fn view(&self) -> LinkView {
        LinkView {
            remote: self.remote,
            remote_name: opt_view(self.remote_name),
            remote_fingerprint: opt_view(self.remote_fingerprint),
            remote_revision: self.remote_revision,
            data_dir: self.data_dir@,
            cache: cache_views(self.cache@),
        }
    }
}

impl LinkView {
    /// The folder that server tracks are cached in.
    pub open spec fn cache_dir(self) -> Seq<char> {
        joined(self.data_dir, "cache"@)
    }

    /// The file that a server's track is cached in.
    pub open spec fn cached_path(self, fingerprint: Seq<char>, remote_id: Seq<char>) -> Seq<char> {
        cache_file(self.cache_dir(), fingerprint, remote_id)
    }

    /// Whether the cache holds a file of exactly this length.
    pub open spec fn has_cached(self, path: Seq<char>, len: u64) -> bool {
        self.cache.contains((path, len))
    }
}

impl Link {
    pub fn cache_dir(&self) -> (dir: String)
        ensures
            dir@ == self@.cache_dir(),
    {
        join(&self.data_dir, "cache")
    }

    /// The file that a server's track is cached in.
    pub fn cached_path(&self, fingerprint: &str, remote_id: &str) -> (path: String)
        ensures
            path@ == self@.cached_path(fingerprint@, remote_id@),
    {
        let dir = self.cache_dir();
        cache_path(&dir, fingerprint, remote_id)
    }

    /// Whether the cache holds a file of exactly this length.
    pub fn cache_holds(&self, path: &str, len: u64) -> (found: bool)
        ensures
            found == self@.has_cached(path@, len),
    {
        let mut i: usize = 0;
        while i < self.cache.len()
            invariant
                i <= self.cache@.len(),
                forall|j: int| 0 <= j < i ==> self@.cache[j] != (path@, len),
            decreases self.cache@.len() - i,
        {
            if same_text(&self.cache[i].path, path) && self.cache[i].len == len {
                assert(self@.cache[i as int] == (path@, len));
                return true;
            }
            i = i + 1;
        }
        false
    }
}

/// The Soulseek tab.
#[derive(Debug)]
pub struct SoulseekTab {
    /// Whether a session runs.
    pub session: bool,
    pub ui: SoulseekUi,
    pub downloads_active: usize,
}

/// What is known of the Soulseek tab.
pub struct SoulseekTabView {
    pub session: bool,
    pub ui: SoulseekView,
    pub downloads_active: int,
}

impl View for SoulseekTab {
    type V = SoulseekTabView;

    open spec fn view(&self) -> SoulseekTabView {
        SoulseekTabView {
            session: self.session,
            ui: self.ui@,
            downloads_active: self.downloads_active as int,
        }
    }
}

/// What is shown around the lists.
#[derive(Debug)]
pub struct Front {
    pub status: String,
    pub overlay: Overlay,
    pub should_quit: bool,
    pub scan_progress: Option<(usize, usize)>,
    pub scan_seen: usize,
    pub audio_error: Option<String>,
    pub audio_snapshot: AudioSnapshot,
    /// Whether loudness is being measured.
    pub replaygain: bool,
}

/// What is known of what is shown around the lists.
pub struct FrontView {
    pub status: Seq<char>,
    pub overlay: OverlayView,
    pub should_quit: bool,
    pub scan_progress: Option<(usize, usize)>,
    pub scan_seen: int,
    pub audio_error: Option<Seq<char>>,
    pub audio_snapshot: AudioSnapshot,
    pub replaygain: bool,
}

impl View for Front {
    type V = FrontView;

    open spec fn view(&self) -> FrontView {
        FrontView {
            status: self.status@,
            overlay: self.overlay@,
            should_quit: self.should_quit,
            scan_progress: self.scan_progress,
            scan_seen: self.scan_seen as int,
            audio_error: opt_view(self.audio_error),
            audio_snapshot: self.audio_snapshot,
            replaygain: self.replaygain,
        }
    }
}

/// What the outside is still to be told.
#[derive(Debug)]
pub struct Outbox {
    pub effects: Vec<Effect>,
}

impl View for Outbox {
    type V = Seq<EffectView>;

    open spec fn view(&self) -> Seq<EffectView> {
        effect_views(self.effects@)
    }
}

impl Outbox {
    pub fn tell(&mut self, effect: Effect)
        ensures
            final(self)@ == old(self)@.push(effect@),
    {
        let ghost before = self@;
        let ghost what = effect@;
        self.effects.push(effect);
        assert(self@ =~= before.push(what));
    }

    /// Hands the effects over and starts anew.
    pub fn take(&mut self) -> (effects: Vec<Effect>)
        ensures
            effects@ == old(self).effects@,
            final(self)@ == Seq::<EffectView>::empty(),
    {
        let mut effects: Vec<Effect> = Vec::new();
        core::mem::swap(&mut effects, &mut self.effects);
        assert(self@ =~= Seq::empty());
        effects
    }
}

/// The player.
pub struct App<E: AudioEngine> {
    pub shelf: Shelf,
    pub lists: Lists,
    pub panes: Panes,
    pub transport: Transport<E>,
    pub prefs: Prefs,
    pub link: Link,
    pub soulseek: SoulseekTab,
    pub front: Front,
    pub outbox: Outbox,
}

/// What the player's state says.
pub struct AppView {
    pub shelf: ShelfView,
    pub lists: ListsView,
    pub panes: Panes,
    pub transport: TransportView,
    pub prefs: PrefsView,
    pub link: LinkView,
    pub soulseek: SoulseekTabView,
    pub front: FrontView,
    pub outbox: Seq<EffectView>,
}

impl<E: AudioEngine> View for App<E> {
    type V = AppView;

    open spec fn view(&self) -> AppView {
        AppView {
            shelf: self.shelf@,
            lists: self.lists@,
            panes: self.panes,
            transport: self.transport@,
            prefs: self.prefs@,
            link: self.link@,
            soulseek: self.soulseek@,
            front: self.front@,
            outbox: self.outbox@,
        }
    }
}

impl AppView {
    /// What every operation keeps.
    pub open spec fn wf(self) -> bool {
        self.shelf.wf() && self.transport.wf()
    }

    pub open spec fn said(self, status: Seq<char>) -> AppView {
        AppView { front: FrontView { status, ..self.front }, ..self }
    }

    pub open spec fn told(self, effect: EffectView) -> AppView {
        AppView { outbox: self.outbox.push(effect), ..self }
    }

    pub open spec fn showing(self, overlay: OverlayView) -> AppView {
        AppView { front: FrontView { overlay, ..self.front }, ..self }
    }

    pub open spec fn focused(self, focus: Focus) -> AppView {
        AppView { lists: ListsView { focus, ..self.lists }, ..self }
    }

    /// The state that is kept between runs.
    pub open spec fn saved_state(self) -> SavedStateView {
        SavedStateView {
            active_playlist: self.shelf.active_playlist,
            volume: self.transport.audio.shown.volume,
            playback_order: self.transport.playback_order,
            cursor_follows_playback: self.prefs.cursor_follows_playback,
            replay_gain_mode: self.prefs.replay_gain_mode,
            replay_gain_preamp: self.prefs.replay_gain_preamp,
            replay_gain_prevent_clip: self.prefs.replay_gain_prevent_clip,
            show_album_art: self.prefs.show_album_art,
            show_spectrum: self.prefs.show_spectrum,
            nerd_font: self.prefs.nerd_font,
            preferred_output_device: self.prefs.preferred_output_device,
        }
    }
}

} // verus!
