//! Requests from beginning to end: starting up, actions, answers from outside.

use std::collections::{BTreeMap, BTreeSet};

use vstd::prelude::*;
use vstd::string::*;

use crate::action::Action;
use crate::app::flow::{failed_with, AfterItems, Answer, Ask, Effect, Flow, Next};
use crate::app::playback::result_view;
use crate::app::prefs::{engine_view, left_view};
use crate::app::state::{
    cache_views, playlist_views, App, AppView, CachedFile, Deal, DealView, Front, FrontView, Link,
    LinkView, Lists, ListsView, Outbox, Panes, Prefs, PrefsView, Shelf, ShelfView, SoulseekTab,
    SoulseekTabView, Transport, TransportView,
};
use crate::audio::{AudioDevice, AudioEngine, AudioSnapshot, EngineView};
use crate::model::{Focus, Playlist, Track, TrackId};
use crate::order::views;
use crate::overlay::{picker_entries, Overlay, OverlayView, PickerView};
use crate::path::{parent, parent_of};
use crate::settings::first_item;
use crate::soulseek::{opt_view, SoulseekUi, SoulseekView};
use crate::storage::SavedState;
use crate::time::Duration;

verus! {

broadcast use vstd::std_specs::btree::group_btree_axioms;

/// What the player finds when it starts.
pub struct Startup {
    pub tracks: Vec<Track>,
    pub playlists: Vec<Playlist>,
    pub saved: SavedState,
    pub roots: Vec<String>,
    pub no_audio: bool,
    pub audio_error: Option<String>,
    pub output_devices: Vec<AudioDevice>,
    pub data_dir: String,
}

/// Tracks by their identifiers; of two with the same one the later counts.
pub open spec fn track_map(tracks: Seq<Track>) -> Map<TrackId, Track>
    decreases tracks.len(),
{
    if tracks.len() == 0 {
        Map::empty()
    } else {
        track_map(tracks.drop_last()).insert(tracks.last().id, tracks.last())
    }
}

/// The folder that a database lies in.
pub open spec fn folder_of_database(database: Seq<char>) -> Seq<char> {
    match parent_of(database) {
        Some(folder) => folder,
        None => "."@,
    }
}

/// The folder that a database lies in; everything else is kept beside it.
pub fn data_dir_of(database: &str) -> (dir: String)
    ensures
        dir@ == folder_of_database(database@),
{
    match parent(database) {
        Some(folder) => folder,
        None => ".".to_owned(),
    }
}

/// The playlist to be made before the first start.
pub fn missing_playlist(playlists: &Vec<Playlist>) -> (ask: Option<Ask>)
    ensures
        ask is Some == (playlists@.len() == 0),
        ask matches Some(Ask::CreatePlaylist { name, position }) ==> name@ == "Default"@ && position
            == 0,
        ask is Some ==> ask->0 is CreatePlaylist,
{
    if playlists.len() == 0 {
        Some(Ask::CreatePlaylist { name: "Default".to_owned(), position: 0 })
    } else {
        None
    }
}

impl AppView {
    /// The player before its first order of play has been dealt.
    pub open spec fn initial(startup: Startup, audio: EngineView, shown: AudioSnapshot) -> AppView {
        let playlists = playlist_views(startup.playlists@);
        let saved = startup.saved@;
        AppView {
            shelf: ShelfView {
                tracks: track_map(startup.tracks@),
                playlists,
                active_playlist: if saved.active_playlist > playlists.len() - 1 {
                    playlists.len() - 1
                } else {
                    saved.active_playlist
                },
            },
            lists: ListsView {
                focus: Focus::Playlist,
                album_selection: 0,
                album_anchor: 0,
                album_filter: Seq::empty(),
                album_marked: Set::empty(),
                playlist_selection: 0,
                playlist_anchor: 0,
                playlist_filter: Seq::empty(),
                playlist_marked: Set::empty(),
                playlist_sort: None,
            },
            panes: Panes {
                soulseek_open: false,
                queue_open: false,
                settings_open: false,
                settings_selected: 1,
            },
            transport: TransportView {
                audio,
                playing: None,
                staged_playback: None,
                playback_generation: 0,
                audio_started_generation: None,
                pending_play: None,
                pending_track: None,
                queue: Seq::empty(),
                queue_selection: 0,
                stop_after_current: false,
                playback_order: saved.playback_order,
                deal: DealView {
                    shuffle: Seq::empty(),
                    shuffle_cursor: 0,
                    shuffle_playlist: None,
                    album_groups: Seq::empty(),
                },
            },
            prefs: PrefsView {
                cursor_follows_playback: saved.cursor_follows_playback,
                replay_gain_mode: saved.replay_gain_mode,
                replay_gain_preamp: saved.replay_gain_preamp,
                replay_gain_prevent_clip: saved.replay_gain_prevent_clip,
                show_album_art: saved.show_album_art,
                show_spectrum: saved.show_spectrum,
                nerd_font: saved.nerd_font,
                output_devices: startup.output_devices@,
                preferred_output_device: saved.preferred_output_device,
                no_audio: startup.no_audio,
            },
            link: LinkView {
                remote: false,
                remote_name: None,
                remote_fingerprint: None,
                remote_revision: None,
                data_dir: startup.data_dir@,
                cache: Seq::empty(),
            },
            soulseek: SoulseekTabView {
                session: false,
                ui: SoulseekView::signed_out(),
                downloads_active: 0,
            },
            front: FrontView {
                status: "Ready"@,
                overlay: OverlayView::Closed,
                should_quit: false,
                scan_progress: None,
                scan_seen: 0,
                audio_error: opt_view(startup.audio_error),
                audio_snapshot: shown,
                replaygain: false,
            },
            outbox: Seq::empty(),
        }
    }

    /// The player as it starts: dealt, and with its library folders being scanned.
    pub open spec fn opened(startup: Startup, audio: EngineView, shown: AudioSnapshot) -> AppView {
        let dealt = AppView::initial(startup, audio, shown).redealt();
        if startup.roots@.len() > 0 {
            dealt.scanning(views(startup.roots@), false)
        } else {
            dealt
        }
    }
}

/// Where a request comes from.
#[derive(Clone, Copy, Debug, PartialEq, Eq, Structural)]
pub enum FlowSource {
    Action,
    Scan,
    Remote,
    Soulseek,
}

impl FlowSource {
    /// What a failure is shown with; failures of downloads are not shown.
    pub open spec fn prefix(self) -> Option<Seq<char>> {
        match self {
            FlowSource::Action => Some("Error: "@),
            FlowSource::Scan => Some("Library error: "@),
            FlowSource::Remote => Some("Remote error: "@),
            FlowSource::Soulseek => None,
        }
    }
}

impl AppView {
    /// A failure shown.
    pub open spec fn failure_shown(self, source: FlowSource, error: Seq<char>) -> AppView {
        match source.prefix() {
            Some(prefix) => self.said(prefix + error),
            None => self,
        }
    }

    /// A request whose failure, if it failed, has been shown.
    pub open spec fn settles(
        self,
        inner: Flow,
        source: FlowSource,
        post: AppView,
        flow: Flow,
    ) -> bool {
        match inner {
            Flow::Failed(error) => post == self.failure_shown(source, error@) && flow is Done,
            other => post == self && flow == other,
        }
    }

    /// What follows an answer from outside. An answer to another question changes
    /// nothing.
    pub open spec fn resumes<E: AudioEngine>(
        self,
        next: Next,
        answer: Answer<E>,
        post: AppView,
        flow: Flow,
    ) -> bool {
        match (next, answer) {
            (Next::Finish, Answer::Done(stored)) => post == self && match stored {
                Ok(()) => flow is Done,
                Err(error) => failed_with(flow, error@),
            },
            (Next::PlaylistCreated, Answer::Playlist(made)) => self.playlist_made(
                match made {
                    Ok(playlist) => Ok(playlist@),
                    Err(error) => Err(error@),
                },
                post,
                flow,
            ),
            (Next::Renamed { id, name }, Answer::Done(stored)) => self.after_rename(
                result_view(stored),
                id,
                name@,
                post,
                flow,
            ),
            (Next::Deleted, Answer::Done(stored)) => self.after_delete(
                result_view(stored),
                post,
                flow,
            ),
            (Next::PositionsSaved, Answer::Done(stored)) => self.after_positions(
                result_view(stored),
                post,
                flow,
            ),
            (Next::StateSavedAfterClose, Answer::Done(stored)) => self.after_items(
                result_view(stored),
                AfterItems::Reshuffle,
                post,
                flow,
            ),
            (Next::ItemsSaved(then), Answer::Done(stored)) => self.after_items(
                result_view(stored),
                then,
                post,
                flow,
            ),
            (Next::PathsResolved, Answer::Paths(found)) => self.after_resolving(
                found@,
                post,
                flow,
            ),
            (Next::RootsAdded { paths }, Answer::Done(stored)) => self.after_roots(
                result_view(stored),
                views(paths@),
                post,
                flow,
            ),
            (Next::ClipboardRead, Answer::Clipboard(read)) => match read {
                Ok(paths) => self.paths_asked(views(paths@), post, flow),
                Err(message) => post == self.said(message@) && flow is Done,
            },
            (Next::PickerOpened(mode), Answer::Folder { directory, found }) => flow is Done && post
                == self.showing(
                OverlayView::PathPicker(
                    PickerView {
                        mode,
                        directory: directory@,
                        entries: Seq::empty(),
                        selected: 0,
                    }.refreshed(picker_entries(found@)),
                ),
            ),
            (Next::PickerListed, Answer::Folder { found, .. }) => flow is Done && post
                == self.picker_listed(picker_entries(found@)),
            (Next::RescanRoots, Answer::Roots(roots)) => flow is Done && post == self.rescanned(
                match roots {
                    Ok(roots) => Ok(views(roots@)),
                    Err(error) => Err(error@),
                },
            ),
            (Next::PropertiesGain { track }, Answer::Text(gain)) => flow is Done && post
                == self.properties_shown(track, gain@),
            (Next::FolderShown { path }, Answer::Done(shown)) => flow is Done && post
                == self.folder_shown(result_view(shown), path@),
            (Next::GainFilesChecked { ids }, Answer::Flags(exist)) => flow is Done && post
                == self.gain_scan_begun(ids@, exist@),
            (Next::DevicesListed { delta }, Answer::Devices(devices)) => post == self.with_prefs(
                self.prefs.device_chosen(devices@, delta as int),
            ) && post.engine_asked(flow, crate::app::flow::AfterEngine::Setting),
            (Next::EngineMade(then), Answer::Engine(made)) => self.after_any_engine(
                engine_view(made),
                then,
                post,
                flow,
            ),
            (Next::VolumeAdded, Answer::Volume { volume, label }) => post == self.at_volume(
                volume,
            ).said("Volume: "@ + label@ + "%"@) && crate::app::flow::saves_state(
                flow,
                post.saved_state(),
            ),
            (Next::VolumeScaled, Answer::Volume { volume, .. }) => post == self.at_volume(volume)
                && crate::app::flow::saves_state(flow, post.saved_state()),
            (Next::SeekScaled, Answer::Span(position)) => self.seeks_to(position, post, flow),
            (Next::PreampAdded, Answer::Preamp { preamp, label }) => self.with_prefs(
                PrefsView { replay_gain_preamp: preamp, ..self.prefs },
            ).setting_changed(
                crate::settings::SettingId::ReplayGainPreamp,
                label@,
                post,
                flow,
            ),
            (Next::EndpointResolved, Answer::Address(found)) => self.after_endpoint(
                match found {
                    Ok(address) => Ok(address),
                    Err(error) => Err(error@),
                },
                post,
                flow,
            ),
            (Next::RemoteLoaded { address }, Answer::Remote { text, saved }) => post
                == self.connected_to(
                address,
                text@,
                match saved {
                    Some(saved) => Some(saved@),
                    None => None,
                },
            ) && (flow matches Flow::Ask(Ask::SaveAddress { address: asked }, Next::Finish)
                && asked@ == text@),
            (Next::PairedAddress { token, fingerprint }, Answer::Remote { saved, .. }) =>
                self.after_paired_address(
                match saved {
                    Some(saved) => Some(saved@),
                    None => None,
                },
                token@,
                fingerprint@,
                post,
                flow,
            ),
            (Next::PairedSaved, Answer::Done(stored)) => match stored {
                Err(error) => post == self && failed_with(flow, error@),
                Ok(()) => post == self.paired() && flow is Done,
            },
            (Next::SoulseekCredentialsLoaded, Answer::Credentials(known)) =>
                self.after_credentials(known, post, flow),
            (Next::SoulseekCredentialsSaved(credentials), Answer::Done(stored)) =>
                self.after_credentials_saved(result_view(stored), credentials, post, flow),
            (Next::SoulseekRoots { credentials, from_prompt }, Answer::Roots(roots)) =>
                self.after_soulseek_roots(
                match roots {
                    Ok(roots) => Ok(views(roots@)),
                    Err(error) => Err(error@),
                },
                credentials,
                from_prompt,
                post,
                flow,
            ),
            (
                Next::SoulseekRootAdded { credentials, download, from_prompt },
                Answer::Done(stored),
            ) => self.after_soulseek_root(
                result_view(stored),
                credentials,
                download@,
                from_prompt,
                post,
                flow,
            ),
            (Next::TrackStored { add }, Answer::Track(stored)) => self.after_track(
                match stored {
                    Ok(track) => Ok(track),
                    Err(error) => Err(error@),
                },
                add,
                post,
                flow,
            ),
            (Next::CatalogRemoved(work), Answer::Done(stored)) => self.after_catalog_step(
                result_view(stored),
                work,
                0,
                post,
                flow,
            ),
            (Next::CatalogItemsSaved { work, next }, Answer::Done(stored)) =>
                self.after_catalog_step(result_view(stored), work, next as int, post, flow),
            (Next::CatalogTrackStored { work, next }, Answer::Track(stored)) =>
                self.after_catalog_track(
                match stored {
                    Ok(track) => Ok(track),
                    Err(error) => Err(error@),
                },
                work,
                next as int,
                post,
                flow,
            ),
            _ => post == self && flow is Done,
        }
    }
}

/// Whether an answer is one that the outside can give: a new engine holds no staged
/// track.
pub open spec fn sound_answer<E: AudioEngine>(answer: Answer<E>) -> bool {
    &&& answer matches Answer::Engine(Ok(fresh)) ==> fresh.state().shown.staged_track_id is None
    &&& answer matches Answer::Devices(devices) ==> devices@.len() < usize::MAX
}

impl AppView {
    /// The player once it has taken note of what the engine shows, at this position.
    pub open spec fn noting(self, position: Duration) -> AppView {
        AppView {
            front: FrontView {
                audio_snapshot: AudioSnapshot { position, ..self.transport.audio.shown },
                ..self.front
            },
            ..self
        }
    }
}

impl<E: AudioEngine> App<E> {
    /// The player as it starts.
    pub fn open(startup: Startup, audio: E) -> (app: App<E>)
        requires
            startup.playlists@.len() > 0,
        ensures
            app@ == AppView::opened(startup, audio.state(), app@.front.audio_snapshot),
            app@.front.audio_snapshot == (AudioSnapshot {
                position: app@.front.audio_snapshot.position,
                ..audio.state().shown
            }),
            app@.wf(),
    {
        let shown = audio.snapshot();
        App::open_showing(startup, audio, shown)
    }

    /// The player as it starts, with what the engine has shown.
    pub fn open_showing(startup: Startup, audio: E, shown: AudioSnapshot) -> (app: App<E>)
        requires
            startup.playlists@.len() > 0,
        ensures
            app@ == AppView::opened(startup, audio.state(), shown),
            app@.front.audio_snapshot == shown,
            app@.wf(),
    {
        let ghost given = startup;
        let ghost state = audio.state();
        let count: usize = startup.playlists.len();
        let mut tracks: BTreeMap<TrackId, Track> = BTreeMap::new();
        let mut i: usize = 0;
        assert(startup.tracks@.take(0) =~= Seq::empty());
        while i < startup.tracks.len()
            invariant
                i <= startup.tracks@.len(),
                tracks@ == track_map(startup.tracks@.take(i as int)),
            decreases startup.tracks@.len() - i,
        {
            let track = startup.tracks[i].clone();
            assert(startup.tracks@.take(i + 1).drop_last() =~= startup.tracks@.take(i as int));
            tracks.insert(track.id, track);
            i = i + 1;
        }
        assert(startup.tracks@.take(i as int) =~= startup.tracks@);
        let active: usize = if startup.saved.active_playlist > count - 1 {
            count - 1
        } else {
            startup.saved.active_playlist
        };
        let saved = startup.saved;
        let mut app = App {
            shelf: Shelf { tracks, playlists: startup.playlists, active_playlist: active },
            lists: Lists {
                focus: Focus::Playlist,
                album_selection: 0,
                album_anchor: 0,
                album_filter: String::new(),
                album_marked: BTreeSet::new(),
                playlist_selection: 0,
                playlist_anchor: 0,
                playlist_filter: String::new(),
                playlist_marked: BTreeSet::new(),
                playlist_sort: None,
            },
            panes: Panes {
                soulseek_open: false,
                queue_open: false,
                settings_open: false,
                settings_selected: first_item(),
            },
            transport: Transport {
                audio,
                playing: None,
                staged_playback: None,
                playback_generation: 0,
                audio_started_generation: None,
                pending_play: None,
                pending_track: None,
                queue: Vec::new(),
                queue_selection: 0,
                stop_after_current: false,
                playback_order: saved.playback_order,
                deal: Deal {
                    shuffle: Vec::new(),
                    shuffle_cursor: 0,
                    shuffle_playlist: None,
                    album_groups: Vec::new(),
                },
            },
            prefs: Prefs {
                cursor_follows_playback: saved.cursor_follows_playback,
                replay_gain_mode: saved.replay_gain_mode,
                replay_gain_preamp: saved.replay_gain_preamp,
                replay_gain_prevent_clip: saved.replay_gain_prevent_clip,
                show_album_art: saved.show_album_art,
                show_spectrum: saved.show_spectrum,
                nerd_font: saved.nerd_font,
                output_devices: startup.output_devices,
                preferred_output_device: saved.preferred_output_device,
                no_audio: startup.no_audio,
            },
            link: Link {
                remote: false,
                remote_name: None,
                remote_fingerprint: None,
                remote_revision: None,
                data_dir: startup.data_dir,
                cache: Vec::new(),
            },
            soulseek: SoulseekTab {
                session: false,
                ui: SoulseekUi::default(),
                downloads_active: 0,
            },
            front: Front {
                status: "Ready".to_owned(),
                overlay: Overlay::Closed,
                should_quit: false,
                scan_progress: None,
                scan_seen: 0,
                audio_error: startup.audio_error,
                audio_snapshot: shown,
                replaygain: false,
            },
            outbox: Outbox { effects: Vec::new() },
        };
        proof {
            assert(app@.transport.deal.album_groups =~= Seq::empty());
            assert(app@.link.cache =~= Seq::empty());
            assert(app@.outbox =~= Seq::empty());
            assert(app@.transport == AppView::initial(given, state, shown).transport);
            assert(app@.lists == AppView::initial(given, state, shown).lists);
            assert(app@ == AppView::initial(given, state, shown));
        }
        app.rebuild_shuffle();
        if startup.roots.len() > 0 {
            app.begin_scan(startup.roots, false);
        }
        app
    }

    /// Shows a failure.
    pub fn report_failure(&mut self, source: FlowSource, error: &str)
        ensures
            final(self)@ == old(self)@.failure_shown(source, error@),
    {
        let mut text = match source {
            FlowSource::Action => "Error: ".to_owned(),
            FlowSource::Scan => "Library error: ".to_owned(),
            FlowSource::Remote => "Remote error: ".to_owned(),
            FlowSource::Soulseek => {
                return;
            },
        };
        text.append(error);
        self.say(text);
    }

    /// Shows the failure of a request that failed; hands the others on.
    pub fn settle(&mut self, inner: Flow, source: FlowSource) -> (flow: Flow)
        ensures
            old(self)@.settles(inner, source, final(self)@, flow),
            old(self)@.wf() ==> final(self)@.wf(),
    {
        match inner {
            Flow::Failed(error) => {
                self.report_failure(source, &error);
                Flow::Done
            },
            other => other,
        }
    }

    /// Does what an action asks for, and shows a failure.
    pub fn handle(&mut self, action: Action) -> (flow: Flow)
        requires
            old(self)@.wf(),
        ensures
            exists|mid: AppView, inner: Flow|
                #[trigger] old(self)@.handles(action, mid, inner) && mid.settles(
                    inner,
                    FlowSource::Action,
                    final(self)@,
                    flow,
                ),
            final(self)@.wf(),
    {
        let inner = self.try_handle(action);
        let ghost mid = self@;
        let ghost request = inner;
        assert(old(self)@.handles(action, mid, request));
        self.settle(inner, FlowSource::Action)
    }

    fn resume_stored(&mut self, next: Next, stored: Result<(), String>) -> (flow: Flow)
        requires
            old(self)@.wf(),
        ensures
            old(self)@.resumes(next, Answer::<E>::Done(stored), final(self)@, flow),
            final(self)@.wf(),
    {
        match next {
            Next::Finish => match stored {
                Ok(()) => Flow::Done,
                Err(error) => Flow::Failed(error),
            },
            Next::Renamed { id, name } => self.playlist_renamed(stored, id, name),
            Next::Deleted => self.playlist_deleted(stored),
            Next::PositionsSaved => self.positions_saved(stored),
            Next::StateSavedAfterClose => self.items_saved(stored, AfterItems::Reshuffle),
            Next::ItemsSaved(then) => self.items_saved(stored, then),
            Next::RootsAdded { paths } => self.roots_added(stored, paths),
            Next::FolderShown { path } => {
                self.folder_opened(stored, &path);
                Flow::Done
            },
            Next::PairedSaved => self.paired_saved(stored),
            Next::SoulseekCredentialsSaved(credentials) => self.soulseek_credentials_saved(
                stored,
                credentials,
            ),
            Next::SoulseekRootAdded { credentials, download, from_prompt } =>
                self.soulseek_root_added(stored, credentials, download, from_prompt),
            Next::CatalogRemoved(work) => self.catalog_step(stored, work, 0),
            Next::CatalogItemsSaved { work, next } => self.catalog_step(stored, work, next),
            _ => Flow::Done,
        }
    }

    fn resume_looked_up(&mut self, next: Next, answer: Answer<E>) -> (flow: Flow)
        requires
            old(self)@.wf(),
            answer is Roots || answer is Paths || answer is Clipboard || answer is Folder || answer
                is Text || answer is Flags || answer is Credentials || answer is Track || answer
                is Playlist,
        ensures
            old(self)@.resumes(next, answer, final(self)@, flow),
            final(self)@.wf(),
    {
        match (next, answer) {
            (Next::PlaylistCreated, Answer::Playlist(made)) => self.playlist_created(made),
            (Next::PathsResolved, Answer::Paths(found)) => self.paths_resolved(found),
            (Next::ClipboardRead, Answer::Clipboard(read)) => match read {
                Ok(paths) => self.add_paths(paths),
                Err(message) => {
                    self.say(message);
                    Flow::Done
                },
            },
            (Next::PickerOpened(mode), Answer::Folder { directory, found }) => {
                self.picker_opened(mode, directory, found);
                Flow::Done
            },
            (Next::PickerListed, Answer::Folder { found, .. }) => {
                self.picker_refreshed(found);
                Flow::Done
            },
            (Next::RescanRoots, Answer::Roots(roots)) => {
                self.rescan(roots);
                Flow::Done
            },
            (Next::PropertiesGain { track }, Answer::Text(gain)) => {
                self.gain_described(track, &gain);
                Flow::Done
            },
            (Next::GainFilesChecked { ids }, Answer::Flags(exist)) => {
                self.gain_files_checked(ids, exist);
                Flow::Done
            },
            (Next::SoulseekCredentialsLoaded, Answer::Credentials(known)) =>
                self.soulseek_credentials_loaded(known),
            (Next::SoulseekRoots { credentials, from_prompt }, Answer::Roots(roots)) =>
                self.soulseek_roots(roots, credentials, from_prompt),
            (Next::TrackStored { add }, Answer::Track(stored)) => self.track_stored(stored, add),
            (Next::CatalogTrackStored { work, next }, Answer::Track(stored)) =>
                self.catalog_track_stored(stored, work, next),
            _ => Flow::Done,
        }
    }

    fn resume_device(&mut self, next: Next, answer: Answer<E>) -> (flow: Flow)
        requires
            old(self)@.wf(),
            sound_answer(answer),
            answer is Devices || answer is Engine || answer is Volume || answer is Span || answer
                is Preamp || answer is Address || answer is Remote,
        ensures
            old(self)@.resumes(next, answer, final(self)@, flow),
            final(self)@.wf(),
    {
        match (next, answer) {
            (Next::DevicesListed { delta }, Answer::Devices(devices)) => self.devices_listed(
                devices,
                delta,
            ),
            (Next::EngineMade(then), Answer::Engine(made)) => {
                let ghost start = self@;
                let ghost opened = engine_view(made);
                let (flow, left) = self.engine_made(made, then);
                assert(start.after_engine(opened, then, self@, flow, left_view(left)));
                flow
            },
            (Next::VolumeAdded, Answer::Volume { volume, label }) => self.volume_added(
                volume,
                &label,
            ),
            (Next::VolumeScaled, Answer::Volume { volume, .. }) => self.volume_scaled(volume),
            (Next::SeekScaled, Answer::Span(position)) => self.seek_scaled(position),
            (Next::PreampAdded, Answer::Preamp { preamp, label }) => self.preamp_added(
                preamp,
                &label,
            ),
            (Next::EndpointResolved, Answer::Address(found)) => self.endpoint_resolved(found),
            (Next::RemoteLoaded { address }, Answer::Remote { text, saved }) =>
                self.remote_loaded(address, text, saved),
            (Next::PairedAddress { token, fingerprint }, Answer::Remote { saved, .. }) =>
                self.paired_address(saved, token, fingerprint),
            _ => Flow::Done,
        }
    }

    /// Goes on with an answer from outside.
    pub fn try_resume(&mut self, next: Next, answer: Answer<E>) -> (flow: Flow)
        requires
            old(self)@.wf(),
            sound_answer(answer),
        ensures
            old(self)@.resumes(next, answer, final(self)@, flow),
            final(self)@.wf(),
    {
        match answer {
            Answer::Done(stored) => self.resume_stored(next, stored),
            Answer::Devices(devices) => self.resume_device(next, Answer::Devices(devices)),
            Answer::Engine(made) => self.resume_device(next, Answer::Engine(made)),
            Answer::Volume { volume, label } => self.resume_device(
                next,
                Answer::Volume { volume, label },
            ),
            Answer::Span(position) => self.resume_device(next, Answer::Span(position)),
            Answer::Preamp { preamp, label } => self.resume_device(
                next,
                Answer::Preamp { preamp, label },
            ),
            Answer::Address(found) => self.resume_device(next, Answer::Address(found)),
            Answer::Remote { text, saved } => self.resume_device(
                next,
                Answer::Remote { text, saved },
            ),
            other => self.resume_looked_up(next, other),
        }
    }

    /// Goes on with an answer from outside, and shows a failure.
    pub fn resume(&mut self, next: Next, answer: Answer<E>, source: FlowSource) -> (flow: Flow)
        requires
            old(self)@.wf(),
            sound_answer(answer),
        ensures
            exists|mid: AppView, inner: Flow|
                #[trigger] old(self)@.resumes(next, answer, mid, inner) && mid.settles(
                    inner,
                    source,
                    final(self)@,
                    flow,
                ),
            final(self)@.wf(),
    {
        let inner = self.try_resume(next, answer);
        let ghost mid = self@;
        let ghost request = inner;
        assert(old(self)@.resumes(next, answer, mid, request));
        self.settle(inner, source)
    }

    /// Takes note of what the engine shows.
    pub fn refresh_snapshot(&mut self)
        ensures
            final(self)@ == old(self)@.noting(final(self)@.front.audio_snapshot.position),
    {
        let shown = self.transport.audio.snapshot();
        self.note_snapshot(shown);
    }

    /// Takes note of what an engine has shown.
    pub fn note_snapshot(&mut self, shown: AudioSnapshot)
        ensures
            final(self)@ == (AppView {
                front: FrontView { audio_snapshot: shown, ..old(self)@.front },
                ..old(self)@
            }),
    {
        self.front.audio_snapshot = shown;
    }

    /// Follows the engine, and takes note of what it shows.
    pub fn tick(&mut self)
        requires
            old(self)@.wf(),
        ensures
            final(self)@.wf(),
            exists|followed: AppView| #[trigger]
                old(self)@.drained(followed) && final(self)@ == followed.noting(
                    final(self)@.front.audio_snapshot.position,
                ),
    {
        self.drain_audio_events();
        let ghost followed = self@;
        self.refresh_snapshot();
        assert(old(self)@.drained(followed));
    }

    /// Takes note of the files in the cache of server tracks.
    pub fn set_cache(&mut self, files: Vec<CachedFile>)
        ensures
            final(self)@ == (AppView {
                link: LinkView { cache: cache_views(files@), ..old(self)@.link },
                ..old(self)@
            }),
    {
        self.link.cache = files;
    }

    /// Hands over what the outside is to be told.
    pub fn take_effects(&mut self) -> (effects: Vec<Effect>)
        ensures
            crate::app::flow::effect_views(effects@) == old(self)@.outbox,
            final(self)@ == (AppView { outbox: Seq::empty(), ..old(self)@ }),
    {
        self.outbox.take()
    }
}

} // verus!
