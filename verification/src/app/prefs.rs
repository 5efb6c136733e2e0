//! Preferences, volume and loudness.

use vstd::prelude::*;
use vstd::string::*;

use crate::app::flow::{
    failed_with, saves_state, AfterEngine, Ask, Effect, EffectView, Flow, GainJob, Next,
    ReplayGainEvent,
};
use crate::app::playback::result_view;
use crate::app::state::{App, AppView, FrontView, Prefs, PrefsView, ShelfView, TransportView};
use crate::audio::{
    AudioDevice, AudioEngine, AudioSnapshot, EngineView, Request, StagedTrack,
    StagedView,
};
use crate::model::{clone_text, PlaybackState, ReplayGainInfo, ReplayGainMode, Track, TrackId};
use crate::order::views;
use crate::path_codec::{show_path, shown_path};
use crate::settings::{setting_at, setting_id, SettingId};
use crate::soulseek::opt_view;
use crate::text::{append_decimal, decimal, same_text};
use crate::time::Duration;
use crate::util::{counted, counted_text, on_off, on_off_text, wrap_index, wrapped};

verus! {

broadcast use vstd::std_specs::btree::group_btree_axioms;

/// The place of the device with this identifier, from `from` on.
pub open spec fn device_place(devices: Seq<AudioDevice>, id: Seq<char>, from: int) -> Option<int>
    decreases devices.len() - from,
{
    if from < 0 || from >= devices.len() {
        None
    } else if devices[from].id@ == id {
        Some(from)
    } else {
        device_place(devices, id, from + 1)
    }
}

fn find_device(devices: &Vec<AudioDevice>, id: &str) -> (place: Option<usize>)
    ensures
        match place {
            Some(place) => device_place(devices@, id@, 0) == Some(place as int) && place
                < devices@.len(),
            None => device_place(devices@, id@, 0) is None,
        },
{
    let mut i: usize = 0;
    while i < devices.len()
        invariant
            i <= devices@.len(),
            device_place(devices@, id@, 0) == device_place(devices@, id@, i as int),
        decreases devices@.len() - i,
    {
        if same_text(&devices[i].id, id) {
            return Some(i);
        }
        i = i + 1;
    }
    None
}

/// What the output device setting shows.
pub open spec fn device_text(prefs: PrefsView, shown: AudioSnapshot) -> Seq<char> {
    match prefs.preferred_output_device {
        None => "System default ("@ + shown.active_device@ + ")"@,
        Some(preferred) => if opt_view(shown.active_device_id) == Some(preferred) {
            shown.active_device@
        } else {
            (match device_place(prefs.output_devices, preferred, 0) {
                Some(place) => prefs.output_devices[place].name@,
                None => "Unavailable device"@,
            }) + " (using "@ + shown.active_device@ + ")"@
        },
    }
}

/// What a setting shows; `preamp` is the preamp in words.
pub open spec fn setting_text(
    prefs: PrefsView,
    shown: AudioSnapshot,
    id: SettingId,
    preamp: Seq<char>,
) -> Seq<char> {
    match id {
        SettingId::OutputDevice => device_text(prefs, shown),
        SettingId::ReplayGainMode => prefs.replay_gain_mode.label_text(),
        SettingId::ReplayGainPreamp => preamp,
        SettingId::ReplayGainClip => on_off_text(prefs.replay_gain_prevent_clip),
        SettingId::CursorFollow => on_off_text(prefs.cursor_follows_playback),
        SettingId::AlbumArt => on_off_text(prefs.show_album_art),
        SettingId::Spectrum => on_off_text(prefs.show_spectrum),
        SettingId::NerdFont => on_off_text(prefs.nerd_font),
    }
}

/// One way, the other way, or not at all.
pub open spec fn sign(n: int) -> int {
    if n > 0 {
        1
    } else if n < 0 {
        -1
    } else {
        0
    }
}

impl PrefsView {
    /// A setting changed that needs nothing from outside.
    pub open spec fn adjusted(self, id: SettingId, delta: int) -> PrefsView {
        match id {
            SettingId::ReplayGainMode => PrefsView {
                replay_gain_mode: if delta >= 0 {
                    self.replay_gain_mode.following()
                } else {
                    self.replay_gain_mode.following().following()
                },
                ..self
            },
            SettingId::ReplayGainClip => PrefsView {
                replay_gain_prevent_clip: !self.replay_gain_prevent_clip,
                ..self
            },
            SettingId::CursorFollow => PrefsView {
                cursor_follows_playback: !self.cursor_follows_playback,
                ..self
            },
            SettingId::AlbumArt => PrefsView { show_album_art: !self.show_album_art, ..self },
            SettingId::Spectrum => PrefsView { show_spectrum: !self.show_spectrum, ..self },
            SettingId::NerdFont => PrefsView { nerd_font: !self.nerd_font, ..self },
            _ => self,
        }
    }

    /// The next device chosen, around the devices and the system's own.
    pub open spec fn device_chosen(self, devices: Seq<AudioDevice>, delta: int) -> PrefsView {
        let current = match self.preferred_output_device {
            Some(id) => match device_place(devices, id, 0) {
                Some(place) => place + 1,
                None => 0,
            },
            None => 0,
        };
        let next = wrapped(current, sign(delta), devices.len() as int + 1);
        PrefsView {
            output_devices: devices,
            preferred_output_device: if next == 0 {
                None
            } else {
                Some(devices[next - 1].id@)
            },
            ..self
        }
    }
}

/// An engine that would not go on with the current track, and what it said.
#[derive(Debug)]
pub struct Refused<E> {
    pub engine: E,
    pub error: String,
}

/// What is known of an engine that refused.
pub open spec fn refused_view<E: AudioEngine>(result: Result<(), Refused<E>>) -> Option<
    (EngineView, Seq<char>),
> {
    match result {
        Ok(()) => None,
        Err(refused) => Some((refused.engine.state(), refused.error@)),
    }
}

/// What is known of an engine that was given back.
pub open spec fn left_view<E: AudioEngine>(left: Option<E>) -> Option<EngineView> {
    match left {
        Some(engine) => Some(engine.state()),
        None => None,
    }
}

/// What is known of an engine that was to be opened.
pub open spec fn engine_view<E: AudioEngine>(made: Result<E, String>) -> Result<
    EngineView,
    Seq<char>,
> {
    match made {
        Ok(fresh) => Ok(fresh.state()),
        Err(error) => Err(error@),
    }
}

impl AppView {
    pub open spec fn with_prefs(self, prefs: PrefsView) -> AppView {
        AppView { prefs, ..self }
    }

    /// Whether a setting changes how loud tracks are.
    pub open spec fn is_gain_setting(id: SettingId) -> bool {
        id == SettingId::ReplayGainMode || id == SettingId::ReplayGainPreamp || id
            == SettingId::ReplayGainClip
    }

    /// What a setting shows.
    pub open spec fn setting_text(self, id: SettingId, preamp: Seq<char>) -> Seq<char> {
        setting_text(self.prefs, self.transport.audio.shown, id, preamp)
    }

    /// The setting named with what it shows, and the state stored.
    pub open spec fn setting_reported(
        self,
        id: SettingId,
        preamp: Seq<char>,
        post: AppView,
        flow: Flow,
    ) -> bool {
        &&& post == self.said(id.label_text() + ": "@ + self.setting_text(id, preamp))
        &&& saves_state(flow, post.saved_state())
    }

    /// What follows once a setting has another value.
    pub open spec fn setting_changed(
        self,
        id: SettingId,
        preamp: Seq<char>,
        post: AppView,
        flow: Flow,
    ) -> bool {
        if AppView::is_gain_setting(id) {
            exists|refusal: Option<Seq<char>>|
                (#[trigger] self.gain_applied().restaged(refusal)).setting_reported(
                    id,
                    preamp,
                    post,
                    flow,
                )
        } else {
            self.setting_reported(id, preamp, post, flow)
        }
    }

    /// The setting under the cursor changed.
    pub open spec fn setting_adjusted(self, delta: i32, post: AppView, flow: Flow) -> bool {
        match setting_at(self.panes.settings_selected as int) {
            None => post == self && flow is Done,
            Some(id) => if !self.panes.settings_open {
                post == self && flow is Done
            } else if id == SettingId::OutputDevice {
                if self.prefs.no_audio {
                    post == self.said("Audio is disabled by --no-audio"@) && flow is Done
                } else {
                    &&& post == self
                    &&& flow matches Flow::Ask(
                        Ask::OutputDevices,
                        Next::DevicesListed { delta: later },
                    ) && later == delta
                }
            } else if id == SettingId::ReplayGainPreamp {
                &&& post == self
                &&& flow matches Flow::Ask(
                    Ask::AddPreamp { preamp, delta: by },
                    Next::PreampAdded,
                ) && preamp == self.prefs.replay_gain_preamp && by == delta
            } else {
                self.with_prefs(self.prefs.adjusted(id, delta as int)).setting_changed(
                    id,
                    Seq::empty(),
                    post,
                    flow,
                )
            },
        }
    }

    /// Whether the player waits for an engine on the preferred device.
    pub open spec fn engine_asked(self, flow: Flow, then: AfterEngine) -> bool {
        flow matches Flow::Ask(Ask::MakeEngine { volume, device }, Next::EngineMade(after))
            && volume == self.transport.audio.shown.volume && opt_view(device)
            == self.prefs.preferred_output_device && after == then
    }

    /// Audio tried again.
    pub open spec fn audio_retried(self, post: AppView, flow: Flow) -> bool {
        if self.prefs.no_audio {
            post == self.said("Audio is disabled by --no-audio"@) && flow is Done
        } else {
            post == self && self.engine_asked(flow, AfterEngine::Report)
        }
    }

    /// What the current track is handed to a new engine as.
    pub open spec fn current_staged(self) -> Option<StagedView> {
        match self.transport.audio.shown.track_id {
            None => None,
            Some(id) => match self.staging_source(id) {
                None => None,
                Some(source) => Some(self.staged_view(self.shelf.track(id)->0, source)),
            },
        }
    }

    pub open spec fn numbered(self) -> AppView {
        self.with_transport(
            TransportView {
                playback_generation: self.transport.next_generation(),
                ..self.transport
            },
        )
    }

    /// The player on another engine.
    pub open spec fn on_engine(self, audio: EngineView) -> AppView {
        AppView {
            front: FrontView { audio_error: None, ..self.front },
            ..self.with_transport(
                TransportView {
                    audio,
                    audio_started_generation: None,
                    staged_playback: None,
                    ..self.transport
                },
            )
        }
    }

    /// The new engine with the current track, which goes on there from a position, paused where
    /// it was paused.
    pub open spec fn carried_over(self, fresh: EngineView, position: Duration) -> EngineView {
        match self.current_staged() {
            None => fresh,
            Some(staged) => {
                let sought = fresh.with_loaded(staged).sought(position);
                if self.transport.audio.shown.state == PlaybackState::Paused {
                    sought.paused()
                } else {
                    sought
                }
            },
        }
    }

    /// Whether the new engine was asked to go on with the current track, and this is how it
    /// stands then: where it refused, either the track or the position.
    pub open spec fn carries_over(
        self,
        fresh: EngineView,
        position: Duration,
        left: EngineView,
        result: Result<(), Seq<char>>,
    ) -> bool {
        match result {
            Ok(()) => left == self.carried_over(fresh, position),
            Err(error) => match self.current_staged() {
                None => false,
                Some(staged) => left == fresh.refused(Request::Load(staged), error) || left
                    == fresh.with_loaded(staged).refused(Request::Seek(position), error),
            },
        }
    }

    /// The player moved to a new engine: the current track goes on there from a position.
    /// `refusal` is what the new engine said where it took the track or the position not.
    pub open spec fn switched(
        self,
        fresh: EngineView,
        position: Duration,
        refusal: Option<Seq<char>>,
    ) -> (AppView, Result<(), Seq<char>>) {
        match self.current_staged() {
            None => (self.on_engine(fresh), Ok(())),
            Some(_) => match refusal {
                Some(error) => (self.numbered(), Err(error)),
                None => (
                    self.numbered().on_engine(self.carried_over(fresh, position)),
                    Ok(()),
                ),
            },
        }
    }

    /// Whether the player has moved to a new engine, or has stayed with the old one because the
    /// new one, which is left so, was asked to go on and refused with these words.
    pub open spec fn switches(
        self,
        fresh: EngineView,
        position: Duration,
        post: AppView,
        left: Option<(EngineView, Seq<char>)>,
    ) -> bool {
        match left {
            None => self.switched(fresh, position, None) == (post, Ok::<(), Seq<char>>(())),
            Some((engine, error)) => {
                &&& self.switched(fresh, position, Some(error)) == (post, Err::<(), Seq<char>>(error))
                &&& self.carries_over(fresh, position, engine, Err(error))
            },
        }
    }

    /// What follows once an engine was to be opened, while the current track is at a position;
    /// `left` is the new engine where it refused.
    pub open spec fn after_engine_at(
        self,
        made: Result<EngineView, Seq<char>>,
        position: Duration,
        then: AfterEngine,
        post: AppView,
        flow: Flow,
        left: Option<EngineView>,
    ) -> bool {
        match (made, left) {
            (Err(error), None) => post == self && failed_with(flow, error),
            (Err(_), Some(_)) => false,
            (Ok(fresh), Some(engine)) => flow matches Flow::Failed(error) && self.switches(
                fresh,
                position,
                post,
                Some((engine, error@)),
            ),
            (Ok(fresh), None) => {
                let after = self.switched(fresh, position, None).0;
                match then {
                    AfterEngine::Report => post == after.said("Audio output initialized"@)
                        && flow is Done,
                    AfterEngine::Setting => after.setting_reported(
                        SettingId::OutputDevice,
                        Seq::empty(),
                        post,
                        flow,
                    ),
                }
            },
        }
    }

    /// What follows once an engine was to be opened, wherever the current track is.
    pub open spec fn after_engine(
        self,
        made: Result<EngineView, Seq<char>>,
        then: AfterEngine,
        post: AppView,
        flow: Flow,
        left: Option<EngineView>,
    ) -> bool {
        exists|position: Duration|
            #[trigger] self.after_engine_at(made, position, then, post, flow, left)
    }

    /// The same, whatever becomes of an engine that refused.
    pub open spec fn after_any_engine(
        self,
        made: Result<EngineView, Seq<char>>,
        then: AfterEngine,
        post: AppView,
        flow: Flow,
    ) -> bool {
        exists|left: Option<EngineView>|
            #[trigger] self.after_engine(made, then, post, flow, left)
    }

    pub open spec fn at_volume(self, volume: u32) -> AppView {
        self.with_transport(
            TransportView {
                audio: EngineView {
                    shown: self.transport.audio.shown.at_volume(volume),
                    ..self.transport.audio
                },
                ..self.transport
            },
        ).gain_applied()
    }

    /// What the cover of is shown: the current track's, else that of the item under the
    /// cursor.
    pub open spec fn cover(self) -> Option<Track> {
        match self.front.audio_snapshot.track_id {
            Some(id) => self.shelf.track(id),
            None => match self.shelf.active_item(self.lists.playlist_selection) {
                Some(id) => self.shelf.track(id),
                None => None,
            },
        }
    }

    /// The selection, or the whole playlist where nothing is selected.
    pub open spec fn gain_candidates(self) -> Seq<TrackId> {
        let selected = self.selected_library_tracks();
        let ids = if selected.len() == 0 {
            self.shelf.active().items
        } else {
            selected
        };
        ids.filter(|id: TrackId| self.is_local(id))
    }

    pub open spec fn is_local(self, id: TrackId) -> bool {
        match self.shelf.track(id) {
            Some(track) => track.origin is Local,
            None => false,
        }
    }

    /// The loudness of files measured; which of them exist is asked first.
    pub open spec fn gain_scan_asked(self, post: AppView, flow: Flow) -> bool {
        let ids = self.gain_candidates();
        if ids.len() == 0 {
            post == self.said("No local files to scan for ReplayGain"@) && flow is Done
        } else {
            &&& post == self
            &&& flow matches Flow::Ask(
                Ask::CheckFiles { paths },
                Next::GainFilesChecked { ids: later },
            ) && later@ == ids && views(paths@) == ids.map_values(
                |id: TrackId| self.shelf.tracks[id].path@,
            )
        }
    }

    /// The jobs for the first `n` files that exist.
    pub open spec fn gain_jobs(self, ids: Seq<TrackId>, exist: Seq<bool>, n: nat) -> Seq<GainJob>
        decreases n,
    {
        if n == 0 {
            Seq::empty()
        } else {
            let before = self.gain_jobs(ids, exist, (n - 1) as nat);
            if n - 1 < exist.len() && exist[n - 1] && self.is_local(ids[n - 1]) {
                let track = self.shelf.tracks[ids[n - 1]];
                before.push(
                    GainJob {
                        id: ids[n - 1],
                        path: track.path,
                        artist: track.artist,
                        album: track.album,
                    },
                )
            } else {
                before
            }
        }
    }

    pub open spec fn gain_scan_begun(self, ids: Seq<TrackId>, exist: Seq<bool>) -> AppView {
        let jobs = self.gain_jobs(ids, exist, ids.len());
        if jobs.len() == 0 {
            self.said("No local files to scan for ReplayGain"@)
        } else {
            AppView {
                front: FrontView {
                    status: "Scanning ReplayGain for "@ + counted_text(
                        jobs.len() as int,
                        "file"@,
                    ) + "…"@,
                    replaygain: true,
                    ..self.front
                },
                ..self
            }.told(EffectView::ScanReplayGain(jobs))
        }
    }

    /// New loudness figures of a track taken over and stored.
    pub open spec fn gain_measured(
        self,
        id: TrackId,
        info: ReplayGainInfo,
        file_size: Option<u64>,
        modified_ns: Option<i64>,
    ) -> AppView {
        match self.shelf.track(id) {
            None => self,
            Some(track) => {
                let measured = Track {
                    replay_gain: info,
                    file_size: match file_size {
                        Some(size) => size,
                        None => track.file_size,
                    },
                    modified_ns: match modified_ns {
                        Some(modified) => modified,
                        None => track.modified_ns,
                    },
                    ..track
                };
                AppView {
                    shelf: ShelfView { tracks: self.shelf.tracks.insert(id, measured), ..self.shelf },
                    ..self
                }.told(
                    EffectView::UpdateReplayGain {
                        id,
                        info,
                        file_size: measured.file_size,
                        modified_ns: measured.modified_ns,
                    },
                )
            },
        }
    }

    /// The gain set anew where a track is the current one.
    pub open spec fn gain_noticed(self, id: TrackId) -> AppView {
        if self.transport.audio.shown.track_id == Some(id) {
            self.gain_applied()
        } else {
            self
        }
    }

    /// What follows an event of a loudness scan.
    pub open spec fn gain_followed(self, event: ReplayGainEvent, post: AppView) -> bool {
        match event {
            ReplayGainEvent::Started { total } => post == self.said(
                "Scanning ReplayGain (0/"@ + decimal(total as nat) + ")…"@,
            ),
            ReplayGainEvent::Track { id, info, path, file_size, modified_ns } => {
                let shown = self.transport.audio.shown;
                let applied = self.gain_measured(id, info, file_size, modified_ns).gain_noticed(
                    id,
                );
                if shown.track_id == Some(id) || shown.staged_track_id == Some(id) {
                    exists|refusal: Option<Seq<char>>|
                        post == (#[trigger] applied.restaged(refusal)).said(
                            "ReplayGain: "@ + shown_path(path@),
                        )
                } else {
                    post == applied.said("ReplayGain: "@ + shown_path(path@))
                }
            },
            ReplayGainEvent::Failed { error } => post == self.said("ReplayGain: "@ + error@),
            ReplayGainEvent::Finished { scanned, failed } => post == (AppView {
                front: FrontView { replaygain: false, ..self.front },
                ..self
            }).said(
                "ReplayGain scan complete: "@ + decimal(scanned as nat) + " tagged, "@ + decimal(
                    failed as nat,
                ) + " failed"@,
            ),
        }
    }
}

/// What the status bar says of the current track's loudness.
#[derive(Clone, Copy, Debug, PartialEq, Eq, Structural)]
pub enum GainStatus {
    /// The sum of a gain and the preamp.
    Gain { gain: u32, preamp: u32 },
    /// No figure is known; the mode is named.
    Mode(ReplayGainMode),
}

impl Prefs {
    /// Changes a setting that needs nothing from outside.
    fn adjust(&mut self, id: SettingId, delta: i32)
        ensures
            final(self)@ == old(self)@.adjusted(id, delta as int),
    {
        match id {
            SettingId::ReplayGainMode => {
                self.replay_gain_mode = if delta >= 0 {
                    self.replay_gain_mode.next()
                } else {
                    self.replay_gain_mode.next().next()
                };
            },
            SettingId::ReplayGainClip => {
                self.replay_gain_prevent_clip = !self.replay_gain_prevent_clip;
            },
            SettingId::CursorFollow => {
                self.cursor_follows_playback = !self.cursor_follows_playback;
            },
            SettingId::AlbumArt => {
                self.show_album_art = !self.show_album_art;
            },
            SettingId::Spectrum => {
                self.show_spectrum = !self.show_spectrum;
            },
            SettingId::NerdFont => {
                self.nerd_font = !self.nerd_font;
            },
            _ => {},
        }
    }

    fn choose_device(&mut self, devices: Vec<AudioDevice>, delta: i32)
        requires
            devices@.len() < usize::MAX,
        ensures
            final(self)@ == old(self)@.device_chosen(devices@, delta as int),
    {
        let current: usize = match &self.preferred_output_device {
            Some(id) => match find_device(&devices, id) {
                Some(place) => place + 1,
                None => 0,
            },
            None => 0,
        };
        let step: i32 = if delta > 0 {
            1
        } else if delta < 0 {
            -1
        } else {
            0
        };
        let next: usize = wrap_index(current, step, devices.len() + 1);
        self.preferred_output_device = if next == 0 {
            None
        } else {
            Some(devices[next - 1].id.clone())
        };
        self.output_devices = devices;
    }

    fn device_label(&self, shown: &AudioSnapshot) -> (text: String)
        ensures
            text@ == device_text(self@, *shown),
    {
        match &self.preferred_output_device {
            None => {
                let mut text = "System default (".to_owned();
                text.append(&shown.active_device);
                text.append(")");
                text
            },
            Some(preferred) => {
                if let Some(active) = &shown.active_device_id {
                    if same_text(active, preferred) {
                        return shown.active_device.clone();
                    }
                }
                let mut text = match find_device(&self.output_devices, preferred) {
                    Some(place) => self.output_devices[place].name.clone(),
                    None => "Unavailable device".to_owned(),
                };
                text.append(" (using ");
                text.append(&shown.active_device);
                text.append(")");
                text
            },
        }
    }

    fn setting_label(&self, shown: &AudioSnapshot, id: SettingId, preamp: &str) -> (text: String)
        ensures
            text@ == setting_text(self@, *shown, id, preamp@),
    {
        match id {
            SettingId::OutputDevice => self.device_label(shown),
            SettingId::ReplayGainMode => self.replay_gain_mode.label().to_owned(),
            SettingId::ReplayGainPreamp => preamp.to_owned(),
            SettingId::ReplayGainClip => on_off(self.replay_gain_prevent_clip),
            SettingId::CursorFollow => on_off(self.cursor_follows_playback),
            SettingId::AlbumArt => on_off(self.show_album_art),
            SettingId::Spectrum => on_off(self.show_spectrum),
            SettingId::NerdFont => on_off(self.nerd_font),
        }
    }
}

/// What a position does not change.
proof fn lemma_device_text_ignores_position(prefs: PrefsView, shown: AudioSnapshot, p: Duration)
    ensures
        forall|id: SettingId, preamp: Seq<char>|
            setting_text(prefs, AudioSnapshot { position: p, ..shown }, id, preamp)
                == #[trigger] setting_text(prefs, shown, id, preamp),
{
}

impl<E: AudioEngine> App<E> {
    /// What a setting shows; `preamp` is the preamp in words.
    pub fn setting_value(&self, id: SettingId, preamp: &str) -> (text: String)
        ensures
            text@ == self@.setting_text(id, preamp@),
    {
        let shown = self.transport.audio.snapshot();
        proof {
            lemma_device_text_ignores_position(
                self@.prefs,
                self@.transport.audio.shown,
                shown.position,
            );
        }
        self.prefs.setting_label(&shown, id, preamp)
    }

    /// Names a setting with what it shows, and asks for the state to be stored.
    fn report_setting(&mut self, id: SettingId, preamp: &str) -> (flow: Flow)
        ensures
            old(self)@.setting_reported(id, preamp@, final(self)@, flow),
            old(self)@.wf() ==> final(self)@.wf(),
    {
        let mut text = id.label().to_owned();
        text.append(": ");
        let value = self.setting_value(id, preamp);
        text.append(&value);
        self.say(text);
        self.save_state()
    }

    fn change_setting(&mut self, id: SettingId, preamp: &str) -> (flow: Flow)
        requires
            old(self)@.wf(),
        ensures
            old(self)@.setting_changed(id, preamp@, final(self)@, flow),
            final(self)@.wf(),
    {
        let ghost start = self@;
        if id == SettingId::ReplayGainMode || id == SettingId::ReplayGainPreamp || id
            == SettingId::ReplayGainClip {
            self.apply_replay_gain();
            let refusal = self.restage_traced();
            let ghost staged = self@;
            let flow = self.report_setting(id, preamp);
            assert(staged == start.gain_applied().restaged(refusal@));
            flow
        } else {
            self.report_setting(id, preamp)
        }
    }

    /// Changes the setting under the cursor.
    pub fn adjust_setting(&mut self, delta: i32) -> (flow: Flow)
        requires
            old(self)@.wf(),
        ensures
            old(self)@.setting_adjusted(delta, final(self)@, flow),
            final(self)@.wf(),
    {
        if !self.panes.settings_open {
            return Flow::Done;
        }
        let id = match setting_id(self.panes.settings_selected) {
            Some(id) => id,
            None => {
                return Flow::Done;
            },
        };
        if id == SettingId::OutputDevice {
            if self.prefs.no_audio {
                self.say("Audio is disabled by --no-audio".to_owned());
                return Flow::Done;
            }
            return Flow::Ask(Ask::OutputDevices, Next::DevicesListed { delta });
        }
        if id == SettingId::ReplayGainPreamp {
            return Flow::Ask(
                Ask::AddPreamp { preamp: self.prefs.replay_gain_preamp, delta },
                Next::PreampAdded,
            );
        }
        self.prefs.adjust(id, delta);
        let empty = String::new();
        assert(empty@ =~= Seq::empty());
        self.change_setting(id, &empty)
    }

    /// Takes a new preamp over.
    pub fn preamp_added(&mut self, preamp: u32, label: &str) -> (flow: Flow)
        requires
            old(self)@.wf(),
        ensures
            old(self)@.with_prefs(
                PrefsView { replay_gain_preamp: preamp, ..old(self)@.prefs },
            ).setting_changed(SettingId::ReplayGainPreamp, label@, final(self)@, flow),
            final(self)@.wf(),
    {
        self.prefs.replay_gain_preamp = preamp;
        self.change_setting(SettingId::ReplayGainPreamp, label)
    }

    fn ask_engine(&self, then: AfterEngine) -> (flow: Flow)
        ensures
            self@.engine_asked(flow, then),
    {
        Flow::Ask(
            Ask::MakeEngine {
                volume: self.transport.audio.snapshot().volume,
                device: clone_text(&self.prefs.preferred_output_device),
            },
            Next::EngineMade(then),
        )
    }

    /// Chooses the next of the output devices.
    pub fn devices_listed(&mut self, devices: Vec<AudioDevice>, delta: i32) -> (flow: Flow)
        requires
            old(self)@.wf(),
            devices@.len() < usize::MAX,
        ensures
            final(self)@ == old(self)@.with_prefs(
                old(self)@.prefs.device_chosen(devices@, delta as int),
            ),
            final(self)@.engine_asked(flow, AfterEngine::Setting),
            final(self)@.wf(),
    {
        self.prefs.choose_device(devices, delta);
        self.ask_engine(AfterEngine::Setting)
    }

    /// Tries to open the audio output again.
    pub fn retry_audio(&mut self) -> (flow: Flow)
        requires
            old(self)@.wf(),
        ensures
            old(self)@.audio_retried(final(self)@, flow),
            final(self)@.wf(),
    {
        if self.prefs.no_audio {
            self.say("Audio is disabled by --no-audio".to_owned());
            return Flow::Done;
        }
        self.ask_engine(AfterEngine::Report)
    }

    /// Lets a new engine, which holds no staged track, go on with the current track from a
    /// position.
    pub fn carry_over(&mut self, fresh: &mut E, position: Duration) -> (result: Result<(), String>)
        requires
            old(self)@.wf(),
            old(fresh).state().shown.staged_track_id is None,
        ensures
            old(self)@.carries_over(
                old(fresh).state(),
                position,
                final(fresh).state(),
                result_view(result),
            ),
            final(self)@ == if old(self)@.current_staged() is Some {
                old(self)@.numbered()
            } else {
                old(self)@
            },
            final(self)@.wf(),
    {
        let snapshot = self.transport.audio.snapshot();
        let current = match snapshot.track_id {
            Some(id) => self.stageable(id),
            None => None,
        };
        if let Some((track, source)) = current {
            let generation: u64 = self.transport.next_playback_generation();
            let gain = self.prefs.gain_for(&track.replay_gain);
            let staged = StagedTrack {
                source,
                track_id: track.id,
                duration: track.duration,
                gain,
                generation,
            };
            match fresh.load_and_play(staged) {
                Err(error) => {
                    return Err(error);
                },
                Ok(()) => {},
            }
            match fresh.seek(position) {
                Err(error) => {
                    return Err(error);
                },
                Ok(()) => {},
            }
            if snapshot.state == PlaybackState::Paused {
                fresh.pause();
            }
        }
        Ok(())
    }

    /// Moves the player to a new engine, which holds no staged track; the current track goes on
    /// from a position. Gives the new engine back where it refused.
    pub fn switch_output_device(&mut self, fresh: E, position: Duration) -> (result: Result<
        (),
        Refused<E>,
    >)
        requires
            old(self)@.wf(),
            fresh.state().shown.staged_track_id is None,
        ensures
            old(self)@.switches(fresh.state(), position, final(self)@, refused_view(result)),
            final(self)@.wf(),
    {
        let mut replacement = fresh;
        let carried = self.carry_over(&mut replacement, position);
        self.engine_carried(replacement, carried)
    }

    /// Takes a new engine on, where it could go on with the current track; else gives it back and
    /// stays with the old one.
    pub fn engine_carried(&mut self, replacement: E, carried: Result<(), String>) -> (result: Result<
        (),
        Refused<E>,
    >)
        ensures
            match carried {
                Ok(()) => result is Ok && final(self)@ == old(self)@.on_engine(
                    replacement.state(),
                ),
                Err(error) => final(self)@ == old(self)@ && refused_view(result) == Some(
                    (replacement.state(), error@),
                ),
            },
            old(self)@.wf() ==> final(self)@.wf(),
    {
        match carried {
            Err(error) => Err(Refused { engine: replacement, error }),
            Ok(()) => {
                self.transport.audio = replacement;
                self.transport.audio_started_generation = None;
                self.transport.staged_playback = None;
                self.front.audio_error = None;
                Ok(())
            },
        }
    }

    /// Goes on once an engine was to be opened. Gives the new engine back where it refused.
    pub fn engine_made(&mut self, made: Result<E, String>, then: AfterEngine) -> (outcome: (
        Flow,
        Option<E>,
    ))
        requires
            old(self)@.wf(),
            made matches Ok(fresh) ==> fresh.state().shown.staged_track_id is None,
        ensures
            old(self)@.after_engine(
                engine_view(made),
                then,
                final(self)@,
                outcome.0,
                left_view(outcome.1),
            ),
            final(self)@.wf(),
    {
        let ghost opened = engine_view(made);
        let position = self.transport.audio.snapshot().position;
        let (flow, left) = self.engine_made_at(made, position, then);
        assert(old(self)@.after_engine_at(opened, position, then, self@, flow, left_view(left)));
        (flow, left)
    }

    /// Goes on once an engine was to be opened, while the current track is at a position. Gives
    /// the new engine back where it refused.
    pub fn engine_made_at(
        &mut self,
        made: Result<E, String>,
        position: Duration,
        then: AfterEngine,
    ) -> (outcome: (Flow, Option<E>))
        requires
            old(self)@.wf(),
            made matches Ok(fresh) ==> fresh.state().shown.staged_track_id is None,
        ensures
            old(self)@.after_engine_at(
                engine_view(made),
                position,
                then,
                final(self)@,
                outcome.0,
                left_view(outcome.1),
            ),
            final(self)@.wf(),
    {
        let fresh = match made {
            Ok(fresh) => fresh,
            Err(error) => {
                return (Flow::Failed(error), None);
            },
        };
        if let Err(refused) = self.switch_output_device(fresh, position) {
            return (Flow::Failed(refused.error), Some(refused.engine));
        }
        match then {
            AfterEngine::Report => {
                self.say("Audio output initialized".to_owned());
                (Flow::Done, None)
            },
            AfterEngine::Setting => {
                let empty = String::new();
                assert(empty@ =~= Seq::empty());
                (self.report_setting(SettingId::OutputDevice, &empty), None)
            },
        }
    }

    /// Sets a volume, says so and asks for the state to be stored.
    pub fn volume_added(&mut self, volume: u32, label: &str) -> (flow: Flow)
        requires
            old(self)@.wf(),
        ensures
            final(self)@ == old(self)@.at_volume(volume).said("Volume: "@ + label@ + "%"@),
            saves_state(flow, final(self)@.saved_state()),
            final(self)@.wf(),
    {
        self.transport.audio.set_volume(volume);
        self.apply_replay_gain();
        let mut text = "Volume: ".to_owned();
        text.append(label);
        text.append("%");
        self.say(text);
        self.save_state()
    }

    /// Sets a volume and asks for the state to be stored.
    pub fn volume_scaled(&mut self, volume: u32) -> (flow: Flow)
        requires
            old(self)@.wf(),
        ensures
            final(self)@ == old(self)@.at_volume(volume),
            saves_state(flow, final(self)@.saved_state()),
            final(self)@.wf(),
    {
        self.transport.audio.set_volume(volume);
        self.apply_replay_gain();
        self.save_state()
    }

    /// Warns where the preferred device is not the one that plays.
    pub fn output_device_warning(&self) -> (warning: Option<String>)
        ensures
            match warning {
                Some(text) => {
                    &&& !self@.prefs.no_audio
                    &&& self@.prefs.preferred_output_device is Some
                    &&& opt_view(self@.front.audio_snapshot.active_device_id)
                        != self@.prefs.preferred_output_device
                    &&& text@ == "Preferred audio device unavailable — using "@
                        + self@.front.audio_snapshot.active_device@
                },
                None => self@.prefs.no_audio || self@.prefs.preferred_output_device is None
                    || opt_view(self@.front.audio_snapshot.active_device_id)
                    == self@.prefs.preferred_output_device,
            },
    {
        if self.prefs.no_audio {
            return None;
        }
        let preferred = match &self.prefs.preferred_output_device {
            Some(preferred) => preferred,
            None => {
                return None;
            },
        };
        if let Some(active) = &self.front.audio_snapshot.active_device_id {
            if same_text(active, preferred) {
                return None;
            }
        }
        let mut text = "Preferred audio device unavailable — using ".to_owned();
        text.append(&self.front.audio_snapshot.active_device);
        Some(text)
    }

    /// The track that the cover of is shown.
    pub fn cover_track(&self) -> (track: Option<&Track>)
        requires
            self@.wf(),
        ensures
            match track {
                Some(track) => self@.cover() == Some(*track),
                None => self@.cover() is None,
            },
    {
        let id: TrackId = match self.front.audio_snapshot.track_id {
            Some(id) => id,
            None => match self.shelf.active_item(self.lists.playlist_selection) {
                Some(id) => id,
                None => {
                    return None;
                },
            },
        };
        self.shelf.tracks.get(&id)
    }

    /// What the status bar says of the current track's loudness.
    pub fn replay_gain_status(&self) -> (status: Option<GainStatus>)
        ensures
            status == if self@.prefs.replay_gain_mode == ReplayGainMode::Off {
                None
            } else {
                match self@.front.audio_snapshot.track_id {
                    None => None,
                    Some(id) => match self@.shelf.track(id) {
                        None => None,
                        Some(track) => match track.replay_gain.chosen(
                            self@.prefs.replay_gain_mode,
                        ).0 {
                            Some(gain) => Some(
                                GainStatus::Gain { gain, preamp: self@.prefs.replay_gain_preamp },
                            ),
                            None => Some(GainStatus::Mode(self@.prefs.replay_gain_mode)),
                        },
                    },
                }
            },
    {
        if self.prefs.replay_gain_mode == ReplayGainMode::Off {
            return None;
        }
        let id: TrackId = match self.front.audio_snapshot.track_id {
            Some(id) => id,
            None => {
                return None;
            },
        };
        match self.shelf.tracks.get(&id) {
            None => None,
            Some(track) => {
                let figures = track.replay_gain.pick(self.prefs.replay_gain_mode);
                match figures.0 {
                    Some(gain) => Some(
                        GainStatus::Gain { gain, preamp: self.prefs.replay_gain_preamp },
                    ),
                    None => Some(GainStatus::Mode(self.prefs.replay_gain_mode)),
                }
            },
        }
    }

    fn local_path(&self, id: TrackId) -> (path: Option<String>)
        ensures
            path is Some == self@.is_local(id),
            path is Some ==> path->0@ == self@.shelf.tracks[id].path@,
    {
        match self.shelf.tracks.get(&id) {
            Some(track) => if track.origin.is_remote() {
                None
            } else {
                Some(track.path.clone())
            },
            None => None,
        }
    }

    /// Measures the loudness of the selection, or of the whole playlist.
    pub fn begin_replaygain_scan(&mut self) -> (flow: Flow)
        requires
            old(self)@.wf(),
        ensures
            old(self)@.gain_scan_asked(final(self)@, flow),
            final(self)@.wf(),
    {
        let selected = self.selected_library_tracks();
        let all = if selected.len() == 0 {
            crate::order::clone_ids(&self.shelf.active().items)
        } else {
            selected
        };
        let ghost app = self@;
        let ghost p = |id: TrackId| app.is_local(id);
        let ghost f = |id: TrackId| app.shelf.tracks[id].path@;
        let mut ids: Vec<TrackId> = Vec::new();
        let mut paths: Vec<String> = Vec::new();
        let mut i: usize = 0;
        proof {
            reveal(Seq::filter);
        }
        assert(ids@ =~= all@.take(0).filter(p));
        assert(views(paths@) =~= ids@.map_values(f));
        while i < all.len()
            invariant
                i <= all@.len(),
                self@ == app,
                app == old(self)@,
                p == (|id: TrackId| app.is_local(id)),
                f == (|id: TrackId| app.shelf.tracks[id].path@),
                ids@ == all@.take(i as int).filter(p),
                views(paths@) == ids@.map_values(f),
            decreases all@.len() - i,
        {
            proof {
                crate::order::lemma_filter_take(all@, p, i as int);
            }
            let ghost before = views(paths@);
            if let Some(path) = self.local_path(all[i]) {
                ids.push(all[i]);
                paths.push(path);
                assert(views(paths@) =~= before.push(f(all@[i as int])));
                assert(views(paths@) =~= ids@.map_values(f));
            }
            i = i + 1;
        }
        assert(all@.take(i as int) =~= all@);
        assert(ids@ == app.gain_candidates());
        if ids.len() == 0 {
            self.say("No local files to scan for ReplayGain".to_owned());
            return Flow::Done;
        }
        Flow::Ask(Ask::CheckFiles { paths }, Next::GainFilesChecked { ids })
    }

    /// Measures the loudness of those files that exist.
    pub fn gain_files_checked(&mut self, ids: Vec<TrackId>, exist: Vec<bool>)
        requires
            old(self)@.wf(),
        ensures
            final(self)@ == old(self)@.gain_scan_begun(ids@, exist@),
            final(self)@.wf(),
    {
        let ghost app = self@;
        let mut jobs: Vec<GainJob> = Vec::new();
        let mut i: usize = 0;
        while i < ids.len()
            invariant
                i <= ids@.len(),
                self@ == app,
                app == old(self)@,
                app.wf(),
                jobs@ == app.gain_jobs(ids@, exist@, i as nat),
            decreases ids@.len() - i,
        {
            if i < exist.len() && exist[i] {
                if let Some(track) = self.shelf.tracks.get(&ids[i]) {
                    if !track.origin.is_remote() {
                        jobs.push(
                            GainJob {
                                id: ids[i],
                                path: track.path.clone(),
                                artist: track.artist.clone(),
                                album: track.album.clone(),
                            },
                        );
                    }
                }
            }
            i = i + 1;
        }
        if jobs.len() == 0 {
            self.say("No local files to scan for ReplayGain".to_owned());
            return;
        }
        let mut text = "Scanning ReplayGain for ".to_owned();
        let files = counted(jobs.len(), "file");
        text.append(&files);
        text.append("…");
        self.front.status = text;
        self.front.replaygain = true;
        self.outbox.tell(Effect::ScanReplayGain(jobs));
    }

    fn take_gain(
        &mut self,
        id: TrackId,
        info: ReplayGainInfo,
        file_size: Option<u64>,
        modified_ns: Option<i64>,
    )
        requires
            old(self)@.wf(),
        ensures
            final(self)@ == old(self)@.gain_measured(id, info, file_size, modified_ns),
            final(self)@.wf(),
    {
        let mut track = match self.shelf.tracks.get(&id) {
            Some(track) => track.clone(),
            None => {
                return;
            },
        };
        track.replay_gain = info;
        if let Some(size) = file_size {
            track.file_size = size;
        }
        if let Some(modified) = modified_ns {
            track.modified_ns = modified;
        }
        let (size, modified): (u64, i64) = (track.file_size, track.modified_ns);
        self.shelf.tracks.insert(id, track);
        self.outbox.tell(
            Effect::UpdateReplayGain { id, info, file_size: size, modified_ns: modified },
        );
    }

    /// Follows an event of a loudness scan.
    pub fn process_replaygain_event(&mut self, event: ReplayGainEvent)
        requires
            old(self)@.wf(),
        ensures
            old(self)@.gain_followed(event, final(self)@),
            final(self)@.wf(),
    {
        match event {
            ReplayGainEvent::Started { total } => {
                let mut text = "Scanning ReplayGain (0/".to_owned();
                append_decimal(&mut text, total as u64);
                text.append(")…");
                self.say(text);
            },
            ReplayGainEvent::Track { id, info, path, file_size, modified_ns } => {
                let ghost start = self@;
                self.take_gain(id, info, file_size, modified_ns);
                let shown = self.transport.audio.snapshot();
                let current = match shown.track_id {
                    Some(playing) => playing == id,
                    None => false,
                };
                let next = match shown.staged_track_id {
                    Some(staged) => staged == id,
                    None => false,
                };
                if current {
                    self.apply_replay_gain();
                }
                let ghost applied = self@;
                assert(applied == start.gain_measured(
                    id,
                    info,
                    file_size,
                    modified_ns,
                ).gain_noticed(id));
                let mut text = "ReplayGain: ".to_owned();
                text.append(&show_path(&path));
                if current || next {
                    let refusal = self.restage_traced();
                    let ghost staged = self@;
                    self.say(text);
                    assert(staged == applied.restaged(refusal@));
                } else {
                    self.say(text);
                }
            },
            ReplayGainEvent::Failed { error } => {
                let mut text = "ReplayGain: ".to_owned();
                text.append(&error);
                self.say(text);
            },
            ReplayGainEvent::Finished { scanned, failed } => {
                let mut text = "ReplayGain scan complete: ".to_owned();
                append_decimal(&mut text, scanned as u64);
                text.append(" tagged, ");
                append_decimal(&mut text, failed as u64);
                text.append(" failed");
                self.front.replaygain = false;
                self.say(text);
            },
        }
    }
}

} // verus!
