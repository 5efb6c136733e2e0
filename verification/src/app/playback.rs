//! Playing a track.

use vstd::prelude::*;
use vstd::string::*;

use crate::app::flow::{Effect, EffectView};
use crate::app::state::{
    App, AppView, ContentPane, Link, LinkView, ListsView, Shelf, ShelfView, Transport,
    TransportView,
};
use crate::audio::{
    refusal_of, AudioEngine, EngineView, MediaSource, Request, StagedTrack, StagedView,
};
use crate::model::{
    GainPlan, PlaybackState, PlaylistId, ReplayGainInfo, Track, TrackId, TrackOrigin,
};
use crate::path_codec::{show_path, shown_path};
use crate::text::{append_decimal, decimal, signed_decimal, signed_decimal_text};

verus! {

broadcast use vstd::std_specs::btree::group_btree_axioms;

/// What is to be played.
#[derive(Clone, Copy, Debug, PartialEq, Eq, Structural)]
pub enum PlayOrigin {
    Playlist { playlist_index: usize, item_index: usize },
    Track(TrackId),
}

/// The tag that a server's file is fetched with.
pub open spec fn etag_of(track: Track) -> Seq<char> {
    signed_decimal(track.modified_ns as int) + "-"@ + decimal(track.file_size as nat)
}

pub open spec fn artist_and_title(track: Track) -> Seq<char> {
    track.artist@ + " — "@ + track.title@
}

/// What the outside is told to fetch for a track.
pub open spec fn fetch_of(track: Track, remote_id: Seq<char>) -> EffectView {
    EffectView::Fetch { remote_id, file_size: track.file_size, etag: etag_of(track) }
}

impl TransportView {
    /// Nothing plays and nothing is held ready.
    pub open spec fn cleared(self) -> TransportView {
        TransportView {
            audio: self.audio.stopped(),
            playing: None,
            staged_playback: None,
            audio_started_generation: None,
            ..self
        }
    }

    /// The number of the next playback; never 0.
    pub open spec fn next_generation(self) -> u64 {
        if self.playback_generation == u64::MAX {
            1
        } else {
            (self.playback_generation + 1) as u64
        }
    }

    /// A track is named but its samples are not there yet.
    pub open spec fn waiting(self, track: Track) -> TransportView {
        TransportView {
            audio: self.audio.pending(track.id, track.duration, PlaybackState::Buffering),
            staged_playback: None,
            audio_started_generation: None,
            ..self
        }
    }

    /// A track is about to be handed to the engine.
    pub open spec fn loading(self, track: Track) -> TransportView {
        TransportView {
            audio: self.audio.pending(track.id, track.duration, PlaybackState::Loading),
            playback_generation: self.next_generation(),
            ..self
        }
    }

    /// The engine was asked for the track and has refused it.
    pub open spec fn turned_down(self, staged: StagedView, error: Seq<char>) -> TransportView {
        TransportView { audio: self.audio.refused(Request::Load(staged), error), ..self }
    }

    /// The engine has taken the track.
    pub open spec fn taken(self, staged: StagedView) -> TransportView {
        TransportView {
            audio: self.audio.with_loaded(staged),
            audio_started_generation: None,
            ..self
        }
    }
}

impl<E: AudioEngine> Transport<E> {
    pub fn clear(&mut self)
        ensures
            final(self)@ == old(self)@.cleared(),
    {
        self.audio.stop();
        self.playing = None;
        self.staged_playback = None;
        self.audio_started_generation = None;
    }

    pub fn next_playback_generation(&mut self) -> (generation: u64)
        ensures
            generation == old(self)@.next_generation(),
            final(self)@ == (TransportView { playback_generation: generation, ..old(self)@ }),
            final(self).audio == old(self).audio,
            generation > 0,
    {
        let generation: u64 = if self.playback_generation == u64::MAX {
            1
        } else {
            self.playback_generation + 1
        };
        self.playback_generation = generation;
        generation
    }

    fn wait_for(&mut self, track: &Track)
        ensures
            final(self)@ == old(self)@.waiting(*track),
    {
        self.audio.set_pending(track.id, track.duration, PlaybackState::Buffering);
        self.staged_playback = None;
        self.audio_started_generation = None;
    }

    /// Hands a track to the engine.
    fn load(&mut self, track: &Track, source: MediaSource, gain: GainPlan) -> (result: Result<
        (),
        String,
    >)
        ensures
            ({
                let staged = StagedView {
                    source: source@,
                    track_id: track.id,
                    duration: track.duration,
                    gain,
                    generation: old(self)@.next_generation(),
                };
                match result {
                    Err(error) => final(self)@ == old(self)@.loading(*track).turned_down(
                        staged,
                        error@,
                    ),
                    Ok(()) => final(self)@ == old(self)@.loading(*track).taken(staged),
                }
            }),
    {
        self.audio.set_pending(track.id, track.duration, PlaybackState::Loading);
        let generation: u64 = self.next_playback_generation();
        let staged = StagedTrack {
            source,
            track_id: track.id,
            duration: track.duration,
            gain,
            generation,
        };
        match self.audio.load_and_play(staged) {
            Err(error) => Err(error),
            Ok(()) => {
                self.audio_started_generation = None;
                Ok(())
            },
        }
    }
}

impl LinkView {
    /// The file that a track can be played from right away.
    pub open spec fn source_of(self, track: Track) -> Option<Seq<char>> {
        match track.origin {
            TrackOrigin::Local => Some(track.path@),
            TrackOrigin::Remote { fingerprint, remote_id, .. } => {
                let path = self.cached_path(fingerprint@, remote_id@);
                if self.has_cached(path, track.file_size) {
                    Some(path)
                } else {
                    None
                }
            },
        }
    }

    /// What is to be fetched ahead for a track: nothing where it is here already.
    pub open spec fn fetch_ahead(self, track: Track) -> Option<EffectView> {
        match track.origin {
            TrackOrigin::Local => None,
            TrackOrigin::Remote { fingerprint, remote_id, .. } => if self.source_of(
                track,
            ) is Some {
                None
            } else {
                Some(fetch_of(track, remote_id@))
            },
        }
    }

    /// Whom a track cannot be had from.
    pub open spec fn missing_server(self) -> Seq<char> {
        match self.remote_name {
            Some(name) => name,
            None => "the server"@,
        }
    }
}

impl Link {
    /// The file that a track can be played from right away.
    pub fn local_or_cached_source(&self, track: &Track) -> (source: Option<MediaSource>)
        ensures
            match source {
                Some(source) => self@.source_of(*track) == Some(source@),
                None => self@.source_of(*track) is None,
            },
    {
        match &track.origin {
            TrackOrigin::Local => Some(MediaSource::LocalFile(track.path.clone())),
            TrackOrigin::Remote { fingerprint, remote_id, .. } => {
                let cached = self.cached_path(fingerprint, remote_id);
                if self.cache_holds(&cached, track.file_size) {
                    Some(MediaSource::LocalFile(cached))
                } else {
                    None
                }
            },
        }
    }

    fn fetch_ahead(&self, track: &Track) -> (effect: Option<Effect>)
        ensures
            match effect {
                Some(effect) => self@.fetch_ahead(*track) == Some(effect@),
                None => self@.fetch_ahead(*track) is None,
            },
    {
        if self.local_or_cached_source(track).is_some() {
            return None;
        }
        match &track.origin {
            TrackOrigin::Local => None,
            TrackOrigin::Remote { remote_id, .. } => Some(fetch(track, remote_id.clone())),
        }
    }

    fn not_connected(&self) -> (error: String)
        ensures
            error@ == "not connected to "@ + self@.missing_server(),
    {
        let mut text = "not connected to ".to_owned();
        match &self.remote_name {
            Some(name) => text.append(name),
            None => text.append("the server"),
        }
        text
    }
}

fn fetch(track: &Track, remote_id: String) -> (effect: Effect)
    ensures
        effect@ == fetch_of(*track, remote_id@),
{
    let mut tag = signed_decimal_text(track.modified_ns);
    tag.append("-");
    append_decimal(&mut tag, track.file_size);
    Effect::Fetch { remote_id, file_size: track.file_size, etag: tag }
}

impl ShelfView {
    /// The track behind an item of a playlist.
    pub open spec fn track_behind(self, playlist_index: int, item_index: int) -> Option<Track> {
        if 0 <= playlist_index < self.playlists.len() && 0 <= item_index + 1
            < self.playlists[playlist_index].items.len() {
            self.track(self.playlists[playlist_index].items[item_index + 1])
        } else {
            None
        }
    }

    /// What is to be played, or why nothing is.
    pub open spec fn target(self, origin: PlayOrigin) -> Result<
        (Track, Option<(PlaylistId, usize, usize)>),
        Seq<char>,
    > {
        match origin {
            PlayOrigin::Playlist { playlist_index, item_index } => {
                if playlist_index >= self.playlists.len() {
                    Err("playlist disappeared"@)
                } else if item_index >= self.playlists[playlist_index as int].items.len() {
                    Err("track selection is out of range"@)
                } else {
                    match self.track(
                        self.playlists[playlist_index as int].items[item_index as int],
                    ) {
                        Some(track) => Ok(
                            (
                                track,
                                Some(
                                    (
                                        self.playlists[playlist_index as int].id,
                                        playlist_index,
                                        item_index,
                                    ),
                                ),
                            ),
                        ),
                        None => Err("track metadata is missing"@),
                    }
                }
            },
            PlayOrigin::Track(id) => match self.track(id) {
                Some(track) => Ok((track, None)),
                None => Err("track metadata is missing"@),
            },
        }
    }

    /// The same, once the track's own faults have been looked at.
    pub open spec fn sound_target(self, origin: PlayOrigin) -> Result<
        (Track, Option<(PlaylistId, usize, usize)>),
        Seq<char>,
    > {
        match self.target(origin) {
            Err(error) => Err(error),
            Ok((track, playlist)) => if track.unavailable {
                Err("file is unavailable: "@ + shown_path(track.path@))
            } else {
                match track.scan_error {
                    Some(error) => Err(shown_path(track.path@) + ": "@ + error@),
                    None => Ok((track, playlist)),
                }
            },
        }
    }
}

impl Shelf {
    fn find_track(&self, id: TrackId) -> (track: Option<Track>)
        ensures
            track == self@.track(id),
    {
        match self.tracks.get(&id) {
            Some(track) => Some(track.clone()),
            None => None,
        }
    }

    fn find_behind(&self, playlist_index: usize, item_index: usize) -> (track: Option<Track>)
        ensures
            track == self@.track_behind(playlist_index as int, item_index as int),
    {
        if playlist_index >= self.playlists.len() {
            return None;
        }
        assert(self@.playlists[playlist_index as int] == self.playlists@[playlist_index as int]@);
        let count: usize = self.playlists[playlist_index].items.len();
        if count == 0 || item_index >= count - 1 {
            return None;
        }
        self.find_track(self.playlists[playlist_index].items[item_index + 1])
    }

    /// Finds what is to be played.
    fn find_target(&self, origin: PlayOrigin) -> (target: Result<
        (Track, Option<(PlaylistId, usize, usize)>),
        String,
    >)
        ensures
            match target {
                Ok(found) => self@.sound_target(origin) == Ok::<
                    (Track, Option<(PlaylistId, usize, usize)>),
                    Seq<char>,
                >(found),
                Err(error) => self@.sound_target(origin) == Err::<
                    (Track, Option<(PlaylistId, usize, usize)>),
                    Seq<char>,
                >(error@),
            },
    {
        let track_id: TrackId;
        let playlist: Option<(PlaylistId, usize, usize)>;
        match origin {
            PlayOrigin::Playlist { playlist_index, item_index } => {
                if playlist_index >= self.playlists.len() {
                    return Err("playlist disappeared".to_owned());
                }
                assert(self@.playlists[playlist_index as int]
                    == self.playlists@[playlist_index as int]@);
                if item_index >= self.playlists[playlist_index].items.len() {
                    return Err("track selection is out of range".to_owned());
                }
                track_id = self.playlists[playlist_index].items[item_index];
                playlist = Some((self.playlists[playlist_index].id, playlist_index, item_index));
            },
            PlayOrigin::Track(id) => {
                track_id = id;
                playlist = None;
            },
        }
        let track = match self.find_track(track_id) {
            Some(track) => track,
            None => {
                return Err("track metadata is missing".to_owned());
            },
        };
        if track.unavailable {
            let mut text = "file is unavailable: ".to_owned();
            text.append(&show_path(&track.path));
            return Err(text);
        }
        if let Some(error) = &track.scan_error {
            let mut text = show_path(&track.path);
            text.append(": ");
            text.append(error);
            return Err(text);
        }
        Ok((track, playlist))
    }
}

impl AppView {
    pub open spec fn with_transport(self, transport: TransportView) -> AppView {
        AppView { transport, ..self }
    }

    /// The track behind an item is fetched ahead, where it comes from the connected
    /// server and is not here yet.
    pub open spec fn prefetched(self, playlist_index: int, item_index: int) -> AppView {
        match self.shelf.track_behind(playlist_index, item_index) {
            Some(track) => match self.link.fetch_ahead(track) {
                Some(effect) => if self.link.remote {
                    self.told(effect)
                } else {
                    self
                },
                None => self,
            },
            None => self,
        }
    }

    /// The loudness figures of the current track.
    pub open spec fn current_gain(self) -> ReplayGainInfo {
        match self.transport.audio.shown.track_id {
            Some(id) => match self.shelf.track(id) {
                Some(track) => track.replay_gain,
                None => ReplayGainInfo::empty(),
            },
            None => ReplayGainInfo::empty(),
        }
    }

    /// The gain set as the current track and the settings ask for.
    pub open spec fn gain_applied(self) -> AppView {
        self.with_transport(
            TransportView {
                audio: EngineView {
                    gain: Some(self.prefs.gain_plan(self.current_gain())),
                    ..self.transport.audio
                },
                ..self.transport
            },
        )
    }

    /// Whether the cursor goes along when a track of this playlist starts.
    pub open spec fn follows(self, playlist_id: PlaylistId) -> bool {
        self.prefs.cursor_follows_playback && self.panes.pane() == ContentPane::Playlist
            && 0 <= self.shelf.active_playlist < self.shelf.playlists.len()
            && self.shelf.active().id == playlist_id
    }

    /// The cursor moved to an item, where it goes along with this playlist.
    pub open spec fn followed(self, playlist_id: PlaylistId, item: usize) -> AppView {
        if self.follows(playlist_id) {
            AppView {
                lists: ListsView { playlist_selection: item as int, ..self.lists },
                ..self
            }
        } else {
            self
        }
    }

    pub open spec fn staged_view(self, track: Track, source: Seq<char>) -> StagedView {
        StagedView {
            source,
            track_id: track.id,
            duration: track.duration,
            gain: self.prefs.gain_plan(track.replay_gain),
            generation: self.transport.next_generation(),
        }
    }

    /// The player while a track is fetched that cannot be played yet.
    pub open spec fn buffering(
        self,
        track: Track,
        remote_id: Seq<char>,
        playlist: Option<(PlaylistId, usize, usize)>,
    ) -> AppView {
        let asked = self.told(fetch_of(track, remote_id));
        let waiting = asked.transport.waiting(track);
        (match playlist {
            Some((_, playlist_index, item_index)) => asked.with_transport(
                TransportView { pending_play: Some((playlist_index, item_index)), ..waiting },
            ).prefetched(playlist_index as int, item_index as int),
            None => asked.with_transport(
                TransportView { pending_track: Some(track.id), ..waiting },
            ),
        }).said("Buffering "@ + artist_and_title(track))
    }

    /// The player once the engine was asked for a track and has refused it.
    pub open spec fn turned_down(self, track: Track, source: Seq<char>, error: Seq<char>) -> AppView {
        self.with_transport(
            self.transport.loading(track).turned_down(self.staged_view(track, source), error),
        )
    }

    /// The player once the engine has taken a track.
    pub open spec fn started(
        self,
        track: Track,
        source: Seq<char>,
        playlist: Option<(PlaylistId, usize, usize)>,
    ) -> AppView {
        let taken = self.transport.loading(track).taken(self.staged_view(track, source));
        (match playlist {
            Some((playlist_id, playlist_index, item_index)) => self.with_transport(
                TransportView {
                    playing: Some((playlist_id, item_index)),
                    pending_play: None,
                    pending_track: None,
                    ..taken
                },
            ).followed(playlist_id, item_index).said(
                match track.origin {
                    TrackOrigin::Remote { server_name, .. } => "Streaming from "@ + server_name@
                        + ": "@ + artist_and_title(track),
                    TrackOrigin::Local => "Playing: "@ + artist_and_title(track),
                },
            ).prefetched(playlist_index as int, item_index as int),
            None => self.with_transport(TransportView { pending_track: None, ..taken }).said(
                "Playing: "@ + artist_and_title(track),
            ),
        }).gain_applied()
    }

    /// The player after an attempt to play something, and whether it went well;
    /// `refusal` is what the engine said where it was asked and did not take the track.
    #[verifier::opaque]
    pub open spec fn played(self, origin: PlayOrigin, refusal: Option<Seq<char>>) -> (
        AppView,
        Result<(), Seq<char>>,
    ) {
        match self.shelf.sound_target(origin) {
            Err(error) => (self, Err(error)),
            Ok((track, playlist)) => match self.link.source_of(track) {
                Some(source) => match refusal {
                    Some(error) => (self.turned_down(track, source, error), Err(error)),
                    None => (self.started(track, source, playlist), Ok(())),
                },
                None => if self.link.remote && track.origin is Remote {
                    (self.buffering(track, track.origin->remote_id@, playlist), Ok(()))
                } else {
                    (self, Err("not connected to "@ + self.link.missing_server()))
                },
            },
        }
    }
}

/// What a result says.
pub open spec fn result_view(result: Result<(), String>) -> Result<(), Seq<char>> {
    match result {
        Ok(()) => Ok(()),
        Err(error) => Err(error@),
    }
}

fn push_artist_and_title(text: &mut String, track: &Track)
    ensures
        final(text)@ == old(text)@ + artist_and_title(*track),
{
    text.append(&track.artist);
    text.append(" — ");
    text.append(&track.title);
    assert(text@ =~= old(text)@ + artist_and_title(*track));
}

/// `Playing: artist — title`
pub(crate) fn playing_text(track: &Track) -> (text: String)
    ensures
        text@ == "Playing: "@ + artist_and_title(*track),
{
    let mut text = "Playing: ".to_owned();
    push_artist_and_title(&mut text, track);
    text
}

impl<E: AudioEngine> App<E> {
    pub fn content_pane(&self) -> (pane: ContentPane)
        ensures
            pane == self@.panes.pane(),
    {
        self.panes.content_pane()
    }

    pub fn cache_dir(&self) -> (dir: String)
        ensures
            dir@ == self@.link.cache_dir(),
    {
        self.link.cache_dir()
    }

    /// Shows a line in the status bar.
    pub(crate) fn say(&mut self, status: String)
        ensures
            final(self)@ == old(self)@.said(status@),
    {
        self.front.status = status;
    }

    pub fn clear_transport(&mut self)
        ensures
            final(self)@ == old(self)@.with_transport(old(self)@.transport.cleared()),
    {
        self.transport.clear();
    }

    /// Fetches the track behind an item ahead, where that takes a fetch.
    pub fn prefetch_neighbors(&mut self, playlist_index: usize, item_index: usize)
        ensures
            final(self)@ == old(self)@.prefetched(playlist_index as int, item_index as int),
    {
        if !self.link.remote {
            return;
        }
        if let Some(track) = self.shelf.find_behind(playlist_index, item_index) {
            if let Some(effect) = self.link.fetch_ahead(&track) {
                self.outbox.tell(effect);
            }
        }
    }

    /// Sets the gain as the current track and the settings ask for.
    pub fn apply_replay_gain(&mut self)
        ensures
            final(self)@ == old(self)@.gain_applied(),
    {
        let info = match self.transport.audio.snapshot().track_id {
            Some(id) => match self.shelf.find_track(id) {
                Some(track) => track.replay_gain,
                None => ReplayGainInfo::default(),
            },
            None => ReplayGainInfo::default(),
        };
        let plan = self.prefs.gain_for(&info);
        self.transport.audio.set_output_gain(plan);
    }

    pub fn should_follow_playback(&self, playlist_id: PlaylistId) -> (follow: bool)
        ensures
            follow == self@.follows(playlist_id),
    {
        let at: usize = self.shelf.active_playlist;
        if at < self.shelf.playlists.len() {
            assert(self@.shelf.playlists[at as int] == self.shelf.playlists@[at as int]@);
        }
        self.prefs.cursor_follows_playback && self.content_pane() == ContentPane::Playlist && at
            < self.shelf.playlists.len() && self.shelf.playlists[at].id == playlist_id
    }

    /// Moves the cursor to an item, where it goes along with this playlist.
    pub(crate) fn follow(&mut self, playlist_id: PlaylistId, item: usize)
        ensures
            final(self)@ == old(self)@.followed(playlist_id, item),
    {
        if self.should_follow_playback(playlist_id) {
            self.lists.playlist_selection = item;
        }
    }

    fn start_track(
        &mut self,
        track: Track,
        source: MediaSource,
        playlist: Option<(PlaylistId, usize, usize)>,
    ) -> (result: Result<(), String>)
        ensures
            match result {
                Err(error) => final(self)@ == old(self)@.turned_down(track, source@, error@),
                Ok(()) => final(self)@ == old(self)@.started(track, source@, playlist),
            },
    {
        let gain = self.prefs.gain_for(&track.replay_gain);
        match self.transport.load(&track, source, gain) {
            Err(error) => {
                return Err(error);
            },
            Ok(()) => {},
        }
        match playlist {
            Some((playlist_id, playlist_index, item_index)) => {
                self.transport.playing = Some((playlist_id, item_index));
                self.transport.pending_play = None;
                self.transport.pending_track = None;
                self.follow(playlist_id, item_index);
                let status = match &track.origin {
                    TrackOrigin::Remote { server_name, .. } => {
                        let mut text = "Streaming from ".to_owned();
                        text.append(server_name);
                        text.append(": ");
                        push_artist_and_title(&mut text, &track);
                        text
                    },
                    TrackOrigin::Local => playing_text(&track),
                };
                self.say(status);
                self.prefetch_neighbors(playlist_index, item_index);
            },
            None => {
                self.transport.pending_track = None;
                self.say(playing_text(&track));
            },
        }
        self.apply_replay_gain();
        Ok(())
    }

    fn buffer_track(
        &mut self,
        track: Track,
        remote_id: String,
        playlist: Option<(PlaylistId, usize, usize)>,
    )
        ensures
            final(self)@ == old(self)@.buffering(track, remote_id@, playlist),
    {
        self.outbox.tell(fetch(&track, remote_id));
        self.transport.wait_for(&track);
        match playlist {
            Some((_, playlist_index, item_index)) => {
                self.transport.pending_play = Some((playlist_index, item_index));
                self.prefetch_neighbors(playlist_index, item_index);
            },
            None => {
                self.transport.pending_track = Some(track.id);
            },
        }
        let mut status = "Buffering ".to_owned();
        push_artist_and_title(&mut status, &track);
        self.say(status);
    }

    /// Plays an item of a playlist.
    pub fn play_at(&mut self, playlist_index: usize, item_index: usize) -> (result: Result<
        (),
        String,
    >)
        ensures
            (final(self)@, result_view(result)) == old(self)@.played(
                PlayOrigin::Playlist { playlist_index, item_index },
                refusal_of(result),
            ),
    {
        self.play(PlayOrigin::Playlist { playlist_index, item_index })
    }

    /// Plays a track on its own.
    pub fn play_track_id(&mut self, track_id: TrackId) -> (result: Result<(), String>)
        ensures
            (final(self)@, result_view(result)) == old(self)@.played(
                PlayOrigin::Track(track_id),
                refusal_of(result),
            ),
    {
        self.play(PlayOrigin::Track(track_id))
    }

    /// Plays an item of a playlist, or a track on its own.
    pub fn play(&mut self, origin: PlayOrigin) -> (result: Result<(), String>)
        ensures
            (final(self)@, result_view(result)) == old(self)@.played(origin, refusal_of(result)),
    {
        proof {
            reveal(AppView::played);
        }
        let (track, playlist) = match self.shelf.find_target(origin) {
            Ok(found) => found,
            Err(error) => {
                return Err(error);
            },
        };
        match self.link.local_or_cached_source(&track) {
            Some(source) => self.start_track(track, source, playlist),
            None => {
                if self.link.remote {
                    if let TrackOrigin::Remote { remote_id, .. } = &track.origin {
                        let remote_id = remote_id.clone();
                        self.buffer_track(track, remote_id, playlist);
                        return Ok(());
                    }
                }
                Err(self.link.not_connected())
            },
        }
    }
}

} // verus!
