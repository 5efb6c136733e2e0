//! Tracks, playlists and the player's modes.

use vstd::prelude::*;
use vstd::string::*;

use crate::path::{file_stem, stem_of};
use crate::path_codec::{show_path, shown_path};
use crate::text::{append_decimal, contains_text, decimal, lowercase, occurs, to_lowercase};
use crate::time::Duration;

verus! {

pub type TrackId = i64;

pub type PlaylistId = i64;

/// Where a track's media comes from.
#[derive(Debug, PartialEq, Eq)]
pub enum TrackOrigin {
    Local,
    Remote { fingerprint: String, remote_id: String, server_name: String },
}

impl TrackOrigin {
    pub fn is_remote(&self) -> (remote: bool)
        ensures
            remote == (self is Remote),
    {
        match self {
            TrackOrigin::Local => false,
            TrackOrigin::Remote { .. } => true,
        }
    }
}

impl Clone for TrackOrigin {
    fn clone(&self) -> (copy: TrackOrigin)
        ensures
            copy == *self,
    {
        match self {
            TrackOrigin::Local => TrackOrigin::Local,
            TrackOrigin::Remote { fingerprint, remote_id, server_name } => TrackOrigin::Remote {
                fingerprint: fingerprint.clone(),
                remote_id: remote_id.clone(),
                server_name: server_name.clone(),
            },
        }
    }
}

/// Loudness figures of a track, each the bit pattern of a single-precision number
/// (a gain in decibels, a peak in full scale).
#[derive(Clone, Copy, Debug, PartialEq, Eq, Structural)]
pub struct ReplayGainInfo {
    pub track_gain: Option<u32>,
    pub track_peak: Option<u32>,
    pub album_gain: Option<u32>,
    pub album_peak: Option<u32>,
}

impl Default for ReplayGainInfo {
    fn default() -> (info: ReplayGainInfo)
        ensures
            info == ReplayGainInfo::empty(),
    {
        ReplayGainInfo { track_gain: None, track_peak: None, album_gain: None, album_peak: None }
    }
}

/// The first of two figures that is known.
pub open spec fn first_known(first: Option<u32>, second: Option<u32>) -> Option<u32> {
    if first is Some {
        first
    } else {
        second
    }
}

impl ReplayGainInfo {
    pub open spec fn empty() -> ReplayGainInfo {
        ReplayGainInfo { track_gain: None, track_peak: None, album_gain: None, album_peak: None }
    }

    /// The gain and the peak that a mode goes by: its own figure, else the other one.
    pub open spec fn chosen(self, mode: ReplayGainMode) -> (Option<u32>, Option<u32>) {
        match mode {
            ReplayGainMode::Off => (None, None),
            ReplayGainMode::Track => (
                first_known(self.track_gain, self.album_gain),
                first_known(self.track_peak, self.album_peak),
            ),
            ReplayGainMode::Album => (
                first_known(self.album_gain, self.track_gain),
                first_known(self.album_peak, self.track_peak),
            ),
        }
    }

    /// The gain and the peak that a mode goes by.
    pub fn pick(&self, mode: ReplayGainMode) -> (figures: (Option<u32>, Option<u32>))
        ensures
            figures == self.chosen(mode),
    {
        match mode {
            ReplayGainMode::Off => (None, None),
            ReplayGainMode::Track => (
                either(self.track_gain, self.album_gain),
                either(self.track_peak, self.album_peak),
            ),
            ReplayGainMode::Album => (
                either(self.album_gain, self.track_gain),
                either(self.album_peak, self.track_peak),
            ),
        }
    }
}

fn either(first: Option<u32>, second: Option<u32>) -> (figure: Option<u32>)
    ensures
        figure == first_known(first, second),
{
    match first {
        Some(value) => Some(value),
        None => second,
    }
}

/// How a track's gain is to be worked out when it is played.
#[derive(Clone, Copy, Debug, PartialEq, Eq, Structural)]
pub struct GainPlan {
    /// Whether loudness is corrected at all.
    pub active: bool,
    pub gain: Option<u32>,
    pub peak: Option<u32>,
    pub preamp: u32,
    pub prevent_clipping: bool,
}

#[derive(Clone, Copy, Debug, PartialEq, Eq, Structural)]
pub enum ReplayGainMode {
    Off,
    Track,
    Album,
}

impl Default for ReplayGainMode {
    fn default() -> (mode: ReplayGainMode)
        ensures
            mode == ReplayGainMode::Album,
    {
        ReplayGainMode::Album
    }
}

impl ReplayGainMode {
    pub open spec fn label_text(self) -> Seq<char> {
        match self {
            ReplayGainMode::Off => "None"@,
            ReplayGainMode::Track => "Track"@,
            ReplayGainMode::Album => "Album"@,
        }
    }

    pub open spec fn number(self) -> i64 {
        match self {
            ReplayGainMode::Off => 0,
            ReplayGainMode::Track => 1,
            ReplayGainMode::Album => 2,
        }
    }

    pub open spec fn numbered(value: i64) -> ReplayGainMode {
        if value == 1 {
            ReplayGainMode::Track
        } else if value == 2 {
            ReplayGainMode::Album
        } else {
            ReplayGainMode::Off
        }
    }

    pub open spec fn following(self) -> ReplayGainMode {
        match self {
            ReplayGainMode::Off => ReplayGainMode::Track,
            ReplayGainMode::Track => ReplayGainMode::Album,
            ReplayGainMode::Album => ReplayGainMode::Off,
        }
    }

    pub fn label(self) -> (label: &'static str)
        ensures
            label@ == self.label_text(),
    {
        match self {
            ReplayGainMode::Off => "None",
            ReplayGainMode::Track => "Track",
            ReplayGainMode::Album => "Album",
        }
    }

    pub fn as_i64(self) -> (value: i64)
        ensures
            value == self.number(),
    {
        match self {
            ReplayGainMode::Off => 0,
            ReplayGainMode::Track => 1,
            ReplayGainMode::Album => 2,
        }
    }

    pub fn from_i64(value: i64) -> (mode: ReplayGainMode)
        ensures
            mode == ReplayGainMode::numbered(value),
    {
        match value {
            1 => ReplayGainMode::Track,
            2 => ReplayGainMode::Album,
            _ => ReplayGainMode::Off,
        }
    }

    pub fn next(self) -> (mode: ReplayGainMode)
        ensures
            mode == self.following(),
    {
        match self {
            ReplayGainMode::Off => ReplayGainMode::Track,
            ReplayGainMode::Track => ReplayGainMode::Album,
            ReplayGainMode::Album => ReplayGainMode::Off,
        }
    }
}

/// A saved mode is read back as it was, and stepping through the modes comes round
/// after all three.
pub proof fn law_replay_gain_mode_codes(mode: ReplayGainMode)
    ensures
        ReplayGainMode::numbered(mode.number()) == mode,
        mode.following().number() == (mode.number() + 1) % 3,
        mode.following().following().following() == mode,
{
}

/// A track of the library.
#[derive(Debug)]
pub struct Track {
    pub id: TrackId,
    pub path: String,
    pub title: String,
    pub artist: String,
    pub album: String,
    pub date: Option<u32>,
    pub track_number: Option<u32>,
    pub duration: Duration,
    pub codec: String,
    pub sample_rate: Option<u32>,
    pub channels: Option<u8>,
    pub file_size: u64,
    pub modified_ns: i64,
    pub unavailable: bool,
    pub scan_error: Option<String>,
    pub origin: TrackOrigin,
    pub replay_gain: ReplayGainInfo,
}

/// A copy of an optional text.
pub fn clone_text(text: &Option<String>) -> (copy: Option<String>)
    ensures
        copy == *text,
{
    match text {
        Some(value) => Some(value.clone()),
        None => None,
    }
}

impl Clone for Track {
    fn clone(&self) -> (copy: Track)
        ensures
            copy == *self,
    {
        Track {
            id: self.id,
            path: self.path.clone(),
            title: self.title.clone(),
            artist: self.artist.clone(),
            album: self.album.clone(),
            date: self.date,
            track_number: self.track_number,
            duration: self.duration,
            codec: self.codec.clone(),
            sample_rate: self.sample_rate,
            channels: self.channels,
            file_size: self.file_size,
            modified_ns: self.modified_ns,
            unavailable: self.unavailable,
            scan_error: clone_text(&self.scan_error),
            origin: self.origin.clone(),
            replay_gain: self.replay_gain,
        }
    }
}

impl Track {
    /// What a scan of the file would have found.
    pub open spec fn scanned(self) -> ScannedTrack {
        ScannedTrack {
            path: self.path,
            title: self.title,
            artist: self.artist,
            album: self.album,
            date: self.date,
            track_number: self.track_number,
            duration: self.duration,
            codec: self.codec,
            sample_rate: self.sample_rate,
            channels: self.channels,
            file_size: self.file_size,
            modified_ns: self.modified_ns,
            scan_error: self.scan_error,
            replay_gain: self.replay_gain,
        }
    }

    pub fn to_scanned(&self) -> (scanned: ScannedTrack)
        ensures
            scanned == self.scanned(),
    {
        ScannedTrack {
            path: self.path.clone(),
            title: self.title.clone(),
            artist: self.artist.clone(),
            album: self.album.clone(),
            date: self.date,
            track_number: self.track_number,
            duration: self.duration,
            codec: self.codec.clone(),
            sample_rate: self.sample_rate,
            channels: self.channels,
            file_size: self.file_size,
            modified_ns: self.modified_ns,
            scan_error: clone_text(&self.scan_error),
            replay_gain: self.replay_gain,
        }
    }
}

/// What a scan found in a file.
#[derive(Debug)]
pub struct ScannedTrack {
    pub path: String,
    pub title: String,
    pub artist: String,
    pub album: String,
    pub date: Option<u32>,
    pub track_number: Option<u32>,
    pub duration: Duration,
    pub codec: String,
    pub sample_rate: Option<u32>,
    pub channels: Option<u8>,
    pub file_size: u64,
    pub modified_ns: i64,
    pub scan_error: Option<String>,
    pub replay_gain: ReplayGainInfo,
}

impl Clone for ScannedTrack {
    fn clone(&self) -> (copy: ScannedTrack)
        ensures
            copy == *self,
    {
        ScannedTrack {
            path: self.path.clone(),
            title: self.title.clone(),
            artist: self.artist.clone(),
            album: self.album.clone(),
            date: self.date,
            track_number: self.track_number,
            duration: self.duration,
            codec: self.codec.clone(),
            sample_rate: self.sample_rate,
            channels: self.channels,
            file_size: self.file_size,
            modified_ns: self.modified_ns,
            scan_error: clone_text(&self.scan_error),
            replay_gain: self.replay_gain,
        }
    }
}

/// A named list of tracks.
#[derive(Debug)]
pub struct Playlist {
    pub id: PlaylistId,
    pub name: String,
    pub items: Vec<TrackId>,
}

/// A playlist's contents.
pub struct PlaylistView {
    pub id: PlaylistId,
    pub name: Seq<char>,
    pub items: Seq<TrackId>,
}

impl View for Playlist {
    type V = PlaylistView;

    open spec fn view(&self) -> PlaylistView {
        PlaylistView { id: self.id, name: self.name@, items: self.items@ }
    }
}

#[derive(Clone, Copy, Debug, PartialEq, Eq, Structural)]
pub enum PlaybackOrder {
    Default,
    RepeatPlaylist,
    RepeatTrack,
    Shuffle,
    ShuffleAlbums,
}

impl Default for PlaybackOrder {
    fn default() -> (order: PlaybackOrder)
        ensures
            order == PlaybackOrder::Default,
    {
        PlaybackOrder::Default
    }
}

impl PlaybackOrder {
    pub open spec fn label_text(self) -> Seq<char> {
        match self {
            PlaybackOrder::Default => "Default"@,
            PlaybackOrder::RepeatPlaylist => "Repeat (playlist)"@,
            PlaybackOrder::RepeatTrack => "Repeat (track)"@,
            PlaybackOrder::Shuffle => "Shuffle (tracks)"@,
            PlaybackOrder::ShuffleAlbums => "Shuffle (albums)"@,
        }
    }

    pub open spec fn number(self) -> i64 {
        match self {
            PlaybackOrder::Default => 0,
            PlaybackOrder::RepeatPlaylist => 1,
            PlaybackOrder::RepeatTrack => 2,
            PlaybackOrder::Shuffle => 3,
            PlaybackOrder::ShuffleAlbums => 4,
        }
    }

    pub open spec fn numbered(value: i64) -> PlaybackOrder {
        if value == 1 {
            PlaybackOrder::RepeatPlaylist
        } else if value == 2 {
            PlaybackOrder::RepeatTrack
        } else if value == 3 {
            PlaybackOrder::Shuffle
        } else if value == 4 {
            PlaybackOrder::ShuffleAlbums
        } else {
            PlaybackOrder::Default
        }
    }

    pub open spec fn following(self) -> PlaybackOrder {
        match self {
            PlaybackOrder::Default => PlaybackOrder::RepeatPlaylist,
            PlaybackOrder::RepeatPlaylist => PlaybackOrder::RepeatTrack,
            PlaybackOrder::RepeatTrack => PlaybackOrder::Shuffle,
            PlaybackOrder::Shuffle => PlaybackOrder::ShuffleAlbums,
            PlaybackOrder::ShuffleAlbums => PlaybackOrder::Default,
        }
    }

    pub fn label(self) -> (label: &'static str)
        ensures
            label@ == self.label_text(),
    {
        match self {
            PlaybackOrder::Default => "Default",
            PlaybackOrder::RepeatPlaylist => "Repeat (playlist)",
            PlaybackOrder::RepeatTrack => "Repeat (track)",
            PlaybackOrder::Shuffle => "Shuffle (tracks)",
            PlaybackOrder::ShuffleAlbums => "Shuffle (albums)",
        }
    }

    pub fn as_i64(self) -> (value: i64)
        ensures
            value == self.number(),
    {
        match self {
            PlaybackOrder::Default => 0,
            PlaybackOrder::RepeatPlaylist => 1,
            PlaybackOrder::RepeatTrack => 2,
            PlaybackOrder::Shuffle => 3,
            PlaybackOrder::ShuffleAlbums => 4,
        }
    }

    pub fn from_i64(value: i64) -> (order: PlaybackOrder)
        ensures
            order == PlaybackOrder::numbered(value),
    {
        match value {
            1 => PlaybackOrder::RepeatPlaylist,
            2 => PlaybackOrder::RepeatTrack,
            3 => PlaybackOrder::Shuffle,
            4 => PlaybackOrder::ShuffleAlbums,
            _ => PlaybackOrder::Default,
        }
    }

    pub fn next(self) -> (order: PlaybackOrder)
        ensures
            order == self.following(),
    {
        match self {
            PlaybackOrder::Default => PlaybackOrder::RepeatPlaylist,
            PlaybackOrder::RepeatPlaylist => PlaybackOrder::RepeatTrack,
            PlaybackOrder::RepeatTrack => PlaybackOrder::Shuffle,
            PlaybackOrder::Shuffle => PlaybackOrder::ShuffleAlbums,
            PlaybackOrder::ShuffleAlbums => PlaybackOrder::Default,
        }
    }
}

/// A saved order is read back as it was, and stepping through the orders comes
/// round after all five.
pub proof fn law_playback_order_codes(order: PlaybackOrder)
    ensures
        PlaybackOrder::numbered(order.number()) == order,
        order.following().number() == (order.number() + 1) % 5,
        order.following().following().following().following().following() == order,
{
}

#[derive(Clone, Copy, Debug, PartialEq, Eq, Structural)]
pub enum PlaybackState {
    Stopped,
    Loading,
    Buffering,
    Playing,
    Paused,
}

impl Default for PlaybackState {
    fn default() -> (state: PlaybackState)
        ensures
            state == PlaybackState::Stopped,
    {
        PlaybackState::Stopped
    }
}

/// The part of the screen that takes the keys.
#[derive(Clone, Copy, Debug, PartialEq, Eq, Structural)]
pub enum Focus {
    AlbumList,
    Playlist,
    PlaylistTabs,
    SoulseekQuery,
    SoulseekFilter,
    PlaylistFilter,
    AlbumFilter,
    Queue,
    Settings,
    Toolbar,
}

impl Default for Focus {
    fn default() -> (focus: Focus)
        ensures
            focus == Focus::Playlist,
    {
        Focus::Playlist
    }
}

/// The first place of an element in a sequence; 0 where it has none.
pub open spec fn first_place<T>(ring: Seq<T>, item: T) -> int
    decreases ring.len(),
{
    if !ring.contains(item) {
        0
    } else {
        first_at(ring, item, 0)
    }
}

/// The first place at or behind `from` that holds `item`.
pub open spec fn first_at<T>(ring: Seq<T>, item: T, from: int) -> int
    decreases ring.len() - from,
{
    if from >= ring.len() || ring[from] == item {
        from
    } else {
        first_at(ring, item, from + 1)
    }
}

/// `first_at` is the first place that holds the element, or the length.
pub proof fn lemma_first_at<T>(ring: Seq<T>, item: T, from: int)
    requires
        0 <= from <= ring.len(),
    ensures
        from <= first_at(ring, item, from) <= ring.len(),
        first_at(ring, item, from) < ring.len() ==> ring[first_at(ring, item, from)] == item,
        forall|i: int| from <= i < first_at(ring, item, from) ==> ring[i] != item,
    decreases ring.len() - from,
{
    if from < ring.len() && ring[from] != item {
        lemma_first_at(ring, item, from + 1);
    }
}

impl Focus {
    /// The neighbour on a ring of places; the first place counts as the current one
    /// where the ring lacks it.
    pub open spec fn cycled(self, backwards: bool, ring: Seq<Focus>) -> Focus {
        if ring.len() == 0 {
            self
        } else {
            let at = first_place(ring, self);
            if backwards {
                ring[(at + ring.len() - 1) % ring.len() as int]
            } else {
                ring[(at + 1) % ring.len() as int]
            }
        }
    }

    pub fn cycle(self, backwards: bool, ring: &[Focus]) -> (focus: Focus)
        ensures
            focus == self.cycled(backwards, ring@),
    {
        let len: usize = ring.len();
        if len == 0 {
            return self;
        }
        let mut at: usize = 0;
        let mut found = false;
        while at < len && !found
            invariant
                at <= len == ring@.len(),
                found ==> at < len && ring@[at as int] == self,
                forall|i: int| 0 <= i < at ==> ring@[i] != self,
            decreases len - at + (if found { 0int } else { 1 }),
        {
            if ring[at] == self {
                found = true;
            } else {
                at = at + 1;
            }
        }
        proof {
            if found {
                assert(ring@.contains(self));
                lemma_first_at(ring@, self, 0);
            }
        }
        if !found {
            at = 0;
        }
        assert(at == first_place(ring@, self));
        if backwards {
            let next: usize = if at == 0 { len - 1 } else { at - 1 };
            assert(next == (at + len - 1) % len as int) by {
                if at == 0 {
                    vstd::arithmetic::div_mod::lemma_small_mod((len - 1) as nat, len as nat);
                } else {
                    vstd::arithmetic::div_mod::lemma_mod_add_multiples_vanish(at - 1, len as int);
                    vstd::arithmetic::div_mod::lemma_small_mod((at - 1) as nat, len as nat);
                }
            }
            ring[next]
        } else {
            let next: usize = if at + 1 == len { 0 } else { at + 1 };
            assert(next == (at + 1) % len as int) by {
                if at + 1 == len {
                    vstd::arithmetic::div_mod::lemma_mod_self_0(len as int);
                } else {
                    vstd::arithmetic::div_mod::lemma_small_mod((at + 1) as nat, len as nat);
                }
            }
            ring[next]
        }
    }
}

/// On a ring that names no place twice, a step back undoes a step forward, and the
/// other way round.
pub proof fn law_focus_cycle_is_undone(focus: Focus, ring: Seq<Focus>, backwards: bool)
    requires
        ring.contains(focus),
        ring.no_duplicates(),
    ensures
        focus.cycled(backwards, ring).cycled(!backwards, ring) == focus,
{
    let n = ring.len() as int;
    lemma_first_at(ring, focus, 0);
    let at = first_place(ring, focus);
    let next = if backwards {
        (at + n - 1) % n
    } else {
        (at + 1) % n
    };
    vstd::arithmetic::div_mod::lemma_mod_bound(at + n - 1, n);
    vstd::arithmetic::div_mod::lemma_mod_bound(at + 1, n);
    assert(ring.contains(ring[next]));
    lemma_first_at(ring, ring[next], 0);
    assert(first_place(ring, ring[next]) == next);
    if backwards {
        if at == 0 {
            vstd::arithmetic::div_mod::lemma_small_mod((n - 1) as nat, n as nat);
            vstd::arithmetic::div_mod::lemma_mod_self_0(n);
        } else {
            vstd::arithmetic::div_mod::lemma_mod_add_multiples_vanish(at - 1, n);
            vstd::arithmetic::div_mod::lemma_small_mod((at - 1) as nat, n as nat);
            vstd::arithmetic::div_mod::lemma_small_mod(at as nat, n as nat);
        }
    } else {
        if at + 1 == n {
            vstd::arithmetic::div_mod::lemma_mod_self_0(n);
            vstd::arithmetic::div_mod::lemma_small_mod((n - 1) as nat, n as nat);
        } else {
            vstd::arithmetic::div_mod::lemma_small_mod((at + 1) as nat, n as nat);
            vstd::arithmetic::div_mod::lemma_mod_add_multiples_vanish(at, n);
            vstd::arithmetic::div_mod::lemma_small_mod(at as nat, n as nat);
        }
    }
}

/// A column of the playlist table.
#[derive(Clone, Copy, Debug, PartialEq, Eq, Structural)]
pub enum PlaylistColumn {
    Artist,
    Title,
    Album,
    Date,
    Time,
    Number,
}

impl PlaylistColumn {
    pub open spec fn label_text(self) -> Seq<char> {
        match self {
            PlaylistColumn::Number => "#"@,
            PlaylistColumn::Artist => "Artist"@,
            PlaylistColumn::Title => "Title"@,
            PlaylistColumn::Album => "Album"@,
            PlaylistColumn::Date => "Date"@,
            PlaylistColumn::Time => "Time"@,
        }
    }

    pub fn label(self) -> (label: &'static str)
        ensures
            label@ == self.label_text(),
    {
        match self {
            PlaylistColumn::Number => "#",
            PlaylistColumn::Artist => "Artist",
            PlaylistColumn::Title => "Title",
            PlaylistColumn::Album => "Album",
            PlaylistColumn::Date => "Date",
            PlaylistColumn::Time => "Time",
        }
    }
}

/// Whether `needle` is found in one of the parts, letter case left aside; an empty
/// needle is found everywhere.
pub open spec fn found_in(needle: Seq<char>, parts: Seq<Seq<char>>) -> bool {
    needle.len() == 0 || exists|i: int|
        0 <= i < parts.len() && occurs(lowercase(needle), lowercase(#[trigger] parts[i]))
}

/// The texts of a list of string slices.
pub open spec fn texts(parts: Seq<&str>) -> Seq<Seq<char>> {
    parts.map_values(|part: &str| part@)
}

pub fn text_matches(needle: &str, parts: &[&str]) -> (found: bool)
    ensures
        found == found_in(needle@, texts(parts@)),
{
    if needle.is_empty() {
        return true;
    }
    let lower = to_lowercase(needle);
    let mut i: usize = 0;
    while i < parts.len()
        invariant
            i <= parts@.len(),
            lower@ == lowercase(needle@),
            forall|j: int|
                0 <= j < i ==> !occurs(lowercase(needle@), lowercase(#[trigger] texts(parts@)[j])),
        decreases parts@.len() - i,
    {
        let part = to_lowercase(parts[i]);
        if contains_text(&part, &lower) {
            assert(texts(parts@)[i as int] == parts@[i as int]@);
            return true;
        }
        i = i + 1;
    }
    false
}

/// At least two digits.
pub open spec fn two_digits(n: nat) -> Seq<char> {
    if n < 10 {
        "0"@ + decimal(n)
    } else {
        decimal(n)
    }
}

/// Hours where there are any, minutes and seconds.
pub open spec fn clock_text(seconds: nat) -> Seq<char> {
    let hours = seconds / 3600;
    let minutes = (seconds % 3600) / 60;
    let rest = seconds % 60;
    if hours > 0 {
        decimal(hours) + ":"@ + two_digits(minutes) + ":"@ + two_digits(rest)
    } else {
        decimal(minutes) + ":"@ + two_digits(rest)
    }
}

fn append_two_digits(text: &mut String, n: u64)
    ensures
        final(text)@ == old(text)@ + two_digits(n as nat),
{
    if n < 10 {
        text.append("0");
    }
    append_decimal(text, n);
    assert(text@ =~= old(text)@ + two_digits(n as nat));
}

pub fn format_duration(duration: Duration) -> (text: String)
    ensures
        text@ == clock_text(duration.secs as nat),
{
    let seconds: u64 = duration.as_secs();
    let hours: u64 = seconds / 3600;
    let minutes: u64 = (seconds % 3600) / 60;
    let rest: u64 = seconds % 60;
    let mut text = String::new();
    if hours > 0 {
        append_decimal(&mut text, hours);
        text.append(":");
        append_two_digits(&mut text, minutes);
    } else {
        append_decimal(&mut text, minutes);
    }
    text.append(":");
    append_two_digits(&mut text, rest);
    assert(text@ =~= clock_text(duration.secs as nat));
    text
}

/// The title that a file without a tag gets: its name without the extension.
pub open spec fn title_from_path(path: Seq<char>) -> Seq<char> {
    match stem_of(path) {
        Some(stem) => if shown_path(stem).len() == 0 {
            "Unknown title"@
        } else {
            shown_path(stem)
        },
        None => "Unknown title"@,
    }
}

pub fn fallback_title(path: &str) -> (title: String)
    ensures
        title@ == title_from_path(path@),
{
    match file_stem(path) {
        Some(stem) => {
            let title = show_path(&stem);
            if title.as_str().is_empty() {
                "Unknown title".to_owned()
            } else {
                title
            }
        },
        None => "Unknown title".to_owned(),
    }
}

/// A mode plays a track by its own figures: by the track's in the mode for tracks, by the
/// album's in the mode for albums. The other figure counts only where the mode's own is missing,
/// gain and peak each for itself; where both are missing, there is none. Without a mode nothing
/// counts.
pub proof fn law_modes_go_by_their_own_figures(info: ReplayGainInfo)
    ensures
        info.track_gain is Some ==> info.chosen(ReplayGainMode::Track).0 == info.track_gain,
        info.track_peak is Some ==> info.chosen(ReplayGainMode::Track).1 == info.track_peak,
        info.album_gain is Some ==> info.chosen(ReplayGainMode::Album).0 == info.album_gain,
        info.album_peak is Some ==> info.chosen(ReplayGainMode::Album).1 == info.album_peak,
        info.track_gain is None ==> info.chosen(ReplayGainMode::Track).0 == info.album_gain,
        info.track_peak is None ==> info.chosen(ReplayGainMode::Track).1 == info.album_peak,
        info.album_gain is None ==> info.chosen(ReplayGainMode::Album).0 == info.track_gain,
        info.album_peak is None ==> info.chosen(ReplayGainMode::Album).1 == info.track_peak,
        info.chosen(ReplayGainMode::Off).0 is None,
        info.chosen(ReplayGainMode::Off).1 is None,
{
}

} // verus!
