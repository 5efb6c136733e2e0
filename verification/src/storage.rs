//! What the player keeps between runs.

use vstd::prelude::*;
use vstd::string::*;

use crate::model::{
    clone_text, PlaybackOrder, ReplayGainInfo, ReplayGainMode, ScannedTrack, Track, TrackId,
    TrackOrigin,
};
use crate::net::protocol::CatalogTrack;
use crate::number::{
    integer, law_integers_round_trip, law_numbers_round_trip, natural, parse_integer, parse_natural,
};
use crate::order::{holds_text, views};
use crate::soulseek::opt_view;
use crate::text::{decimal, decimal_text, same_text, signed_decimal, signed_decimal_text};
use crate::time::Duration;

verus! {

/// The player's own state. Volume and preamp are bit patterns of single-precision
/// numbers.
#[derive(Debug)]
pub struct SavedState {
    pub active_playlist: usize,
    pub volume: u32,
    pub playback_order: PlaybackOrder,
    pub cursor_follows_playback: bool,
    pub replay_gain_mode: ReplayGainMode,
    pub replay_gain_preamp: u32,
    pub replay_gain_prevent_clip: bool,
    pub show_album_art: bool,
    pub show_spectrum: bool,
    pub nerd_font: bool,
    pub preferred_output_device: Option<String>,
}

/// What a saved state says.
pub struct SavedStateView {
    pub active_playlist: int,
    pub volume: u32,
    pub playback_order: PlaybackOrder,
    pub cursor_follows_playback: bool,
    pub replay_gain_mode: ReplayGainMode,
    pub replay_gain_preamp: u32,
    pub replay_gain_prevent_clip: bool,
    pub show_album_art: bool,
    pub show_spectrum: bool,
    pub nerd_font: bool,
    pub preferred_output_device: Option<Seq<char>>,
}

impl View for SavedState {
    type V = SavedStateView;

    open spec fn view(&self) -> SavedStateView {
        SavedStateView {
            active_playlist: self.active_playlist as int,
            volume: self.volume,
            playback_order: self.playback_order,
            cursor_follows_playback: self.cursor_follows_playback,
            replay_gain_mode: self.replay_gain_mode,
            replay_gain_preamp: self.replay_gain_preamp,
            replay_gain_prevent_clip: self.replay_gain_prevent_clip,
            show_album_art: self.show_album_art,
            show_spectrum: self.show_spectrum,
            nerd_font: self.nerd_font,
            preferred_output_device: opt_view(self.preferred_output_device),
        }
    }
}

/// The bit pattern of the volume before one is chosen: eight tenths.
pub const DEFAULT_VOLUME: u32 = 0x3f4c_cccd;

impl SavedStateView {
    /// The state of a player that has kept none.
    pub open spec fn fresh() -> SavedStateView {
        SavedStateView {
            active_playlist: 0,
            volume: DEFAULT_VOLUME,
            playback_order: PlaybackOrder::Default,
            cursor_follows_playback: true,
            replay_gain_mode: ReplayGainMode::Album,
            replay_gain_preamp: 0,
            replay_gain_prevent_clip: true,
            show_album_art: true,
            show_spectrum: true,
            nerd_font: false,
            preferred_output_device: None,
        }
    }
}

impl Default for SavedState {
    fn default() -> (state: SavedState)
        ensures
            state@ == SavedStateView::fresh(),
    {
        SavedState {
            active_playlist: 0,
            volume: DEFAULT_VOLUME,
            playback_order: PlaybackOrder::Default,
            cursor_follows_playback: true,
            replay_gain_mode: ReplayGainMode::Album,
            replay_gain_preamp: 0,
            replay_gain_prevent_clip: true,
            show_album_art: true,
            show_spectrum: true,
            nerd_font: false,
            preferred_output_device: None,
        }
    }
}

/// A named value in the store.
#[derive(Debug)]
pub struct StateRow {
    pub key: String,
    pub value: String,
}

impl View for StateRow {
    type V = (Seq<char>, Seq<char>);

    open spec fn view(&self) -> (Seq<char>, Seq<char>) {
        (self.key@, self.value@)
    }
}

pub open spec fn row_views(rows: Seq<StateRow>) -> Seq<(Seq<char>, Seq<char>)> {
    rows.map_values(|row: StateRow| row@)
}

pub open spec fn flag_text(on: bool) -> Seq<char> {
    if on {
        "1"@
    } else {
        "0"@
    }
}

/// The named values that a state is kept as; volume and preamp come in text form.
pub open spec fn state_rows(
    state: SavedStateView,
    volume: Seq<char>,
    preamp: Seq<char>,
) -> Seq<(Seq<char>, Seq<char>)> {
    seq![
        ("active_playlist"@, decimal(state.active_playlist as nat)),
        ("volume"@, volume),
        ("playback_order"@, signed_decimal(state.playback_order.number() as int)),
        ("cursor_follows_playback"@, flag_text(state.cursor_follows_playback)),
        ("replay_gain_mode"@, signed_decimal(state.replay_gain_mode.number() as int)),
        ("replay_gain_preamp"@, preamp),
        ("replay_gain_prevent_clip"@, flag_text(state.replay_gain_prevent_clip)),
        ("show_album_art"@, flag_text(state.show_album_art)),
        ("show_spectrum"@, flag_text(state.show_spectrum)),
        ("nerd_font"@, flag_text(state.nerd_font)),
        (
            "preferred_output_device"@,
            match state.preferred_output_device {
                Some(device) => device,
                None => Seq::empty(),
            },
        ),
    ]
}

fn flag(on: bool) -> (text: String)
    ensures
        text@ == flag_text(on),
{
    if on {
        "1".to_owned()
    } else {
        "0".to_owned()
    }
}

fn row(key: &str, value: String) -> (row: StateRow)
    ensures
        row@ == (key@, value@),
{
    StateRow { key: key.to_owned(), value }
}

/// Writes a state as named values.
pub fn save_state(state: &SavedState, volume: String, preamp: String) -> (rows: Vec<StateRow>)
    ensures
        row_views(rows@) == state_rows(state@, volume@, preamp@),
{
    let device = match &state.preferred_output_device {
        Some(device) => device.clone(),
        None => String::new(),
    };
    assert(state.preferred_output_device is None ==> device@ =~= Seq::empty());
    let mut rows: Vec<StateRow> = Vec::new();
    rows.push(row("active_playlist", decimal_text(state.active_playlist as u64)));
    rows.push(row("volume", volume));
    rows.push(row("playback_order", signed_decimal_text(state.playback_order.as_i64())));
    rows.push(row("cursor_follows_playback", flag(state.cursor_follows_playback)));
    rows.push(row("replay_gain_mode", signed_decimal_text(state.replay_gain_mode.as_i64())));
    rows.push(row("replay_gain_preamp", preamp));
    rows.push(row("replay_gain_prevent_clip", flag(state.replay_gain_prevent_clip)));
    rows.push(row("show_album_art", flag(state.show_album_art)));
    rows.push(row("show_spectrum", flag(state.show_spectrum)));
    rows.push(row("nerd_font", flag(state.nerd_font)));
    rows.push(row("preferred_output_device", device));
    assert(row_views(rows@) =~= state_rows(state@, volume@, preamp@));
    rows
}

/// The value under a name, where there is one.
pub open spec fn value_of(rows: Seq<(Seq<char>, Seq<char>)>, key: Seq<char>) -> Option<Seq<char>>
    decreases rows.len(),
{
    if rows.len() == 0 {
        None
    } else if rows[0].0 == key {
        Some(rows[0].1)
    } else {
        value_of(rows.skip(1), key)
    }
}

/// The value under a name.
pub fn find_value(rows: &Vec<StateRow>, key: &str) -> (value: Option<String>)
    ensures
        opt_view(value) == value_of(row_views(rows@), key@),
{
    let ghost all = row_views(rows@);
    let mut i: usize = 0;
    assert(all.skip(0) =~= all);
    while i < rows.len()
        invariant
            i <= rows@.len(),
            all == row_views(rows@),
            value_of(all, key@) == value_of(all.skip(i as int), key@),
        decreases rows@.len() - i,
    {
        assert(all.skip(i as int)[0] == rows@[i as int]@);
        assert(all.skip(i as int).skip(1) =~= all.skip(i + 1));
        if same_text(&rows[i].key, key) {
            return Some(rows[i].value.clone());
        }
        i = i + 1;
    }
    assert(all.skip(i as int) =~= Seq::empty());
    None
}

/// Whether a switch is on: everything but a zero says so.
pub open spec fn flag_of(value: Option<Seq<char>>, default: bool) -> bool {
    match value {
        Some(value) => value != "0"@,
        None => default,
    }
}

fn read_flag(rows: &Vec<StateRow>, key: &str, default: bool) -> (on: bool)
    ensures
        on == flag_of(value_of(row_views(rows@), key@), default),
{
    match find_value(rows, key) {
        Some(value) => !same_text(&value, "0"),
        None => default,
    }
}

/// The number under a name; what cannot be read counts as missing.
pub open spec fn integer_under(
    rows: Seq<(Seq<char>, Seq<char>)>,
    key: Seq<char>,
    default: i64,
) -> i64 {
    match value_of(rows, key) {
        Some(value) => match integer(value) {
            Some(number) => number as i64,
            None => default,
        },
        None => default,
    }
}

fn read_integer(rows: &Vec<StateRow>, key: &str, default: i64) -> (number: i64)
    ensures
        number == integer_under(row_views(rows@), key@, default),
{
    match find_value(rows, key) {
        Some(value) => match parse_integer(&value) {
            Some(number) => number,
            None => default,
        },
        None => default,
    }
}

/// The place under a name; what cannot be read counts as the first.
pub open spec fn place_under(rows: Seq<(Seq<char>, Seq<char>)>, key: Seq<char>) -> int {
    match value_of(rows, key) {
        Some(value) => match natural(value, usize::MAX as nat) {
            Some(number) => number as int,
            None => 0,
        },
        None => 0,
    }
}

/// The state that named values say; volume and preamp come as they were read, where they could
/// be.
pub open spec fn state_in(
    rows: Seq<(Seq<char>, Seq<char>)>,
    volume: Option<u32>,
    preamp: Option<u32>,
) -> SavedStateView {
    SavedStateView {
        active_playlist: place_under(rows, "active_playlist"@),
        volume: match volume {
            Some(volume) => volume,
            None => DEFAULT_VOLUME,
        },
        playback_order: PlaybackOrder::numbered(integer_under(rows, "playback_order"@, 0)),
        cursor_follows_playback: flag_of(value_of(rows, "cursor_follows_playback"@), true),
        replay_gain_mode: ReplayGainMode::numbered(integer_under(rows, "replay_gain_mode"@, 2)),
        replay_gain_preamp: match preamp {
            Some(preamp) => preamp,
            None => 0,
        },
        replay_gain_prevent_clip: flag_of(value_of(rows, "replay_gain_prevent_clip"@), true),
        show_album_art: flag_of(value_of(rows, "show_album_art"@), true),
        show_spectrum: flag_of(value_of(rows, "show_spectrum"@), true),
        nerd_font: flag_of(value_of(rows, "nerd_font"@), false),
        preferred_output_device: match value_of(rows, "preferred_output_device"@) {
            Some(device) => if device.len() > 0 {
                Some(device)
            } else {
                None
            },
            None => None,
        },
    }
}

/// Reads a state from named values.
pub fn load_state(rows: &Vec<StateRow>, volume: Option<u32>, preamp: Option<u32>) -> (state:
    SavedState)
    ensures
        state@ == state_in(row_views(rows@), volume, preamp),
{
    let active_playlist: usize = match find_value(rows, "active_playlist") {
        Some(value) => match parse_natural(&value, usize::MAX as u64) {
            Some(number) => number as usize,
            None => 0,
        },
        None => 0,
    };
    let preferred_output_device = match find_value(rows, "preferred_output_device") {
        Some(device) => if device.as_str().is_empty() {
            None
        } else {
            Some(device)
        },
        None => None,
    };
    SavedState {
        active_playlist,
        volume: match volume {
            Some(volume) => volume,
            None => DEFAULT_VOLUME,
        },
        playback_order: PlaybackOrder::from_i64(read_integer(rows, "playback_order", 0)),
        cursor_follows_playback: read_flag(rows, "cursor_follows_playback", true),
        replay_gain_mode: ReplayGainMode::from_i64(read_integer(rows, "replay_gain_mode", 2)),
        replay_gain_preamp: match preamp {
            Some(preamp) => preamp,
            None => 0,
        },
        replay_gain_prevent_clip: read_flag(rows, "replay_gain_prevent_clip", true),
        show_album_art: read_flag(rows, "show_album_art", true),
        show_spectrum: read_flag(rows, "show_spectrum", true),
        nerd_font: read_flag(rows, "nerd_font", false),
        preferred_output_device,
    }
}

/// Where a name stands in a list whose names differ.
proof fn lemma_value_at(rows: Seq<(Seq<char>, Seq<char>)>, i: int)
    requires
        0 <= i < rows.len(),
        forall|j: int| 0 <= j < i ==> #[trigger] rows[j].0 != rows[i].0,
    ensures
        value_of(rows, rows[i].0) == Some(rows[i].1),
    decreases rows.len(),
{
    if i > 0 {
        let rest = rows.skip(1);
        assert(rest[i - 1] == rows[i]);
        assert forall|j: int| 0 <= j < i - 1 implies #[trigger] rest[j].0 != rest[i - 1].0 by {
            assert(rest[j] == rows[j + 1]);
        }
        assert(rows[0].0 != rows[i].0);
        lemma_value_at(rest, i - 1);
    }
}

/// The names that a state is kept under all differ.
proof fn lemma_names_differ()
    ensures
        "active_playlist"@.len() == 15,
        "volume"@.len() == 6,
        "playback_order"@.len() == 14,
        "cursor_follows_playback"@.len() == 23,
        "replay_gain_mode"@.len() == 16,
        "replay_gain_preamp"@.len() == 18,
        "replay_gain_prevent_clip"@.len() == 24,
        "show_album_art"@.len() == 14,
        "show_spectrum"@.len() == 13,
        "nerd_font"@.len() == 9,
        "preferred_output_device"@.len() == 23,
        "playback_order"@[0] == 'p',
        "show_album_art"@[0] == 's',
        "cursor_follows_playback"@[0] == 'c',
        "preferred_output_device"@[0] == 'p',
        "1"@ != "0"@,
{
    reveal_strlit("active_playlist");
    reveal_strlit("volume");
    reveal_strlit("playback_order");
    reveal_strlit("cursor_follows_playback");
    reveal_strlit("replay_gain_mode");
    reveal_strlit("replay_gain_preamp");
    reveal_strlit("replay_gain_prevent_clip");
    reveal_strlit("show_album_art");
    reveal_strlit("show_spectrum");
    reveal_strlit("nerd_font");
    reveal_strlit("preferred_output_device");
    reveal_strlit("1");
    reveal_strlit("0");
    assert("1"@[0] != "0"@[0]);
}

/// A state that was kept is read back as it was. A chosen device has a name, and the two
/// numbers are read as they were written.
pub proof fn law_saved_state_round_trips(
    state: SavedStateView,
    volume: Seq<char>,
    preamp: Seq<char>,
)
    requires
        0 <= state.active_playlist <= usize::MAX,
        state.preferred_output_device matches Some(device) ==> device.len() > 0,
    ensures
        state_in(
            state_rows(state, volume, preamp),
            Some(state.volume),
            Some(state.replay_gain_preamp),
        ) == state,
        value_of(state_rows(state, volume, preamp), "volume"@) == Some(volume),
        value_of(state_rows(state, volume, preamp), "replay_gain_preamp"@) == Some(preamp),
{
    let rows = state_rows(state, volume, preamp);
    lemma_names_differ();
    assert forall|i: int, j: int| 0 <= j < i < rows.len() implies #[trigger] rows[j].0
        != #[trigger] rows[i].0 by {
        if rows[j].0.len() == rows[i].0.len() {
            assert(rows[j].0[0] != rows[i].0[0]);
        }
    }
    lemma_value_at(rows, 0);
    lemma_value_at(rows, 1);
    lemma_value_at(rows, 2);
    lemma_value_at(rows, 3);
    lemma_value_at(rows, 4);
    lemma_value_at(rows, 5);
    lemma_value_at(rows, 6);
    lemma_value_at(rows, 7);
    lemma_value_at(rows, 8);
    lemma_value_at(rows, 9);
    lemma_value_at(rows, 10);
    law_numbers_round_trip(state.active_playlist as nat, usize::MAX as nat);
    law_integers_round_trip(state.playback_order.number());
    law_integers_round_trip(state.replay_gain_mode.number());
    crate::model::law_playback_order_codes(state.playback_order);
    crate::model::law_replay_gain_mode_codes(state.replay_gain_mode);
}

/// A number as far as the store can hold it.
pub fn clamp_stored(n: u64) -> (stored: i64)
    ensures
        stored == if n > i64::MAX {
            i64::MAX as int
        } else {
            n as int
        },
{
    if n > i64::MAX as u64 {
        i64::MAX
    } else {
        n as i64
    }
}

/// A number out of the store: below zero there is nothing.
pub fn unclamp_stored(n: i64) -> (value: u64)
    ensures
        value == if n < 0 {
            0
        } else {
            n as int
        },
{
    if n < 0 {
        0
    } else {
        n as u64
    }
}

/// The revision in the store: none, or one that cannot be read, counts as zero.
pub open spec fn revision_of(value: Option<Seq<char>>) -> u64 {
    match value {
        Some(value) => match natural(value, u64::MAX as nat) {
            Some(number) => number as u64,
            None => 0,
        },
        None => 0,
    }
}

pub fn library_revision(value: Option<String>) -> (revision: u64)
    ensures
        revision == revision_of(opt_view(value)),
{
    match value {
        Some(value) => match parse_natural(&value, u64::MAX) {
            Some(number) => number,
            None => 0,
        },
        None => 0,
    }
}

/// The next revision, and how it is written.
pub fn bump_library_revision(revision: u64) -> (next: (u64, String))
    ensures
        next.0 == if revision == u64::MAX {
            u64::MAX as int
        } else {
            revision + 1
        },
        next.1@ == decimal(next.0 as nat),
{
    let next: u64 = revision.saturating_add(1);
    (next, decimal_text(next))
}

/// A revision that was written is read back as it was.
pub proof fn law_revisions_round_trip(revision: u64)
    ensures
        revision_of(Some(decimal(revision as nat))) == revision,
{
    law_numbers_round_trip(revision as nat, u64::MAX as nat);
}

/// Where a track comes from, by what the store says: a server's track has an identifier and a
/// server.
pub open spec fn origin_is(
    found: TrackOrigin,
    origin: Seq<char>,
    remote_id: Option<Seq<char>>,
    fingerprint: Option<Seq<char>>,
    server_name: Option<Seq<char>>,
) -> bool {
    match (remote_id, fingerprint) {
        (Some(remote_id), Some(fingerprint)) => if origin == "remote"@ {
            found matches TrackOrigin::Remote { fingerprint: f, remote_id: r, server_name: s }
                && f@ == fingerprint && r@ == remote_id && s@ == match server_name {
                Some(name) => name,
                None => Seq::empty(),
            }
        } else {
            found is Local
        },
        _ => found is Local,
    }
}

pub fn track_origin(
    origin: String,
    remote_id: Option<String>,
    fingerprint: Option<String>,
    server_name: Option<String>,
) -> (found: TrackOrigin)
    ensures
        origin_is(
            found,
            origin@,
            opt_view(remote_id),
            opt_view(fingerprint),
            opt_view(server_name),
        ),
{
    let server_name = match server_name {
        Some(name) => name,
        None => {
            let empty = String::new();
            assert(empty@ =~= Seq::empty());
            empty
        },
    };
    match (remote_id, fingerprint) {
        (Some(remote_id), Some(fingerprint)) => if same_text(&origin, "remote") {
            TrackOrigin::Remote { fingerprint, remote_id, server_name }
        } else {
            TrackOrigin::Local
        },
        _ => TrackOrigin::Local,
    }
}

/// Whether a stored track cannot be played: it is marked so, or it is a file of this computer
/// that is gone.
pub fn is_unavailable(marked: bool, origin: &TrackOrigin, exists: bool) -> (unavailable: bool)
    ensures
        unavailable == (marked || (origin is Local && !exists)),
{
    marked || (!origin.is_remote() && !exists)
}

/// The path that stands for a server's track.
pub open spec fn placeholder(fingerprint: Seq<char>, remote_id: Seq<char>) -> Seq<char> {
    "staccato:"@ + fingerprint + "/"@ + remote_id
}

pub fn remote_placeholder_path(fingerprint: &str, remote_id: &str) -> (path: String)
    ensures
        path@ == placeholder(fingerprint@, remote_id@),
{
    let mut path = "staccato:".to_owned();
    path.append(fingerprint);
    path.append("/");
    path.append(remote_id);
    path
}

/// Tracks of different servers, and different tracks of one server, are kept apart.
pub proof fn law_placeholders_are_distinct(
    fingerprint: Seq<char>,
    remote_id: Seq<char>,
    other_fingerprint: Seq<char>,
    other_id: Seq<char>,
)
    requires
        crate::net::client::plain_component(fingerprint),
        crate::net::client::plain_component(other_fingerprint),
        placeholder(fingerprint, remote_id) == placeholder(other_fingerprint, other_id),
    ensures
        fingerprint == other_fingerprint,
        remote_id == other_id,
{
    let a = placeholder(fingerprint, remote_id);
    let b = placeholder(other_fingerprint, other_id);
    reveal_strlit("staccato:");
    reveal_strlit("/");
    let n = "staccato:"@.len() as int;
    let i = fingerprint.len() as int;
    let j = other_fingerprint.len() as int;
    assert(a[n + i] == '/');
    assert(b[n + j] == '/');
    if i < j {
        assert(b[n + i] == other_fingerprint[i]);
        assert(false);
    }
    if j < i {
        assert(a[n + j] == fingerprint[j]);
        assert(false);
    }
    assert forall|k: int| 0 <= k < i implies fingerprint[k] == other_fingerprint[k] by {
        assert(a[n + k] == fingerprint[k]);
        assert(b[n + k] == other_fingerprint[k]);
    }
    assert(fingerprint =~= other_fingerprint);
    assert(a.len() == n + i + 1 + remote_id.len());
    assert(b.len() == n + j + 1 + other_id.len());
    assert forall|k: int| 0 <= k < remote_id.len() implies remote_id[k] == other_id[k] by {
        assert(a[n + i + 1 + k] == remote_id[k]);
        assert(b[n + i + 1 + k] == other_id[k]);
    }
    assert(remote_id =~= other_id);
}

/// The track that a scanned file is stored as, under its identifier.
pub fn upsert_track(id: TrackId, scanned: &ScannedTrack) -> (track: Track)
    ensures
        track.id == id,
        track.scanned() == *scanned,
        track.origin is Local,
        !track.unavailable,
{
    Track {
        id,
        path: scanned.path.clone(),
        title: scanned.title.clone(),
        artist: scanned.artist.clone(),
        album: scanned.album.clone(),
        date: scanned.date,
        track_number: scanned.track_number,
        duration: scanned.duration,
        codec: scanned.codec.clone(),
        sample_rate: scanned.sample_rate,
        channels: scanned.channels,
        file_size: scanned.file_size,
        modified_ns: scanned.modified_ns,
        unavailable: false,
        scan_error: clone_text(&scanned.scan_error),
        origin: TrackOrigin::Local,
        replay_gain: scanned.replay_gain,
    }
}

/// Whether a track is a server's listing, stored under an identifier.
pub open spec fn stored_listing(
    track: Track,
    id: TrackId,
    fingerprint: Seq<char>,
    server_name: Seq<char>,
    listing: CatalogTrack,
) -> bool {
    &&& track.id == id
    &&& track.path@ == placeholder(fingerprint, listing.remote_id@)
    &&& track.title == listing.title
    &&& track.artist == listing.artist
    &&& track.album == listing.album
    &&& track.date == listing.date
    &&& track.track_number == listing.track_number
    &&& track.duration.total() == listing.duration_ms * 1_000_000
    &&& track.duration.wf()
    &&& track.codec == listing.codec
    &&& track.sample_rate == listing.sample_rate
    &&& track.channels == listing.channels
    &&& track.file_size == listing.file_size
    &&& track.modified_ns == listing.modified_ns
    &&& !track.unavailable
    &&& track.scan_error is None
    &&& track.origin matches TrackOrigin::Remote { fingerprint: f, remote_id: r, server_name: s }
        && f@ == fingerprint && r@ == listing.remote_id@ && s@ == server_name
    &&& track.replay_gain == ReplayGainInfo::empty()
}

/// The track that a server's listing is stored as, under its identifier.
pub fn upsert_remote_track(
    id: TrackId,
    fingerprint: &str,
    server_name: &str,
    listing: &CatalogTrack,
) -> (track: Track)
    ensures
        stored_listing(track, id, fingerprint@, server_name@, *listing),
{
    Track {
        id,
        path: remote_placeholder_path(fingerprint, &listing.remote_id),
        title: listing.title.clone(),
        artist: listing.artist.clone(),
        album: listing.album.clone(),
        date: listing.date,
        track_number: listing.track_number,
        duration: Duration::from_millis(listing.duration_ms),
        codec: listing.codec.clone(),
        sample_rate: listing.sample_rate,
        channels: listing.channels,
        file_size: listing.file_size,
        modified_ns: listing.modified_ns,
        unavailable: false,
        scan_error: None,
        origin: TrackOrigin::Remote {
            fingerprint: fingerprint.to_owned(),
            remote_id: listing.remote_id.clone(),
            server_name: server_name.to_owned(),
        },
        replay_gain: ReplayGainInfo {
            track_gain: None,
            track_peak: None,
            album_gain: None,
            album_peak: None,
        },
    }
}

/// A file of this computer in the store.
#[derive(Debug)]
pub struct LocalRow {
    pub id: TrackId,
    pub path: String,
}

/// The stored files that are to go: those that are not kept.
pub open spec fn stale_ids(rows: Seq<LocalRow>, keep: Seq<Seq<char>>) -> Seq<TrackId>
    decreases rows.len(),
{
    if rows.len() == 0 {
        Seq::empty()
    } else {
        let before = stale_ids(rows.drop_last(), keep);
        if keep.contains(rows.last().path@) {
            before
        } else {
            before.push(rows.last().id)
        }
    }
}

/// Finds the stored files that have disappeared.
pub fn prune_local_tracks(rows: &Vec<LocalRow>, keep: &Vec<String>) -> (stale: Vec<TrackId>)
    ensures
        stale@ == stale_ids(rows@, views(keep@)),
{
    let mut stale: Vec<TrackId> = Vec::new();
    let mut i: usize = 0;
    assert(stale@ =~= stale_ids(rows@.take(0), views(keep@)));
    while i < rows.len()
        invariant
            i <= rows@.len(),
            stale@ == stale_ids(rows@.take(i as int), views(keep@)),
        decreases rows@.len() - i,
    {
        assert(rows@.take(i + 1).drop_last() =~= rows@.take(i as int));
        if !holds_text(keep, &rows[i].path) {
            stale.push(rows[i].id);
        }
        i = i + 1;
    }
    assert(rows@.take(i as int) =~= rows@);
    stale
}

} // verus!
