//! What the player asks of the outside, and what it tells it to do.

use vstd::prelude::*;
use vstd::string::*;

use crate::audio::AudioDevice;
use crate::model::{
    Playlist, PlaylistColumn, PlaylistId, PlaylistView, ReplayGainInfo, ScannedTrack, Track,
    TrackId,
};
use crate::net::addr::{DiscoveredServer, SocketAddr};
use crate::net::credentials::SavedRemote;
use crate::net::protocol::CatalogTrack;
use crate::order::views;
use crate::overlay::{PickerEntry, PickerMode};
use crate::soulseek::opt_view;
use crate::soulseek_session::{SoulseekCommand, SoulseekCredentials};
use crate::storage::{SavedState, SavedStateView};
use crate::time::Duration;

verus! {

/// A question to the outside; the player waits for the answer.
#[allow(inconsistent_fields)]
#[derive(Debug)]
pub enum Ask {
    /// Store the player's state.
    SaveState(SavedState),
    /// Store a new playlist.
    CreatePlaylist { name: String, position: usize },
    RenamePlaylist { id: PlaylistId, name: String },
    DeletePlaylist { id: PlaylistId },
    /// Store the order of the playlists.
    SavePositions { ids: Vec<PlaylistId> },
    /// Store what a playlist holds.
    SaveItems { playlist: PlaylistId, items: Vec<TrackId> },
    /// Find the real paths, and which of them are folders.
    ResolvePaths { paths: Vec<String> },
    /// Store library folders.
    AddRoots { paths: Vec<String> },
    /// Look up the library folders.
    LoadRoots,
    /// Take paths from the clipboard.
    ClipboardPaths,
    /// List a folder; without a name, the current one.
    ListFolder { directory: Option<String> },
    /// Put loudness figures into words.
    DescribeGain { info: ReplayGainInfo },
    /// Show a folder in the file manager.
    ShowFolder { path: String },
    /// Find out which files exist.
    CheckFiles { paths: Vec<String> },
    /// List the output devices.
    OutputDevices,
    /// Open an audio engine.
    MakeEngine { volume: u32, device: Option<String> },
    /// Add a number of percent to a volume.
    AddVolume { volume: u32, percent: i32 },
    /// Turn a fraction into a volume.
    VolumeFraction { at: u16, of: u16 },
    /// Take a fraction of a span.
    ScaleDuration { duration: Duration, at: u16, of: u16 },
    /// Add a number of decibels to the preamp.
    AddPreamp { preamp: u32, delta: i32 },
    /// Find the address of a server.
    ResolveEndpoint { endpoint: String },
    /// Put an address into words, and look up the remembered server.
    LoadRemote { address: SocketAddr },
    /// Remember that an address was dialled.
    SaveAddress { address: String },
    /// Look up the remembered server.
    LoadSavedRemote,
    /// Remember a server.
    SaveRemote(SavedRemote),
    LoadSoulseekCredentials,
    SaveSoulseekCredentials(SoulseekCredentials),
    /// Store a scanned track.
    UpsertTrack(ScannedTrack),
    /// Store a server's track.
    UpsertRemoteTrack { fingerprint: String, server_name: String, track: CatalogTrack },
    /// Forget tracks of a server.
    RemoveRemoteTracks { fingerprint: String, remote_ids: Vec<String> },
}

/// A path, and whether it is a folder.
#[derive(Debug)]
pub struct ResolvedPath {
    pub path: String,
    pub is_dir: bool,
}

/// An answer from the outside.
#[derive(Debug)]
pub enum Answer<E> {
    Done(Result<(), String>),
    Playlist(Result<Playlist, String>),
    Paths(Vec<ResolvedPath>),
    Roots(Result<Vec<String>, String>),
    Clipboard(Result<Vec<String>, String>),
    Folder { directory: String, found: Vec<PickerEntry> },
    Text(String),
    Flags(Vec<bool>),
    Devices(Vec<AudioDevice>),
    Engine(Result<E, String>),
    /// A volume, and the words for it.
    Volume { volume: u32, label: String },
    Span(Duration),
    /// A preamp setting, and the words for it.
    Preamp { preamp: u32, label: String },
    Address(Result<SocketAddr, String>),
    Remote { text: String, saved: Option<SavedRemote> },
    Credentials(Option<SoulseekCredentials>),
    Track(Result<Track, String>),
}

/// What follows once a playlist's contents have been stored.
#[derive(Clone, Copy, Debug, PartialEq, Eq, Structural)]
pub enum AfterItems {
    /// Shuffle again and stage again.
    Reshuffle,
    /// The same, and say how the playlist was sorted.
    Sorted { column: PlaylistColumn, ascending: bool },
    /// Shuffle again, and say how many tracks were added, where a playlist is named.
    Added { count: usize, report: Option<usize> },
}

/// What follows once an engine has been opened.
#[derive(Clone, Copy, Debug, PartialEq, Eq, Structural)]
pub enum AfterEngine {
    /// Say that the output is there.
    Report,
    /// Say which device is set, and store the state.
    Setting,
}

/// A catalog that is being taken over.
#[derive(Debug)]
pub struct CatalogWork {
    pub revision: u64,
    pub fingerprint: String,
    pub server_name: String,
    pub gone: Vec<String>,
    pub removed_ids: Vec<TrackId>,
    pub tracks: Vec<CatalogTrack>,
}

/// Where the player goes on when the answer is there.
#[derive(Debug)]
pub enum Next {
    Finish,
    PlaylistCreated,
    Renamed { id: PlaylistId, name: String },
    Deleted,
    PositionsSaved,
    StateSavedAfterClose,
    ItemsSaved(AfterItems),
    PathsResolved,
    RootsAdded { paths: Vec<String> },
    ClipboardRead,
    PickerOpened(PickerMode),
    PickerListed,
    RescanRoots,
    PropertiesGain { track: TrackId },
    FolderShown { path: String },
    GainFilesChecked { ids: Vec<TrackId> },
    DevicesListed { delta: i32 },
    EngineMade(AfterEngine),
    VolumeAdded,
    VolumeScaled,
    SeekScaled,
    PreampAdded,
    EndpointResolved,
    RemoteLoaded { address: SocketAddr },
    PairedAddress { token: String, fingerprint: String },
    PairedSaved,
    SoulseekCredentialsLoaded,
    SoulseekCredentialsSaved(SoulseekCredentials),
    SoulseekRoots { credentials: SoulseekCredentials, from_prompt: bool },
    SoulseekRootAdded { credentials: SoulseekCredentials, download: String, from_prompt: bool },
    TrackStored { add: bool },
    CatalogRemoved(CatalogWork),
    CatalogItemsSaved { work: CatalogWork, next: usize },
    CatalogTrackStored { work: CatalogWork, next: usize },
}

/// How far a request has come.
#[derive(Debug)]
pub enum Flow {
    Done,
    Failed(String),
    Ask(Ask, Next),
}

/// Whether the player waits for its state to be stored, and has nothing left to do then.
pub open spec fn saves_state(flow: Flow, state: SavedStateView) -> bool {
    flow matches Flow::Ask(Ask::SaveState(saved), Next::Finish) && saved@ == state
}

/// Whether the player waits for a playlist's contents to be stored.
pub open spec fn saves_items(flow: Flow, playlist: PlaylistView, then: AfterItems) -> bool {
    flow matches Flow::Ask(Ask::SaveItems { playlist: id, items }, Next::ItemsSaved(after)) && id
        == playlist.id && items@ == playlist.items && after == then
}

/// Whether the player has given up with this error.
pub open spec fn failed_with(flow: Flow, error: Seq<char>) -> bool {
    flow matches Flow::Failed(text) && text@ == error
}

/// A file to measure the loudness of.
#[derive(Debug)]
pub struct GainJob {
    pub id: TrackId,
    pub path: String,
    pub artist: String,
    pub album: String,
}

impl Clone for GainJob {
    fn clone(&self) -> (copy: GainJob)
        ensures
            copy == *self,
    {
        GainJob {
            id: self.id,
            path: self.path.clone(),
            artist: self.artist.clone(),
            album: self.album.clone(),
        }
    }
}

/// Something that the outside is told to do; no answer is waited for.
#[derive(Debug)]
pub enum Effect {
    /// Scan files and folders; files that are known and have not changed need no look.
    Scan { paths: Vec<String>, add_to_playlist: bool, known: Vec<ScannedTrack> },
    /// Fetch a track from the server.
    Fetch { remote_id: String, file_size: u64, etag: String },
    RescanRemote,
    Pair(String),
    Disconnect,
    Connect { address: SocketAddr, token: Option<String>, pin: Option<String> },
    /// Look for servers on the local network.
    Browse,
    StartSoulseek { credentials: SoulseekCredentials, download_dir: String },
    Soulseek(SoulseekCommand),
    ScanReplayGain(Vec<GainJob>),
    /// Store new loudness figures of a track.
    UpdateReplayGain { id: TrackId, info: ReplayGainInfo, file_size: u64, modified_ns: i64 },
    /// Put album art into the cache.
    SaveCover { fingerprint: String, artist: String, album: String, data: Vec<u8> },
}

/// What an effect says.
pub enum EffectView {
    Scan { paths: Seq<Seq<char>>, add_to_playlist: bool, known: Seq<ScannedTrack> },
    Fetch { remote_id: Seq<char>, file_size: u64, etag: Seq<char> },
    RescanRemote,
    Pair(Seq<char>),
    Disconnect,
    Connect { address: SocketAddr, token: Option<Seq<char>>, pin: Option<Seq<char>> },
    Browse,
    StartSoulseek { username: Seq<char>, password: Seq<char>, download_dir: Seq<char> },
    Search(Seq<char>),
    Download { username: Seq<char>, name: Seq<char>, size: u64 },
    ScanReplayGain(Seq<GainJob>),
    UpdateReplayGain { id: TrackId, info: ReplayGainInfo, file_size: u64, modified_ns: i64 },
    SaveCover {
        fingerprint: Seq<char>,
        artist: Seq<char>,
        album: Seq<char>,
        data: Seq<u8>,
    },
}

impl View for Effect {
    type V = EffectView;

    open spec fn view(&self) -> EffectView {
        match self {
            Effect::Scan { paths, add_to_playlist, known } => EffectView::Scan {
                paths: views(paths@),
                add_to_playlist: *add_to_playlist,
                known: known@,
            },
            Effect::Fetch { remote_id, file_size, etag } => EffectView::Fetch {
                remote_id: remote_id@,
                file_size: *file_size,
                etag: etag@,
            },
            Effect::RescanRemote => EffectView::RescanRemote,
            Effect::Pair(code) => EffectView::Pair(code@),
            Effect::Disconnect => EffectView::Disconnect,
            Effect::Connect { address, token, pin } => EffectView::Connect {
                address: *address,
                token: opt_view(*token),
                pin: opt_view(*pin),
            },
            Effect::Browse => EffectView::Browse,
            Effect::StartSoulseek { credentials, download_dir } => EffectView::StartSoulseek {
                username: credentials.username@,
                password: credentials.password@,
                download_dir: download_dir@,
            },
            Effect::Soulseek(SoulseekCommand::Search(query)) => EffectView::Search(query@),
            Effect::Soulseek(SoulseekCommand::Download { username, name, size }) =>
                EffectView::Download { username: username@, name: name@, size: *size },
            Effect::ScanReplayGain(jobs) => EffectView::ScanReplayGain(jobs@),
            Effect::UpdateReplayGain { id, info, file_size, modified_ns } =>
                EffectView::UpdateReplayGain {
                    id: *id,
                    info: *info,
                    file_size: *file_size,
                    modified_ns: *modified_ns,
                },
            Effect::SaveCover { fingerprint, artist, album, data } => EffectView::SaveCover {
                fingerprint: fingerprint@,
                artist: artist@,
                album: album@,
                data: data@,
            },
        }
    }
}

/// What a list of effects says.
pub open spec fn effect_views(effects: Seq<Effect>) -> Seq<EffectView> {
    effects.map_values(|effect: Effect| effect@)
}

/// What happens while files are scanned.
#[derive(Debug)]
pub enum ScanEvent {
    Started { total_hint: usize, add_to_playlist: bool },
    Track { track: ScannedTrack, add_to_playlist: bool },
    Failed { path: String, error: String },
    Finished { discovered: usize, failed: usize },
}

/// What happens on a connection to a server.
#[derive(Debug)]
pub enum RemoteEvent {
    Connected { server_name: String, fingerprint: String, revision: u64, pair_required: bool },
    Paired { token: String, fingerprint: String },
    Catalog { revision: u64, tracks: Vec<CatalogTrack>, removed: Vec<String>, replace: bool },
    Cover { remote_id: String, data: Option<Vec<u8>> },
    MediaReady { remote_id: String },
    Error(String),
    Disconnected,
    Discovered(Vec<DiscoveredServer>),
}

/// What happens while loudness is measured. The length and the time of change are
/// those of the file after it was tagged, where they can be read.
#[derive(Debug)]
pub enum ReplayGainEvent {
    Started { total: usize },
    Track {
        id: TrackId,
        info: ReplayGainInfo,
        path: String,
        file_size: Option<u64>,
        modified_ns: Option<i64>,
    },
    Failed { error: String },
    Finished { scanned: usize, failed: usize },
}

} // verus!
