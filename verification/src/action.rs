//! What the player can be asked to do.

use vstd::prelude::*;

use crate::model::{PlaylistColumn, PlaylistId};
use crate::soulseek::{SoulseekFormat, SoulseekScope};

verus! {

/// Something to do, as a key, a click or a menu asks for it.
#[derive(Debug, PartialEq, Eq)]
pub enum Action {
    Nothing,
    Quit,
    TogglePlay,
    Stop,
    Previous,
    Next,
    /// Seeks by a number of seconds.
    SeekRelative(i64),
    /// Seeks to the fraction `at / of` of the track.
    SeekFraction { at: u16, of: u16 },
    /// Changes the volume by a number of percent.
    VolumeRelative(i32),
    /// Sets the volume to the fraction `at / of`.
    SetVolume { at: u16, of: u16 },
    CyclePlaybackOrder,
    SelectPlaylist(usize),
    SelectAlbumRow(usize),
    SelectPlaylistRow(usize),
    NewPlaylist,
    BeginRenamePlaylist,
    RenamePlaylist(PlaylistId, String),
    ClosePlaylist,
    MoveSelection(i32),
    PageSelection(i32),
    ActivateSelection,
    RemoveSelection,
    AddPaths(Vec<String>),
    AddFromClipboard,
    OpenFiles,
    OpenFolder,
    ToggleHelp,
    OpenMenu(usize),
    ActivateMenuItem(usize),
    OverlayMove(i32),
    OverlayActivate,
    TextInput(char),
    PasteText(String),
    TextBackspace,
    PickerChooseCurrent,
    CloseOverlay,
    FocusNext(bool),
    RetryAudio,
    RescanLibrary,
    BeginConnect,
    DisconnectServer,
    SubmitConnect,
    SubmitPair,
    BeginSoulseek,
    SoulseekFold(bool),
    SoulseekDownload(SoulseekScope),
    SoulseekHide(SoulseekScope),
    SoulseekSetFormat(SoulseekFormat),
    SoulseekCycleFormat(i32),
    SoulseekToggleFreeSlot,
    BeginFilter,
    ClearFilter,
    ToggleMark,
    TogglePlaylistRow(usize),
    ExtendSelection(i32),
    MovePlaylistItems(i32),
    SortPlaylist(PlaylistColumn),
    OpenListContext { row: Option<usize>, x: Option<u16>, y: Option<u16> },
    QueueSelection,
    ClearQueue,
    ToggleStopAfterCurrent,
    ShowProperties,
    OpenContainingFolder,
    AddSelectionToPlaylist(usize),
    ScanReplayGain,
    OpenSettings,
    SettingsAdjust(i32),
}

} // verus!
