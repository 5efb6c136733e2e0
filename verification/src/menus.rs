//! The menu bar's menus.

use vstd::prelude::*;

use crate::action::Action;

verus! {

/// The entries of a menu, by their text and what they do.
pub open spec fn menu_items(menu: int) -> Seq<(Seq<char>, Action)> {
    if menu == 0 {
        seq![
            ("Add files…        Ctrl+O"@, Action::OpenFiles),
            ("Add folder… Ctrl+Shift+O"@, Action::OpenFolder),
            ("New playlist…     Ctrl+N"@, Action::NewPlaylist),
            ("Preferences…      Ctrl+,"@, Action::OpenSettings),
            ("Exit             Ctrl+Q"@, Action::Quit),
        ]
    } else if menu == 1 {
        seq![
            ("Rename playlist       F2"@, Action::BeginRenamePlaylist),
            ("Remove selected      Del"@, Action::RemoveSelection),
            ("Add to playback queue"@, Action::QueueSelection),
            ("Move selection up  Alt+Up"@, Action::MovePlaylistItems((-1) as i32)),
            ("Move selection down Alt+Dn"@, Action::MovePlaylistItems(1)),
            ("Close playlist    Ctrl+W"@, Action::ClosePlaylist),
        ]
    } else if menu == 2 {
        seq![
            ("Keyboard shortcuts    F1"@, Action::ToggleHelp),
            ("Preferences…      Ctrl+,"@, Action::OpenSettings),
        ]
    } else if menu == 3 {
        seq![
            ("Play / Pause       Space"@, Action::TogglePlay),
            ("Stop"@, Action::Stop),
            ("Previous"@, Action::Previous),
            ("Next"@, Action::Next),
            ("Change playback order"@, Action::CyclePlaybackOrder),
            ("Stop after current"@, Action::ToggleStopAfterCurrent),
            ("Scan ReplayGain"@, Action::ScanReplayGain),
            ("Retry audio"@, Action::RetryAudio),
        ]
    } else if menu == 4 {
        seq![
            ("Add folder… Ctrl+Shift+O"@, Action::OpenFolder),
            ("Add from clipboard"@, Action::AddFromClipboard),
            ("Rescan library"@, Action::RescanLibrary),
            ("Connect to server…"@, Action::BeginConnect),
            ("Disconnect server"@, Action::DisconnectServer),
            ("Search Soulseek…"@, Action::BeginSoulseek),
        ]
    } else {
        seq![("About Staccato"@, Action::ToggleHelp)]
    }
}

/// The texts and actions of a list of entries.
pub open spec fn labelled(items: Seq<(&'static str, Action)>) -> Seq<(Seq<char>, Action)> {
    items.map_values(|item: (&'static str, Action)| (item.0@, item.1))
}

/// The entries of a menu.
pub fn menu_actions(menu: usize) -> (items: Vec<(&'static str, Action)>)
    ensures
        labelled(items@) == menu_items(menu as int),
{
    let items: Vec<(&'static str, Action)> = match menu {
        0 => vec![
            ("Add files…        Ctrl+O", Action::OpenFiles),
            ("Add folder… Ctrl+Shift+O", Action::OpenFolder),
            ("New playlist…     Ctrl+N", Action::NewPlaylist),
            ("Preferences…      Ctrl+,", Action::OpenSettings),
            ("Exit             Ctrl+Q", Action::Quit),
        ],
        1 => vec![
            ("Rename playlist       F2", Action::BeginRenamePlaylist),
            ("Remove selected      Del", Action::RemoveSelection),
            ("Add to playback queue", Action::QueueSelection),
            ("Move selection up  Alt+Up", Action::MovePlaylistItems(-1)),
            ("Move selection down Alt+Dn", Action::MovePlaylistItems(1)),
            ("Close playlist    Ctrl+W", Action::ClosePlaylist),
        ],
        2 => vec![
            ("Keyboard shortcuts    F1", Action::ToggleHelp),
            ("Preferences…      Ctrl+,", Action::OpenSettings),
        ],
        3 => vec![
            ("Play / Pause       Space", Action::TogglePlay),
            ("Stop", Action::Stop),
            ("Previous", Action::Previous),
            ("Next", Action::Next),
            ("Change playback order", Action::CyclePlaybackOrder),
            ("Stop after current", Action::ToggleStopAfterCurrent),
            ("Scan ReplayGain", Action::ScanReplayGain),
            ("Retry audio", Action::RetryAudio),
        ],
        4 => vec![
            ("Add folder… Ctrl+Shift+O", Action::OpenFolder),
            ("Add from clipboard", Action::AddFromClipboard),
            ("Rescan library", Action::RescanLibrary),
            ("Connect to server…", Action::BeginConnect),
            ("Disconnect server", Action::DisconnectServer),
            ("Search Soulseek…", Action::BeginSoulseek),
        ],
        _ => vec![("About Staccato", Action::ToggleHelp)],
    };
    assert(labelled(items@) =~= menu_items(menu as int));
    items
}

/// No menu is empty, and none of its entries opens a menu again.
pub proof fn law_menus_lead_out(menu: int, i: int)
    requires
        0 <= i < menu_items(menu).len(),
    ensures
        menu_items(menu).len() > 0,
        !(menu_items(menu)[i].1 is OpenMenu),
        !(menu_items(menu)[i].1 is OverlayActivate),
        !(menu_items(menu)[i].1 is ActivateMenuItem),
{
}

} // verus!
