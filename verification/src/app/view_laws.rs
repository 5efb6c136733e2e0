//! What menus, filters, tabs and prompts show and do.

use vstd::prelude::*;
use vstd::string::*;

use crate::action::Action;
use crate::app::browse::{lemma_album_rows, track_found};
use crate::app::context::add_entries;
use crate::app::flow::Flow;
use crate::app::state::{AppView, ShelfView};
use crate::audio::EngineView;
use crate::input::{KeyCode, Modifiers};
use crate::input_laws::{is_bare, pressed};
use crate::keys::{ids_in_order, law_ids_are_listed, tracks_in_order};
use crate::menus::menu_items;
use crate::model::{PlaybackState, PlaylistView, Track, TrackId};
use crate::path_codec::shown_path;
use crate::soulseek::{SoulseekPhase, SoulseekView};
use crate::text::{lowercase, occurs, trimmed};
use crate::time::Duration;
use crate::tree::{law_every_track_has_its_row, leaf_entry, EntryView};
use crate::tree_laws::{is_row_of, law_tracks_stand_below_their_albums_in_order, stands_below};

verus! {

/// An entry of a menu does what the key that stands beside it does.
pub proof fn law_menus_do_what_their_keys_do(app: AppView, control: Modifiers, shift: Modifiers)
    requires
        is_bare(app),
        control.control && !control.shift && !control.alt,
        shift.control && shift.shift && !shift.alt,
    ensures
        menu_items(0)[0].1 == pressed(app, KeyCode::Char('o'), control),
        menu_items(0)[1].1 == pressed(app, KeyCode::Char('o'), shift),
        menu_items(0)[2].1 == pressed(app, KeyCode::Char('n'), control),
        menu_items(0)[3].1 == pressed(app, KeyCode::Char(','), control),
        menu_items(0)[4].1 == pressed(app, KeyCode::Char('q'), control),
        menu_items(1)[0].1 == pressed(app, KeyCode::F(2), control),
        menu_items(1)[1].1 == pressed(app, KeyCode::Delete, control),
        menu_items(1)[5].1 == pressed(app, KeyCode::Char('w'), control),
        menu_items(2)[0].1 == pressed(app, KeyCode::F(1), control),
        menu_items(2)[1].1 == pressed(app, KeyCode::Char(','), control),
        menu_items(4)[0].1 == pressed(app, KeyCode::Char('o'), shift),
{
}

/// The entries that have no key do what they say.
pub proof fn law_menus_do_what_they_say()
    ensures
        menu_items(1).contains(("Add to playback queue"@, Action::QueueSelection)),
        menu_items(3).contains(("Stop"@, Action::Stop)),
        menu_items(3).contains(("Previous"@, Action::Previous)),
        menu_items(3).contains(("Next"@, Action::Next)),
        menu_items(3).contains(("Change playback order"@, Action::CyclePlaybackOrder)),
        menu_items(3).contains(("Stop after current"@, Action::ToggleStopAfterCurrent)),
        menu_items(3).contains(("Scan ReplayGain"@, Action::ScanReplayGain)),
        menu_items(3).contains(("Retry audio"@, Action::RetryAudio)),
        menu_items(4).contains(("Add from clipboard"@, Action::AddFromClipboard)),
        menu_items(4).contains(("Rescan library"@, Action::RescanLibrary)),
        menu_items(4).contains(("Connect to server…"@, Action::BeginConnect)),
        menu_items(4).contains(("Disconnect server"@, Action::DisconnectServer)),
        menu_items(4).contains(("Search Soulseek…"@, Action::BeginSoulseek)),
{
    assert(menu_items(1)[2] == ("Add to playback queue"@, Action::QueueSelection));
    assert(menu_items(3)[1] == ("Stop"@, Action::Stop));
    assert(menu_items(3)[2] == ("Previous"@, Action::Previous));
    assert(menu_items(3)[3] == ("Next"@, Action::Next));
    assert(menu_items(3)[4] == ("Change playback order"@, Action::CyclePlaybackOrder));
    assert(menu_items(3)[5] == ("Stop after current"@, Action::ToggleStopAfterCurrent));
    assert(menu_items(3)[6] == ("Scan ReplayGain"@, Action::ScanReplayGain));
    assert(menu_items(3)[7] == ("Retry audio"@, Action::RetryAudio));
    assert(menu_items(4)[1] == ("Add from clipboard"@, Action::AddFromClipboard));
    assert(menu_items(4)[2] == ("Rescan library"@, Action::RescanLibrary));
    assert(menu_items(4)[3] == ("Connect to server…"@, Action::BeginConnect));
    assert(menu_items(4)[4] == ("Disconnect server"@, Action::DisconnectServer));
    assert(menu_items(4)[5] == ("Search Soulseek…"@, Action::BeginSoulseek));
}

/// The context menu offers to add the selection to each playlist by its name.
pub proof fn law_context_menus_offer_every_playlist(playlists: Seq<PlaylistView>, i: int)
    requires
        0 <= i < playlists.len() <= usize::MAX,
    ensures
        add_entries(playlists).len() == playlists.len(),
        add_entries(playlists)[i].0 =~= "Add to "@ + playlists[i].name,
        add_entries(playlists)[i].1 == Action::AddSelectionToPlaylist(i as usize),
{
}

/// Whether a track matches what the library is filtered by: there is nothing to filter by, or its
/// title, artist, album or path holds the text, letter case left aside.
pub open spec fn matches_filter(track: Track, filter: Seq<char>) -> bool {
    let lower = lowercase(trimmed(filter));
    let text = lowercase(lower);
    ||| trimmed(filter).len() == 0
    ||| lower.len() == 0
    ||| occurs(text, lowercase(track.title@))
    ||| occurs(text, lowercase(track.artist@))
    ||| occurs(text, lowercase(track.album@))
    ||| occurs(text, lowercase(shown_path(track.path@)))
}

/// Whether a row of a list is the row of a track of the library that matches a filter.
pub open spec fn is_match(shelf: ShelfView, filter: Seq<char>, row: EntryView) -> bool {
    exists|id: TrackId|
        shelf.tracks.contains_key(id) && matches_filter(#[trigger] shelf.tracks[id], filter)
            && is_row_of(row, shelf.tracks[id])
}

/// Whether a list has the row of a track.
pub open spec fn has_row(rows: Seq<EntryView>, track: Track) -> bool {
    exists|i: int| 0 <= i < rows.len() && is_row_of(#[trigger] rows[i], track)
}

/// A filter of the library leaves the rows of the tracks that match it, all of them, and of no other
/// tracks.
pub proof fn law_the_library_shows_what_matches(shelf: ShelfView, filter: Seq<char>, connected: bool)
    requires
        shelf.tracks.dom().finite(),
    ensures
        ({
            let rows = shelf.album_rows(filter, connected);
            &&& forall|id: TrackId|
                shelf.tracks.contains_key(id) && matches_filter(shelf.tracks[id], filter)
                    ==> has_row(rows, #[trigger] shelf.tracks[id])
            &&& forall|i: int|
                0 <= i < rows.len() && (#[trigger] rows[i]).track_id is Some ==> is_match(
                    shelf,
                    filter,
                    rows[i],
                )
        }),
{
    let rows = shelf.album_rows(filter, connected);
    let kept = lemma_album_rows(shelf, filter, connected);
    let all = tracks_in_order(shelf.tracks);
    let ids = ids_in_order(shelf.tracks.dom());
    let split = shelf.has_remote();
    let keep = trimmed(filter).len() == 0;
    law_ids_are_listed(shelf.tracks.dom());
    assert forall|track: Track| #[trigger] kept.contains(track) implies matches_filter(
        track,
        filter,
    ) by {
        lemma_found(track, filter);
    }
    assert forall|id: TrackId|
        shelf.tracks.contains_key(id) && matches_filter(shelf.tracks[id], filter) implies has_row(
        rows,
        #[trigger] shelf.tracks[id],
    ) by {
        let track = shelf.tracks[id];
        assert(ids.contains(id));
        let k = choose|k: int| 0 <= k < ids.len() && ids[k] == id;
        assert(all[k] == track);
        assert(all.contains(track));
        lemma_found(track, filter);
        assert(kept.contains(track));
        law_every_track_has_its_row(kept, track, split, !connected, keep);
        let leaf = leaf_entry(
            if split {
                3
            } else {
                2
            },
            track,
        );
        assert(rows.contains(leaf));
        let i = choose|i: int| 0 <= i < rows.len() && rows[i] == leaf;
        assert(is_row_of(rows[i], track));
    }
    law_tracks_stand_below_their_albums_in_order(kept, split, !connected, keep);
    assert forall|i: int|
        0 <= i < rows.len() && (#[trigger] rows[i]).track_id is Some implies is_match(
        shelf,
        filter,
        rows[i],
    ) by {
        assert(stands_below(kept, rows, i));
        let a = choose|a: Track| kept.contains(a) && #[trigger] is_row_of(rows[i], a);
        assert(kept.contains(a));
        assert(all.contains(a));
        let k = choose|k: int| 0 <= k < all.len() && all[k] == a;
        assert(ids.contains(ids[k]));
        assert(shelf.tracks[ids[k]] == a);
    }
}

proof fn lemma_found(track: Track, filter: Seq<char>)
    ensures
        matches_filter(track, filter) == (trimmed(filter).len() == 0
            || track_found(track, lowercase(trimmed(filter)))),
{
    let parts = seq![track.title@, track.artist@, track.album@, shown_path(track.path@)];
    assert(parts[0] == track.title@ && parts[1] == track.artist@ && parts[2] == track.album@
        && parts[3] == shown_path(track.path@));
    let lower = lowercase(trimmed(filter));
    if track_found(track, lower) && lower.len() > 0 {
        let i = choose|i: int|
            0 <= i < parts.len() && occurs(lowercase(lower), lowercase(#[trigger] parts[i]));
        assert(i == 0 || i == 1 || i == 2 || i == 3);
    }
}

/// A password is not shown while it is typed: the prompt tells no two passwords of one length apart.
/// A name and a query are shown as they are.
pub proof fn law_passwords_are_not_shown(a: SoulseekView, b: SoulseekView, caret: bool)
    ensures
        a.phase == SoulseekPhase::Password && b.phase == SoulseekPhase::Password && a.password.len()
            == b.password.len() ==> a.prompt_text(caret) == b.prompt_text(caret),
        a.phase == SoulseekPhase::Username ==> a.prompt_text(false) =~= "Username: "@ + a.username,
        a.phase == SoulseekPhase::Ready ==> a.prompt_text(false) =~= "Search: "@ + a.query,
{
}

/// On another engine the current track goes on from where it was, and stays paused where it was
/// paused.
pub proof fn law_another_engine_goes_on(
    app: AppView,
    fresh: EngineView,
    id: TrackId,
    position: Duration,
)
    requires
        app.transport.audio.shown.track_id == Some(id),
        app.shelf.tracks.contains_key(id),
        app.shelf.tracks[id].id == id,
        !app.shelf.tracks[id].unavailable,
        app.shelf.tracks[id].scan_error is None,
        app.link.source_of(app.shelf.tracks[id]) is Some,
        position.wf(),
        app.shelf.tracks[id].duration.wf(),
        position.total() <= app.shelf.tracks[id].duration.total(),
    ensures
        ({
            let audio = app.carried_over(fresh, position);
            &&& audio.shown.track_id == Some(id)
            &&& audio.shown.position.total() == position.total()
            &&& audio.shown.duration == app.shelf.tracks[id].duration
            &&& app.transport.audio.shown.state == PlaybackState::Paused ==> audio.shown.state
                == PlaybackState::Paused
            &&& app.transport.audio.shown.state == PlaybackState::Playing ==> audio.shown.state
                == PlaybackState::Playing
            &&& audio.shown.volume == fresh.shown.volume
        }),
{
}

/// The artwork that is shown is that of the track that plays, and that of the item under the cursor
/// where none does.
pub proof fn law_artwork_is_that_of_what_plays(app: AppView)
    ensures
        app.front.audio_snapshot.track_id matches Some(id) ==> app.cover() == app.shelf.track(id),
        app.front.audio_snapshot.track_id is None && 0 <= app.lists.playlist_selection
            < app.shelf.active().items.len() ==> app.cover() == app.shelf.track(
            app.shelf.active().items[app.lists.playlist_selection],
        ),
{
}

/// Selecting a playlist's tab shows that playlist, closes the other panes, and plays nothing else
/// than what plays.
pub proof fn law_tabs_show_their_playlist(app: AppView, index: int, post: AppView, flow: Flow)
    requires
        0 <= index < app.shelf.playlists.len(),
        app.tab_selected(index, post, flow),
    ensures
        post.shelf.active_playlist == index,
        post.shelf.playlists == app.shelf.playlists,
        !post.panes.queue_open && !post.panes.soulseek_open && !post.panes.settings_open,
        post.transport.playing == app.transport.playing,
        post.transport.queue == app.transport.queue,
        index == app.shelf.active_playlist ==> post.lists.playlist_selection
            == app.lists.playlist_selection,
        index != app.shelf.active_playlist ==> post.lists.playlist_selection == 0,
{
    reveal(AppView::redealt);
}

} // verus!
