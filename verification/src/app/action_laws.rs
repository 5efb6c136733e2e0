//! What actions, selections and servers are for.

use vstd::prelude::*;
use vstd::string::*;

use crate::action::Action;
use crate::app::browse::{lemma_selected_items, row_tracks, tracks_below};
use crate::app::flow::{failed_with, Ask, EffectView, Flow, Next, ResolvedPath};
use crate::app::laws::{law_a_full_catalog_replaces, law_adding_never_repeats};
use crate::app::playback::PlayOrigin;
use crate::app::scan::lemma_resolved_folders;
use crate::app::state::{AppView, ShelfView};
use crate::keys::{law_rows_are_listed, rows_in_order};
use crate::model::{
    Focus, PlaybackOrder, PlaylistColumn, ReplayGainMode, Track, TrackId, TrackOrigin,
};
use crate::net::addr::SocketAddr;
use crate::net::credentials::SavedRemoteView;
use crate::net::server::etag_text;
use crate::order::views;
use crate::overlay::OverlayView;
use crate::tree::EntryView;

verus! {

/// The actions on playback go on and back, start and pause, seek, turn the order of play, fill and
/// empty the queue, and set the stop, as their names say.
pub proof fn law_playback_actions_do_what_they_name(
    app: AppView,
    seconds: i64,
    delta: i32,
    post: AppView,
    flow: Flow,
)
    ensures
        app.playback_runs(Action::Next, post, flow) == app.goes_ahead(post, flow),
        app.playback_runs(Action::Previous, post, flow) == app.goes_back(post, flow),
        app.playback_runs(Action::TogglePlay, post, flow) == app.play_toggled(post, flow),
        app.playback_runs(Action::SeekRelative(seconds), post, flow) == app.seeks_by(
            seconds as int,
            post,
            flow,
        ),
        app.playback_runs(Action::CyclePlaybackOrder, post, flow) == app.order_cycled(post, flow),
        app.playback_runs(Action::QueueSelection, post, flow) == (app.selection_queued(post)
            && flow is Done),
        app.playback_runs(Action::ClearQueue, post, flow) == (app.queue_cleared(post)
            && flow is Done),
        app.playback_runs(Action::ToggleStopAfterCurrent, post, flow) == (app.stop_toggled(post)
            && flow is Done),
        app.playback_runs(Action::SettingsAdjust(delta), post, flow) == app.setting_adjusted(
            delta,
            post,
            flow,
        ),
        app.playback_runs(Action::Stop, post, flow) ==> post.transport.playing is None
            && post.shelf == app.shelf,
{
}

/// The actions on playlists select, close, rename, sort and fill the playlists, and activate, move
/// and take out what is selected.
pub proof fn law_playlist_actions_do_what_they_name(
    app: AppView,
    index: usize,
    delta: i32,
    column: PlaylistColumn,
    post: AppView,
    flow: Flow,
)
    ensures
        app.playlist_runs(Action::SelectPlaylist(index), post, flow) == app.tab_selected(
            index as int,
            post,
            flow,
        ),
        app.playlist_runs(Action::ClosePlaylist, post, flow) == app.view_closed(post, flow),
        app.playlist_runs(Action::ActivateSelection, post, flow) == app.selection_activated(
            post,
            flow,
        ),
        app.playlist_runs(Action::RemoveSelection, post, flow) == app.current_removed(post, flow),
        app.playlist_runs(Action::MovePlaylistItems(delta), post, flow) == app.items_moved(
            delta as int,
            post,
            flow,
        ),
        app.playlist_runs(Action::SortPlaylist(column), post, flow) == app.playlist_sorted(
            column,
            post,
            flow,
        ),
        app.playlist_runs(Action::AddSelectionToPlaylist(index), post, flow)
            == app.selection_added(index as int, post, flow),
        app.playlist_runs(Action::BeginRenamePlaylist, post, flow) ==> post.front.overlay
            == (OverlayView::Rename {
            playlist_id: app.shelf.active().id,
            text: app.shelf.active().name,
        }),
{
}

/// The actions on cursors move the cursor by as many rows, or ten times as many for pages.
pub proof fn law_cursors_move_as_told(app: AppView, delta: i32, post: AppView)
    ensures
        app.cursor_runs(Action::MoveSelection(delta), post) ==> post == app.cursor_moved(
            delta as int,
        ),
        -100_000_000 < delta < 100_000_000 && app.cursor_runs(Action::PageSelection(delta), post)
            ==> post == app.cursor_moved(delta * 10),
{
}

/// Selecting a row goes to the row that is named.
pub proof fn law_rows_are_selected_as_told(app: AppView, index: usize, post: AppView)
    ensures
        app.cursor_runs(Action::SelectAlbumRow(index), post) ==> post == app.album_row_selected(
            index as int,
        ),
{
}

/// Emptying the queue leaves nothing in it, and does not touch what plays.
pub proof fn law_the_queue_is_emptied(app: AppView, post: AppView)
    requires
        app.queue_cleared(post),
    ensures
        post.transport.queue.len() == 0,
        post.transport.playing == app.transport.playing,
        post.transport.audio.shown.track_id == app.transport.audio.shown.track_id,
        post.shelf == app.shelf,
{
    reveal(AppView::restaged);
    reveal(AppView::staging);
}

/// Turning the stop after the current track round sets it where it was not set, and takes it away
/// where it was; what plays goes on.
pub proof fn law_the_stop_is_turned_round(app: AppView, post: AppView)
    requires
        app.stop_toggled(post),
    ensures
        post.transport.stop_after_current == !app.transport.stop_after_current,
        post.transport.queue == app.transport.queue,
        post.transport.playing == app.transport.playing,
        post.transport.audio.shown.track_id == app.transport.audio.shown.track_id,
        post.shelf == app.shelf,
{
    reveal(AppView::restaged);
    reveal(AppView::staging);
}

/// The orders of play follow one another in a ring that goes through all of them, and so do the
/// modes of the loudness.
pub proof fn law_orders_and_modes_go_round(order: PlaybackOrder, mode: ReplayGainMode)
    ensures
        order.following().number() == if order.number() == 4 {
            0
        } else {
            order.number() + 1
        },
        order.following().following().following().following().following() == order,
        mode.following().number() == if mode.number() == 2 {
            0
        } else {
            mode.number() + 1
        },
        mode.following().following().following() == mode,
{
}

/// Whether a row of the library is one that an action on the selection takes: a marked one, or the
/// one under the cursor where none is marked.
pub open spec fn is_taken(marked: Set<usize>, selection: usize, row: int) -> bool {
    if forall|r: usize| !(#[trigger] marked.contains(r)) {
        row == selection
    } else {
        0 <= row <= usize::MAX && marked.contains(row as usize)
    }
}

/// Whether a track stands below a row that is taken.
pub open spec fn is_below(
    rows: Seq<EntryView>,
    marked: Set<usize>,
    selection: usize,
    id: TrackId,
) -> bool {
    exists|row: int|
        0 <= row < rows.len() && is_taken(marked, selection, row) && (
        #[trigger] rows[row]).track_ids.contains(id)
}

proof fn lemma_tracks_below(rows: Seq<EntryView>, list: Seq<usize>, n: nat, id: TrackId)
    requires
        n <= list.len(),
    ensures
        tracks_below(rows, list, n).contains(id) <==> exists|k: int|
            0 <= k < n && #[trigger] list[k] < rows.len() && rows[list[k] as int].track_ids.contains(
                id,
            ),
        tracks_below(rows, list, n).no_duplicates(),
    decreases n,
{
    if n > 0 {
        let m = (n - 1) as nat;
        lemma_tracks_below(rows, list, m, id);
        let before = tracks_below(rows, list, m);
        if list[m as int] < rows.len() {
            law_adding_never_repeats(before, rows[list[m as int] as int].track_ids, id);
        }
        if before.contains(id) {
            let k = choose|k: int|
                0 <= k < m && #[trigger] list[k] < rows.len()
                    && rows[list[k] as int].track_ids.contains(id);
            assert(list[k] < rows.len());
        }
    }
}

/// The selection of the library is what stands below the marked rows, or below the cursor where
/// none is marked, and no track twice.
pub proof fn law_the_library_selection_is_what_is_marked(
    rows: Seq<EntryView>,
    marked: Set<usize>,
    selection: usize,
    id: TrackId,
)
    requires
        marked.finite(),
        rows.len() > 0,
    ensures
        row_tracks(rows, marked, selection).contains(id) <==> is_below(
            rows,
            marked,
            selection,
            id,
        ),
        row_tracks(rows, marked, selection).no_duplicates(),
{
    let marks = if marked == Set::<usize>::empty() {
        Set::empty().insert(selection)
    } else {
        marked
    };
    let list = rows_in_order(marks);
    law_rows_are_listed(marks);
    lemma_tracks_below(rows, list, list.len(), id);
    let none = forall|r: usize| !(#[trigger] marked.contains(r));
    assert(none <==> marked =~= Set::<usize>::empty());
    assert forall|row: usize| list.contains(row) <==> is_taken(marked, selection, row as int) by {
        assert(list.contains(row) <==> marks.contains(row));
    }
    if row_tracks(rows, marked, selection).contains(id) {
        let k = choose|k: int|
            0 <= k < list.len() && #[trigger] list[k] < rows.len()
                && rows[list[k] as int].track_ids.contains(id);
        assert(list.contains(list[k]));
        assert(rows[list[k] as int].track_ids.contains(id));
    }
    if is_below(rows, marked, selection, id) {
        let row = choose|row: int|
            0 <= row < rows.len() && is_taken(marked, selection, row) && (
            #[trigger] rows[row]).track_ids.contains(id);
        assert(list.contains(row as usize));
        let k = choose|k: int| 0 <= k < list.len() && list[k] == row as usize;
        assert(list[k] < rows.len());
    }
}

/// The selection of the playlist is its marked items, or the one under the cursor where none of
/// its items is marked.
pub proof fn law_the_playlist_selection_is_what_is_marked(
    shelf: ShelfView,
    marked: Set<TrackId>,
    selection: int,
    id: TrackId,
)
    requires
        marked.finite(),
        0 <= selection < shelf.active().items.len(),
    ensures
        ({
            let items = shelf.active().items;
            let taken = shelf.selected_items(marked, selection);
            &&& marked.contains(id) && items.contains(id) ==> taken.contains(id)
            &&& taken.contains(id) ==> items.contains(id) && (marked.contains(id) || id
                == items[selection])
            &&& (forall|i: int| 0 <= i < items.len() ==> !marked.contains(#[trigger] items[i]))
                ==> taken == seq![items[selection]]
            &&& taken.len() > 0
        }),
{
    lemma_selected_items(shelf, marked, selection);
    let items = shelf.active().items;
    let taken = shelf.selected_items(marked, selection);
    let held = shelf.held_items(marked);
    if taken.contains(id) && taken != held {
        assert(items.contains(items[selection]));
        assert(id == items[selection]);
    }
    if forall|i: int| 0 <= i < items.len() ==> !marked.contains(#[trigger] items[i]) {
        if held.len() > 0 {
            assert(held.contains(held[0]));
            let i = choose|i: int| 0 <= i < items.len() && items[i] == held[0];
            assert(!marked.contains(items[i]));
        }
    }
}

/// Enter plays the item under the cursor of the playlist and adds what is selected in the library
/// to it.
pub proof fn law_enter_plays_or_adds(app: AppView, post: AppView, flow: Flow)
    requires
        app.selection_activated(post, flow),
    ensures
        app.lists.focus == Focus::Playlist && !app.panes.soulseek_open
            && app.shelf.active().items.len() > 0 ==> app.plays(
            PlayOrigin::Playlist {
                playlist_index: app.shelf.active_playlist as usize,
                item_index: app.lists.playlist_selection as usize,
            },
            post,
            flow,
        ),
        app.lists.focus == Focus::AlbumList && app.selected_album_tracks().len() > 0
            ==> app.tracks_added(
            app.shelf.active_playlist,
            app.selected_album_tracks(),
            true,
            post,
            flow,
        ),
{
    if app.lists.focus == Focus::Playlist && !app.panes.soulseek_open
        && app.shelf.active().items.len() > 0 {
        let refusal = choose|refusal: Option<Seq<char>>|
            match #[trigger] app.played_selected(refusal) {
                (after, Ok(())) => post == after && flow is Done,
                (after, Err(error)) => post == after && failed_with(flow, error),
            };
        let origin = PlayOrigin::Playlist {
            playlist_index: app.shelf.active_playlist as usize,
            item_index: app.lists.playlist_selection as usize,
        };
        assert(app.played_selected(refusal) == app.played(origin, refusal));
    }
}

/// Loudness is measured for local tracks whose files are there; each job names the track's own
/// path, artist and album.
pub proof fn law_gain_jobs_are_the_tracks(
    app: AppView,
    ids: Seq<TrackId>,
    exist: Seq<bool>,
    n: nat,
    k: int,
)
    requires
        n <= ids.len(),
        ids.len() == exist.len(),
        0 <= k < app.gain_jobs(ids, exist, n).len(),
    ensures
        ({
            let job = app.gain_jobs(ids, exist, n)[k];
            &&& ids.contains(job.id)
            &&& app.shelf.tracks.contains_key(job.id)
            &&& job.path@ == app.shelf.tracks[job.id].path@
            &&& job.artist@ == app.shelf.tracks[job.id].artist@
            &&& job.album@ == app.shelf.tracks[job.id].album@
        }),
    decreases n,
{
    if n > 0 {
        let m = (n - 1) as nat;
        assert(ids.contains(ids[n - 1]));
        if k < app.gain_jobs(ids, exist, m).len() {
            law_gain_jobs_are_the_tracks(app, ids, exist, m, k);
        }
    }
}

/// A server is dialled with the token and the pin that are remembered for its address, and with
/// none where another address is remembered.
pub proof fn law_servers_are_dialled_with_their_token(
    app: AppView,
    address: SocketAddr,
    text: Seq<char>,
    saved: SavedRemoteView,
)
    ensures
        ({
            let known = app.connected_to(address, text, Some(saved));
            let fresh = app.connected_to(address, text, None);
            let told = known.outbox.last();
            &&& known.link.remote && fresh.link.remote
            &&& known.outbox.drop_last() =~= app.outbox
            &&& saved.address == text ==> (told matches EffectView::Connect {
                address: a,
                token,
                pin,
            } && a == address && token == Some(saved.token) && (pin == Some(saved.fingerprint)
                || saved.fingerprint.len() == 0))
            &&& saved.address != text ==> (told matches EffectView::Connect {
                address: a,
                token,
                pin,
            } && a == address && token is None && pin is None)
            &&& fresh.outbox.last() matches EffectView::Connect { address: a, token, pin }
                && a == address && token is None && pin is None
        }),
{
}

/// A full catalog leaves, of the tracks of its server, those that it lists, and of all others every
/// one; a change takes out what it says is gone.
pub proof fn law_catalogs_take_out_their_own(
    shelf: ShelfView,
    fingerprint: Seq<char>,
    listed: Seq<Seq<char>>,
    removed: Seq<Seq<char>>,
    id: TrackId,
)
    requires
        shelf.tracks.dom().finite(),
        shelf.tracks.contains_key(id),
    ensures
        ({
            let track = shelf.tracks[id];
            let full = shelf.without_gone(
                fingerprint,
                shelf.gone_tracks(fingerprint, listed, removed, true),
            );
            let change = shelf.without_gone(
                fingerprint,
                shelf.gone_tracks(fingerprint, listed, removed, false),
            );
            &&& track.origin is Local ==> full.track(id) == Some(track) && change.track(id)
                == Some(track)
            &&& track.origin matches TrackOrigin::Remote { fingerprint: fp, remote_id, .. } ==> {
                &&& fp@ != fingerprint ==> full.track(id) == Some(track) && change.track(id)
                    == Some(track)
                &&& fp@ == fingerprint ==> {
                    &&& change.track(id) == if removed.contains(remote_id@) {
                        None
                    } else {
                        Some(track)
                    }
                    &&& !listed.contains(remote_id@) ==> full.track(id) is None
                    &&& listed.contains(remote_id@) && !removed.contains(remote_id@)
                        ==> full.track(id) == Some(track)
                }
            }
        }),
{
    law_a_full_catalog_replaces(shelf, fingerprint, listed, removed, id);
}

/// A track that a server shares is fetched under the identifier, the size and the mark of its
/// version that the server gives the file.
pub proof fn law_fetches_name_what_the_server_has(app: AppView, track: Track)
    requires
        track.origin is Remote,
        app.link.source_of(track) is None,
    ensures
        app.link.fetch_ahead(track) matches Some(EffectView::Fetch { remote_id, file_size, etag })
            && remote_id == track.origin->remote_id@ && file_size == track.file_size && etag
            == etag_text(track.modified_ns, track.file_size),
{
}

/// A scanned track is handed to the store, and when it is stored it is in the library; where it was
/// added by hand it goes to the playlist that is shown.
pub proof fn law_scanned_tracks_are_kept(
    app: AppView,
    track: Track,
    add: bool,
    post: AppView,
    flow: Flow,
)
    requires
        app.after_track(Ok(track), add, post, flow),
    ensures
        !add ==> post.shelf.track(track.id) == Some(track) && post.shelf.playlists
            == app.shelf.playlists && flow is Done,
        add ==> app.with_track(track).tracks_added(
            app.shelf.active_playlist,
            seq![track.id],
            false,
            post,
            flow,
        ),
        forall|id: TrackId|
            id != track.id && !add ==> post.shelf.track(id) == #[trigger] app.shelf.track(id),
{
}

/// Of the paths that are added all are scanned, and the folders among them become folders of the
/// library first.
pub proof fn law_added_folders_become_library_folders(
    app: AppView,
    found: Seq<ResolvedPath>,
    post: AppView,
    flow: Flow,
)
    requires
        app.after_resolving(found, post, flow),
    ensures
        (forall|i: int| 0 <= i < found.len() ==> !(#[trigger] found[i]).is_dir) ==> {
            &&& flow is Done
            &&& post.outbox.drop_last() =~= app.outbox
            &&& post.outbox.last() matches EffectView::Scan { paths, add_to_playlist, .. }
                && add_to_playlist && paths.len() == found.len() && (forall|i: int|
                0 <= i < found.len() ==> #[trigger] paths[i] == found[i].path@)
        },
        (exists|i: int| 0 <= i < found.len() && (#[trigger] found[i]).is_dir) ==> (
        flow matches Flow::Ask(Ask::AddRoots { paths: roots }, Next::RootsAdded { paths })
            && views(paths@).len() == found.len() && (forall|i: int|
            0 <= i < found.len() ==> #[trigger] views(paths@)[i] == found[i].path@) && (forall|
            i: int,
        |
            0 <= i < found.len() && (#[trigger] found[i]).is_dir ==> views(roots@).contains(
                found[i].path@,
            ))),
{
    lemma_resolved_folders(found);
}

} // verus!
