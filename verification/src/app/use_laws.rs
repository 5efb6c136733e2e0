//! What the player's operations are for.

use vstd::prelude::*;
use vstd::seq_lib::*;
use vstd::string::*;

use crate::app::columns::{fields_rise, law_sorted_columns_rise};
use crate::app::deal::places;
use crate::app::flow::Flow;
use crate::app::handle::seek_target;
use crate::app::laws::{handed, law_playing_asks_the_engine, playable};
use crate::app::playback::PlayOrigin;
use crate::app::playlists::{moved_down, moved_up};
use crate::app::resume::Startup;
use crate::app::state::{AppView, PrefsView, ShelfView, TransportView};
use crate::audio::{AudioDevice, AudioSnapshot, EngineView, Request};
use crate::model::{
    PlaybackOrder, PlaybackState, PlaylistColumn, PlaylistId, ReplayGainMode, Track, TrackId,
};
use crate::order::lemma_filter_members;
use crate::path_codec::shown_path;
use crate::settings::SettingId;
use crate::text::{lowercase, occurs, trimmed};
use crate::time::Duration;
use crate::util::exchanged;

verus! {

/// A playlist is found at its first place.
proof fn lemma_playlist_place(shelf: ShelfView, id: PlaylistId, from: int)
    ensures
        shelf.playlist_from(id, from) matches Some(place) ==> 0 <= from <= place
            < shelf.playlists.len() && shelf.playlists[place].id == id,
    decreases shelf.playlists.len() - from,
{
    if 0 <= from < shelf.playlists.len() {
        lemma_playlist_place(shelf, id, from + 1);
    }
}

/// Whether the player is in the middle of a playlist and would go on in it.
pub open spec fn goes_on_in(app: AppView, automatic: bool, place: int, index: usize) -> bool {
    &&& app.transport.queue.len() == 0
    &&& !(automatic && app.transport.stop_after_current)
    &&& app.transport.playing matches Some((id, at)) && at == index && app.shelf.playlist_place(id)
        == Some(place)
    &&& index < app.shelf.playlists[place].items.len() <= usize::MAX
    &&& place <= usize::MAX
}

/// The track that plays is the one that comes next in the chosen order, where its file is here
/// and the engine takes it: the first of those that follow. Only the end of a track that is to
/// be repeated plays the same one again.
pub proof fn law_the_next_in_order_plays(
    app: AppView,
    automatic: bool,
    refusals: Seq<Option<Seq<char>>>,
    place: int,
    index: usize,
)
    requires
        goes_on_in(app, automatic, place, index),
        refusals[0] is None,
        ({
            let order = if automatic
                || app.transport.playback_order != PlaybackOrder::RepeatTrack {
                app.transport.playback_order
            } else {
                PlaybackOrder::Default
            };
            let playlist = app.shelf.playlists[place];
            let next = app.transport.deal.successors(
                Some(playlist),
                app.shelf.tracks,
                app.transport.playing,
                index,
                order,
            ).1;
            next.len() > 0 && next[0] < playlist.items.len() && playable(
                app,
                playlist.items[next[0] as int],
            )
        }),
    ensures
        ({
            let order = if automatic
                || app.transport.playback_order != PlaybackOrder::RepeatTrack {
                app.transport.playback_order
            } else {
                PlaybackOrder::Default
            };
            let playlist = app.shelf.playlists[place];
            let next = app.transport.deal.successors(
                Some(playlist),
                app.shelf.tracks,
                app.transport.playing,
                index,
                order,
            ).1;
            let (after, result) = app.advanced(automatic, refusals);
            &&& result is Ok
            &&& after.transport.playing == Some((playlist.id, next[0]))
            &&& after.transport.audio.shown.track_id == Some(playlist.items[next[0] as int])
            &&& after.transport.audio.shown.state == PlaybackState::Playing
            &&& after.transport.audio.shown.position == Duration::zero()
            &&& after.shelf == app.shelf
        }),
{
    reveal(AppView::advanced);
    let (list_id, _) = app.transport.playing->0;
    lemma_playlist_place(app.shelf, list_id, 0);
    let playlist = app.shelf.playlists[place];
    let order = if automatic || app.transport.playback_order != PlaybackOrder::RepeatTrack {
        app.transport.playback_order
    } else {
        PlaybackOrder::Default
    };
    let (deal, next) = app.transport.deal.successors(
        Some(playlist),
        app.shelf.tracks,
        app.transport.playing,
        index,
        order,
    );
    let dealt = app.with_transport(TransportView { deal, ..app.transport });
    assert(app.shelf.playlist_at(place) == Some(playlist));
    if automatic && app.transport.playback_order == PlaybackOrder::RepeatTrack {
        assert(next =~= seq![index]);
        lemma_first_plays(app, place as usize, next, refusals);
    } else {
        lemma_first_plays(dealt, place as usize, next, refusals);
    }
}

/// The first candidate plays where its file is here and the engine takes it.
proof fn lemma_first_plays(
    app: AppView,
    place: usize,
    next: Seq<usize>,
    refusals: Seq<Option<Seq<char>>>,
)
    requires
        place < app.shelf.playlists.len(),
        next.len() > 0,
        next[0] < app.shelf.playlists[place as int].items.len(),
        playable(app, app.shelf.playlists[place as int].items[next[0] as int]),
        refusals[0] is None,
    ensures
        ({
            let playlist = app.shelf.playlists[place as int];
            let after = app.tried(place, next, refusals, 0);
            &&& after.transport.playing == Some((playlist.id, next[0]))
            &&& after.transport.audio.shown.track_id == Some(playlist.items[next[0] as int])
            &&& after.transport.audio.shown.state == PlaybackState::Playing
            &&& after.transport.audio.shown.position == Duration::zero()
            &&& after.shelf == app.shelf
        }),
{
    let origin = PlayOrigin::Playlist { playlist_index: place, item_index: next[0] };
    lemma_plays(app, place, next[0]);
    let (after, result) = app.played(origin, refusals[0]);
    assert(app.tried(place, next, refusals, 0) == after.with_transport(
        after.transport.dealt_to(next[0]),
    ));
}

proof fn lemma_plays(app: AppView, place: usize, item: usize)
    requires
        place < app.shelf.playlists.len(),
        item < app.shelf.playlists[place as int].items.len(),
        playable(app, app.shelf.playlists[place as int].items[item as int]),
    ensures
        ({
            let playlist = app.shelf.playlists[place as int];
            let (after, result) = app.played(
                PlayOrigin::Playlist { playlist_index: place, item_index: item },
                None,
            );
            &&& result is Ok
            &&& after.transport.playing == Some((playlist.id, item))
            &&& after.transport.audio.shown.track_id == Some(playlist.items[item as int])
            &&& after.transport.audio.shown.state == PlaybackState::Playing
            &&& after.transport.audio.shown.position == Duration::zero()
            &&& after.shelf == app.shelf
        }),
{
    reveal(AppView::played);
}

/// Gapless: the track that is held ready while another plays is the one that would be played at
/// its end, from the same place of the same playlist.
pub proof fn law_what_is_held_ready_plays_next(
    app: AppView,
    refusals: Seq<Option<Seq<char>>>,
    place: int,
    index: usize,
)
    requires
        goes_on_in(app, true, place, index),
        !app.transport.stop_after_current,
        app.transport.may_stage(),
        refusals[0] is None,
        ({
            let playlist = app.shelf.playlists[place];
            let next = app.transport.deal.successors(
                Some(playlist),
                app.shelf.tracks,
                app.transport.playing,
                index,
                app.transport.playback_order,
            ).1;
            next.len() > 0 && next[0] < playlist.items.len() && playable(
                app,
                playlist.items[next[0] as int],
            )
        }),
    ensures
        ({
            let (after, _) = app.advanced(true, refusals);
            let (ready, result) = app.staging(None);
            &&& result is Ok
            &&& ready.transport.staged_playback matches Some(staged) && Some(staged.track_id)
                == after.transport.audio.shown.track_id && staged.playlist
                == after.transport.playing && staged.queue_index is None
            &&& ready.transport.audio.staged matches Some(staged) && Some(staged.track_id)
                == after.transport.audio.shown.track_id
            &&& ready.transport.audio.shown.track_id == app.transport.audio.shown.track_id
        }),
{
    law_the_next_in_order_plays(app, true, refusals, place, index);
    reveal(AppView::staging);
    reveal(Seq::filter);
    let (list_id, _) = app.transport.playing->0;
    lemma_playlist_place(app.shelf, list_id, 0);
    let playlist = app.shelf.playlists[place];
    let items = playlist.items;
    let next = app.transport.deal.successors(
        Some(playlist),
        app.shelf.tracks,
        app.transport.playing,
        index,
        app.transport.playback_order,
    ).1;
    assert(app.shelf.playlist_at(place) == Some(playlist));
    let known = |n: usize| n < items.len();
    lemma_first_kept(next, known);
    let candidates = app.candidates().1;
    assert(next.filter(|n: usize| n < items.len())[0] == next[0]) by {
        lemma_first_kept(next, |n: usize| n < items.len());
    }
    assert(candidates[0].track_id == items[next[0] as int]);
    assert(app.first_ready(candidates, 0) == Some(0int));
}

proof fn lemma_first_kept(items: Seq<usize>, keep: spec_fn(usize) -> bool)
    requires
        items.len() > 0,
        keep(items[0]),
    ensures
        items.filter(keep).len() > 0,
        items.filter(keep)[0] == items[0],
    decreases items.len(),
{
    reveal(Seq::filter);
    if items.len() > 1 {
        lemma_first_kept(items.drop_last(), keep);
    } else {
        assert(items.drop_last() =~= Seq::empty());
        assert(items.drop_last().filter(keep) =~= Seq::empty());
    }
}

/// Going back: a track of which five seconds have been heard starts over; before that, the item
/// before it is played, or itself where there is none before it.
pub proof fn law_going_back(
    app: AppView,
    position: Duration,
    place: int,
    index: usize,
)
    requires
        app.transport.playing matches Some((id, at)) && at == index && app.shelf.playlist_place(id)
            == Some(place),
        place <= usize::MAX,
        ({
            let before = if index > 0 { index - 1 } else { 0 };
            before < app.shelf.playlists[place].items.len() && playable(
                app,
                app.shelf.playlists[place].items[before],
            )
        }),
    ensures
        ({
            let before = if index > 0 { index - 1 } else { 0 };
            let (after, result) = app.went_back(position, None);
            &&& result is Ok
            &&& position.secs >= 5 ==> after.transport.playing == app.transport.playing
                && after.transport.audio.shown.track_id == app.transport.audio.shown.track_id
                && after.transport.audio.asked == app.transport.audio.asked.push(
                (Request::Seek(Duration::zero()), None),
            )
            &&& position.secs < 5 ==> after.transport.playing == Some(
                (app.shelf.playlists[place].id, before as usize),
            ) && after.transport.audio.shown.track_id == Some(
                app.shelf.playlists[place].items[before],
            )
        }),
{
    reveal(AppView::played);
    let (list_id, _) = app.transport.playing->0;
    lemma_playlist_place(app.shelf, list_id, 0);
}

/// A seek by seconds goes so far from where the track is, to a whole second; before the beginning
/// it goes to the beginning.
pub proof fn law_seeking_goes_by_seconds(position: Duration, seconds: int)
    requires
        position.secs + seconds <= i64::MAX,
    ensures
        position.secs + seconds >= 0 ==> seek_target(position, seconds).secs == position.secs
            + seconds,
        position.secs + seconds < 0 ==> seek_target(position, seconds).secs == 0,
        seek_target(position, seconds).nanos == 0,
{
}

/// The same key pauses what plays and lets it play on; nothing else changes.
pub proof fn law_pausing_is_undone(
    app: AppView,
    paused: AppView,
    first: Flow,
    again: AppView,
    second: Flow,
)
    requires
        app.transport.audio.shown.state == PlaybackState::Playing,
        app.transport.audio.shown.track_id is Some,
        app.play_toggled(paused, first),
        paused.play_toggled(again, second),
    ensures
        paused.transport.audio.shown.state == PlaybackState::Paused,
        paused.transport.audio.shown.track_id == app.transport.audio.shown.track_id,
        paused.transport.playing == app.transport.playing,
        again == app,
        first is Done,
        second is Done,
{
}

/// The figures that a track is played at are those of the mode that is set, with the
/// preamplification and the protection from clipping that are set.
pub proof fn law_tracks_are_played_at_the_mode_that_is_set(
    app: AppView,
    track: Track,
    source: Seq<char>,
)
    ensures
        ({
            let plan = app.staged_view(track, source).gain;
            let info = track.replay_gain;
            &&& app.prefs.replay_gain_mode == ReplayGainMode::Track && info.track_gain is Some
                ==> plan.active && plan.gain == info.track_gain
            &&& app.prefs.replay_gain_mode == ReplayGainMode::Track && info.track_peak is Some
                ==> plan.peak == info.track_peak
            &&& app.prefs.replay_gain_mode == ReplayGainMode::Album && info.album_gain is Some
                ==> plan.active && plan.gain == info.album_gain
            &&& app.prefs.replay_gain_mode == ReplayGainMode::Album && info.album_peak is Some
                ==> plan.peak == info.album_peak
            &&& app.prefs.replay_gain_mode == ReplayGainMode::Off ==> !plan.active
            &&& plan.preamp == app.prefs.replay_gain_preamp
            &&& plan.prevent_clipping == app.prefs.replay_gain_prevent_clip
        }),
        app.transport.audio.shown.track_id == Some(track.id) && app.shelf.track(track.id) == Some(
            track,
        ) ==> app.gain_applied().transport.audio.gain == Some(app.staged_view(track, source).gain),
{
}

/// What is handed to the engine is the track that was asked for: the file behind it, its length,
/// its figures, and a number that no playback before it had.
pub proof fn law_the_engine_is_handed_the_track(
    app: AppView,
    playlist_index: usize,
    item_index: usize,
    refusal: Option<Seq<char>>,
)
    requires
        playlist_index < app.shelf.playlists.len(),
        item_index < app.shelf.playlists[playlist_index as int].items.len(),
        playable(app, app.shelf.playlists[playlist_index as int].items[item_index as int]),
    ensures
        ({
            let id = app.shelf.playlists[playlist_index as int].items[item_index as int];
            let track = app.shelf.tracks[id];
            let (after, _) = app.played(
                PlayOrigin::Playlist { playlist_index, item_index },
                refusal,
            );
            let (request, answer) = after.transport.audio.asked.last();
            &&& after.transport.audio.asked.len() == app.transport.audio.asked.len() + 1
            &&& answer == refusal
            &&& request matches Request::Load(staged) && staged.track_id == id && Some(
                staged.source,
            ) == app.link.source_of(track) && staged.duration == track.duration
                && staged.generation != app.transport.playback_generation
            &&& track.origin is Local ==> app.link.source_of(track) == Some(track.path@)
        }),
{
    let origin = PlayOrigin::Playlist { playlist_index, item_index };
    law_playing_asks_the_engine(app, origin, refusal);
    assert(handed(app, origin) is Some);
}

/// Whether an item of a list is shown under a filter: nothing is filtered by, or the track is
/// known and its title, artist, album or path holds the text, letter case left aside.
pub open spec fn is_found(shelf: ShelfView, needle: Seq<char>, i: int) -> bool {
    let id = shelf.playlists[shelf.active_playlist].items[i];
    needle.len() == 0 || (shelf.tracks.contains_key(id) && ({
        let track = shelf.tracks[id];
        let text = lowercase(needle);
        ||| occurs(text, lowercase(track.title@))
        ||| occurs(text, lowercase(track.artist@))
        ||| occurs(text, lowercase(track.album@))
        ||| occurs(text, lowercase(shown_path(track.path@)))
    }))
}

/// A filter shows the items of the playlist that match it, all of them and no others, in their
/// order.
pub proof fn law_filters_show_what_matches(shelf: ShelfView, filter: Seq<char>)
    requires
        shelf.playlists[shelf.active_playlist].items.len() <= usize::MAX,
    ensures
        forall|i: int|
            0 <= i < shelf.playlists[shelf.active_playlist].items.len() ==> (
            shelf.visible_items(filter).contains(i as usize) <==> #[trigger] is_found(
                shelf,
                trimmed(filter),
                i,
            )),
        forall|j: int, k: int|
            0 <= j < k < shelf.visible_items(filter).len() ==> shelf.visible_items(filter)[j]
                < shelf.visible_items(filter)[k],
{
    let needle = trimmed(filter);
    let items = shelf.active().items;
    let all = places(items.len());
    let seen = shelf.visible_items(filter);
    crate::app::browse::lemma_visible(shelf, filter);
    assert forall|i: int| 0 <= i < items.len() implies (seen.contains(i as usize)
        <==> #[trigger] is_found(shelf, needle, i)) by {
        assert(all[i] == i as usize);
        assert(all.contains(i as usize));
        if shelf.tracks.contains_key(items[i]) {
            let track = shelf.tracks[items[i]];
            let parts = seq![track.title@, track.artist@, track.album@, shown_path(track.path@)];
            assert(parts[0] == track.title@ && parts[1] == track.artist@ && parts[2]
                == track.album@ && parts[3] == shown_path(track.path@));
        }
    }
}

/// Removing takes the marked tracks out of the playlist, or the one under the cursor where none
/// is marked; the others stay in their order, and other playlists stay as they are.
pub proof fn law_removing_takes_out_the_selection(app: AppView, post: AppView, flow: Flow)
    requires
        app.wf(),
        app.selection_removed(post, flow),
    ensures
        ({
            let at = app.shelf.active_playlist;
            let items = app.shelf.playlists[at].items;
            let marked = app.lists.playlist_marked;
            let none = marked == Set::<TrackId>::empty();
            let cursor = app.lists.playlist_selection;
            let left = post.shelf.playlists[at].items;
            &&& forall|id: TrackId| #[trigger]
                left.contains(id) <==> items.contains(id) && (if none {
                    !(0 <= cursor < items.len() && items[cursor] == id)
                } else {
                    !marked.contains(id)
                })
            &&& forall|k: int|
                0 <= k < app.shelf.playlists.len() && k != at ==> post.shelf.playlists[k]
                    == app.shelf.playlists[k]
            &&& post.shelf.tracks == app.shelf.tracks
        }),
{
    let items = app.shelf.active().items;
    let gone = app.removed_tracks();
    lemma_filter_members(items, |id: TrackId| !gone.contains(id));
    crate::app::playlists::lemma_removed(app, post, flow);
}

/// Adding puts tracks behind those that a playlist holds already, and leaves other playlists as
/// they are.
pub proof fn law_adding_puts_tracks_at_the_end(
    app: AppView,
    index: int,
    ids: Seq<TrackId>,
    report: bool,
    post: AppView,
    flow: Flow,
)
    requires
        0 <= index < app.shelf.playlists.len(),
        app.tracks_added(index, ids, report, post, flow),
    ensures
        ({
            let before = app.shelf.playlists[index].items;
            let after = post.shelf.playlists[index].items;
            &&& before.len() <= after.len() && after.take(before.len() as int) == before
            &&& forall|id: TrackId| #[trigger]
                after.contains(id) <==> before.contains(id) || ids.contains(id)
            &&& forall|k: int|
                0 <= k < app.shelf.playlists.len() && k != index ==> post.shelf.playlists[k]
                    == app.shelf.playlists[k]
            &&& post.shelf.playlists[index].name == app.shelf.playlists[index].name
            &&& post.shelf.playlists[index].id == app.shelf.playlists[index].id
        }),
{
    let before = app.shelf.playlists[index].items;
    let after = post.shelf.playlists[index].items;
    let wanted = crate::app::browse::with_new(before, ids);
    assert forall|id: TrackId| #[trigger]
        wanted.contains(id) <==> before.contains(id) || ids.contains(id) by {
        crate::app::laws::law_adding_never_repeats(before, ids, id);
    }
    if before.len() > 0 {
        crate::app::laws::law_adding_never_repeats(before, ids, before[0]);
    }
    lemma_begins_with(before, ids);
    if wanted.len() == before.len() {
        assert(wanted =~= before);
    }
    assert(before.take(before.len() as int) =~= before);
}

proof fn lemma_begins_with(list: Seq<TrackId>, more: Seq<TrackId>)
    ensures
        crate::app::browse::with_new(list, more).len() >= list.len(),
        crate::app::browse::with_new(list, more).take(list.len() as int) == list,
    decreases more.len(),
{
    let n = list.len() as int;
    if more.len() == 0 {
        assert(list.take(n) =~= list);
    } else {
        lemma_begins_with(list, more.drop_last());
        let before = crate::app::browse::with_new(list, more.drop_last());
        assert(crate::app::browse::with_new(list, more).take(n) =~= before.take(n));
    }
}

/// Moved up, each of the items at rising places stands one place higher than before.
pub proof fn law_items_move_up_by_one(items: Seq<TrackId>, moving: Seq<usize>, n: nat)
    requires
        n <= moving.len(),
        forall|k: int| 0 <= k < moving.len() ==> 0 < #[trigger] moving[k] < items.len(),
        forall|j: int, k: int|
            0 <= j < k < moving.len() ==> #[trigger] moving[j] < #[trigger] moving[k],
    ensures
        moved_up(items, moving, n).len() == items.len(),
        forall|k: int|
            0 <= k < n ==> moved_up(items, moving, n)[moving[k] - 1]
                == items[#[trigger] moving[k] as int],
        forall|q: int|
            0 <= q < items.len() && (forall|k: int| 0 <= k < n ==> q > #[trigger] moving[k])
                ==> #[trigger] moved_up(items, moving, n)[q] == items[q],
    decreases n,
{
    if n > 0 {
        let m = (n - 1) as nat;
        law_items_move_up_by_one(items, moving, m);
        let before = moved_up(items, moving, m);
        let p = moving[n - 1] as int;
        let after = exchanged(before, p, p - 1);
        assert(before[p] == items[p]) by {
            assert forall|k: int| 0 <= k < m implies p > #[trigger] moving[k] by {
                assert(moving[k] < moving[n - 1]);
            }
        }
        assert forall|k: int| 0 <= k < n implies after[moving[k] - 1]
            == items[#[trigger] moving[k] as int] by {
            if k < m {
                assert(moving[k] < moving[n - 1]);
            }
        }
        assert forall|q: int|
            0 <= q < items.len() && (forall|k: int|
                0 <= k < n ==> q > #[trigger] moving[k]) implies #[trigger] after[q] == items[q] by {
            assert(q > moving[n - 1]);
            assert(before[q] == items[q]);
        }
    }
}

/// Moved down, each of the items at rising places stands one place lower than before.
pub proof fn law_items_move_down_by_one(items: Seq<TrackId>, moving: Seq<usize>, n: nat)
    requires
        n <= moving.len(),
        forall|k: int| 0 <= k < moving.len() ==> #[trigger] moving[k] + 1 < items.len(),
        forall|j: int, k: int|
            0 <= j < k < moving.len() ==> #[trigger] moving[j] < #[trigger] moving[k],
    ensures
        moved_down(items, moving, n).len() == items.len(),
        forall|k: int|
            moving.len() - n <= k < moving.len() ==> moved_down(items, moving, n)[moving[k] + 1]
                == items[#[trigger] moving[k] as int],
        forall|q: int|
            0 <= q < items.len() && (forall|k: int|
                moving.len() - n <= k < moving.len() ==> q < #[trigger] moving[k])
                ==> #[trigger] moved_down(items, moving, n)[q] == items[q],
    decreases n,
{
    if n > 0 {
        let m = (n - 1) as nat;
        law_items_move_down_by_one(items, moving, m);
        let before = moved_down(items, moving, m);
        let at = moving.len() - n;
        let p = moving[at] as int;
        let after = exchanged(before, p, p + 1);
        assert(before[p] == items[p]) by {
            assert forall|k: int| moving.len() - m <= k < moving.len() implies p
                < #[trigger] moving[k] by {
                assert(moving[at] < moving[k]);
            }
        }
        assert forall|k: int| moving.len() - n <= k < moving.len() implies after[moving[k] + 1]
            == items[#[trigger] moving[k] as int] by {
            if k > at {
                assert(moving[at] < moving[k]);
            }
        }
        assert forall|q: int|
            0 <= q < items.len() && (forall|k: int|
                moving.len() - n <= k < moving.len() ==> q
                    < #[trigger] moving[k]) implies #[trigger] after[q] == items[q] by {
            assert(q < moving[at]);
            assert(before[q] == items[q]);
        }
    }
}

/// A click on a column sorts the playlist by it: the tracks rise in its field, and a second click
/// turns the order round. Nothing is lost.
pub proof fn law_columns_sort_the_playlist(
    app: AppView,
    column: PlaylistColumn,
    post: AppView,
    flow: Flow,
    i: int,
    j: int,
)
    requires
        app.wf(),
        app.playlist_sorted(column, post, flow),
        0 <= i < j < app.shelf.active().items.len(),
    ensures
        ({
            let items = post.shelf.playlists[app.shelf.active_playlist].items;
            let tracks = app.shelf.tracks;
            let again = app.lists.playlist_sort == Some((column, true));
            &&& items.to_multiset() == app.shelf.active().items.to_multiset()
            &&& post.lists.playlist_sort == Some((column, !again))
            &&& !again && tracks.contains_key(items[j]) ==> tracks.contains_key(items[i])
                && fields_rise(tracks[items[i]], tracks[items[j]], column)
            &&& again && tracks.contains_key(items[i]) ==> tracks.contains_key(items[j])
                && fields_rise(tracks[items[j]], tracks[items[i]], column)
        }),
{
    law_sorted_columns_rise(app.shelf.active().items, app.shelf.tracks, column, i, j);
}

/// Queueing puts the selection behind what waits in the queue, and plays nothing at once.
pub proof fn law_queueing_waits_its_turn(app: AppView, post: AppView)
    requires
        app.selection_queued(post),
    ensures
        post.transport.queue =~= app.transport.queue + app.selected_library_tracks(),
        post.transport.playing == app.transport.playing,
        post.transport.audio.shown.track_id == app.transport.audio.shown.track_id,
        post.shelf == app.shelf,
{
    reveal(AppView::restaged);
    reveal(AppView::staging);
}

/// Taking an entry out of the queue takes the one under the cursor and no other.
pub proof fn law_dequeueing_takes_the_entry_under_the_cursor(app: AppView, post: AppView)
    requires
        app.entry_dequeued(post),
        0 <= app.transport.queue_selection < app.transport.queue.len(),
    ensures
        ({
            let at = app.transport.queue_selection;
            let queue = app.transport.queue;
            &&& post.transport.queue.len() == queue.len() - 1
            &&& post.transport.queue.take(at) =~= queue.take(at)
            &&& post.transport.queue.skip(at) =~= queue.skip(at + 1)
            &&& post.transport.playing == app.transport.playing
            &&& post.shelf == app.shelf
        }),
{
    reveal(AppView::restaged);
    reveal(AppView::staging);
}

/// A player that starts is set as the last one was when it was saved: what is saved of it again
/// is what it was started with, as long as its engine has that volume and there is such a
/// playlist.
pub proof fn law_a_start_takes_up_what_was_saved(
    startup: Startup,
    audio: EngineView,
    shown: AudioSnapshot,
)
    requires
        0 <= startup.saved@.active_playlist < startup.playlists@.len(),
        audio.shown.volume == startup.saved@.volume,
    ensures
        AppView::opened(startup, audio, shown).saved_state() == startup.saved@,
        AppView::opened(startup, audio, shown).shelf.playlists.len() == startup.playlists@.len(),
        forall|i: int|
            0 <= i < startup.playlists@.len() ==> AppView::opened(
                startup,
                audio,
                shown,
            ).shelf.playlists[i] == (#[trigger] startup.playlists@[i])@,
        AppView::opened(startup, audio, shown).transport.playing is None,
        AppView::opened(startup, audio, shown).transport.queue.len() == 0,
{
    reveal(AppView::redealt);
}

/// Changing a switch turns that switch and no other; changing it again turns it back. The mode of
/// the loudness goes on to the next, and back the other way.
pub proof fn law_settings_change_alone(
    prefs: PrefsView,
    shown: AudioSnapshot,
    id: SettingId,
    other: SettingId,
    delta: int,
    preamp: Seq<char>,
)
    requires
        id != SettingId::OutputDevice,
        id != SettingId::ReplayGainPreamp,
    ensures
        ({
            let changed = prefs.adjusted(id, delta);
            let before = crate::app::prefs::setting_text(prefs, shown, id, preamp);
            let after = crate::app::prefs::setting_text(changed, shown, id, preamp);
            &&& other != id ==> crate::app::prefs::setting_text(changed, shown, other, preamp)
                == crate::app::prefs::setting_text(prefs, shown, other, preamp)
            &&& before != after
            &&& id != SettingId::ReplayGainMode ==> changed.adjusted(id, delta) == prefs
            &&& delta >= 0 ==> changed.adjusted(id, -1) == prefs
            &&& changed.replay_gain_preamp == prefs.replay_gain_preamp
            &&& id != SettingId::ReplayGainMode ==> {
                ||| before == "On"@ && after == "Off"@
                ||| before == "Off"@ && after == "On"@
            }
        }),
{
    reveal_strlit("On");
    reveal_strlit("Off");
    reveal_strlit("None");
    reveal_strlit("Track");
    reveal_strlit("Album");
    assert("On"@.len() == 2 && "Off"@.len() == 3);
    assert("None"@.len() == 4 && "Track"@[0] == 'T' && "Album"@[0] == 'A');
    assert("None"@[0] == 'N');
}

/// Going through the output devices one way and back comes to the same one; from the system's
/// own, the first step goes to the first device.
pub proof fn law_devices_go_round(prefs: PrefsView, devices: Seq<AudioDevice>)
    requires
        devices.len() > 0,
        forall|i: int, j: int|
            0 <= i < j < devices.len() ==> (#[trigger] devices[i]).id@ != (#[trigger] devices[j]).id@,
        prefs.preferred_output_device matches Some(id) ==> exists|i: int|
            0 <= i < devices.len() && (#[trigger] devices[i]).id@ == id,
    ensures
        prefs.preferred_output_device is None ==> prefs.device_chosen(
            devices,
            1,
        ).preferred_output_device == Some(devices[0].id@),
        prefs.device_chosen(devices, 1).device_chosen(devices, -1).preferred_output_device
            == prefs.preferred_output_device,
        prefs.device_chosen(devices, 1).preferred_output_device != prefs.preferred_output_device,
{
    let n = devices.len() as int + 1;
    lemma_device_places(devices);
    let current = match prefs.preferred_output_device {
        Some(id) => {
            let i = choose|i: int| 0 <= i < devices.len() && (#[trigger] devices[i]).id@ == id;
            assert(crate::app::prefs::device_place(devices, devices[i].id@, 0) == Some(i));
            i + 1
        },
        None => 0,
    };
    let next = (current + 1) % n;
    if current + 1 == n {
        vstd::arithmetic::div_mod::lemma_mod_self_0(n);
        assert((0 - 1) % n == n - 1) by {
            vstd::arithmetic::div_mod::lemma_mod_add_multiples_vanish(-1, n);
            vstd::arithmetic::div_mod::lemma_small_mod((n - 1) as nat, n as nat);
        }
    } else {
        vstd::arithmetic::div_mod::lemma_small_mod((current + 1) as nat, n as nat);
        vstd::arithmetic::div_mod::lemma_small_mod(current as nat, n as nat);
        assert(crate::app::prefs::device_place(devices, devices[next - 1].id@, 0) == Some(
            next - 1,
        ));
    }
}

proof fn lemma_device_places(devices: Seq<AudioDevice>)
    requires
        forall|i: int, j: int|
            0 <= i < j < devices.len() ==> (#[trigger] devices[i]).id@ != (#[trigger] devices[j]).id@,
    ensures
        forall|i: int|
            0 <= i < devices.len() ==> crate::app::prefs::device_place(
                devices,
                (#[trigger] devices[i]).id@,
                0,
            ) == Some(i),
{
    assert forall|i: int| 0 <= i < devices.len() implies crate::app::prefs::device_place(
        devices,
        (#[trigger] devices[i]).id@,
        0,
    ) == Some(i) by {
        lemma_device_place(devices, i, 0);
    }
}

proof fn lemma_device_place(devices: Seq<AudioDevice>, i: int, from: int)
    requires
        0 <= from <= i < devices.len(),
        forall|j: int, k: int|
            0 <= j < k < devices.len() ==> (#[trigger] devices[j]).id@ != (#[trigger] devices[k]).id@,
    ensures
        crate::app::prefs::device_place(devices, devices[i].id@, from) == Some(i),
    decreases i - from,
{
    if from < i {
        assert(devices[from].id@ != devices[i].id@);
        lemma_device_place(devices, i, from + 1);
    }
}

/// Closing a playlist takes that one away and leaves the others as they are; what plays from it
/// stops, and what plays from another goes on. The last one stays.
pub proof fn law_closing_takes_one_playlist(app: AppView, post: AppView, flow: Flow)
    requires
        app.wf(),
        app.playlist_closed(post, flow),
    ensures
        ({
            let at = app.shelf.active_playlist;
            let lists = app.shelf.playlists;
            let left = post.shelf.playlists;
            &&& lists.len() == 1 ==> left == lists
            &&& lists.len() > 1 ==> left.len() == lists.len() - 1 && left.take(at) =~= lists.take(
                at,
            ) && left.skip(at) =~= lists.skip(at + 1)
            &&& 0 <= post.shelf.active_playlist < left.len()
            &&& post.shelf.tracks == app.shelf.tracks
            &&& lists.len() > 1 ==> (app.transport.playing matches Some((id, _)) ==> {
                &&& id == lists[at].id ==> post.transport.playing is None
                    && post.transport.audio.shown.state == PlaybackState::Stopped
                &&& id != lists[at].id ==> post.transport == app.transport
            })
        }),
{
}

/// A new playlist stands behind the others and is shown; a playlist that is renamed keeps its
/// place and its tracks.
pub proof fn law_playlists_are_made_and_renamed(
    app: AppView,
    made: crate::model::PlaylistView,
    after_making: AppView,
    making: Flow,
    place: int,
    name: Seq<char>,
    after_naming: AppView,
    naming: Flow,
)
    requires
        app.playlist_made(Ok(made), after_making, making),
        0 <= place < app.shelf.playlists.len(),
        app.shelf.playlist_place(app.shelf.playlists[place].id) == Some(place),
        app.after_rename(Ok(()), app.shelf.playlists[place].id, name, after_naming, naming),
    ensures
        after_making.shelf.playlists =~= app.shelf.playlists.push(made),
        after_making.shelf.playlists[after_making.shelf.active_playlist] == made,
        after_naming.shelf.playlists.len() == app.shelf.playlists.len(),
        forall|k: int|
            0 <= k < app.shelf.playlists.len() ==> {
                let after = #[trigger] after_naming.shelf.playlists[k];
                &&& after.id == app.shelf.playlists[k].id
                &&& after.items == app.shelf.playlists[k].items
                &&& after.name == if k == place { name } else { app.shelf.playlists[k].name }
            },
        after_naming.transport == app.transport,
{
    reveal(AppView::redealt);
}

} // verus!
