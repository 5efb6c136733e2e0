//! What holds of the player as a whole.

use vstd::prelude::*;
use vstd::string::*;

use crate::app::browse::with_new;
use crate::app::deal::item_count;
use crate::app::playback::PlayOrigin;
use crate::app::playlists::{moved_down, moved_up};
use crate::app::remote::{is_gone, is_missing, remote_id_of};
use crate::app::state::{AppView, ShelfView, StagedPlayback, TransportView};
use crate::audio::{AudioEvent, Request, StagedView};
use crate::keys::{ids_in_order, law_ids_are_listed, tracks_in_order};
use crate::model::{PlaybackOrder, PlaybackState, PlaylistId, Track, TrackId};
use crate::order::lemma_filter_members;
use crate::util::lemma_exchange_keeps_items;

verus! {

/// Whether a track can be played right away: it is known and sound, and its file is here.
pub open spec fn playable(app: AppView, id: TrackId) -> bool {
    app.shelf.track(id) matches Some(track) && track.id == id && !track.unavailable
        && track.scan_error is None && app.link.source_of(track) is Some
}

/// The queue plays before the playlist: whoever goes on, the first track of the queue is taken
/// out and plays, as long as nothing stops the player and the engine takes the track.
pub proof fn law_the_queue_plays_first(
    app: AppView,
    automatic: bool,
    refusals: Seq<Option<Seq<char>>>,
)
    requires
        app.transport.queue.len() > 0,
        playable(app, app.transport.queue[0]),
        refusals[0] is None,
        !(automatic && app.transport.stop_after_current),
    ensures
        ({
            let (after, result) = app.advanced(automatic, refusals);
            &&& result is Ok
            &&& after.transport.queue == app.transport.queue.skip(1)
            &&& after.transport.audio.shown.track_id == Some(app.transport.queue[0])
            &&& after.transport.playing == app.transport.playing
            &&& after.shelf == app.shelf
        }),
{
    reveal(AppView::advanced);
    reveal(AppView::played);
    let first = app.with_transport(app.transport.dequeued(0));
    assert(first.shelf.target(PlayOrigin::Track(app.transport.queue[0])) is Ok);
}

/// What the engine is handed to play from an origin: nothing where there is nothing sound to
/// play, or its file is not here.
pub open spec fn handed(app: AppView, origin: PlayOrigin) -> Option<StagedView> {
    match app.shelf.sound_target(origin) {
        Err(_) => None,
        Ok((track, _)) => match app.link.source_of(track) {
            Some(source) => Some(app.staged_view(track, source)),
            None => None,
        },
    }
}

/// Playing asks the engine once, for the track that is to be played; whether that goes well is
/// up to the engine alone. Where there is nothing to hand over, the engine is not asked.
pub proof fn law_playing_asks_the_engine(
    app: AppView,
    origin: PlayOrigin,
    refusal: Option<Seq<char>>,
)
    ensures
        ({
            let (after, result) = app.played(origin, refusal);
            let before = app.transport.audio.asked;
            match handed(app, origin) {
                Some(staged) => {
                    &&& after.transport.audio.asked == before.push((Request::Load(staged), refusal))
                    &&& result == match refusal {
                        Some(error) => Err::<(), Seq<char>>(error),
                        None => Ok(()),
                    }
                },
                None => after.transport.audio.asked == before,
            }
        }),
{
    reveal(AppView::played);
}

proof fn lemma_trying_keeps_the_history(
    app: AppView,
    playlist_index: usize,
    candidates: Seq<usize>,
    refusals: Seq<Option<Seq<char>>>,
    k: int,
)
    ensures
        app.transport.audio.asked.is_prefix_of(
            app.tried(playlist_index, candidates, refusals, k).transport.audio.asked,
        ),
    decreases candidates.len() - k,
{
    if 0 <= k < candidates.len() {
        let origin = PlayOrigin::Playlist { playlist_index, item_index: candidates[k] };
        let (after, result) = app.played(origin, refusals[k]);
        law_playing_asks_the_engine(app, origin, refusals[k]);
        if let Err(error) = result {
            lemma_trying_keeps_the_history(
                after.said("Skipped unplayable track: "@ + error),
                playlist_index,
                candidates,
                refusals,
                k + 1,
            );
        }
    }
}

/// A track that is next in order and whose file is here is passed over only where the engine
/// was asked for it and refused it; where the engine takes it, no other is asked for.
pub proof fn law_tracks_are_passed_over_only_when_refused(
    app: AppView,
    playlist_index: usize,
    candidates: Seq<usize>,
    refusals: Seq<Option<Seq<char>>>,
    k: int,
)
    requires
        0 <= k < candidates.len(),
        handed(
            app,
            PlayOrigin::Playlist { playlist_index, item_index: candidates[k] },
        ) is Some,
    ensures
        ({
            let staged = handed(
                app,
                PlayOrigin::Playlist { playlist_index, item_index: candidates[k] },
            )->0;
            let before = app.transport.audio.asked;
            let after = app.tried(playlist_index, candidates, refusals, k).transport.audio.asked;
            &&& before.push((Request::Load(staged), refusals[k])).is_prefix_of(after)
            &&& refusals[k] is None ==> after == before.push((Request::Load(staged), None))
        }),
{
    let origin = PlayOrigin::Playlist { playlist_index, item_index: candidates[k] };
    let (after, result) = app.played(origin, refusals[k]);
    law_playing_asks_the_engine(app, origin, refusals[k]);
    if let Err(error) = result {
        lemma_trying_keeps_the_history(
            after.said("Skipped unplayable track: "@ + error),
            playlist_index,
            candidates,
            refusals,
            k + 1,
        );
    }
}

/// With the switch on, the end of a track stops the player and turns the switch off: nothing
/// plays, nothing is held ready, and the queue waits.
pub proof fn law_stopping_after_the_current_track(
    app: AppView,
    refusals: Seq<Option<Seq<char>>>,
)
    requires
        app.transport.stop_after_current,
    ensures
        ({
            let (after, result) = app.advanced(true, refusals);
            &&& result is Ok
            &&& !after.transport.stop_after_current
            &&& after.transport.playing is None
            &&& after.transport.staged_playback is None
            &&& after.transport.audio.shown.state == PlaybackState::Stopped
            &&& after.transport.queue == app.transport.queue
        }),
{
    reveal(AppView::advanced);
}

/// The switch counts for the end of a track alone: going on by hand plays the next track.
pub proof fn law_going_on_by_hand_ignores_the_switch(
    app: AppView,
    refusals: Seq<Option<Seq<char>>>,
)
    requires
        app.transport.queue.len() > 0,
        playable(app, app.transport.queue[0]),
        refusals[0] is None,
    ensures
        app.advanced(false, refusals).0.transport.audio.shown.track_id == Some(
            app.transport.queue[0],
        ),
        app.advanced(false, refusals).0.transport.stop_after_current
            == app.transport.stop_after_current,
{
    law_the_queue_plays_first(app, false, refusals);
    reveal(AppView::advanced);
    reveal(AppView::played);
}

/// Nothing is held ready while the player is to stop after the current track.
pub proof fn law_nothing_is_held_ready_before_a_stop(
    app: AppView,
    refusal: Option<Seq<char>>,
)
    requires
        app.transport.stop_after_current,
        app.transport.may_stage(),
    ensures
        app.staging(refusal).1 is Ok,
        app.staging(refusal).0.transport.staged_playback is None,
        app.staging(refusal).0.transport.audio.staged is None,
{
    reveal(AppView::staging);
}

/// While there is a queue, what is held ready comes from it: the first of its tracks that can
/// be played right away.
pub proof fn law_the_queue_is_held_ready(app: AppView)
    requires
        !app.transport.stop_after_current,
        app.transport.queue.len() > 0,
        playable(app, app.transport.queue[0]),
        app.transport.may_stage(),
    ensures
        ({
            let (after, result) = app.staging(None);
            &&& result is Ok
            &&& after.transport.audio.staged matches Some(staged) && staged.track_id
                == app.transport.queue[0]
            &&& after.transport.staged_playback matches Some(staged) && staged.track_id
                == app.transport.queue[0] && staged.queue_index == Some(0usize)
            &&& after.transport.queue == app.transport.queue
        }),
{
    reveal(AppView::staging);
    let candidates = app.candidates().1;
    assert(candidates[0].track_id == app.transport.queue[0]);
    assert(app.first_ready(candidates, 0) == Some(0int));
}

/// A track that was held ready takes over when the engine has gone on to it, without being
/// loaded again: the player then stands where the track was taken from.
pub proof fn law_the_staged_track_takes_over(app: AppView, staged: StagedPlayback)
    requires
        app.transport.staged_playback == Some(staged),
    ensures
        ({
            let after = app.heard(
                AudioEvent::TrackStarted {
                    track_id: staged.track_id,
                    generation: staged.generation,
                },
            );
            &&& after.transport.staged_playback is None
            &&& after.transport.audio == app.transport.audio
            &&& after.transport.audio_started_generation == Some(staged.generation)
            &&& staged.playlist matches Some(place) ==> after.transport.playing == Some(place)
            &&& staged.playlist is None ==> after.transport.playing == app.transport.playing
            &&& staged.queue_index matches Some(q) ==> (q < app.transport.queue.len()
                && app.transport.queue[q as int] == staged.track_id ==> after.transport.queue
                == app.transport.queue.skip(q + 1))
            &&& staged.queue_index is None ==> after.transport.queue == app.transport.queue
        }),
{
}

/// A start that belongs to an earlier playback changes nothing but what the player was last
/// told.
pub proof fn law_stale_starts_are_ignored(app: AppView, track_id: TrackId, generation: u64)
    requires
        app.transport.staged_playback matches Some(staged) ==> staged.generation != generation
            || staged.track_id != track_id,
    ensures
        app.heard(AudioEvent::TrackStarted { track_id, generation }) == app.with_transport(
            TransportView { audio_started_generation: Some(generation), ..app.transport },
        ),
{
}

/// Repeating a track plays it again at its end.
pub proof fn law_a_repeated_track_plays_again(
    app: AppView,
    place: int,
    playlist_id: PlaylistId,
    index: usize,
    refusals: Seq<Option<Seq<char>>>,
)
    requires
        app.transport.playback_order == PlaybackOrder::RepeatTrack,
        !app.transport.stop_after_current,
        app.transport.queue.len() == 0,
        app.transport.playing == Some((playlist_id, index)),
        app.shelf.playlist_place(playlist_id) == Some(place),
        0 <= place < app.shelf.playlists.len(),
        place <= usize::MAX,
        app.shelf.playlists[place].id == playlist_id,
        index < app.shelf.playlists[place].items.len(),
        playable(app, app.shelf.playlists[place].items[index as int]),
        refusals[0] is None,
    ensures
        ({
            let (after, result) = app.advanced(true, refusals);
            &&& result is Ok
            &&& after.transport.playing == Some((playlist_id, index))
            &&& after.transport.audio.shown.track_id == Some(
                app.shelf.playlists[place].items[index as int],
            )
        }),
{
    reveal(AppView::advanced);
    reveal(AppView::played);
    assert(item_count(app.shelf.playlist_at(place)) > 0);
    let origin = PlayOrigin::Playlist { playlist_index: place as usize, item_index: index };
    assert(app.shelf.target(origin) is Ok);
    assert(app.tried(place as usize, seq![index], refusals, 0).transport.playing
        == app.played(origin, None).0.transport.playing);
}

/// The playlist in its order ends behind its last item.
pub proof fn law_the_playlist_ends(
    app: AppView,
    place: int,
    playlist_id: PlaylistId,
    index: usize,
    refusals: Seq<Option<Seq<char>>>,
)
    requires
        app.transport.playback_order == PlaybackOrder::Default,
        !app.transport.stop_after_current,
        app.transport.queue.len() == 0,
        app.transport.playing == Some((playlist_id, index)),
        app.shelf.playlist_place(playlist_id) == Some(place),
        0 <= place < app.shelf.playlists.len(),
        index + 1 == app.shelf.playlists[place].items.len(),
    ensures
        ({
            let (after, result) = app.advanced(true, refusals);
            &&& result is Ok
            &&& after.transport.playing is None
            &&& after.transport.audio.shown.state == PlaybackState::Stopped
            &&& after.front.status == "Playback finished"@
        }),
{
    reveal(AppView::advanced);
    assert(item_count(app.shelf.playlist_at(place)) == index + 1);
}

/// Adding tracks puts none in twice and takes none out: what was there stays in front, in its
/// order, and afterwards the playlist holds what it held and what was added.
pub proof fn law_adding_never_repeats(list: Seq<TrackId>, more: Seq<TrackId>, id: TrackId)
    ensures
        list.no_duplicates() ==> with_new(list, more).no_duplicates(),
        with_new(list, more).len() >= list.len(),
        with_new(list, more).take(list.len() as int) == list,
        with_new(list, more).contains(id) <==> list.contains(id) || more.contains(id),
    decreases more.len(),
{
    if more.len() == 0 {
        assert(with_new(list, more).take(list.len() as int) =~= list);
    } else {
        let rest = more.drop_last();
        law_adding_never_repeats(list, rest, id);
        let before = with_new(list, rest);
        assert(more =~= rest.push(more.last()));
        crate::order::lemma_push_contains(rest, more.last(), id);
        crate::order::lemma_push_contains(before, more.last(), id);
        let after = with_new(list, more);
        assert(after.take(list.len() as int) =~= before.take(list.len() as int));
        if !before.contains(more.last()) && list.no_duplicates() {
            assert forall|i: int, j: int|
                0 <= i < after.len() && 0 <= j < after.len() && i != j implies after[i]
                != after[j] by {
                if i < before.len() && j < before.len() {
                    assert(before[i] != before[j]);
                } else if i < before.len() {
                    assert(before.contains(before[i]));
                } else {
                    assert(before.contains(before[j]));
                }
            }
        }
    }
}

/// Adding the same tracks a second time changes nothing.
pub proof fn law_adding_twice_is_adding_once(list: Seq<TrackId>, more: Seq<TrackId>)
    ensures
        with_new(with_new(list, more), more) == with_new(list, more),
{
    let once = with_new(list, more);
    assert forall|id: TrackId| more.contains(id) implies once.contains(id) by {
        law_adding_never_repeats(list, more, id);
    }
    lemma_nothing_new(once, more);
}

proof fn lemma_nothing_new(list: Seq<TrackId>, more: Seq<TrackId>)
    requires
        forall|id: TrackId| more.contains(id) ==> list.contains(id),
    ensures
        with_new(list, more) == list,
    decreases more.len(),
{
    if more.len() > 0 {
        let rest = more.drop_last();
        assert forall|id: TrackId| rest.contains(id) implies list.contains(id) by {
            let k = choose|k: int| 0 <= k < rest.len() && rest[k] == id;
            assert(more[k] == id);
        }
        lemma_nothing_new(list, rest);
        assert(more[more.len() - 1] == more.last());
        assert(more.contains(more.last()));
    }
}

/// Moving items up keeps every item of the playlist.
pub proof fn law_moving_up_keeps_items(items: Seq<TrackId>, places: Seq<usize>, n: nat)
    requires
        n <= places.len(),
        forall|i: int| 0 <= i < places.len() ==> 0 < #[trigger] places[i] < items.len(),
    ensures
        moved_up(items, places, n).len() == items.len(),
        moved_up(items, places, n).to_multiset() == items.to_multiset(),
    decreases n,
{
    if n > 0 {
        law_moving_up_keeps_items(items, places, (n - 1) as nat);
        let before = moved_up(items, places, (n - 1) as nat);
        lemma_exchange_keeps_items(before, places[n - 1] as int, places[n - 1] - 1);
    }
}

/// Moving items down keeps every item of the playlist.
pub proof fn law_moving_down_keeps_items(items: Seq<TrackId>, places: Seq<usize>, n: nat)
    requires
        n <= places.len(),
        forall|i: int| 0 <= i < places.len() ==> #[trigger] places[i] + 1 < items.len(),
    ensures
        moved_down(items, places, n).len() == items.len(),
        moved_down(items, places, n).to_multiset() == items.to_multiset(),
    decreases n,
{
    if n > 0 {
        law_moving_down_keeps_items(items, places, (n - 1) as nat);
        let before = moved_down(items, places, (n - 1) as nat);
        let at = places[places.len() - n] as int;
        lemma_exchange_keeps_items(before, at, at + 1);
    }
}

/// A full catalog replaces what the server listed before: afterwards the library holds no track
/// of the server that the catalog does not list, and every other track is as it was.
pub proof fn law_a_full_catalog_replaces(
    shelf: ShelfView,
    fingerprint: Seq<char>,
    listed: Seq<Seq<char>>,
    removed: Seq<Seq<char>>,
    id: TrackId,
)
    requires
        shelf.tracks.dom().finite(),
        shelf.tracks.contains_key(id),
    ensures
        ({
            let gone = shelf.gone_tracks(fingerprint, listed, removed, true);
            let after = shelf.without_gone(fingerprint, gone);
            &&& is_missing(shelf.tracks[id], fingerprint, listed) ==> !after.tracks.contains_key(
                id,
            )
            &&& !is_missing(shelf.tracks[id], fingerprint, listed) && !is_gone(
                shelf.tracks[id],
                fingerprint,
                removed,
            ) ==> after.track(id) == shelf.track(id)
            &&& after.playlists == shelf.playlists
        }),
{
    let all = tracks_in_order(shelf.tracks);
    let missing = |track: Track| is_missing(track, fingerprint, listed);
    let gone = shelf.gone_tracks(fingerprint, listed, removed, true);
    let found = all.filter(missing);
    let found_ids = found.map_values(|track: Track| remote_id_of(track));
    assert(gone == removed + found_ids);
    law_ids_are_listed(shelf.tracks.dom());
    lemma_filter_members(all, missing);
    let track = shelf.tracks[id];
    let ids = ids_in_order(shelf.tracks.dom());
    if is_missing(track, fingerprint, listed) {
        assert(ids.contains(id));
        let k = choose|k: int| 0 <= k < ids.len() && ids[k] == id;
        assert(all[k] == track);
        assert(all.contains(track));
        assert(found.contains(track));
        let m = choose|m: int| 0 <= m < found.len() && found[m] == track;
        assert(gone[removed.len() + m] == remote_id_of(track));
        assert(is_gone(track, fingerprint, gone));
    } else if !is_gone(track, fingerprint, removed) {
        assert(!is_gone(track, fingerprint, gone)) by {
            if is_gone(track, fingerprint, gone) {
                let name = remote_id_of(track);
                let k = choose|k: int| 0 <= k < gone.len() && gone[k] == name;
                if k < removed.len() {
                    assert(removed[k] == name);
                    assert(removed.contains(name));
                } else {
                    let other = found[k - removed.len()];
                    assert(found_ids[k - removed.len()] == remote_id_of(other));
                    assert(found.contains(other));
                    assert(is_missing(other, fingerprint, listed));
                }
            }
        }
    }
}

} // verus!
