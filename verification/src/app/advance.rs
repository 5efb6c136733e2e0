//! Going on to the next track, and holding it ready.

use vstd::prelude::*;
use vstd::string::*;

use crate::app::deal::{find_or, item_count, opt_playlist, place_or};
use crate::app::playback::{artist_and_title, result_view, PlayOrigin};
use crate::app::state::{
    App, AppView, DealView, FrontView, Shelf, ShelfView, StagedPlayback, Transport, TransportView,
};
use crate::audio::{refusal_of, AudioEngine, AudioEvent, Request, StagedView};
use crate::model::{PlaybackOrder, Playlist, PlaylistId, PlaylistView, Track, TrackId};
use crate::time::Duration;

verus! {

broadcast use vstd::std_specs::btree::group_btree_axioms;

/// A track that may be held ready, and where it was taken from.
#[derive(Clone, Copy, Debug, PartialEq, Eq)]
pub struct PlaybackCandidate {
    pub track_id: TrackId,
    pub playlist: Option<(PlaylistId, usize)>,
    pub queue_index: Option<usize>,
}

impl ShelfView {
    /// The playlist at a place.
    pub open spec fn playlist_at(self, index: int) -> Option<PlaylistView> {
        if 0 <= index < self.playlists.len() {
            Some(self.playlists[index])
        } else {
            None
        }
    }
}

impl Shelf {
    /// The playlist at a place.
    pub(crate) fn playlist_ref(&self, index: usize) -> (playlist: Option<&Playlist>)
        ensures
            opt_playlist(playlist) == self@.playlist_at(index as int),
            playlist is Some ==> index < self.playlists@.len() && *playlist->0
                == self.playlists@[index as int],
    {
        if index < self.playlists.len() {
            assert(self@.playlists[index as int] == self.playlists@[index as int]@);
            Some(&self.playlists[index])
        } else {
            None
        }
    }

    /// The place of the first playlist with this identifier.
    pub(crate) fn find_playlist(&self, id: PlaylistId) -> (place: Option<usize>)
        ensures
            match place {
                Some(place) => self@.playlist_place(id) == Some(place as int) && place
                    < self.playlists@.len(),
                None => self@.playlist_place(id) is None,
            },
    {
        let mut i: usize = 0;
        while i < self.playlists.len()
            invariant
                i <= self.playlists@.len(),
                self@.playlist_place(id) == self@.playlist_from(id, i as int),
            decreases self.playlists@.len() - i,
        {
            assert(self@.playlists[i as int] == self.playlists@[i as int]@);
            if self.playlists[i].id == id {
                return Some(i);
            }
            i = i + 1;
        }
        None
    }
}

/// The cursor of the queue once the queue has this length.
pub open spec fn queue_cursor(selection: int, len: int) -> int {
    if selection > len - 1 {
        if len == 0 {
            0
        } else {
            len - 1
        }
    } else {
        selection
    }
}

impl DealView {
    /// The cursor moved to where an item lies, if it lies in the shuffle.
    pub open spec fn moved_to(self, item: usize) -> DealView {
        DealView {
            shuffle_cursor: place_or(self.shuffle, item, self.shuffle_cursor, 0),
            ..self
        }
    }
}

impl TransportView {
    /// The queue without its first entries, up to and with `last`.
    pub open spec fn dequeued(self, last: int) -> TransportView {
        let queue = self.queue.skip(last + 1);
        TransportView {
            queue,
            queue_selection: queue_cursor(self.queue_selection, queue.len() as int),
            ..self
        }
    }

    /// The shuffle's cursor moved along, where shuffling is on.
    pub open spec fn dealt_to(self, item: usize) -> TransportView {
        if self.playback_order == PlaybackOrder::Shuffle {
            TransportView { deal: self.deal.moved_to(item), ..self }
        } else {
            self
        }
    }

    /// Whether the engine is in the middle of the track that it was last heard of.
    pub open spec fn may_stage(self) -> bool {
        self.audio.shown.track_id is Some && self.audio_started_generation == Some(
            self.audio.shown.generation,
        )
    }
}

impl<E: AudioEngine> Transport<E> {
    /// Takes the first entries off the queue, up to and with `last`.
    pub(crate) fn dequeue(&mut self, last: usize)
        requires
            last < old(self).queue@.len(),
        ensures
            final(self)@ == old(self)@.dequeued(last as int),
            old(self)@.wf() ==> final(self)@.wf(),
    {
        let count: usize = self.queue.len();
        assert(last < count);
        let rest = self.queue.split_off(last + 1);
        assert(rest@ =~= old(self)@.queue.skip(last + 1));
        self.queue = rest;
        let len: usize = self.queue.len();
        let top: usize = if len == 0 {
            0
        } else {
            len - 1
        };
        if self.queue_selection > top {
            self.queue_selection = top;
        }
    }

    /// Moves the shuffle's cursor along, where shuffling is on.
    pub(crate) fn deal_to(&mut self, item: usize)
        ensures
            final(self)@ == old(self)@.dealt_to(item),
            old(self)@.wf() ==> final(self)@.wf(),
    {
        if self.playback_order == PlaybackOrder::Shuffle {
            let cursor: usize = find_or(&self.deal.shuffle, item, self.deal.shuffle_cursor);
            self.deal.shuffle_cursor = cursor;
        }
    }
}

impl AppView {
    /// The order of play dealt anew for the active playlist.
    #[verifier::opaque]
    pub open spec fn redealt(self) -> AppView {
        self.with_transport(
            TransportView {
                deal: self.transport.deal.rebuilt(
                    self.shelf.playlist_at(self.shelf.active_playlist),
                    self.shelf.tracks,
                    self.transport.playing,
                ),
                ..self.transport
            },
        )
    }

    /// An attempt to play what the cursor stands on.
    pub open spec fn played_selected(self, refusal: Option<Seq<char>>) -> (
        AppView,
        Result<(), Seq<char>>,
    ) {
        if self.shelf.active().items.len() == 0 {
            (self, Err("the active playlist is empty"@))
        } else {
            self.played(
                PlayOrigin::Playlist {
                    playlist_index: self.shelf.active_playlist as usize,
                    item_index: self.lists.playlist_selection as usize,
                },
                refusal,
            )
        }
    }

    /// The player once the candidates from the `k`-th on have been tried one after the
    /// other until one plays. `refusals` holds what the engine said of each.
    pub open spec fn tried(
        self,
        playlist_index: usize,
        candidates: Seq<usize>,
        refusals: Seq<Option<Seq<char>>>,
        k: int,
    ) -> AppView
        decreases candidates.len() - k,
    {
        if k < 0 || k >= candidates.len() {
            self.with_transport(self.transport.cleared()).said("No playable tracks remain"@)
        } else {
            let (after, result) = self.played(
                PlayOrigin::Playlist { playlist_index, item_index: candidates[k] },
                refusals[k],
            );
            match result {
                Ok(()) => after.with_transport(after.transport.dealt_to(candidates[k])),
                Err(error) => after.said("Skipped unplayable track: "@ + error).tried(
                    playlist_index,
                    candidates,
                    refusals,
                    k + 1,
                ),
            }
        }
    }

    /// The player once it has gone on from an item of a playlist.
    pub open spec fn advanced_in(
        self,
        playlist_index: int,
        index: usize,
        automatic: bool,
        refusals: Seq<Option<Seq<char>>>,
    ) -> AppView {
        let playlist = self.shelf.playlist_at(playlist_index);
        let order = self.transport.playback_order;
        if item_count(playlist) == 0 {
            self.with_transport(self.transport.cleared())
        } else if automatic && order == PlaybackOrder::RepeatTrack {
            self.tried(playlist_index as usize, seq![index], refusals, 0)
        } else if (order == PlaybackOrder::Default || order == PlaybackOrder::RepeatTrack) && index
            + 1 >= item_count(playlist) {
            self.with_transport(self.transport.cleared()).said("Playback finished"@)
        } else {
            let (deal, next) = self.transport.deal.successors(
                playlist,
                self.shelf.tracks,
                self.transport.playing,
                index,
                if order == PlaybackOrder::RepeatTrack {
                    PlaybackOrder::Default
                } else {
                    order
                },
            );
            self.with_transport(TransportView { deal, ..self.transport }).tried(
                playlist_index as usize,
                next,
                refusals,
                0,
            )
        }
    }

    /// The player once it has gone on: after the end of a track (`automatic`) or because
    /// somebody asked for it. The queue comes before the playlist.
    #[verifier::opaque]
    pub open spec fn advanced(self, automatic: bool, refusals: Seq<Option<Seq<char>>>) -> (
        AppView,
        Result<(), Seq<char>>,
    ) {
        if automatic && self.transport.stop_after_current {
            (
                self.with_transport(
                    TransportView { stop_after_current: false, ..self.transport }.cleared(),
                ).said("Stopped after current"@),
                Ok(()),
            )
        } else if self.transport.queue.len() > 0 {
            self.with_transport(self.transport.dequeued(0)).played(
                PlayOrigin::Track(self.transport.queue[0]),
                refusals[0],
            )
        } else {
            match self.transport.playing {
                None => if automatic {
                    (self, Ok(()))
                } else {
                    self.played_selected(refusals[0])
                },
                Some((playlist_id, index)) => match self.shelf.playlist_place(playlist_id) {
                    None => (self, Err("playing playlist was closed"@)),
                    Some(playlist_index) => (
                        self.advanced_in(playlist_index, index, automatic, refusals),
                        Ok(()),
                    ),
                },
            }
        }
    }

    /// The player once it has gone back: to the beginning of the track where at least
    /// five seconds have been played, else to the item before.
    pub open spec fn went_back(self, position: Duration, refusal: Option<Seq<char>>) -> (
        AppView,
        Result<(), Seq<char>>,
    ) {
        if position.secs >= 5 {
            self.sought(Duration::zero(), refusal)
        } else {
            match self.transport.playing {
                None => self.played_selected(refusal),
                Some((playlist_id, index)) => self.played(
                    PlayOrigin::Playlist {
                        playlist_index: match self.shelf.playlist_place(playlist_id) {
                            Some(place) => place as usize,
                            None => self.shelf.active_playlist as usize,
                        },
                        item_index: if index == 0 {
                            0
                        } else {
                            (index - 1) as usize
                        },
                    },
                    refusal,
                ),
            }
        }
    }

    /// The player after a seek.
    pub open spec fn sought(self, position: Duration, refusal: Option<Seq<char>>) -> (
        AppView,
        Result<(), Seq<char>>,
    ) {
        match refusal {
            Some(error) => (
                self.with_transport(
                    TransportView {
                        audio: self.transport.audio.refused(Request::Seek(position), error),
                        ..self.transport
                    },
                ),
                Err(error),
            ),
            None => (
                self.with_transport(
                    TransportView { audio: self.transport.audio.sought(position), ..self.transport },
                ),
                Ok(()),
            ),
        }
    }

    /// What may be held ready, the most wanted first, and the deal after the look at it.
    pub open spec fn candidates(self) -> (DealView, Seq<PlaybackCandidate>) {
        let deal = self.transport.deal;
        if self.transport.stop_after_current {
            (deal, Seq::empty())
        } else if self.transport.queue.len() > 0 {
            (
                deal,
                Seq::new(
                    self.transport.queue.len(),
                    |i: int|
                        PlaybackCandidate {
                            track_id: self.transport.queue[i],
                            playlist: None,
                            queue_index: Some(i as usize),
                        },
                ),
            )
        } else {
            match self.transport.playing {
                None => (deal, Seq::empty()),
                Some((playlist_id, index)) => match self.shelf.playlist_place(playlist_id) {
                    None => (deal, Seq::empty()),
                    Some(place) => {
                        let items = self.shelf.playlists[place].items;
                        let (deal, next) = deal.successors(
                            self.shelf.playlist_at(place),
                            self.shelf.tracks,
                            self.transport.playing,
                            index,
                            self.transport.playback_order,
                        );
                        (
                            deal,
                            next.filter(|n: usize| n < items.len()).map_values(
                                |n: usize|
                                    PlaybackCandidate {
                                        track_id: items[n as int],
                                        playlist: Some((playlist_id, n)),
                                        queue_index: None,
                                    },
                            ),
                        )
                    },
                },
            }
        }
    }

    /// The file that a track can be held ready from.
    pub open spec fn staging_source(self, id: TrackId) -> Option<Seq<char>> {
        match self.shelf.track(id) {
            None => None,
            Some(track) => if track.unavailable || track.scan_error is Some {
                None
            } else {
                self.link.source_of(track)
            },
        }
    }

    /// The first candidate at or behind `from` that can be held ready.
    pub open spec fn first_ready(self, candidates: Seq<PlaybackCandidate>, from: int) -> Option<int>
        decreases candidates.len() - from,
    {
        if from < 0 || from >= candidates.len() {
            None
        } else if self.staging_source(candidates[from].track_id) is Some {
            Some(from)
        } else {
            self.first_ready(candidates, from + 1)
        }
    }

    /// The player once the next track is held ready, or nothing is; `refusal` is what the
    /// engine said where it did not take the track.
    #[verifier::opaque]
    pub open spec fn staging(self, refusal: Option<Seq<char>>) -> (AppView, Result<(), Seq<char>>) {
        if !self.transport.may_stage() {
            (self, Ok(()))
        } else {
            let (deal, candidates) = self.candidates();
            let free = TransportView {
                audio: self.transport.audio.unstaged(),
                staged_playback: None,
                deal,
                ..self.transport
            };
            match self.first_ready(candidates, 0) {
                None => (self.with_transport(free), Ok(())),
                Some(k) => {
                    let candidate = candidates[k];
                    let track = self.shelf.track(candidate.track_id)->0;
                    let generation = self.transport.next_generation();
                    let numbered = TransportView { playback_generation: generation, ..free };
                    let staged = StagedView {
                        source: self.staging_source(candidate.track_id)->0,
                        track_id: candidate.track_id,
                        duration: track.duration,
                        gain: self.prefs.gain_plan(track.replay_gain),
                        generation,
                    };
                    match refusal {
                        Some(error) => (
                            self.with_transport(
                                TransportView {
                                    audio: free.audio.refused(Request::Stage(staged), error),
                                    ..numbered
                                },
                            ),
                            Err(error),
                        ),
                        None => (
                            self.with_transport(
                                TransportView {
                                    audio: free.audio.with_staged(staged),
                                    staged_playback: Some(
                                        StagedPlayback {
                                            track_id: candidate.track_id,
                                            generation,
                                            playlist: candidate.playlist,
                                            queue_index: candidate.queue_index,
                                        },
                                    ),
                                    ..numbered
                                },
                            ),
                            Ok(()),
                        ),
                    }
                },
            }
        }
    }

    /// The same, with a failure in the status line.
    #[verifier::opaque]
    pub open spec fn restaged(self, refusal: Option<Seq<char>>) -> AppView {
        match self.staging(refusal) {
            (after, Ok(())) => after,
            (after, Err(error)) => after.said("Could not stage next track: "@ + error),
        }
    }

    /// The player once the staged track has started.
    pub open spec fn took_over(self, staged: StagedPlayback) -> AppView {
        let free = TransportView { staged_playback: None, ..self.transport };
        let dequeued = match staged.queue_index {
            Some(q) => if q < free.queue.len() && free.queue[q as int] == staged.track_id {
                free.dequeued(q as int)
            } else {
                free
            },
            None => free,
        };
        let moved = match staged.playlist {
            Some((playlist_id, index)) => self.with_transport(
                TransportView { playing: Some((playlist_id, index)), ..dequeued }.dealt_to(index),
            ).followed(playlist_id, index),
            None => self.with_transport(dequeued),
        };
        match self.shelf.track(staged.track_id) {
            Some(track) => moved.said("Playing: "@ + artist_and_title(track)),
            None => moved,
        }
    }

    /// The player once it has heard of an event.
    pub open spec fn heard(self, event: AudioEvent) -> AppView {
        match event {
            AudioEvent::TrackStarted { track_id, generation } => {
                let noted = self.with_transport(
                    TransportView {
                        audio_started_generation: Some(generation),
                        ..self.transport
                    },
                );
                match self.transport.staged_playback {
                    Some(staged) => if staged.track_id == track_id && staged.generation
                        == generation {
                        noted.took_over(staged)
                    } else {
                        noted
                    },
                    None => noted,
                }
            },
            AudioEvent::TrackFinished { .. } => self,
            AudioEvent::DeviceLost(error) => AppView {
                front: FrontView { audio_error: Some(error@), ..self.front },
                ..self
            }.said("Audio device lost: "@ + error@),
        }
    }

    /// The player once it has heard of the first `n` events.
    pub open spec fn heard_all(self, events: Seq<AudioEvent>) -> AppView
        decreases events.len(),
    {
        if events.len() == 0 {
            self
        } else {
            self.heard_all(events.drop_last()).heard(events.last())
        }
    }

    /// The player once it has followed the engine's events: the next track is staged
    /// anew where one started, and the player goes on where the current one ended.
    pub open spec fn followed_events(
        self,
        events: Seq<AudioEvent>,
        refusal: Option<Seq<char>>,
        refusals: Seq<Option<Seq<char>>>,
    ) -> AppView {
        let heard = self.heard_all(events);
        let staged = if any_started(events) {
            heard.restaged(refusal)
        } else {
            heard
        };
        if any_finished(events, staged.transport.audio.shown.generation) {
            match staged.advanced(true, refusals) {
                (after, Ok(())) => after,
                (after, Err(error)) => after.said("Playback error: "@ + error),
            }
        } else {
            staged
        }
    }
}

/// Whether a track has started.
pub open spec fn any_started(events: Seq<AudioEvent>) -> bool {
    exists|i: int| 0 <= i < events.len() && #[trigger] events[i] is TrackStarted
}

/// Whether the playback with this number has finished.
pub open spec fn any_finished(events: Seq<AudioEvent>, generation: u64) -> bool {
    exists|i: int|
        0 <= i < events.len() && (#[trigger] events[i] matches AudioEvent::TrackFinished {
            generation: g,
            ..
        } && g == generation)
}

impl<E: AudioEngine> App<E> {
    /// Deals the order of play anew for the active playlist.
    pub fn rebuild_shuffle(&mut self)
        ensures
            final(self)@ == old(self)@.redealt(),
            final(self)@ == old(self)@.with_transport(
                TransportView { deal: final(self)@.transport.deal, ..old(self)@.transport },
            ),
            final(self)@.transport.deal.wf(),
    {
        proof {
            reveal(AppView::redealt);
        }
        let playlist = self.shelf.playlist_ref(self.shelf.active_playlist);
        self.transport.deal.rebuild_shuffle(playlist, self.transport.playing);
        self.transport.deal.rebuild_album_groups(playlist, &self.shelf.tracks);
    }

    /// Plays what the cursor stands on.
    pub fn play_selected(&mut self) -> (result: Result<(), String>)
        requires
            old(self)@.wf(),
        ensures
            (final(self)@, result_view(result)) == old(self)@.played_selected(refusal_of(result)),
    {
        let at: usize = self.shelf.active_playlist;
        assert(self@.shelf.playlists[at as int] == self.shelf.playlists@[at as int]@);
        if self.shelf.playlists[at].items.len() == 0 {
            return Err("the active playlist is empty".to_owned());
        }
        self.play(
            PlayOrigin::Playlist {
                playlist_index: at,
                item_index: self.lists.playlist_selection,
            },
        )
    }

    /// Tries the candidates from the `k`-th on one after the other until one plays.
    fn try_each(&mut self, playlist_index: usize, candidates: &Vec<usize>, k: usize) -> (refusals:
        Ghost<Seq<Option<Seq<char>>>>)
        requires
            old(self)@.wf(),
            k <= candidates@.len(),
        ensures
            final(self)@ == old(self)@.tried(playlist_index, candidates@, refusals@, k as int),
            final(self)@.wf(),
            refusals@.len() == candidates@.len(),
        decreases candidates@.len() - k,
    {
        let ghost n = candidates@.len();
        if k >= candidates.len() {
            self.clear_transport();
            self.say("No playable tracks remain".to_owned());
            return Ghost(no_refusals(n));
        }
        let ghost before = self@;
        let next: usize = candidates[k];
        let result = self.play(PlayOrigin::Playlist { playlist_index, item_index: next });
        let ghost refusal = refusal_of(result);
        proof {
            lemma_played_keeps_wf(
                before,
                PlayOrigin::Playlist { playlist_index, item_index: next },
                refusal,
            );
        }
        match result {
            Ok(()) => {
                self.transport.deal_to(next);
                let ghost refusals = no_refusals(n).update(k as int, refusal);
                assert(refusals[k as int] == refusal);
                Ghost(refusals)
            },
            Err(error) => {
                let mut text = "Skipped unplayable track: ".to_owned();
                text.append(&error);
                self.say(text);
                let ghost after = self@;
                let rest = self.try_each(playlist_index, candidates, k + 1);
                let ghost refusals = rest@.update(k as int, refusal);
                proof {
                    assert(refusals[k as int] == refusal);
                    lemma_tried_looks_ahead(
                        after,
                        playlist_index,
                        candidates@,
                        rest@,
                        refusals,
                        k + 1,
                    );
                }
                Ghost(refusals)
            },
        }
    }

    fn advance_in(&mut self, playlist_index: usize, index: usize, automatic: bool) -> (refusals:
        Ghost<Seq<Option<Seq<char>>>>)
        requires
            old(self)@.wf(),
            playlist_index < old(self)@.shelf.playlists.len(),
        ensures
            final(self)@ == old(self)@.advanced_in(
                playlist_index as int,
                index,
                automatic,
                refusals@,
            ),
            final(self)@.wf(),
    {
        assert(self@.shelf.playlists[playlist_index as int]
            == self.shelf.playlists@[playlist_index as int]@);
        let len: usize = self.shelf.playlists[playlist_index].items.len();
        let order = self.transport.playback_order;
        if len == 0 {
            self.clear_transport();
            return Ghost(Seq::empty());
        }
        if automatic && order == PlaybackOrder::RepeatTrack {
            let mut only: Vec<usize> = Vec::new();
            only.push(index);
            assert(only@ =~= seq![index]);
            return self.try_each(playlist_index, &only, 0);
        }
        if (order == PlaybackOrder::Default || order == PlaybackOrder::RepeatTrack) && index >= len
            - 1 {
            self.clear_transport();
            self.say("Playback finished".to_owned());
            return Ghost(Seq::empty());
        }
        let wanted = if order == PlaybackOrder::RepeatTrack {
            PlaybackOrder::Default
        } else {
            order
        };
        let next = {
            let playlist = self.shelf.playlist_ref(playlist_index);
            self.transport.deal.successor_indices(
                playlist,
                &self.shelf.tracks,
                self.transport.playing,
                index,
                wanted,
            )
        };
        self.try_each(playlist_index, &next, 0)
    }

    /// Goes on, and keeps what the engine said of each track that it was offered.
    pub(crate) fn advance_traced(&mut self, automatic: bool) -> (outcome: (
        Result<(), String>,
        Ghost<Seq<Option<Seq<char>>>>,
    ))
        requires
            old(self)@.wf(),
        ensures
            (final(self)@, result_view(outcome.0)) == old(self)@.advanced(automatic, outcome.1@),
            final(self)@.wf(),
    {
        let ghost start = self@;
        proof {
            reveal(AppView::advanced);
        }
        if automatic && self.transport.stop_after_current {
            self.transport.stop_after_current = false;
            self.clear_transport();
            self.say("Stopped after current".to_owned());
            return (Ok(()), Ghost(Seq::empty()));
        }
        if self.transport.queue.len() > 0 {
            let id: TrackId = self.transport.queue[0];
            self.transport.dequeue(0);
            let ghost before = self@;
            let result = self.play(PlayOrigin::Track(id));
            proof {
                lemma_played_keeps_wf(before, PlayOrigin::Track(id), refusal_of(result));
            }
            let ghost refusals = seq![refusal_of(result)];
            assert(refusals[0] == refusal_of(result));
            return (result, Ghost(refusals));
        }
        match self.transport.playing {
            None => {
                if automatic {
                    return (Ok(()), Ghost(Seq::empty()));
                }
                let result = self.play_selected();
                proof {
                    lemma_played_keeps_wf(
                        start,
                        PlayOrigin::Playlist {
                            playlist_index: start.shelf.active_playlist as usize,
                            item_index: start.lists.playlist_selection as usize,
                        },
                        refusal_of(result),
                    );
                }
                let ghost refusals = seq![refusal_of(result)];
                assert(refusals[0] == refusal_of(result));
                (result, Ghost(refusals))
            },
            Some((playlist_id, index)) => match self.shelf.find_playlist(playlist_id) {
                None => (Err("playing playlist was closed".to_owned()), Ghost(Seq::empty())),
                Some(playlist_index) => {
                    let refusals = self.advance_in(playlist_index, index, automatic);
                    (Ok(()), refusals)
                },
            },
        }
    }

    /// Goes on to the next track.
    pub fn advance(&mut self, automatic: bool) -> (result: Result<(), String>)
        requires
            old(self)@.wf(),
        ensures
            exists|refusals: Seq<Option<Seq<char>>>|
                (final(self)@, result_view(result)) == #[trigger] old(self)@.advanced(
                    automatic,
                    refusals,
                ),
            final(self)@.wf(),
    {
        let (result, refusals) = self.advance_traced(automatic);
        assert((self@, result_view(result)) == old(self)@.advanced(automatic, refusals@));
        result
    }

    fn seek_to(&mut self, position: Duration) -> (result: Result<(), String>)
        ensures
            (final(self)@, result_view(result)) == old(self)@.sought(position, refusal_of(result)),
    {
        self.transport.audio.seek(position)
    }

    /// Seeks to a position.
    pub fn seek(&mut self, position: Duration) -> (result: Result<(), String>)
        ensures
            (final(self)@, result_view(result)) == old(self)@.sought(position, refusal_of(result)),
    {
        self.seek_to(position)
    }

    /// Goes back to the beginning of the track, or to the item before.
    pub fn previous(&mut self) -> (result: Result<(), String>)
        requires
            old(self)@.wf(),
        ensures
            exists|position: Duration|
                (final(self)@, result_view(result)) == #[trigger] old(self)@.went_back(
                    position,
                    refusal_of(result),
                ),
            final(self)@.wf(),
    {
        let position = self.transport.audio.snapshot().position;
        let result = self.previous_from(position);
        assert((self@, result_view(result)) == old(self)@.went_back(position, refusal_of(result)));
        result
    }

    /// Goes back from a position: to the beginning of the track where five seconds have been
    /// played, else to the item before.
    pub fn previous_from(&mut self, position: Duration) -> (result: Result<(), String>)
        requires
            old(self)@.wf(),
        ensures
            (final(self)@, result_view(result)) == old(self)@.went_back(
                position,
                refusal_of(result),
            ),
            final(self)@.wf(),
    {
        let ghost start = self@;
        if position.as_secs() >= 5 {
            return self.seek_to(Duration { secs: 0, nanos: 0 });
        }
        match self.transport.playing {
            None => {
                let result = self.play_selected();
                proof {
                    lemma_played_keeps_wf(
                        start,
                        PlayOrigin::Playlist {
                            playlist_index: start.shelf.active_playlist as usize,
                            item_index: start.lists.playlist_selection as usize,
                        },
                        refusal_of(result),
                    );
                }
                result
            },
            Some((playlist_id, index)) => {
                let playlist_index: usize = match self.shelf.find_playlist(playlist_id) {
                    Some(place) => place,
                    None => self.shelf.active_playlist,
                };
                let item_index: usize = if index == 0 {
                    0
                } else {
                    index - 1
                };
                let result = self.play(PlayOrigin::Playlist { playlist_index, item_index });
                proof {
                    lemma_played_keeps_wf(
                        start,
                        PlayOrigin::Playlist { playlist_index, item_index },
                        refusal_of(result),
                    );
                }
                result
            },
        }
    }
}

/// The engine never refuses.
pub open spec fn no_refusals(n: nat) -> Seq<Option<Seq<char>>> {
    Seq::new(n, |i: int| None::<Seq<char>>)
}

/// What is tried from the `k`-th candidate on depends on no refusal before it.
proof fn lemma_tried_looks_ahead(
    app: AppView,
    playlist_index: usize,
    candidates: Seq<usize>,
    a: Seq<Option<Seq<char>>>,
    b: Seq<Option<Seq<char>>>,
    k: int,
)
    requires
        forall|j: int| k <= j < candidates.len() ==> a[j] == b[j],
    ensures
        app.tried(playlist_index, candidates, a, k) == app.tried(playlist_index, candidates, b, k),
    decreases candidates.len() - k,
{
    if 0 <= k < candidates.len() {
        let (after, result) = app.played(
            PlayOrigin::Playlist { playlist_index, item_index: candidates[k] },
            a[k],
        );
        if let Err(error) = result {
            lemma_tried_looks_ahead(
                after.said("Skipped unplayable track: "@ + error),
                playlist_index,
                candidates,
                a,
                b,
                k + 1,
            );
        }
    }
}

/// Playing keeps the player sound.
pub proof fn lemma_played_keeps_wf(app: AppView, origin: PlayOrigin, refusal: Option<Seq<char>>)
    requires
        app.wf(),
    ensures
        app.played(origin, refusal).0.wf(),
        app.played(origin, refusal).0.shelf == app.shelf,
        app.played(origin, refusal).0.transport.deal == app.transport.deal,
        app.played(origin, refusal).0.transport.queue == app.transport.queue,
        app.played(origin, refusal).0.transport.queue_selection == app.transport.queue_selection,
{
    reveal(AppView::played);
}

} // verus!
