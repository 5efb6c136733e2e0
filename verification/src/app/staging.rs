//! Holding the next track ready, and following what the engine reports.

use vstd::prelude::*;
use vstd::string::*;

use crate::app::advance::{any_finished, any_started, PlaybackCandidate};
use crate::app::playback::{playing_text, result_view};
use crate::app::state::{App, AppView, FrontView, StagedPlayback, TransportView};
use crate::audio::{refusal_of, AudioEngine, AudioEvent, MediaSource, StagedTrack};
use crate::model::{PlaylistId, Track, TrackId};
use crate::order::lemma_filter_take;

verus! {

broadcast use vstd::std_specs::btree::group_btree_axioms;

/// The items that a list of places names, as candidates.
fn playlist_candidates(items: &Vec<TrackId>, playlist_id: PlaylistId, next: &Vec<usize>) -> (found:
    Vec<PlaybackCandidate>)
    ensures
        found@ == next@.filter(|n: usize| n < items@.len()).map_values(
            |n: usize|
                PlaybackCandidate {
                    track_id: items@[n as int],
                    playlist: Some((playlist_id, n)),
                    queue_index: None,
                },
        ),
{
    let ghost p = |n: usize| n < items@.len();
    let ghost f = |n: usize|
        PlaybackCandidate {
            track_id: items@[n as int],
            playlist: Some((playlist_id, n)),
            queue_index: None,
        };
    let mut found: Vec<PlaybackCandidate> = Vec::new();
    let mut i: usize = 0;
    proof {
        reveal(Seq::filter);
    }
    assert(found@ =~= next@.take(0).filter(p).map_values(f));
    while i < next.len()
        invariant
            i <= next@.len(),
            p == (|n: usize| n < items@.len()),
            f == (|n: usize|
                PlaybackCandidate {
                    track_id: items@[n as int],
                    playlist: Some((playlist_id, n)),
                    queue_index: None,
                }),
            found@ == next@.take(i as int).filter(p).map_values(f),
        decreases next@.len() - i,
    {
        proof {
            lemma_filter_take(next@, p, i as int);
        }
        let n: usize = next[i];
        if n < items.len() {
            found.push(
                PlaybackCandidate {
                    track_id: items[n],
                    playlist: Some((playlist_id, n)),
                    queue_index: None,
                },
            );
        }
        i = i + 1;
        assert(found@ =~= next@.take(i as int).filter(p).map_values(f));
    }
    assert(next@.take(i as int) =~= next@);
    found
}

/// The queue, as candidates.
fn queue_candidates(queue: &Vec<TrackId>) -> (found: Vec<PlaybackCandidate>)
    ensures
        found@ == Seq::new(
            queue@.len(),
            |i: int|
                PlaybackCandidate {
                    track_id: queue@[i],
                    playlist: None,
                    queue_index: Some(i as usize),
                },
        ),
{
    let mut found: Vec<PlaybackCandidate> = Vec::new();
    let mut i: usize = 0;
    while i < queue.len()
        invariant
            i <= queue@.len(),
            found@ == Seq::new(
                i as nat,
                |i: int|
                    PlaybackCandidate {
                        track_id: queue@[i],
                        playlist: None,
                        queue_index: Some(i as usize),
                    },
            ),
        decreases queue@.len() - i,
    {
        found.push(
            PlaybackCandidate { track_id: queue[i], playlist: None, queue_index: Some(i) },
        );
        i = i + 1;
        assert(found@ =~= Seq::new(
            i as nat,
            |i: int|
                PlaybackCandidate {
                    track_id: queue@[i],
                    playlist: None,
                    queue_index: Some(i as usize),
                },
        ));
    }
    found
}

impl AppView {
    /// Whether this is the player once it has taken the engine's events, whatever they are, and
    /// has followed them.
    pub open spec fn drained(self, post: AppView) -> bool {
        exists|
            events: Seq<AudioEvent>,
            before: AppView,
            refusal: Option<Seq<char>>,
            refusals: Seq<Option<Seq<char>>>,
        |
            {
                &&& before == self.with_transport(
                    TransportView { audio: before.transport.audio, ..self.transport },
                )
                &&& before.transport.audio.asked == self.transport.audio.asked
                &&& before.transport.audio.reported == self.transport.audio.reported.push(events)
                &&& post == #[trigger] before.followed_events(events, refusal, refusals)
            }
    }
}

impl<E: AudioEngine> App<E> {
    fn successor_candidates(&mut self) -> (found: Vec<PlaybackCandidate>)
        requires
            old(self)@.wf(),
        ensures
            found@ == old(self)@.candidates().1,
            final(self)@ == old(self)@.with_transport(
                TransportView { deal: old(self)@.candidates().0, ..old(self)@.transport },
            ),
            final(self)@.wf(),
    {
        if self.transport.stop_after_current {
            return Vec::new();
        }
        if self.transport.queue.len() > 0 {
            return queue_candidates(&self.transport.queue);
        }
        let (playlist_id, index): (PlaylistId, usize) = match self.transport.playing {
            None => {
                return Vec::new();
            },
            Some(playing) => playing,
        };
        let place: usize = match self.shelf.find_playlist(playlist_id) {
            None => {
                return Vec::new();
            },
            Some(place) => place,
        };
        assert(self@.shelf.playlists[place as int] == self.shelf.playlists@[place as int]@);
        let next = {
            let playlist = self.shelf.playlist_ref(place);
            self.transport.deal.successor_indices(
                playlist,
                &self.shelf.tracks,
                self.transport.playing,
                index,
                self.transport.playback_order,
            )
        };
        playlist_candidates(&self.shelf.playlists[place].items, playlist_id, &next)
    }

    /// A track that can be held ready, and the file to hold it ready from.
    pub(crate) fn stageable(&self, id: TrackId) -> (found: Option<(Track, MediaSource)>)
        ensures
            match found {
                Some((track, source)) => self@.shelf.track(id) == Some(track)
                    && self@.staging_source(id) == Some(source@),
                None => self@.staging_source(id) is None,
            },
    {
        match self.shelf.tracks.get(&id) {
            None => None,
            Some(track) => {
                if track.unavailable || track.scan_error.is_some() {
                    return None;
                }
                match self.link.local_or_cached_source(track) {
                    Some(source) => Some((track.clone(), source)),
                    None => None,
                }
            },
        }
    }

    /// Holds the next track ready, or nothing.
    pub fn stage_successor(&mut self) -> (result: Result<(), String>)
        requires
            old(self)@.wf(),
        ensures
            (final(self)@, result_view(result)) == old(self)@.staging(refusal_of(result)),
            final(self)@.wf(),
    {
        proof {
            reveal(AppView::staging);
        }
        let ghost start = self@;
        let snapshot = self.transport.audio.snapshot();
        if snapshot.track_id.is_none() || self.transport.audio_started_generation != Some(
            snapshot.generation,
        ) {
            return Ok(());
        }
        let candidates = self.successor_candidates();
        self.transport.audio.clear_staged();
        self.transport.staged_playback = None;
        let ghost free = self@;
        let mut k: usize = 0;
        while k < candidates.len()
            invariant
                k <= candidates@.len(),
                self@ == free,
                free.wf(),
                free.shelf == start.shelf,
                free.link == start.link,
                free.prefs == start.prefs,
                candidates@ == start.candidates().1,
                free == start.with_transport(
                    TransportView {
                        audio: start.transport.audio.unstaged(),
                        staged_playback: None,
                        deal: start.candidates().0,
                        ..start.transport
                    },
                ),
                start.transport.may_stage(),
                start.first_ready(candidates@, 0) == start.first_ready(candidates@, k as int),
                start == old(self)@,
            decreases candidates@.len() - k,
        {
            let candidate = candidates[k];
            assert(self@.staging_source(candidate.track_id) == start.staging_source(
                candidate.track_id,
            ));
            if let Some((track, source)) = self.stageable(candidate.track_id) {
                proof {
                    reveal(AppView::staging);
                }
                let generation: u64 = self.transport.next_playback_generation();
                let gain = self.prefs.gain_for(&track.replay_gain);
                let staged = StagedTrack {
                    source,
                    track_id: candidate.track_id,
                    duration: track.duration,
                    gain,
                    generation,
                };
                match self.transport.audio.stage_next(staged) {
                    Err(error) => {
                        return Err(error);
                    },
                    Ok(()) => {},
                }
                self.transport.staged_playback = Some(
                    StagedPlayback {
                        track_id: candidate.track_id,
                        generation,
                        playlist: candidate.playlist,
                        queue_index: candidate.queue_index,
                    },
                );
                return Ok(());
            }
            k = k + 1;
        }
        Ok(())
    }

    /// Holds the next track ready; a failure is shown. Gives what the engine said where
    /// it did not take the track.
    pub(crate) fn restage_traced(&mut self) -> (refusal: Ghost<Option<Seq<char>>>)
        requires
            old(self)@.wf(),
        ensures
            final(self)@ == old(self)@.restaged(refusal@),
            final(self)@.wf(),
            final(self)@ == (AppView {
                transport: final(self)@.transport,
                front: FrontView { status: final(self)@.front.status, ..old(self)@.front },
                ..old(self)@
            }),
    {
        proof {
            reveal(AppView::restaged);
            reveal(AppView::staging);
        }
        match self.stage_successor() {
            Ok(()) => Ghost(None),
            Err(error) => {
                let mut text = "Could not stage next track: ".to_owned();
                text.append(&error);
                self.say(text);
                Ghost(Some(error@))
            },
        }
    }

    /// Holds the next track ready; a failure is shown.
    pub fn restage_successor(&mut self)
        requires
            old(self)@.wf(),
        ensures
            exists|refusal: Option<Seq<char>>| final(self)@ == #[trigger] old(self)@.restaged(
                refusal,
            ),
            final(self)@.wf(),
    {
        let refusal = self.restage_traced();
        assert(self@ == old(self)@.restaged(refusal@));
    }

    fn take_over(&mut self, staged: StagedPlayback)
        requires
            old(self)@.wf(),
        ensures
            final(self)@ == old(self)@.took_over(staged),
            final(self)@.wf(),
    {
        self.transport.staged_playback = None;
        if let Some(q) = staged.queue_index {
            if q < self.transport.queue.len() && self.transport.queue[q] == staged.track_id {
                self.transport.dequeue(q);
            }
        }
        if let Some((playlist_id, index)) = staged.playlist {
            self.transport.playing = Some((playlist_id, index));
            self.transport.deal_to(index);
            self.follow(playlist_id, index);
        }
        let status = match self.shelf.tracks.get(&staged.track_id) {
            Some(track) => Some(playing_text(track)),
            None => None,
        };
        if let Some(status) = status {
            self.say(status);
        }
    }

    fn hear(&mut self, event: &AudioEvent)
        requires
            old(self)@.wf(),
        ensures
            final(self)@ == old(self)@.heard(*event),
            final(self)@.wf(),
    {
        match event {
            AudioEvent::TrackStarted { track_id, generation } => {
                self.transport.audio_started_generation = Some(*generation);
                if let Some(staged) = self.transport.staged_playback {
                    if staged.track_id == *track_id && staged.generation == *generation {
                        self.take_over(staged);
                    }
                }
            },
            AudioEvent::TrackFinished { .. } => {},
            AudioEvent::DeviceLost(error) => {
                self.front.audio_error = Some(error.clone());
                let mut text = "Audio device lost: ".to_owned();
                text.append(error);
                self.say(text);
            },
        }
    }

    /// Follows events that the engine has reported.
    pub fn apply_audio_events(&mut self, events: &Vec<AudioEvent>)
        requires
            old(self)@.wf(),
        ensures
            exists|refusal: Option<Seq<char>>, refusals: Seq<Option<Seq<char>>>|
                final(self)@ == #[trigger] old(self)@.followed_events(events@, refusal, refusals),
            final(self)@.wf(),
    {
        let ghost start = self@;
        let mut started = false;
        let mut i: usize = 0;
        assert(events@.take(0) =~= Seq::empty());
        while i < events.len()
            invariant
                i <= events@.len(),
                self@.wf(),
                self@ == start.heard_all(events@.take(i as int)),
                started == any_started(events@.take(i as int)),
            decreases events@.len() - i,
        {
            self.hear(&events[i]);
            let ghost head = events@.take(i + 1);
            assert(head.drop_last() =~= events@.take(i as int));
            assert(head.last() == events@[i as int]);
            let now = match &events[i] {
                AudioEvent::TrackStarted { .. } => true,
                _ => false,
            };
            proof {
                if any_started(events@.take(i as int)) {
                    let j = choose|j: int|
                        0 <= j < events@.take(i as int).len() && #[trigger] events@.take(
                            i as int,
                        )[j] is TrackStarted;
                    assert(head[j] is TrackStarted);
                }
                if now {
                    assert(head[i as int] is TrackStarted);
                }
                if any_started(head) && !now {
                    let j = choose|j: int| 0 <= j < head.len() && #[trigger] head[j] is TrackStarted;
                    assert(events@.take(i as int)[j] is TrackStarted);
                }
            }
            if now {
                started = true;
            }
            i = i + 1;
        }
        assert(events@.take(i as int) =~= events@);
        let ghost mut refusal: Option<Seq<char>> = None;
        if started {
            let heard = self.restage_traced();
            proof {
                refusal = heard@;
            }
        }
        let ghost staged = self@;
        let generation: u64 = self.transport.audio.snapshot().generation;
        let ended = finished(events, generation);
        let ghost mut refusals: Seq<Option<Seq<char>>> = Seq::empty();
        if ended {
            let (result, said) = self.advance_traced(true);
            proof {
                refusals = said@;
            }
            if let Err(error) = result {
                let mut text = "Playback error: ".to_owned();
                text.append(&error);
                self.say(text);
            }
        }
        assert(self@ == start.followed_events(events@, refusal, refusals));
    }

    /// Takes the engine's events and follows them.
    pub fn drain_audio_events(&mut self)
        requires
            old(self)@.wf(),
        ensures
            final(self)@.wf(),
            old(self)@.drained(final(self)@),
    {
        let events = self.transport.audio.drain_events();
        let ghost before = self@;
        self.apply_audio_events(&events);
        let ghost (refusal, refusals) = choose|
            refusal: Option<Seq<char>>,
            refusals: Seq<Option<Seq<char>>>,
        | self@ == #[trigger] before.followed_events(events@, refusal, refusals);
        assert(self@ == before.followed_events(events@, refusal, refusals));
    }
}

/// Whether the playback with this number has finished.
fn finished(events: &Vec<AudioEvent>, generation: u64) -> (ended: bool)
    ensures
        ended == any_finished(events@, generation),
{
    let mut i: usize = 0;
    while i < events.len()
        invariant
            i <= events@.len(),
            forall|j: int|
                0 <= j < i ==> !(#[trigger] events@[j] matches AudioEvent::TrackFinished {
                    generation: g,
                    ..
                } && g == generation),
        decreases events@.len() - i,
    {
        if let AudioEvent::TrackFinished { generation: g, .. } = &events[i] {
            if *g == generation {
                assert(events@[i as int] is TrackFinished);
                return true;
            }
        }
        i = i + 1;
    }
    false
}

} // verus!
