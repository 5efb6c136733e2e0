//! What an audio engine does, and an engine that makes no sound.

use vstd::prelude::*;
use vstd::string::*;

use crate::model::{clone_text, GainPlan, PlaybackState, TrackId};
use crate::order::{law_sorting_keeps_items, sort_stably, sorted_by, text_before, text_less};
use crate::text::{lowercase, same_text, to_lowercase};
use crate::time::Duration;

verus! {

/// The number of bands that a spectrum shows.
pub const SPECTRUM_BANDS: usize = 16;

/// Where the samples of a track come from.
#[derive(Debug, PartialEq, Eq)]
pub enum MediaSource {
    LocalFile(String),
}

impl Clone for MediaSource {
    fn clone(&self) -> (copy: MediaSource)
        ensures
            copy == *self,
    {
        match self {
            MediaSource::LocalFile(path) => MediaSource::LocalFile(path.clone()),
        }
    }
}

/// A track handed to an engine.
#[derive(Debug)]
pub struct StagedTrack {
    pub source: MediaSource,
    pub track_id: TrackId,
    pub duration: Duration,
    pub gain: GainPlan,
    pub generation: u64,
}

impl Clone for StagedTrack {
    fn clone(&self) -> (copy: StagedTrack)
        ensures
            copy == *self,
    {
        StagedTrack {
            source: self.source.clone(),
            track_id: self.track_id,
            duration: self.duration,
            gain: self.gain,
            generation: self.generation,
        }
    }
}

/// What a track handed to an engine says.
pub struct StagedView {
    pub source: Seq<char>,
    pub track_id: TrackId,
    pub duration: Duration,
    pub gain: GainPlan,
    pub generation: u64,
}

impl View for MediaSource {
    type V = Seq<char>;

    open spec fn view(&self) -> Seq<char> {
        match self {
            MediaSource::LocalFile(path) => path@,
        }
    }
}

impl View for StagedTrack {
    type V = StagedView;

    open spec fn view(&self) -> StagedView {
        StagedView {
            source: self.source@,
            track_id: self.track_id,
            duration: self.duration,
            gain: self.gain,
            generation: self.generation,
        }
    }
}

/// What an engine reports while it plays.
#[derive(Debug, PartialEq, Eq)]
pub enum AudioEvent {
    TrackStarted { track_id: TrackId, generation: u64 },
    TrackFinished { track_id: TrackId, generation: u64 },
    DeviceLost(String),
}

#[derive(Debug, PartialEq, Eq)]
pub struct AudioDevice {
    pub id: String,
    pub name: String,
}

impl Clone for AudioDevice {
    fn clone(&self) -> (copy: AudioDevice)
        ensures
            copy == *self,
    {
        AudioDevice { id: self.id.clone(), name: self.name.clone() }
    }
}

/// What an engine shows of itself. The volume is the bit pattern of a
/// single-precision number.
#[derive(Debug)]
pub struct AudioSnapshot {
    pub state: PlaybackState,
    pub track_id: Option<TrackId>,
    pub position: Duration,
    pub duration: Duration,
    pub volume: u32,
    pub active_device: String,
    pub active_device_id: Option<String>,
    pub staged_track_id: Option<TrackId>,
    pub generation: u64,
    pub error: Option<String>,
}

impl Clone for AudioSnapshot {
    fn clone(&self) -> (copy: AudioSnapshot)
        ensures
            copy == *self,
    {
        AudioSnapshot {
            state: self.state,
            track_id: self.track_id,
            position: self.position,
            duration: self.duration,
            volume: self.volume,
            active_device: self.active_device.clone(),
            active_device_id: clone_text(&self.active_device_id),
            staged_track_id: self.staged_track_id,
            generation: self.generation,
            error: clone_text(&self.error),
        }
    }
}

impl Default for AudioSnapshot {
    fn default() -> (snapshot: AudioSnapshot)
        ensures
            snapshot.stopped() == snapshot,
            snapshot.active_device@ == "Default"@,
            snapshot.active_device_id is None,
            snapshot.volume == 0x3f4c_cccd,
    {
        AudioSnapshot {
            state: PlaybackState::Stopped,
            track_id: None,
            position: Duration { secs: 0, nanos: 0 },
            duration: Duration { secs: 0, nanos: 0 },
            volume: 0x3f4c_cccd,
            active_device: "Default".to_owned(),
            active_device_id: None,
            staged_track_id: None,
            generation: 0,
            error: None,
        }
    }
}

impl AudioSnapshot {
    /// Nothing loaded; the volume and the device stay.
    pub open spec fn stopped(self) -> AudioSnapshot {
        AudioSnapshot {
            state: PlaybackState::Stopped,
            track_id: None,
            position: Duration::zero(),
            duration: Duration::zero(),
            volume: self.volume,
            active_device: self.active_device,
            active_device_id: self.active_device_id,
            staged_track_id: None,
            generation: 0,
            error: None,
        }
    }

    pub open spec fn pending(
        self,
        track_id: TrackId,
        duration: Duration,
        state: PlaybackState,
    ) -> AudioSnapshot {
        AudioSnapshot { track_id: Some(track_id), duration, state, ..self.stopped() }
    }

    pub open spec fn loaded(self, track: StagedView) -> AudioSnapshot {
        AudioSnapshot {
            state: PlaybackState::Playing,
            track_id: Some(track.track_id),
            position: Duration::zero(),
            duration: track.duration,
            generation: track.generation,
            error: None,
            ..self
        }
    }

    pub open spec fn staged(self, track_id: Option<TrackId>) -> AudioSnapshot {
        AudioSnapshot { staged_track_id: track_id, ..self }
    }

    pub open spec fn playing(self) -> AudioSnapshot {
        if self.track_id is Some {
            AudioSnapshot { state: PlaybackState::Playing, ..self }
        } else {
            self
        }
    }

    pub open spec fn paused(self) -> AudioSnapshot {
        if self.track_id is Some {
            AudioSnapshot { state: PlaybackState::Paused, ..self }
        } else {
            self
        }
    }

    pub open spec fn sought(self, position: Duration) -> AudioSnapshot {
        AudioSnapshot { position: position.shorter(self.duration), ..self }
    }

    pub open spec fn at_volume(self, volume: u32) -> AudioSnapshot {
        AudioSnapshot { volume: unit_clamped(volume), ..self }
    }

    fn stop(&mut self)
        ensures
            *final(self) == old(self).stopped(),
    {
        self.state = PlaybackState::Stopped;
        self.track_id = None;
        self.position = Duration { secs: 0, nanos: 0 };
        self.duration = Duration { secs: 0, nanos: 0 };
        self.staged_track_id = None;
        self.generation = 0;
        self.error = None;
    }
}

/// A single-precision number, by its bit pattern, moved into the range from 0 to 1.
/// Patterns that stand for no number stay as they are, and so does negative zero.
pub open spec fn unit_clamped(bits: u32) -> u32 {
    if 0x8000_0000 < bits <= 0xff80_0000 {
        0
    } else if 0x3f80_0000 < bits <= 0x7f80_0000 {
        0x3f80_0000
    } else {
        bits
    }
}

pub fn clamp_unit(bits: u32) -> (clamped: u32)
    ensures
        clamped == unit_clamped(bits),
{
    if 0x8000_0000 < bits && bits <= 0xff80_0000 {
        0
    } else if 0x3f80_0000 < bits && bits <= 0x7f80_0000 {
        0x3f80_0000
    } else {
        bits
    }
}

/// What an engine can be asked for and can refuse.
pub enum Request {
    Load(StagedView),
    Stage(StagedView),
    Seek(Duration),
}

/// What an engine said where it refused.
pub open spec fn refusal_of(result: Result<(), String>) -> Option<Seq<char>> {
    match result {
        Ok(()) => None,
        Err(error) => Some(error@),
    }
}

/// What is known of an engine: what it shows, what it was last handed, everything it was ever
/// asked for, with what it said where it refused, and every list of events it has handed out.
pub struct EngineView {
    pub shown: AudioSnapshot,
    pub loaded: Option<StagedView>,
    pub staged: Option<StagedView>,
    pub gain: Option<GainPlan>,
    pub asked: Seq<(Request, Option<Seq<char>>)>,
    pub reported: Seq<Seq<AudioEvent>>,
}

impl EngineView {
    /// The engine once it has been asked for something, and nothing else has changed.
    pub open spec fn answered(self, request: Request, refusal: Option<Seq<char>>) -> EngineView {
        EngineView { asked: self.asked.push((request, refusal)), ..self }
    }

    /// The engine once it has refused.
    pub open spec fn refused(self, request: Request, error: Seq<char>) -> EngineView {
        self.answered(request, Some(error))
    }

    pub open spec fn with_loaded(self, track: StagedView) -> EngineView {
        EngineView {
            shown: self.shown.loaded(track),
            loaded: Some(track),
            staged: None,
            gain: Some(track.gain),
            ..self.answered(Request::Load(track), None)
        }
    }

    pub open spec fn with_staged(self, track: StagedView) -> EngineView {
        EngineView {
            shown: self.shown.staged(Some(track.track_id)),
            staged: Some(track),
            ..self.answered(Request::Stage(track), None)
        }
    }

    pub open spec fn sought(self, position: Duration) -> EngineView {
        EngineView {
            shown: self.shown.sought(position),
            ..self.answered(Request::Seek(position), None)
        }
    }

    pub open spec fn paused(self) -> EngineView {
        EngineView { shown: self.shown.paused(), ..self }
    }

    pub open spec fn unstaged(self) -> EngineView {
        EngineView { shown: self.shown.staged(None), staged: None, ..self }
    }

    pub open spec fn stopped(self) -> EngineView {
        EngineView {
            shown: self.shown.stopped(),
            loaded: None,
            staged: None,
            gain: None,
            ..self
        }
    }

    pub open spec fn pending(
        self,
        track_id: TrackId,
        duration: Duration,
        state: PlaybackState,
    ) -> EngineView {
        EngineView { shown: self.shown.pending(track_id, duration, state), ..self.stopped() }
    }
}

/// An engine that plays one track and holds the next one ready.
///
/// Loading, staging and seeking can be refused, for reasons of the engine's own: what was asked
/// for, and what was said to it, is kept in the order of asking. Where the current position
/// comes from is up to the engine too.
pub trait AudioEngine: Sized {
    spec fn state(&self) -> EngineView;

    fn load_and_play(&mut self, track: StagedTrack) -> (result: Result<(), String>)
        ensures
            result is Ok && old(self).state().shown.staged_track_id is None
                ==> final(self).state() == old(self).state().with_loaded(track@),
            result is Err ==> final(self).state() == old(self).state().refused(
                Request::Load(track@),
                result->Err_0@,
            ),
            final(self).state().asked == old(self).state().asked.push(
                (Request::Load(track@), refusal_of(result)),
            ),
            final(self).state().reported == old(self).state().reported,
    ;

    fn stage_next(&mut self, track: StagedTrack) -> (result: Result<(), String>)
        ensures
            result is Ok ==> final(self).state() == old(self).state().with_staged(track@),
            result is Err ==> final(self).state() == old(self).state().unstaged().refused(
                Request::Stage(track@),
                result->Err_0@,
            ),
            final(self).state().asked == old(self).state().asked.push(
                (Request::Stage(track@), refusal_of(result)),
            ),
    ;

    fn clear_staged(&mut self)
        ensures
            final(self).state() == old(self).state().unstaged(),
    ;

    fn set_pending(&mut self, track_id: TrackId, duration: Duration, state: PlaybackState)
        ensures
            final(self).state() == old(self).state().pending(track_id, duration, state),
    ;

    fn play(&mut self) -> (result: Result<(), String>)
        ensures
            result is Ok == old(self).state().shown.track_id is Some,
            result is Err ==> result->Err_0@ == "no track is loaded"@,
            final(self).state() == (EngineView {
                shown: old(self).state().shown.playing(),
                ..old(self).state()
            }),
    ;

    fn pause(&mut self)
        ensures
            final(self).state() == old(self).state().paused(),
    ;

    fn stop(&mut self)
        ensures
            final(self).state() == old(self).state().stopped(),
    ;

    fn seek(&mut self, position: Duration) -> (result: Result<(), String>)
        ensures
            result is Ok ==> final(self).state() == old(self).state().sought(position),
            result is Err ==> final(self).state() == old(self).state().refused(
                Request::Seek(position),
                result->Err_0@,
            ),
    ;

    fn set_volume(&mut self, volume: u32)
        ensures
            final(self).state() == (EngineView {
                shown: old(self).state().shown.at_volume(volume),
                ..old(self).state()
            }),
    ;

    fn set_output_gain(&mut self, gain: GainPlan)
        ensures
            final(self).state() == (EngineView { gain: Some(gain), ..old(self).state() }),
    ;

    fn snapshot(&self) -> (snapshot: AudioSnapshot)
        ensures
            snapshot == (AudioSnapshot { position: snapshot.position, ..self.state().shown }),
    ;

    fn drain_events(&mut self) -> (events: Vec<AudioEvent>)
        ensures
            final(self).state().asked == old(self).state().asked,
            final(self).state().reported == old(self).state().reported.push(events@),
    ;

    /// The levels of the spectrum, as bit patterns of single-precision numbers.
    fn spectrum(&self) -> (levels: Vec<u32>);
}

/// An engine that makes no sound but keeps its state as one that does.
pub struct SilentEngine {
    snapshot: AudioSnapshot,
    events: Vec<AudioEvent>,
    staged: Option<StagedTrack>,
    loaded: Ghost<Option<StagedView>>,
    gain: Ghost<Option<GainPlan>>,
    asked: Ghost<Seq<(Request, Option<Seq<char>>)>>,
    reported: Ghost<Seq<Seq<AudioEvent>>>,
}

impl SilentEngine {
    /// The events that wait to be drained.
    pub closed spec fn waiting(&self) -> Seq<AudioEvent> {
        self.events@
    }

    pub fn new(volume: u32) -> (engine: SilentEngine)
        ensures
            engine.state().shown.stopped() == engine.state().shown,
            engine.state().shown.volume == unit_clamped(volume),
            engine.state().shown.active_device@ == "Disabled (--no-audio)"@,
            engine.state().shown.active_device_id is None,
            engine.state().loaded is None,
            engine.state().staged is None,
            engine.state().gain is None,
            engine.state().asked.len() == 0,
            engine.state().reported.len() == 0,
            engine.waiting() == Seq::<AudioEvent>::empty(),
    {
        SilentEngine {
            snapshot: AudioSnapshot {
                state: PlaybackState::Stopped,
                track_id: None,
                position: Duration { secs: 0, nanos: 0 },
                duration: Duration { secs: 0, nanos: 0 },
                volume: clamp_unit(volume),
                active_device: "Disabled (--no-audio)".to_owned(),
                active_device_id: None,
                staged_track_id: None,
                generation: 0,
                error: None,
            },
            events: Vec::new(),
            staged: None,
            loaded: Ghost(None),
            gain: Ghost(None),
            asked: Ghost(Seq::empty()),
            reported: Ghost(Seq::empty()),
        }
    }

    /// Ends the current track and goes over to the staged one.
    pub fn simulate_staged_transition(&mut self)
        ensures
            match old(self).state().staged {
                None => *final(self) == *old(self),
                Some(next) => {
                    &&& final(self).state().shown == (AudioSnapshot {
                        track_id: Some(next.track_id),
                        duration: next.duration,
                        position: Duration::zero(),
                        generation: next.generation,
                        staged_track_id: None,
                        ..old(self).state().shown
                    })
                    &&& final(self).state() == (EngineView {
                        shown: final(self).state().shown,
                        staged: None,
                        ..old(self).state()
                    })
                    &&& final(self).waiting() == old(self).waiting() + match old(
                        self,
                    ).state().shown.track_id {
                        Some(track_id) => seq![
                            AudioEvent::TrackFinished {
                                track_id,
                                generation: old(self).state().shown.generation,
                            },
                        ],
                        None => Seq::empty(),
                    } + seq![
                        AudioEvent::TrackStarted {
                            track_id: next.track_id,
                            generation: next.generation,
                        },
                    ]
                },
            },
    {
        let next = match self.staged.take() {
            Some(next) => next,
            None => {
                return;
            },
        };
        if let Some(track_id) = self.snapshot.track_id {
            self.events.push(
                AudioEvent::TrackFinished { track_id, generation: self.snapshot.generation },
            );
        }
        self.snapshot.track_id = Some(next.track_id);
        self.snapshot.duration = next.duration;
        self.snapshot.position = Duration { secs: 0, nanos: 0 };
        self.snapshot.generation = next.generation;
        self.snapshot.staged_track_id = None;
        self.events.push(
            AudioEvent::TrackStarted { track_id: next.track_id, generation: next.generation },
        );
        assert(self.waiting() =~= old(self).waiting() + match old(self).state().shown.track_id {
            Some(track_id) => seq![
                AudioEvent::TrackFinished {
                    track_id,
                    generation: old(self).state().shown.generation,
                },
            ],
            None => Seq::empty(),
        } + seq![
            AudioEvent::TrackStarted { track_id: next.track_id, generation: next.generation },
        ]);
    }
}

impl AudioEngine for SilentEngine {
    closed spec fn state(&self) -> EngineView {
        EngineView {
            shown: self.snapshot,
            loaded: self.loaded@,
            staged: match self.staged {
                Some(track) => Some(track@),
                None => None,
            },
            gain: self.gain@,
            asked: self.asked@,
            reported: self.reported@,
        }
    }

    fn load_and_play(&mut self, track: StagedTrack) -> (result: Result<(), String>)
        ensures
            result is Ok,
            final(self).state() == old(self).state().with_loaded(track@),
            final(self).waiting() == old(self).waiting().push(
                AudioEvent::TrackStarted {
                    track_id: track.track_id,
                    generation: track.generation,
                },
            ),
    {
        self.snapshot.track_id = Some(track.track_id);
        self.snapshot.duration = track.duration;
        self.snapshot.position = Duration { secs: 0, nanos: 0 };
        self.snapshot.state = PlaybackState::Playing;
        self.snapshot.generation = track.generation;
        self.snapshot.error = None;
        self.staged = None;
        self.events.push(
            AudioEvent::TrackStarted { track_id: track.track_id, generation: track.generation },
        );
        self.loaded = Ghost(Some(track@));
        self.gain = Ghost(Some(track.gain));
        self.asked = Ghost(self.asked@.push((Request::Load(track@), None)));
        Ok(())
    }

    fn stage_next(&mut self, track: StagedTrack) -> (result: Result<(), String>)
        ensures
            result is Ok,
            final(self).waiting() == old(self).waiting(),
    {
        self.snapshot.staged_track_id = Some(track.track_id);
        self.asked = Ghost(self.asked@.push((Request::Stage(track@), None)));
        self.staged = Some(track);
        Ok(())
    }

    fn clear_staged(&mut self)
        ensures
            final(self).waiting() == old(self).waiting(),
    {
        self.staged = None;
        self.snapshot.staged_track_id = None;
    }

    fn set_pending(&mut self, track_id: TrackId, duration: Duration, state: PlaybackState)
        ensures
            final(self).waiting() == Seq::<AudioEvent>::empty(),
    {
        self.stop();
        self.snapshot.track_id = Some(track_id);
        self.snapshot.duration = duration;
        self.snapshot.state = state;
    }

    fn play(&mut self) -> (result: Result<(), String>)
        ensures
            final(self).waiting() == old(self).waiting(),
    {
        if self.snapshot.track_id.is_none() {
            return Err("no track is loaded".to_owned());
        }
        self.snapshot.state = PlaybackState::Playing;
        Ok(())
    }

    fn pause(&mut self)
        ensures
            final(self).waiting() == old(self).waiting(),
    {
        if self.snapshot.track_id.is_some() {
            self.snapshot.state = PlaybackState::Paused;
        }
    }

    fn stop(&mut self)
        ensures
            final(self).waiting() == Seq::<AudioEvent>::empty(),
    {
        self.snapshot.stop();
        self.events.clear();
        self.staged = None;
        self.loaded = Ghost(None);
        self.gain = Ghost(None);
    }

    fn seek(&mut self, position: Duration) -> (result: Result<(), String>)
        ensures
            result is Ok,
            final(self).waiting() == old(self).waiting(),
    {
        self.snapshot.position = position.min(self.snapshot.duration);
        self.asked = Ghost(self.asked@.push((Request::Seek(position), None)));
        Ok(())
    }

    fn set_volume(&mut self, volume: u32)
        ensures
            final(self).waiting() == old(self).waiting(),
    {
        self.snapshot.volume = clamp_unit(volume);
    }

    fn set_output_gain(&mut self, gain: GainPlan)
        ensures
            final(self).waiting() == old(self).waiting(),
    {
        self.gain = Ghost(Some(gain));
    }

    fn snapshot(&self) -> (snapshot: AudioSnapshot)
        ensures
            snapshot == self.state().shown,
    {
        self.snapshot.clone()
    }

    fn drain_events(&mut self) -> (events: Vec<AudioEvent>)
        ensures
            events@ == old(self).waiting(),
            final(self).waiting() == Seq::<AudioEvent>::empty(),
            final(self).state() == (EngineView {
                reported: old(self).state().reported.push(events@),
                ..old(self).state()
            }),
    {
        let mut events: Vec<AudioEvent> = Vec::new();
        core::mem::swap(&mut events, &mut self.events);
        self.reported = Ghost(self.reported@.push(events@));
        events
    }

    fn spectrum(&self) -> (levels: Vec<u32>)
        ensures
            levels@ == Seq::new(SPECTRUM_BANDS as nat, |i: int| 0u32),
    {
        let mut levels: Vec<u32> = Vec::new();
        while levels.len() < SPECTRUM_BANDS
            invariant
                levels@.len() <= SPECTRUM_BANDS,
                levels@ == Seq::new(levels@.len(), |i: int| 0u32),
            decreases SPECTRUM_BANDS - levels@.len(),
        {
            levels.push(0);
            assert(levels@ =~= Seq::new(levels@.len(), |i: int| 0u32));
        }
        levels
    }
}

/// How much of a track has been played: the samples since the last seek, and where
/// that seek went.
#[derive(Clone, Copy, Debug)]
pub struct TrackClock {
    pub samples: u64,
    pub seek_micros: u64,
    pub channels: u64,
    pub sample_rate: u64,
}

/// A product or a sum that stops at the largest 64-bit number.
pub open spec fn capped(n: int) -> int {
    if n > u64::MAX {
        u64::MAX as int
    } else {
        n
    }
}

fn capped_product(a: u64, b: u64) -> (product: u64)
    ensures
        product == capped(a * b),
{
    proof {
        assert(a * b <= u64::MAX * u64::MAX) by (nonlinear_arith)
            requires
                0 <= a <= u64::MAX,
                0 <= b <= u64::MAX,
        ;
        assert(0 <= a * b) by (nonlinear_arith)
            requires
                0 <= a,
                0 <= b,
        ;
    }
    let product: u128 = a as u128 * b as u128;
    if product > u64::MAX as u128 {
        u64::MAX
    } else {
        product as u64
    }
}

impl TrackClock {
    /// The position in microseconds.
    pub open spec fn micros(self) -> int {
        let frames = capped(self.channels * self.sample_rate);
        let played = if frames == 0 {
            0
        } else {
            capped(self.samples * 1_000_000) / frames
        };
        capped(self.seek_micros + played)
    }

    pub fn new(channels: u64, sample_rate: u64) -> (clock: TrackClock)
        ensures
            clock == (TrackClock {
                samples: 0,
                seek_micros: 0,
                channels: if channels == 0 {
                    1
                } else {
                    channels
                },
                sample_rate: if sample_rate == 0 {
                    1
                } else {
                    sample_rate
                },
            }),
    {
        TrackClock {
            samples: 0,
            seek_micros: 0,
            channels: if channels == 0 {
                1
            } else {
                channels
            },
            sample_rate: if sample_rate == 0 {
                1
            } else {
                sample_rate
            },
        }
    }

    pub fn position(&self) -> (position: Duration)
        ensures
            position.wf(),
            position.total() == self.micros() * 1000,
    {
        let scaled: u64 = capped_product(self.samples, 1_000_000);
        let frames: u64 = capped_product(self.channels, self.sample_rate);
        let played: u64 = if frames == 0 {
            0
        } else {
            scaled / frames
        };
        Duration::from_micros(self.seek_micros.saturating_add(played))
    }

    pub fn seeked_to(&mut self, position: Duration)
        ensures
            *final(self) == (TrackClock {
                samples: 0,
                seek_micros: capped(position.secs * 1_000_000 + position.nanos / 1000) as u64,
                ..*old(self)
            }),
    {
        let micros: u128 = position.as_micros();
        self.samples = 0;
        self.seek_micros = if micros > u64::MAX as u128 {
            u64::MAX
        } else {
            micros as u64
        };
    }
}

/// After a seek the clock shows where it went, to the microsecond.
pub proof fn law_clock_shows_the_seek(clock: TrackClock, position: Duration)
    requires
        position.wf(),
        position.secs * 1_000_000 + 1_000_000 <= u64::MAX,
    ensures
        (TrackClock {
            samples: 0,
            seek_micros: capped(position.secs * 1_000_000 + position.nanos / 1000) as u64,
            ..clock
        }).micros() == position.total() / 1000,
{
    let moved = TrackClock {
        samples: 0,
        seek_micros: capped(position.secs * 1_000_000 + position.nanos / 1000) as u64,
        ..clock
    };
    let frames = capped(clock.channels * clock.sample_rate);
    assert(clock.channels * clock.sample_rate >= 0) by (nonlinear_arith)
        requires
            clock.channels >= 0,
            clock.sample_rate >= 0,
    ;
    if frames != 0 {
        vstd::arithmetic::div_mod::lemma_div_basics(frames);
    }
}

/// Tells the first sample of a track and its end from the samples between.
#[derive(Clone, Copy, Debug)]
pub struct TrackSignals {
    pub track_id: TrackId,
    pub generation: u64,
    pub started: bool,
    pub finished: bool,
}

impl TrackSignals {
    pub fn new(track_id: TrackId, generation: u64) -> (signals: TrackSignals)
        ensures
            signals == (TrackSignals { track_id, generation, started: false, finished: false }),
    {
        TrackSignals { track_id, generation, started: false, finished: false }
    }

    /// What the source reports when it has produced a sample, or none.
    pub fn next(&mut self, sample: bool) -> (event: Option<AudioEvent>)
        ensures
            sample ==> *final(self) == (TrackSignals { started: true, ..*old(self) }),
            !sample ==> *final(self) == (TrackSignals {
                finished: old(self).started || old(self).finished,
                ..*old(self)
            }),
            event == if sample && !old(self).started {
                Some(
                    AudioEvent::TrackStarted {
                        track_id: old(self).track_id,
                        generation: old(self).generation,
                    },
                )
            } else if !sample && old(self).started && !old(self).finished {
                Some(
                    AudioEvent::TrackFinished {
                        track_id: old(self).track_id,
                        generation: old(self).generation,
                    },
                )
            } else {
                None
            },
    {
        if sample {
            if !self.started {
                self.started = true;
                return Some(
                    AudioEvent::TrackStarted {
                        track_id: self.track_id,
                        generation: self.generation,
                    },
                );
            }
        } else if self.started && !self.finished {
            self.finished = true;
            return Some(
                AudioEvent::TrackFinished { track_id: self.track_id, generation: self.generation },
            );
        }
        None
    }
}

/// The state of an engine that plays through a device: what it shows, and what it
/// knows of the staged track.
#[derive(Debug)]
pub struct Deck {
    pub snapshot: AudioSnapshot,
    pub staged_duration: Option<Duration>,
    pub staged_generation: Option<u64>,
}

impl Deck {
    /// Whether a start is that of the staged track.
    pub open spec fn is_staged(self, track_id: TrackId, generation: u64) -> bool {
        self.snapshot.staged_track_id == Some(track_id) && self.staged_generation == Some(
            generation,
        )
    }

    pub fn new(volume: u32, active_device: String, active_device_id: String) -> (deck: Deck)
        ensures
            deck.snapshot.stopped() == deck.snapshot,
            deck.snapshot.volume == unit_clamped(volume),
            deck.snapshot.active_device == active_device,
            deck.snapshot.active_device_id == Some(active_device_id),
            deck.staged_duration is None,
            deck.staged_generation is None,
    {
        Deck {
            snapshot: AudioSnapshot {
                state: PlaybackState::Stopped,
                track_id: None,
                position: Duration { secs: 0, nanos: 0 },
                duration: Duration { secs: 0, nanos: 0 },
                volume: clamp_unit(volume),
                active_device,
                active_device_id: Some(active_device_id),
                staged_track_id: None,
                generation: 0,
                error: None,
            },
            staged_duration: None,
            staged_generation: None,
        }
    }

    /// The track has been opened and plays.
    pub fn loaded(&mut self, track: &StagedTrack)
        ensures
            *final(self) == (Deck {
                snapshot: old(self).snapshot.loaded(track@).staged(None),
                staged_duration: None,
                staged_generation: None,
            }),
    {
        self.staged_duration = None;
        self.staged_generation = None;
        self.snapshot.state = PlaybackState::Playing;
        self.snapshot.track_id = Some(track.track_id);
        self.snapshot.position = Duration { secs: 0, nanos: 0 };
        self.snapshot.duration = track.duration;
        self.snapshot.staged_track_id = None;
        self.snapshot.generation = track.generation;
        self.snapshot.error = None;
    }

    pub fn staged(&mut self, track: &StagedTrack)
        ensures
            *final(self) == (Deck {
                snapshot: old(self).snapshot.staged(Some(track.track_id)),
                staged_duration: Some(track.duration),
                staged_generation: Some(track.generation),
            }),
    {
        self.staged_duration = Some(track.duration);
        self.staged_generation = Some(track.generation);
        self.snapshot.staged_track_id = Some(track.track_id);
    }

    pub fn clear_staged(&mut self)
        ensures
            *final(self) == (Deck {
                snapshot: old(self).snapshot.staged(None),
                staged_duration: None,
                staged_generation: None,
            }),
    {
        self.staged_duration = None;
        self.staged_generation = None;
        self.snapshot.staged_track_id = None;
    }

    pub fn stop(&mut self)
        ensures
            *final(self) == (Deck {
                snapshot: old(self).snapshot.stopped(),
                staged_duration: None,
                staged_generation: None,
            }),
    {
        self.snapshot.stop();
        self.staged_duration = None;
        self.staged_generation = None;
    }

    pub fn set_pending(&mut self, track_id: TrackId, duration: Duration, state: PlaybackState)
        ensures
            *final(self) == (Deck {
                snapshot: old(self).snapshot.pending(track_id, duration, state),
                staged_duration: None,
                staged_generation: None,
            }),
    {
        self.stop();
        self.snapshot.track_id = Some(track_id);
        self.snapshot.duration = duration;
        self.snapshot.state = state;
    }

    /// Lets the track play, where there is one.
    pub fn resume(&mut self) -> (result: Result<(), String>)
        ensures
            result is Ok == old(self).snapshot.track_id is Some,
            result is Err ==> result->Err_0@ == "no track is loaded"@,
            *final(self) == (Deck { snapshot: old(self).snapshot.playing(), ..*old(self) }),
    {
        if self.snapshot.track_id.is_none() {
            return Err("no track is loaded".to_owned());
        }
        self.snapshot.state = PlaybackState::Playing;
        Ok(())
    }

    pub fn pause(&mut self)
        ensures
            *final(self) == (Deck { snapshot: old(self).snapshot.paused(), ..*old(self) }),
    {
        if self.snapshot.track_id.is_some() {
            self.snapshot.state = PlaybackState::Paused;
        }
    }

    /// Takes a volume; gives what has to be set.
    pub fn set_volume(&mut self, volume: u32) -> (clamped: u32)
        ensures
            *final(self) == (Deck { snapshot: old(self).snapshot.at_volume(volume), ..*old(self) }),
            clamped == final(self).snapshot.volume,
    {
        self.snapshot.volume = clamp_unit(volume);
        self.snapshot.volume
    }

    /// A seek has gone there.
    pub fn sought(&mut self, position: Duration)
        ensures
            *final(self) == (Deck { snapshot: old(self).snapshot.sought(position), ..*old(self) }),
    {
        self.snapshot.position = position.min(self.snapshot.duration);
    }

    /// The target of a seek: no further than the end of the track.
    pub fn seek_target(&self, position: Duration) -> (target: Duration)
        ensures
            target == position.shorter(self.snapshot.duration),
    {
        position.min(self.snapshot.duration)
    }

    /// What is shown, with the clock's position where there is a clock.
    pub fn shown(&self, clock: Option<TrackClock>) -> (snapshot: AudioSnapshot)
        ensures
            match clock {
                None => snapshot == self.snapshot,
                Some(clock) => {
                    &&& snapshot == (AudioSnapshot {
                        position: snapshot.position,
                        ..self.snapshot
                    })
                    &&& exists|now: Duration|
                        #![trigger now.total()]
                        {
                            &&& now.wf()
                            &&& now.total() == clock.micros() * 1000
                            &&& snapshot.position == now.shorter(self.snapshot.duration)
                        }
                },
            },
    {
        let mut snapshot = self.snapshot.clone();
        if let Some(clock) = clock {
            let now = clock.position();
            snapshot.position = now.min(snapshot.duration);
            assert(now.total() == clock.micros() * 1000);
        }
        snapshot
    }

    /// Follows an event of the device; says whether the staged track took over.
    pub fn apply_event(&mut self, event: &AudioEvent, paused: bool) -> (took_over: bool)
        ensures
            took_over == (*event matches AudioEvent::TrackStarted { track_id, generation }
                && old(self).is_staged(track_id, generation)),
            match *event {
                AudioEvent::TrackStarted { track_id, generation } => {
                    let before = *old(self);
                    *final(self) == (Deck {
                        snapshot: AudioSnapshot {
                            track_id: Some(track_id),
                            generation,
                            position: Duration::zero(),
                            state: if paused {
                                PlaybackState::Paused
                            } else {
                                PlaybackState::Playing
                            },
                            error: None,
                            duration: if !took_over {
                                before.snapshot.duration
                            } else {
                                match before.staged_duration {
                                    Some(duration) => duration,
                                    None => Duration::zero(),
                                }
                            },
                            staged_track_id: if took_over {
                                None
                            } else {
                                before.snapshot.staged_track_id
                            },
                            ..before.snapshot
                        },
                        staged_duration: if took_over {
                            None
                        } else {
                            before.staged_duration
                        },
                        staged_generation: if took_over {
                            None
                        } else {
                            before.staged_generation
                        },
                    })
                },
                AudioEvent::DeviceLost(error) => *final(self) == (Deck {
                    snapshot: AudioSnapshot {
                        error: Some(error),
                        state: PlaybackState::Paused,
                        ..old(self).snapshot
                    },
                    ..*old(self)
                }),
                AudioEvent::TrackFinished { .. } => *final(self) == *old(self),
            },
    {
        match event {
            AudioEvent::TrackStarted { track_id, generation } => {
                let mut took_over = false;
                if self.snapshot.staged_track_id == Some(*track_id) && self.staged_generation
                    == Some(*generation) {
                    took_over = true;
                    self.snapshot.duration = match self.staged_duration {
                        Some(duration) => duration,
                        None => Duration { secs: 0, nanos: 0 },
                    };
                    self.staged_duration = None;
                    self.snapshot.staged_track_id = None;
                    self.staged_generation = None;
                }
                self.snapshot.track_id = Some(*track_id);
                self.snapshot.generation = *generation;
                self.snapshot.position = Duration { secs: 0, nanos: 0 };
                self.snapshot.state = if paused {
                    PlaybackState::Paused
                } else {
                    PlaybackState::Playing
                };
                self.snapshot.error = None;
                took_over
            },
            AudioEvent::DeviceLost(error) => {
                self.snapshot.error = Some(error.clone());
                self.snapshot.state = PlaybackState::Paused;
                false
            },
            AudioEvent::TrackFinished { .. } => false,
        }
    }
}

/// Devices without those that repeat the identifier of the one kept before them.
pub open spec fn without_repeats(devices: Seq<AudioDevice>) -> Seq<AudioDevice>
    decreases devices.len(),
{
    if devices.len() == 0 {
        devices
    } else {
        let rest = without_repeats(devices.drop_last());
        if rest.len() > 0 && rest.last().id@ == devices.last().id@ {
            rest
        } else {
            rest.push(devices.last())
        }
    }
}

/// Devices by name, letter case left aside, none right behind one with its identifier.
pub open spec fn devices_in_order(devices: Seq<AudioDevice>) -> Seq<AudioDevice> {
    without_repeats(
        sorted_by(
            devices,
            |a: AudioDevice, b: AudioDevice| text_less(lowercase(a.name@), lowercase(b.name@)),
        ),
    )
}

/// Puts the output devices in the order in which they are offered.
pub fn order_devices(devices: Vec<AudioDevice>) -> (ordered: Vec<AudioDevice>)
    ensures
        ordered@ == devices_in_order(devices@),
{
    let mut sorted = devices;
    let before = |a: &AudioDevice, b: &AudioDevice| -> (r: bool)
        ensures
            r == text_less(lowercase(a.name@), lowercase(b.name@)),
        {
            let left = to_lowercase(&a.name);
            let right = to_lowercase(&b.name);
            text_before(&left, &right)
        };
    sort_stably(
        &mut sorted,
        before,
        Ghost(|a: AudioDevice, b: AudioDevice| text_less(lowercase(a.name@), lowercase(b.name@))),
    );
    let mut ordered: Vec<AudioDevice> = Vec::new();
    let mut i: usize = 0;
    while i < sorted.len()
        invariant
            i <= sorted@.len(),
            ordered@ == without_repeats(sorted@.take(i as int)),
        decreases sorted@.len() - i,
    {
        assert(sorted@.take(i + 1).drop_last() =~= sorted@.take(i as int));
        let repeat = ordered.len() > 0 && same_text(
            &ordered[ordered.len() - 1].id,
            &sorted[i].id,
        );
        if !repeat {
            ordered.push(sorted[i].clone());
        }
        i = i + 1;
    }
    assert(sorted@.take(i as int) =~= sorted@);
    ordered
}

/// Leaving repeats out takes nothing else and keeps the order.
proof fn lemma_without_repeats(devices: Seq<AudioDevice>)
    ensures
        forall|i: int|
            0 <= i < without_repeats(devices).len() ==> devices.contains(
                #[trigger] without_repeats(devices)[i],
            ),
        devices.len() > 0 ==> without_repeats(devices).len() > 0
            && without_repeats(devices).last().id@ == devices.last().id@,
        forall|i: int|
            0 <= i < devices.len() ==> offers(
                without_repeats(devices),
                (#[trigger] devices[i]).id@,
            ),
    decreases devices.len(),
{
    if devices.len() > 0 {
        let fewer = devices.drop_last();
        let rest = without_repeats(fewer);
        let kept = without_repeats(devices);
        lemma_without_repeats(fewer);
        assert forall|i: int| 0 <= i < kept.len() implies devices.contains(#[trigger] kept[i]) by {
            if i < rest.len() {
                assert(fewer.contains(rest[i]));
                let k = choose|k: int| 0 <= k < fewer.len() && fewer[k] == rest[i];
                assert(devices[k] == rest[i]);
            } else {
                assert(devices[devices.len() - 1] == kept[i]);
            }
        }
        assert forall|i: int| 0 <= i < devices.len() implies offers(
            kept,
            (#[trigger] devices[i]).id@,
        ) by {
            if i < fewer.len() {
                assert(fewer[i] == devices[i]);
                assert(offers(rest, fewer[i].id@));
                let k = choose|k: int|
                    0 <= k < rest.len() && (#[trigger] rest[k]).id@ == fewer[i].id@;
                assert(kept[k] == rest[k]);
            } else {
                assert(kept[kept.len() - 1].id@ == devices[i].id@);
            }
        }
    }
}

/// Whether a device with this identifier is in a list.
pub open spec fn offers(devices: Seq<AudioDevice>, id: Seq<char>) -> bool {
    exists|i: int| 0 <= i < devices.len() && (#[trigger] devices[i]).id@ == id
}

/// Every device that was found is offered, and nothing else is.
pub proof fn law_found_devices_are_offered(devices: Seq<AudioDevice>)
    ensures
        forall|i: int|
            0 <= i < devices.len() ==> offers(
                devices_in_order(devices),
                (#[trigger] devices[i]).id@,
            ),
        forall|i: int|
            0 <= i < devices_in_order(devices).len() ==> devices.contains(
                #[trigger] devices_in_order(devices)[i],
            ),
{
    broadcast use vstd::seq_lib::group_to_multiset_ensures;

    let less = |a: AudioDevice, b: AudioDevice|
        text_less(lowercase(a.name@), lowercase(b.name@));
    let sorted = sorted_by(devices, less);
    assert(devices_in_order(devices) == without_repeats(sorted));
    law_sorting_keeps_items(devices, less);
    lemma_without_repeats(sorted);
    assert forall|i: int| 0 <= i < devices.len() implies offers(
        devices_in_order(devices),
        (#[trigger] devices[i]).id@,
    ) by {
        assert(devices.contains(devices[i]));
        assert(sorted.to_multiset().count(devices[i]) > 0);
        assert(sorted.contains(devices[i]));
        let k = choose|k: int| 0 <= k < sorted.len() && sorted[k] == devices[i];
        assert(offers(without_repeats(sorted), sorted[k].id@));
    }
    assert forall|i: int| 0 <= i < devices_in_order(devices).len() implies devices.contains(
        #[trigger] devices_in_order(devices)[i],
    ) by {
        let x = devices_in_order(devices)[i];
        assert(sorted.contains(x));
        assert(devices.to_multiset().count(x) > 0);
    }
}

} // verus!
