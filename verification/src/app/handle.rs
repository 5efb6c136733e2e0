//! What each action does.

use vstd::prelude::*;
use vstd::string::*;

use crate::app::advance::lemma_played_keeps_wf;
use crate::app::flow::{failed_with, saves_state, Flow};
use crate::app::playback::{result_view, PlayOrigin};
use crate::app::state::{App, AppView, ContentPane, TransportView};
use crate::audio::{refusal_of, AudioEngine, EngineView};
use crate::help::{HelpState, HelpView};
use crate::model::{Focus, PlaybackState, TrackId};
use crate::overlay::{Overlay, OverlayView};
use crate::soulseek::{SoulseekRowKind, SoulseekScope};
use crate::time::Duration;
use crate::util::clamped;

verus! {

/// Where a seek by a number of seconds goes.
pub open spec fn seek_target(position: Duration, seconds: int) -> Duration {
    Duration { secs: clamped(position.secs + seconds, 0, i64::MAX as int) as u64, nanos: 0 }
}

impl AppView {
    /// The item under the cursor played.
    pub open spec fn plays_selected(self, post: AppView, flow: Flow) -> bool {
        exists|refusal: Option<Seq<char>>|
            match #[trigger] self.played_selected(refusal) {
                (after, Ok(())) => post == after && flow is Done,
                (after, Err(error)) => post == after && failed_with(flow, error),
            }
    }

    pub open spec fn with_shown(self, shown: crate::audio::AudioSnapshot) -> AppView {
        self.with_transport(
            TransportView {
                audio: EngineView { shown, ..self.transport.audio },
                ..self.transport
            },
        )
    }

    /// Play and pause.
    pub open spec fn play_toggled(self, post: AppView, flow: Flow) -> bool {
        let shown = self.transport.audio.shown;
        match shown.state {
            PlaybackState::Playing => flow is Done && post == self.with_shown(shown.paused()),
            PlaybackState::Paused => {
                &&& post == self.with_shown(shown.playing())
                &&& if shown.track_id is Some {
                    flow is Done
                } else {
                    failed_with(flow, "no track is loaded"@)
                }
            },
            PlaybackState::Loading | PlaybackState::Buffering => flow is Done && post
                == self.with_transport(
                TransportView {
                    pending_play: None,
                    pending_track: None,
                    ..self.transport.cleared()
                },
            ).said("Playback canceled"@),
            PlaybackState::Stopped => self.plays_selected(post, flow),
        }
    }

    /// A step back.
    pub open spec fn goes_back(self, post: AppView, flow: Flow) -> bool {
        exists|position: Duration, refusal: Option<Seq<char>>|
            match #[trigger] self.went_back(position, refusal) {
                (after, Ok(())) => post == after && flow is Done,
                (after, Err(error)) => post == after && failed_with(flow, error),
            }
    }

    /// A step ahead that somebody asked for.
    pub open spec fn goes_ahead(self, post: AppView, flow: Flow) -> bool {
        exists|refusals: Seq<Option<Seq<char>>>|
            match #[trigger] self.advanced(false, refusals) {
                (after, Ok(())) => post == after && flow is Done,
                (after, Err(error)) => post == after && failed_with(flow, error),
            }
    }

    /// A seek by a number of seconds.
    pub open spec fn seeks_by(self, seconds: int, post: AppView, flow: Flow) -> bool {
        exists|position: Duration|
            self.seeks_to(#[trigger] seek_target(position, seconds), post, flow)
    }

    /// A seek to a position.
    pub open spec fn seeks_to(self, position: Duration, post: AppView, flow: Flow) -> bool {
        exists|refusal: Option<Seq<char>>|
            match #[trigger] self.sought(position, refusal) {
                (after, Ok(())) => post == after && flow is Done,
                (after, Err(error)) => post == after && failed_with(flow, error),
            }
    }

    /// The next order of play.
    pub open spec fn order_cycled(self, post: AppView, flow: Flow) -> bool {
        let order = self.transport.playback_order.following();
        &&& exists|refusal: Option<Seq<char>>|
            post == (#[trigger] self.with_transport(
                TransportView { playback_order: order, ..self.transport },
            ).redealt().restaged(refusal)).said("Playback order: "@ + order.label_text())
        &&& saves_state(flow, post.saved_state())
    }

    pub open spec fn queue_cleared(self, post: AppView) -> bool {
        exists|refusal: Option<Seq<char>>|
            post == (#[trigger] self.with_transport(
                TransportView { queue: Seq::empty(), queue_selection: 0, ..self.transport },
            ).restaged(refusal)).said("Playback queue cleared"@)
    }

    /// Whether the player stops after the current track turned round.
    pub open spec fn stop_turned(self) -> AppView {
        self.with_transport(
            TransportView {
                stop_after_current: !self.transport.stop_after_current,
                ..self.transport
            },
        )
    }

    pub open spec fn stop_toggled(self, post: AppView) -> bool {
        exists|refusal: Option<Seq<char>>|
            post == (#[trigger] self.stop_turned().restaged(refusal)).said(
                if self.transport.stop_after_current {
                    "Stop after current: off"@
                } else {
                    "Stop after current: on"@
                },
            )
    }

    /// The queue's entry under the cursor taken out and played.
    pub open spec fn queue_entry_played(self, post: AppView, flow: Flow) -> bool {
        let at = self.transport.queue_selection;
        let queue = self.transport.queue;
        if 0 <= at < queue.len() {
            let rest = queue.remove(at);
            self.with_transport(
                TransportView {
                    queue: rest,
                    queue_selection: crate::app::advance::queue_cursor(at, rest.len() as int),
                    ..self.transport
                },
            ).plays(PlayOrigin::Track(queue[at]), post, flow)
        } else {
            post == self && flow is Done
        }
    }

    /// Enter pressed: what has the focus is played, added, searched for or changed.
    pub open spec fn selection_activated(self, post: AppView, flow: Flow) -> bool {
        match self.lists.focus {
            Focus::AlbumList | Focus::AlbumFilter => {
                let ids = self.selected_album_tracks();
                if ids.len() == 0 {
                    post == self && flow is Done
                } else {
                    self.tracks_added(self.shelf.active_playlist, ids, true, post, flow)
                }
            },
            Focus::SoulseekQuery => self.soulseek_activated(post, flow),
            Focus::SoulseekFilter => post == self.slots_toggled() && flow is Done,
            Focus::Playlist => if self.panes.soulseek_open {
                self.soulseek_activated(post, flow)
            } else {
                self.plays_selected(post, flow)
            },
            Focus::PlaylistFilter => self.plays_selected(post, flow),
            Focus::Queue => self.queue_entry_played(post, flow),
            Focus::Settings => self.setting_adjusted(1, post, flow),
            _ => post == self && flow is Done,
        }
    }

    /// Delete pressed: results are hidden, entries taken out.
    pub open spec fn current_removed(self, post: AppView, flow: Flow) -> bool {
        match self.panes.pane() {
            ContentPane::Soulseek => {
                &&& flow is Done
                &&& post == match self.soulseek.ui.current() {
                    Some(row) => self.scope_hidden(AppView::row_scope(row.kind)),
                    None => self,
                }
            },
            ContentPane::Queue => self.entry_dequeued(post) && flow is Done,
            _ => self.selection_removed(post, flow),
        }
    }

    /// A tab selected: a playlist's, or one of the three behind them.
    pub open spec fn tab_selected(self, index: int, post: AppView, flow: Flow) -> bool {
        let n = self.shelf.playlists.len() as int;
        if index < n {
            self.playlist_tab_selected(index, post, flow)
        } else if index == n {
            post == self.pane_shown(ContentPane::Queue) && flow is Done
        } else if index == n + 1 {
            self.soulseek_opened(post, flow)
        } else if index == n + 2 {
            post == self.pane_shown(ContentPane::Settings) && flow is Done
        } else {
            post == self && flow is Done
        }
    }

    /// The selection put into a playlist.
    pub open spec fn selection_added(self, index: int, post: AppView, flow: Flow) -> bool {
        if index >= self.shelf.playlists.len() {
            post == self && flow is Done
        } else {
            self.tracks_added(index, self.selected_library_tracks(), true, post, flow)
        }
    }

    pub open spec fn help_toggled(self) -> AppView {
        if self.front.overlay is Help {
            self.showing(OverlayView::Closed)
        } else {
            self.showing(OverlayView::Help(HelpState::opening()))
        }
    }
}

/// The end of a request that went well or not.
fn flow_of(result: Result<(), String>) -> (flow: Flow)
    ensures
        match result {
            Ok(()) => flow is Done,
            Err(error) => failed_with(flow, error@),
        },
{
    match result {
        Ok(()) => Flow::Done,
        Err(error) => Flow::Failed(error),
    }
}

impl<E: AudioEngine> App<E> {
    fn play_current(&mut self) -> (flow: Flow)
        requires
            old(self)@.wf(),
        ensures
            old(self)@.plays_selected(final(self)@, flow),
            final(self)@.wf(),
    {
        let ghost start = self@;
        let result = self.play_selected();
        let ghost refusal = refusal_of(result);
        proof {
            assert((self@, result_view(result)) == start.played_selected(refusal));
            lemma_played_keeps_wf(
                start,
                PlayOrigin::Playlist {
                    playlist_index: start.shelf.active_playlist as usize,
                    item_index: start.lists.playlist_selection as usize,
                },
                refusal,
            );
        }
        flow_of(result)
    }

    /// Plays or pauses.
    pub fn toggle_play(&mut self) -> (flow: Flow)
        requires
            old(self)@.wf(),
        ensures
            old(self)@.play_toggled(final(self)@, flow),
            final(self)@.wf(),
    {
        match self.transport.audio.snapshot().state {
            PlaybackState::Playing => {
                self.transport.audio.pause();
                Flow::Done
            },
            PlaybackState::Paused => {
                let result = self.transport.audio.play();
                flow_of(result)
            },
            PlaybackState::Loading | PlaybackState::Buffering => {
                self.clear_transport();
                self.transport.pending_play = None;
                self.transport.pending_track = None;
                self.say("Playback canceled".to_owned());
                Flow::Done
            },
            PlaybackState::Stopped => self.play_current(),
        }
    }

    pub(crate) fn go_back(&mut self) -> (flow: Flow)
        requires
            old(self)@.wf(),
        ensures
            old(self)@.goes_back(final(self)@, flow),
            final(self)@.wf(),
    {
        let ghost start = self@;
        let result = self.previous();
        proof {
            let position = choose|position: Duration|
                (self@, result_view(result)) == #[trigger] start.went_back(
                    position,
                    refusal_of(result),
                );
            assert((self@, result_view(result)) == start.went_back(position, refusal_of(result)));
        }
        flow_of(result)
    }

    pub(crate) fn go_ahead(&mut self) -> (flow: Flow)
        requires
            old(self)@.wf(),
        ensures
            old(self)@.goes_ahead(final(self)@, flow),
            final(self)@.wf(),
    {
        let ghost start = self@;
        let (result, refusals) = self.advance_traced(false);
        assert((self@, result_view(result)) == start.advanced(false, refusals@));
        flow_of(result)
    }

    pub(crate) fn seek_by(&mut self, seconds: i64) -> (flow: Flow)
        requires
            old(self)@.wf(),
        ensures
            old(self)@.seeks_by(seconds as int, final(self)@, flow),
            final(self)@.wf(),
    {
        let ghost start = self@;
        let position = self.transport.audio.snapshot().position;
        let flow = self.seek_from(position, seconds);
        assert(start.seeks_to(seek_target(position, seconds as int), self@, flow));
        flow
    }

    /// Seeks by a number of seconds from a position.
    pub fn seek_from(&mut self, position: Duration, seconds: i64) -> (flow: Flow)
        requires
            old(self)@.wf(),
        ensures
            old(self)@.seeks_to(seek_target(position, seconds as int), final(self)@, flow),
            final(self)@.wf(),
    {
        let wanted: i128 = position.as_secs() as i128 + seconds as i128;
        let secs: u64 = if wanted < 0 {
            0
        } else if wanted > i64::MAX as i128 {
            i64::MAX as u64
        } else {
            wanted as u64
        };
        self.seek_scaled(Duration { secs, nanos: 0 })
    }

    /// Seeks to a position.
    pub fn seek_scaled(&mut self, position: Duration) -> (flow: Flow)
        requires
            old(self)@.wf(),
        ensures
            old(self)@.seeks_to(position, final(self)@, flow),
            final(self)@.wf(),
    {
        let ghost start = self@;
        let result = self.seek(position);
        assert((self@, result_view(result)) == start.sought(position, refusal_of(result)));
        flow_of(result)
    }

    pub(crate) fn cycle_order(&mut self) -> (flow: Flow)
        requires
            old(self)@.wf(),
        ensures
            old(self)@.order_cycled(final(self)@, flow),
            final(self)@.wf(),
    {
        let ghost start = self@;
        let order = self.transport.playback_order.next();
        self.transport.playback_order = order;
        self.rebuild_shuffle();
        let ghost dealt = self@;
        let refusal = self.restage_traced();
        let ghost staged = self@;
        let mut text = "Playback order: ".to_owned();
        text.append(order.label());
        self.say(text);
        proof {
            assert(dealt == start.with_transport(
                TransportView { playback_order: order, ..start.transport },
            ).redealt());
            assert(staged == dealt.restaged(refusal@));
        }
        self.save_state()
    }

    pub(crate) fn clear_queue(&mut self)
        requires
            old(self)@.wf(),
        ensures
            old(self)@.queue_cleared(final(self)@),
            final(self)@.wf(),
    {
        let ghost start = self@;
        self.transport.queue = Vec::new();
        self.transport.queue_selection = 0;
        let ghost empty = self@;
        let refusal = self.restage_traced();
        let ghost staged = self@;
        self.say("Playback queue cleared".to_owned());
        proof {
            assert(empty.transport.queue =~= Seq::empty());
            assert(empty == start.with_transport(
                TransportView { queue: Seq::empty(), queue_selection: 0, ..start.transport },
            ));
            assert(staged == empty.restaged(refusal@));
        }
    }

    pub(crate) fn toggle_stop(&mut self)
        requires
            old(self)@.wf(),
        ensures
            old(self)@.stop_toggled(final(self)@),
            final(self)@.wf(),
    {
        let ghost start = self@;
        let stop = !self.transport.stop_after_current;
        self.transport.stop_after_current = stop;
        let ghost turned = self@;
        let refusal = self.restage_traced();
        let ghost staged = self@;
        self.say(
            if stop {
                "Stop after current: on".to_owned()
            } else {
                "Stop after current: off".to_owned()
            },
        );
        proof {
            assert(turned == start.stop_turned());
            assert(staged == turned.restaged(refusal@));
        }
    }

    fn play_queue_entry(&mut self) -> (flow: Flow)
        requires
            old(self)@.wf(),
        ensures
            old(self)@.queue_entry_played(final(self)@, flow),
            final(self)@.wf(),
    {
        let at: usize = self.transport.queue_selection;
        if at >= self.transport.queue.len() {
            return Flow::Done;
        }
        let ghost start = self@;
        let id: TrackId = self.transport.queue.remove(at);
        let rest: usize = self.transport.queue.len();
        let top: usize = if rest == 0 {
            0
        } else {
            rest - 1
        };
        if self.transport.queue_selection > top {
            self.transport.queue_selection = top;
        }
        let ghost before = self@;
        let result = self.play(PlayOrigin::Track(id));
        let ghost refusal = refusal_of(result);
        proof {
            assert(before.transport.queue == start.transport.queue.remove(at as int));
            assert((self@, result_view(result)) == before.played(PlayOrigin::Track(id), refusal));
            lemma_played_keeps_wf(before, PlayOrigin::Track(id), refusal);
        }
        flow_of(result)
    }

    /// Acts on what has the focus.
    pub fn activate_selection(&mut self) -> (flow: Flow)
        requires
            old(self)@.wf(),
        ensures
            old(self)@.selection_activated(final(self)@, flow),
            final(self)@.wf(),
    {
        let open = self.panes.soulseek_open;
        match self.lists.focus {
            Focus::AlbumList | Focus::AlbumFilter => {
                let ids = self.selected_album_tracks();
                if ids.len() == 0 {
                    return Flow::Done;
                }
                self.add_tracks_to(self.shelf.active_playlist, &ids, true)
            },
            Focus::SoulseekQuery => self.soulseek_activate(),
            Focus::SoulseekFilter => {
                self.toggle_slots();
                Flow::Done
            },
            Focus::Playlist if open => self.soulseek_activate(),
            Focus::Playlist | Focus::PlaylistFilter => self.play_current(),
            Focus::Queue => self.play_queue_entry(),
            Focus::Settings => self.adjust_setting(1),
            _ => Flow::Done,
        }
    }

    /// Takes out or hides what is under the cursor.
    pub fn remove_current(&mut self) -> (flow: Flow)
        requires
            old(self)@.wf(),
        ensures
            old(self)@.current_removed(final(self)@, flow),
            final(self)@.wf(),
    {
        match self.panes.content_pane() {
            ContentPane::Soulseek => {
                match self.soulseek.ui.selected_kind() {
                    Some(SoulseekRowKind::File) => self.soulseek_hide(SoulseekScope::File),
                    Some(SoulseekRowKind::Folder) => self.soulseek_hide(SoulseekScope::Folder),
                    Some(SoulseekRowKind::User) => self.soulseek_hide(SoulseekScope::User),
                    None => {},
                }
                Flow::Done
            },
            ContentPane::Queue => {
                self.remove_from_queue();
                Flow::Done
            },
            _ => self.remove_selection(),
        }
    }

    /// Selects a tab.
    pub fn select_playlist_tab(&mut self, index: usize) -> (flow: Flow)
        requires
            old(self)@.wf(),
        ensures
            old(self)@.tab_selected(index as int, final(self)@, flow),
            final(self)@.wf(),
    {
        let n: usize = self.shelf.playlists.len();
        assert(self@.shelf.playlists.len() == n);
        if index < n {
            self.select_playlist(index)
        } else if index - n == 0 {
            self.show_pane(ContentPane::Queue);
            Flow::Done
        } else if index - n == 1 {
            self.open_soulseek_tab()
        } else if index - n == 2 {
            self.show_pane(ContentPane::Settings);
            Flow::Done
        } else {
            Flow::Done
        }
    }

    /// Puts the selection into a playlist.
    pub fn add_selection_to_playlist(&mut self, index: usize) -> (flow: Flow)
        requires
            old(self)@.wf(),
        ensures
            old(self)@.selection_added(index as int, final(self)@, flow),
            final(self)@.wf(),
    {
        assert(self@.shelf.playlists.len() == self.shelf.playlists@.len());
        if index >= self.shelf.playlists.len() {
            return Flow::Done;
        }
        let ids = self.selected_library_tracks();
        self.add_tracks_to(index, &ids, true)
    }

    pub(crate) fn toggle_help(&mut self)
        ensures
            final(self)@ == old(self)@.help_toggled(),
    {
        let open = match &self.front.overlay {
            Overlay::Help(_) => true,
            _ => false,
        };
        self.front.overlay = if open {
            Overlay::Closed
        } else {
            Overlay::Help(HelpView::default())
        };
    }
}

} // verus!
