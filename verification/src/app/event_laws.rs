//! What the events of scans, servers and searches bring about.

use vstd::prelude::*;
use vstd::string::*;

use crate::app::flow::{Ask, EffectView, Flow, Next, RemoteEvent, ScanEvent};
use crate::app::state::AppView;
use crate::audio::{AudioSnapshot, StagedView, TrackClock};
use crate::model::{Focus, PlaybackState, ReplayGainInfo, ScannedTrack, TrackId};
use crate::net::credentials::SavedRemoteView;
use crate::order::views;
use crate::overlay::OverlayView;
use crate::soulseek::{SoulseekFilter, SoulseekHit, SoulseekPhase};
use crate::soulseek_session::{SoulseekCredentials, SoulseekEvent};
use crate::text::trimmed;
use crate::time::Duration;

verus! {

/// What a search finds takes the place of what was listed, and the cursor goes to its top.
pub proof fn law_results_take_the_place_of_the_list(
    app: AppView,
    hits: Vec<SoulseekHit>,
    post: AppView,
    flow: Flow,
)
    requires
        app.soulseek_followed(SoulseekEvent::SearchResults(hits), post, flow),
    ensures
        post.soulseek.ui.hits == hits@,
        post.soulseek.ui.filter == app.soulseek.ui.filter,
        post.soulseek.ui.query == app.soulseek.ui.query,
        app.panes.soulseek_open ==> post.lists.focus == Focus::Playlist,
        post.shelf == app.shelf,
        post.transport == app.transport,
        flow is Done,
{
}

/// A download that is done is one less, and its file is added; one that fails is one less as well.
pub proof fn law_downloads_end(
    app: AppView,
    path: String,
    message: String,
    post: AppView,
    flow: Flow,
)
    requires
        app.soulseek.downloads_active > 0,
    ensures
        app.soulseek_followed(SoulseekEvent::Finished(path), post, flow)
            ==> post.soulseek.downloads_active == app.soulseek.downloads_active - 1 && (
        flow matches Flow::Ask(Ask::ResolvePaths { paths }, Next::PathsResolved) && views(paths@)
            =~= seq![path@]),
        app.soulseek_followed(SoulseekEvent::DownloadFailed(message), post, flow)
            ==> post.soulseek.downloads_active == app.soulseek.downloads_active - 1
            && post.soulseek.ui.status == message@ && flow is Done,
{
}

/// Signing in asks for the name, then for the password, and then stores both as they were typed,
/// the name without the white space around it.
pub proof fn law_signing_in_keeps_what_was_typed(app: AppView, post: AppView, flow: Flow)
    requires
        app.soulseek_activated(post, flow),
        trimmed(app.soulseek.ui.username).len() > 0,
    ensures
        app.soulseek.ui.phase == SoulseekPhase::Username ==> post.soulseek.ui.phase
            == SoulseekPhase::Password && post.soulseek.ui.username == app.soulseek.ui.username
            && flow is Done,
        app.soulseek.ui.phase == SoulseekPhase::Password && app.soulseek.ui.password.len() > 0 ==> (
        flow matches Flow::Ask(
            Ask::SaveSoulseekCredentials(asked),
            Next::SoulseekCredentialsSaved(kept),
        ) && asked.username@ == trimmed(app.soulseek.ui.username) && asked.password@
            == app.soulseek.ui.password && kept == asked),
        app.soulseek.ui.phase == SoulseekPhase::Password && app.soulseek.ui.password.len() == 0
            ==> flow is Done && post.soulseek.ui.phase == SoulseekPhase::Password,
{
}

/// A session is started for the account, with its name as the name and its password as the
/// password, and with the folder that downloads go to.
pub proof fn law_sessions_start_with_the_account(
    app: AppView,
    credentials: SoulseekCredentials,
    download: Seq<char>,
    from_prompt: bool,
)
    ensures
        ({
            let post = app.session_started(credentials, download, from_prompt);
            &&& post.soulseek.session
            &&& post.outbox.drop_last() =~= app.outbox
            &&& post.outbox.last() matches EffectView::StartSoulseek {
                username,
                password,
                download_dir,
            } && username == credentials.username@ && password == credentials.password@
                && download_dir == download
        }),
{
}

/// Only hits with a free slot are left where these are asked for, and every such hit of the format
/// is.
pub proof fn law_free_slots_are_asked_for(filter: SoulseekFilter, hit: SoulseekHit)
    ensures
        filter.free_slot && filter.accepts(hit) ==> hit.slots > 0,
        hit.slots > 0 ==> filter.accepts(hit) == filter.format.accepts(hit),
        !filter.free_slot ==> filter.accepts(hit) == filter.format.accepts(hit),
{
}

/// A server that was reached is known by its name, its fingerprint and the revision of its catalog;
/// where it wants to be paired the code is asked for.
pub proof fn law_servers_introduce_themselves(
    app: AppView,
    server_name: String,
    fingerprint: String,
    revision: u64,
    pair_required: bool,
    post: AppView,
    flow: Flow,
)
    requires
        app.remote_followed(
            RemoteEvent::Connected { server_name, fingerprint, revision, pair_required },
            post,
            flow,
        ),
    ensures
        post.link.remote_name == Some(server_name@),
        post.link.remote_fingerprint == Some(fingerprint@),
        post.link.remote_revision == Some(revision),
        pair_required ==> post.front.overlay == (OverlayView::Pair { text: Seq::empty() }),
        !pair_required ==> post.front.overlay is Closed,
        post.shelf == app.shelf,
        flow is Done,
{
}

/// A pairing is remembered for the address that was dialled, with the token and the fingerprint that
/// the server gave.
pub proof fn law_pairings_are_remembered(
    app: AppView,
    saved: SavedRemoteView,
    token: Seq<char>,
    fingerprint: Seq<char>,
    post: AppView,
    flow: Flow,
)
    requires
        app.after_paired_address(Some(saved), token, fingerprint, post, flow),
    ensures
        flow matches Flow::Ask(Ask::SaveRemote(asked), Next::PairedSaved) && asked@.address
            == saved.address && asked@.token == token && asked@.fingerprint == fingerprint && (
        app.link.remote_name matches Some(name) ==> asked@.server_name == name),
{
}

/// Losing a server ends the connection and nothing else: the library and what plays stay.
pub proof fn law_losing_a_server_ends_the_connection(app: AppView, post: AppView, flow: Flow)
    requires
        app.remote_followed(RemoteEvent::Disconnected, post, flow),
    ensures
        !post.link.remote,
        post.shelf == app.shelf,
        post.transport == app.transport,
        flow is Done,
{
}

/// Leaving a server tells it so, and what was waited for from it is waited for no longer.
pub proof fn law_leaving_a_server(app: AppView)
    ensures
        !app.disconnected().link.remote,
        app.link.remote ==> app.disconnected().outbox =~= app.outbox.push(EffectView::Disconnect),
        !app.link.remote ==> app.disconnected().outbox == app.outbox,
        app.disconnected().transport.pending_play is None,
        app.disconnected().shelf == app.shelf,
{
}

/// A pairing code is sent as it was typed, without the white space around it, where there is a
/// server to send it to.
pub proof fn law_codes_are_sent_as_typed(app: AppView, text: Seq<char>)
    requires
        app.front.overlay == (OverlayView::Pair { text }),
    ensures
        app.link.remote ==> app.pair_submitted().outbox =~= app.outbox.push(
            EffectView::Pair(trimmed(text)),
        ),
        !app.link.remote ==> app.pair_submitted() == app,
{
}

/// A scan counts the tracks that it finds, each by one, and hands each to the store.
pub proof fn law_scans_count_their_tracks(
    app: AppView,
    track: ScannedTrack,
    add: bool,
    post: AppView,
    flow: Flow,
)
    requires
        app.scan_followed(ScanEvent::Track { track, add_to_playlist: add }, post, flow),
        0 <= app.front.scan_seen < usize::MAX,
    ensures
        post.front.scan_seen == app.front.scan_seen + 1,
        app.front.scan_progress matches Some((_, total)) ==> post.front.scan_progress == Some(
            ((app.front.scan_seen + 1) as usize, total),
        ),
        flow matches Flow::Ask(Ask::UpsertTrack(asked), Next::TrackStored { add: later }) && asked
            == track && later == add,
        post.shelf == app.shelf,
{
}

/// New figures of a track are the track's own and no other's, and go to the store with the size and
/// the time of its file.
pub proof fn law_measured_figures_are_kept(
    app: AppView,
    id: TrackId,
    info: ReplayGainInfo,
    file_size: Option<u64>,
    modified_ns: Option<i64>,
    other: TrackId,
)
    requires
        app.shelf.tracks.contains_key(id),
        other != id,
    ensures
        ({
            let post = app.gain_measured(id, info, file_size, modified_ns);
            let before = app.shelf.tracks[id];
            let after = post.shelf.tracks[id];
            &&& post.shelf.tracks.contains_key(id)
            &&& after.replay_gain == info
            &&& after.title == before.title && after.artist == before.artist && after.album
                == before.album && after.path == before.path && after.id == before.id
            &&& file_size matches Some(size) ==> after.file_size == size
            &&& modified_ns matches Some(ns) ==> after.modified_ns == ns
            &&& file_size is None ==> after.file_size == before.file_size
            &&& modified_ns is None ==> after.modified_ns == before.modified_ns
            &&& post.shelf.track(other) == app.shelf.track(other)
            &&& post.outbox =~= app.outbox.push(
                EffectView::UpdateReplayGain {
                    id,
                    info,
                    file_size: after.file_size,
                    modified_ns: after.modified_ns,
                },
            )
        }),
{
}

/// What is shown of a track that the engine has loaded: the track itself, its length, from its
/// beginning. Seeking goes to the position that was asked for, and never behind the end.
pub proof fn law_the_engine_shows_what_it_plays(
    shown: AudioSnapshot,
    track: StagedView,
    position: Duration,
)
    requires
        position.wf(),
        shown.duration.wf(),
    ensures
        ({
            let loaded = shown.loaded(track);
            &&& loaded.track_id == Some(track.track_id)
            &&& loaded.duration == track.duration
            &&& loaded.position.total() == 0
            &&& loaded.state == PlaybackState::Playing
            &&& loaded.volume == shown.volume
        }),
        shown.sought(position).position.total() == if position.total() <= shown.duration.total() {
            position.total()
        } else {
            shown.duration.total()
        },
        shown.sought(position).track_id == shown.track_id,
        shown.stopped().track_id is None,
        shown.stopped().volume == shown.volume,
        shown.track_id is Some ==> shown.paused().state == PlaybackState::Paused
            && shown.paused().position == shown.position && shown.paused().playing()
            == shown.playing(),
{
}

/// The clock of a track goes on by a second for as many samples as all channels have in a second.
pub proof fn law_the_clock_goes_by_the_samples(clock: TrackClock, seconds: int)
    requires
        0 < clock.channels * clock.sample_rate <= u64::MAX,
        0 <= seconds,
        clock.samples == seconds * (clock.channels * clock.sample_rate),
        clock.samples * 1_000_000 <= u64::MAX,
        clock.seek_micros + seconds * 1_000_000 <= u64::MAX,
    ensures
        clock.micros() == clock.seek_micros + seconds * 1_000_000,
{
    let frames = clock.channels * clock.sample_rate;
    assert(clock.samples * 1_000_000 == frames * (seconds * 1_000_000)) by (nonlinear_arith)
        requires
            clock.samples == seconds * frames,
    ;
    vstd::arithmetic::div_mod::lemma_div_multiples_vanish(seconds * 1_000_000, frames);
}

} // verus!
