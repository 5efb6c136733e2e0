use std::collections::BTreeSet;

use staccato::action::Action;
use staccato::app::flow::{
    AfterEngine, Answer, Ask, Effect, Flow, Next, RemoteEvent, ReplayGainEvent, ResolvedPath,
    ScanEvent,
};
use staccato::app::playback::PlayOrigin;
use staccato::app::playlists::unique_playlist_name;
use staccato::app::resume::{data_dir_of, missing_playlist, FlowSource, Startup};
use staccato::app::state::{App, CachedFile};
use staccato::audio::{
    AudioEngine, AudioEvent, AudioSnapshot, EngineView, MediaSource, SilentEngine, StagedTrack,
    SPECTRUM_BANDS,
};
use staccato::model::{
    Focus, GainPlan, PlaybackOrder, PlaybackState, Playlist, PlaylistColumn, ReplayGainInfo, ReplayGainMode,
    ScannedTrack, Track, TrackId, TrackOrigin,
};
use staccato::net::addr::{IpAddr, SocketAddr};
use staccato::net::credentials::SavedRemote;
use staccato::net::protocol::CatalogTrack;
use staccato::overlay::{Overlay, PickerEntry};
use staccato::settings::SettingId;
use staccato::soulseek::{SoulseekHit, SoulseekPhase, SoulseekUi};
use staccato::soulseek_session::SoulseekEvent;
use staccato::storage::{upsert_remote_track, upsert_track, SavedState};
use staccato::time::Duration;

const VOLUME: u32 = 0x3f4c_cccd;

fn sample_track(id: TrackId, artist: &str, album: &str, title: &str) -> Track {
    Track {
        id,
        path: format!("/music/{title}.flac"),
        title: title.into(),
        artist: artist.into(),
        album: album.into(),
        date: Some(2024),
        track_number: Some(1),
        duration: Duration::from_secs(180),
        codec: "FLAC".into(),
        sample_rate: Some(44_100),
        channels: Some(2),
        file_size: 10,
        modified_ns: 0,
        unavailable: false,
        scan_error: None,
        origin: TrackOrigin::Local,
        replay_gain: ReplayGainInfo::default(),
    }
}

fn remote_track(id: TrackId, remote_id: &str) -> Track {
    Track {
        origin: TrackOrigin::Remote {
            fingerprint: "fp".into(),
            remote_id: remote_id.into(),
            server_name: "Studio".into(),
        },
        ..sample_track(id, "R", "R", remote_id)
    }
}

fn startup(tracks: Vec<Track>, items: Vec<TrackId>) -> Startup {
    Startup {
        tracks,
        playlists: vec![Playlist { id: 7, name: "Default".into(), items }],
        saved: SavedState::default(),
        roots: Vec::new(),
        no_audio: true,
        audio_error: None,
        output_devices: Vec::new(),
        data_dir: "/data".into(),
    }
}

fn player(tracks: Vec<Track>, items: Vec<TrackId>) -> App<SilentEngine> {
    App::open(startup(tracks, items), SilentEngine::new(VOLUME))
}

fn two_tracks() -> App<SilentEngine> {
    player(
        vec![sample_track(1, "A", "A", "One"), sample_track(2, "A", "A", "Two")],
        vec![1, 2],
    )
}

fn three_tracks() -> App<SilentEngine> {
    player(
        vec![
            sample_track(1, "A", "A", "One"),
            sample_track(2, "A", "A", "Two"),
            sample_track(3, "B", "B", "Queued"),
        ],
        vec![1, 2, 3],
    )
}

/// Answers every question as a store does in which everything goes well.
fn answer(ask: Ask, next_id: &mut TrackId) -> Answer<SilentEngine> {
    match ask {
        Ask::CreatePlaylist { name, .. } => {
            *next_id += 1;
            Answer::Playlist(Ok(Playlist { id: *next_id, name, items: Vec::new() }))
        }
        Ask::ResolvePaths { paths } => Answer::Paths(
            paths
                .into_iter()
                .map(|path| ResolvedPath { is_dir: !path.contains('.'), path })
                .collect(),
        ),
        Ask::LoadRoots => Answer::Roots(Ok(vec!["/music".into()])),
        Ask::ClipboardPaths => Answer::Clipboard(Ok(vec!["/music/clip.flac".into()])),
        Ask::ListFolder { directory } => Answer::Folder {
            directory: directory.unwrap_or("/home".into()),
            found: vec![
                PickerEntry { path: "/home/b.flac".into(), is_dir: false },
                PickerEntry { path: "/home/notes.txt".into(), is_dir: false },
                PickerEntry { path: "/home/Albums".into(), is_dir: true },
            ],
        },
        Ask::DescribeGain { .. } => Answer::Text("none".into()),
        Ask::CheckFiles { paths } => Answer::Flags(paths.iter().map(|_| true).collect()),
        Ask::OutputDevices => Answer::Devices(Vec::new()),
        Ask::MakeEngine { volume, .. } => Answer::Engine(Ok(SilentEngine::new(volume))),
        Ask::AddVolume { volume, percent } => {
            let changed = (f32::from_bits(volume) + percent as f32 / 100.0).clamp(0.0, 1.0);
            Answer::Volume {
                volume: changed.to_bits(),
                label: format!("{:.0}", changed * 100.0),
            }
        }
        Ask::VolumeFraction { at, of } => Answer::Volume {
            volume: (f32::from(at) / f32::from(of)).to_bits(),
            label: String::new(),
        },
        Ask::ScaleDuration { duration, at, of } => {
            Answer::Span(Duration::from_secs(duration.secs * u64::from(at) / u64::from(of)))
        }
        Ask::AddPreamp { preamp, delta } => {
            let changed = f32::from_bits(preamp) + delta as f32;
            Answer::Preamp { preamp: changed.to_bits(), label: format!("{changed:+.1} dB") }
        }
        Ask::ResolveEndpoint { .. } => Answer::Address(Ok(address())),
        Ask::LoadRemote { .. } => Answer::Remote { text: "192.168.1.5:1744".into(), saved: None },
        Ask::LoadSavedRemote => Answer::Remote { text: String::new(), saved: None },
        Ask::LoadSoulseekCredentials => Answer::Credentials(None),
        Ask::UpsertTrack(track) => {
            *next_id += 1;
            Answer::Track(Ok(upsert_track(*next_id, &track)))
        }
        Ask::UpsertRemoteTrack { fingerprint, server_name, track } => {
            let id = 200 + TrackId::from(track.remote_id.as_bytes()[0]);
            Answer::Track(Ok(upsert_remote_track(id, &fingerprint, &server_name, &track)))
        }
        _ => Answer::Done(Ok(())),
    }
}

fn address() -> SocketAddr {
    SocketAddr { ip: IpAddr::V4(0xc0a8_0105), port: 1744, flowinfo: 0, scope_id: 0 }
}

fn settle(app: &mut App<SilentEngine>, mut flow: Flow, source: FlowSource) {
    let mut next_id = 100;
    loop {
        match flow {
            Flow::Ask(ask, next) => {
                let reply = answer(ask, &mut next_id);
                flow = app.resume(next, reply, source);
            }
            _ => return,
        }
    }
}

fn act(app: &mut App<SilentEngine>, action: Action) {
    let flow = app.handle(action);
    settle(app, flow, FlowSource::Action);
}

fn shuffle_is_stable() {
    let mut app = player(Vec::new(), Vec::new());
    app.shelf.playlists[0].items = vec![10, 20, 30, 40, 50];
    app.rebuild_shuffle();
    let first = app.transport.deal.shuffle.clone();
    app.rebuild_shuffle();
    assert_eq!(app.transport.deal.shuffle, first);
    let mut sorted = app.transport.deal.shuffle.clone();
    sorted.sort_unstable();
    assert_eq!(sorted, vec![0, 1, 2, 3, 4]);
}

#[test]
fn app_shuffle_is_a_stable_permutation() {
    shuffle_is_stable();
}

#[test]
fn tests_shuffle_is_a_stable_permutation() {
    shuffle_is_stable();
}

fn queue_first() {
    let mut app = two_tracks();
    app.lists.playlist_selection = 0;
    app.transport.queue.push(2);
    app.transport.playing = Some((app.shelf.playlists[0].id, 0));
    act(&mut app, Action::Next);
    app.tick();
    assert_eq!(app.front.audio_snapshot.track_id, Some(2));
    assert!(app.transport.queue.is_empty());
}

#[test]
fn app_queue_plays_before_the_playlist() {
    queue_first();
}

#[test]
fn tests_queue_plays_before_the_playlist() {
    queue_first();
}

fn stop_halts() {
    let mut app = two_tracks();
    app.transport.playing = Some((app.shelf.playlists[0].id, 0));
    app.transport.stop_after_current = true;
    app.advance(true).unwrap();
    assert!(app.transport.playing.is_none());
    assert!(!app.transport.stop_after_current);
}

#[test]
fn app_stop_after_current_halts_automatic_advance() {
    stop_halts();
}

#[test]
fn tests_stop_after_current_halts_automatic_advance() {
    stop_halts();
}

fn staged_transition() {
    let mut app = two_tracks();
    app.play_at(0, 0).unwrap();
    assert_eq!(app.transport.audio.snapshot().track_id, Some(1));
    assert_eq!(app.transport.audio.snapshot().staged_track_id, None);
    app.tick();
    assert_eq!(app.transport.audio.snapshot().staged_track_id, Some(2));
    app.transport.audio.simulate_staged_transition();
    app.tick();

    assert_eq!(app.front.audio_snapshot.track_id, Some(2));
    assert_eq!(app.transport.playing, Some((app.shelf.playlists[0].id, 1)));
    assert_eq!(app.front.audio_snapshot.staged_track_id, None);
}

#[test]
fn app_staged_transition_advances_without_polling_for_an_empty_player() {
    staged_transition();
}

#[test]
fn tests_staged_transition_advances_without_polling_for_an_empty_player() {
    staged_transition();
}

fn queue_replaces_staged() {
    let mut app = three_tracks();
    app.play_at(0, 0).unwrap();
    app.tick();
    assert_eq!(app.transport.audio.snapshot().staged_track_id, Some(2));

    app.lists.playlist_selection = 2;
    app.queue_selection();
    assert_eq!(app.transport.audio.snapshot().staged_track_id, Some(3));
    act(&mut app, Action::ToggleStopAfterCurrent);
    assert_eq!(app.transport.audio.snapshot().staged_track_id, None);
}

#[test]
fn app_queue_and_stop_after_current_replace_the_staged_successor() {
    queue_replaces_staged();
}

#[test]
fn tests_queue_and_stop_after_current_replace_the_staged_successor() {
    queue_replaces_staged();
}

#[test]
fn a_player_starts_on_the_saved_playlist() {
    let mut given = startup(Vec::new(), Vec::new());
    given.playlists.push(Playlist { id: 8, name: "Second".into(), items: Vec::new() });
    given.saved.active_playlist = 9;
    let app = App::open(given, SilentEngine::new(VOLUME));
    assert_eq!(app.shelf.active_playlist, 1);
    assert_eq!(app.front.status, "Ready");
    assert_eq!(app.lists.focus, Focus::Playlist);
    assert_eq!(app.tab_count(), 5);
    assert_eq!(app.selected_tab(), 1);
}

#[test]
fn a_player_scans_its_folders_when_it_starts() {
    let mut given = startup(vec![sample_track(1, "A", "A", "One")], vec![1]);
    given.roots = vec!["/music".into()];
    let mut app = App::open(given, SilentEngine::new(VOLUME));
    let effects = app.take_effects();
    assert_eq!(effects.len(), 1);
    match &effects[0] {
        Effect::Scan { paths, add_to_playlist, known } => {
            assert_eq!(paths, &vec!["/music".to_owned()]);
            assert!(!add_to_playlist);
            assert_eq!(known.len(), 1);
            assert_eq!(known[0].path, "/music/One.flac");
        }
        other => panic!("unexpected {other:?}"),
    }
    assert!(app.take_effects().is_empty());
}

#[test]
fn the_first_playlist_is_made_where_there_is_none() {
    match missing_playlist(&Vec::new()) {
        Some(Ask::CreatePlaylist { name, position }) => {
            assert_eq!(name, "Default");
            assert_eq!(position, 0);
        }
        other => panic!("unexpected {other:?}"),
    }
    let some = vec![Playlist { id: 1, name: "A".into(), items: Vec::new() }];
    assert!(missing_playlist(&some).is_none());
    assert_eq!(data_dir_of("/home/me/staccato.db"), "/home/me");
}

#[test]
fn space_plays_pauses_and_plays_on() {
    let mut app = two_tracks();
    act(&mut app, Action::TogglePlay);
    app.tick();
    assert_eq!(app.front.audio_snapshot.state, PlaybackState::Playing);
    assert_eq!(app.front.status, "Playing: A — One");
    act(&mut app, Action::TogglePlay);
    app.tick();
    assert_eq!(app.front.audio_snapshot.state, PlaybackState::Paused);
    act(&mut app, Action::TogglePlay);
    app.tick();
    assert_eq!(app.front.audio_snapshot.state, PlaybackState::Playing);
    act(&mut app, Action::Stop);
    app.tick();
    assert_eq!(app.front.audio_snapshot.state, PlaybackState::Stopped);
}

#[test]
fn the_playlist_ends_behind_its_last_track() {
    let mut app = two_tracks();
    app.play_at(0, 1).unwrap();
    app.advance(true).unwrap();
    assert_eq!(app.transport.playing, None);
    assert_eq!(app.front.status, "Playback finished");
}

#[test]
fn a_repeated_playlist_begins_anew() {
    let mut app = two_tracks();
    app.transport.playback_order = PlaybackOrder::RepeatPlaylist;
    app.play_at(0, 1).unwrap();
    app.advance(true).unwrap();
    assert_eq!(app.transport.playing, Some((7, 0)));
}

#[test]
fn a_repeated_track_plays_again() {
    let mut app = two_tracks();
    app.transport.playback_order = PlaybackOrder::RepeatTrack;
    app.play_at(0, 1).unwrap();
    app.advance(true).unwrap();
    assert_eq!(app.transport.playing, Some((7, 1)));
    assert_eq!(app.transport.audio.snapshot().track_id, Some(2));
}

#[test]
fn unplayable_tracks_are_skipped() {
    let mut broken = sample_track(2, "A", "A", "Two");
    broken.unavailable = true;
    let mut app = player(
        vec![sample_track(1, "A", "A", "One"), broken, sample_track(3, "A", "A", "Three")],
        vec![1, 2, 3],
    );
    assert_eq!(app.play_at(0, 1), Err("file is unavailable: /music/Two.flac".to_owned()));
    app.play_at(0, 0).unwrap();
    app.advance(true).unwrap();
    assert_eq!(app.transport.playing, Some((7, 2)));
    assert_eq!(app.play_at(4, 0), Err("playlist disappeared".to_owned()));
    assert_eq!(app.play_at(0, 9), Err("track selection is out of range".to_owned()));
    assert_eq!(app.play_track_id(99), Err("track metadata is missing".to_owned()));
    assert_eq!(app.play(PlayOrigin::Track(3)), Ok(()));
}

#[test]
fn going_back_restarts_a_track_that_has_played_a_while() {
    let mut app = two_tracks();
    app.play_at(0, 1).unwrap();
    app.seek(Duration::from_secs(30)).unwrap();
    app.previous().unwrap();
    assert_eq!(app.transport.audio.snapshot().track_id, Some(2));
    assert_eq!(app.transport.audio.snapshot().position, Duration::from_secs(0));
    app.previous().unwrap();
    assert_eq!(app.transport.audio.snapshot().track_id, Some(1));
}

#[test]
fn a_lost_device_is_reported() {
    let mut app = two_tracks();
    app.apply_audio_events(&vec![AudioEvent::DeviceLost("unplugged".into())]);
    assert_eq!(app.front.status, "Audio device lost: unplugged");
    assert_eq!(app.front.audio_error.as_deref(), Some("unplugged"));
}

#[test]
fn a_server_track_is_fetched_before_it_plays() {
    let mut app = player(vec![remote_track(1, "abc")], vec![1]);
    assert_eq!(app.play_at(0, 0), Err("not connected to the server".to_owned()));
    app.link.remote = true;
    app.play_at(0, 0).unwrap();
    assert_eq!(app.front.status, "Buffering R — abc");
    match app.take_effects().as_slice() {
        [Effect::Fetch { remote_id, file_size, etag }] => {
            assert_eq!(remote_id, "abc");
            assert_eq!(*file_size, 10);
            assert_eq!(etag, "0-10");
        }
        other => panic!("unexpected {other:?}"),
    }
    app.set_cache(vec![CachedFile { path: "/data/cache/fp/abc".into(), len: 10 }]);
    let flow = app.handle_remote_event(RemoteEvent::MediaReady { remote_id: "abc".into() });
    settle(&mut app, flow, FlowSource::Remote);
    assert_eq!(app.transport.audio.snapshot().track_id, Some(1));
    assert_eq!(app.front.status, "Streaming from Studio: R — abc");
}

#[test]
fn new_playlists_get_free_names() {
    let mut app = two_tracks();
    act(&mut app, Action::NewPlaylist);
    act(&mut app, Action::NewPlaylist);
    let names: Vec<&str> = app.shelf.playlists.iter().map(|list| list.name.as_str()).collect();
    assert_eq!(names, vec!["Default", "New Playlist", "New Playlist (2)"]);
    assert_eq!(app.shelf.active_playlist, 2);
    assert_eq!(unique_playlist_name(&app.shelf.playlists), "New Playlist (3)");
}

#[test]
fn a_playlist_is_renamed_by_typing() {
    let mut app = two_tracks();
    act(&mut app, Action::BeginRenamePlaylist);
    for _ in 0.."Default".len() {
        act(&mut app, Action::TextBackspace);
    }
    for c in "Mix é".chars() {
        act(&mut app, Action::TextInput(c));
    }
    act(&mut app, Action::TextBackspace);
    act(&mut app, Action::TextInput('!'));
    act(&mut app, Action::OverlayActivate);
    assert_eq!(app.shelf.playlists[0].name, "Mix !");
    assert!(matches!(app.front.overlay, Overlay::Closed));
}

#[test]
fn a_failed_store_is_shown() {
    let mut app = two_tracks();
    let flow = app.handle(Action::NewPlaylist);
    let next = match flow {
        Flow::Ask(Ask::CreatePlaylist { .. }, next) => next,
        other => panic!("unexpected {other:?}"),
    };
    assert!(matches!(next, Next::PlaylistCreated));
    let flow = app.resume(next, Answer::Playlist(Err("disk full".into())), FlowSource::Action);
    assert!(matches!(flow, Flow::Done));
    assert_eq!(app.front.status, "Error: disk full");
    assert_eq!(app.shelf.playlists.len(), 1);
}

#[test]
fn closing_playlists_keeps_the_last_one() {
    let mut app = two_tracks();
    act(&mut app, Action::NewPlaylist);
    act(&mut app, Action::ClosePlaylist);
    assert_eq!(app.shelf.playlists.len(), 1);
    assert_eq!(app.shelf.active_playlist, 0);
    act(&mut app, Action::ClosePlaylist);
    assert_eq!(app.shelf.playlists.len(), 1);
}

#[test]
fn marked_tracks_are_removed_together() {
    let mut app = three_tracks();
    app.lists.focus = Focus::Playlist;
    act(&mut app, Action::SelectPlaylistRow(0));
    act(&mut app, Action::ExtendSelection(1));
    assert_eq!(app.lists.playlist_marked, BTreeSet::from([1, 2]));
    act(&mut app, Action::RemoveSelection);
    assert_eq!(app.shelf.playlists[0].items, vec![3]);
    assert!(app.lists.playlist_marked.is_empty());
}

#[test]
fn items_move_down_and_back() {
    let mut app = three_tracks();
    app.lists.focus = Focus::Playlist;
    act(&mut app, Action::SelectPlaylistRow(0));
    act(&mut app, Action::MovePlaylistItems(1));
    assert_eq!(app.shelf.playlists[0].items, vec![2, 1, 3]);
    assert_eq!(app.lists.playlist_selection, 1);
    act(&mut app, Action::MovePlaylistItems(-1));
    assert_eq!(app.shelf.playlists[0].items, vec![1, 2, 3]);
}

#[test]
fn sorting_a_second_time_turns_the_order_round() {
    let mut app = three_tracks();
    act(&mut app, Action::SortPlaylist(PlaylistColumn::Title));
    assert_eq!(app.shelf.playlists[0].items, vec![1, 3, 2]);
    assert_eq!(app.lists.playlist_sort, Some((PlaylistColumn::Title, true)));
    act(&mut app, Action::SortPlaylist(PlaylistColumn::Title));
    assert_eq!(app.shelf.playlists[0].items, vec![2, 3, 1]);
}

#[test]
fn a_filter_narrows_the_playlist() {
    let mut app = three_tracks();
    app.lists.focus = Focus::Playlist;
    act(&mut app, Action::BeginFilter);
    assert_eq!(app.lists.focus, Focus::PlaylistFilter);
    assert!(app.captures_text());
    for c in "queue".chars() {
        act(&mut app, Action::TextInput(c));
    }
    assert_eq!(app.visible_playlist_indices(), vec![2]);
    act(&mut app, Action::ClearFilter);
    assert_eq!(app.visible_playlist_indices(), vec![0, 1, 2]);
}

#[test]
fn pasted_text_loses_its_control_characters() {
    let mut app = three_tracks();
    app.lists.focus = Focus::PlaylistFilter;
    act(&mut app, Action::PasteText("a\nb\tc".into()));
    assert_eq!(app.lists.playlist_filter, "abc");
}

#[test]
fn an_album_is_added_once() {
    let mut app = player(
        vec![sample_track(1, "A", "A", "One"), sample_track(2, "A", "A", "Two")],
        Vec::new(),
    );
    app.lists.focus = Focus::AlbumList;
    act(&mut app, Action::SelectAlbumRow(0));
    act(&mut app, Action::ActivateSelection);
    assert_eq!(app.shelf.playlists[0].items, vec![1, 2]);
    act(&mut app, Action::ActivateSelection);
    assert_eq!(app.shelf.playlists[0].items, vec![1, 2]);
}

#[test]
fn tracks_are_queued_and_taken_out_again() {
    let mut app = three_tracks();
    app.lists.focus = Focus::Playlist;
    act(&mut app, Action::SelectPlaylistRow(1));
    act(&mut app, Action::QueueSelection);
    act(&mut app, Action::QueueSelection);
    assert_eq!(app.transport.queue, vec![2, 2]);
    act(&mut app, Action::ClearQueue);
    assert!(app.transport.queue.is_empty());
}

#[test]
fn scanned_tracks_are_stored_and_added() {
    let mut app = player(Vec::new(), Vec::new());
    let flow = app.process_scan_event(ScanEvent::Started { total_hint: 2, add_to_playlist: true });
    settle(&mut app, flow, FlowSource::Scan);
    assert_eq!(app.front.scan_progress, Some((0, 2)));
    let scanned = ScannedTrack {
        path: "/music/new.flac".into(),
        title: "New".into(),
        artist: "A".into(),
        album: "B".into(),
        date: None,
        track_number: None,
        duration: Duration::from_secs(1),
        codec: "FLAC".into(),
        sample_rate: None,
        channels: None,
        file_size: 1,
        modified_ns: 1,
        scan_error: None,
        replay_gain: ReplayGainInfo::default(),
    };
    let flow = app.process_scan_event(ScanEvent::Track { track: scanned, add_to_playlist: true });
    settle(&mut app, flow, FlowSource::Scan);
    assert_eq!(app.shelf.playlists[0].items, vec![101]);
    assert_eq!(app.shelf.tracks[&101].title, "New");
    let flow = app.process_scan_event(ScanEvent::Finished { discovered: 1, failed: 0 });
    settle(&mut app, flow, FlowSource::Scan);
    assert_eq!(app.front.scan_progress, None);
}

#[test]
fn dropped_folders_become_library_folders() {
    let mut app = player(Vec::new(), Vec::new());
    act(&mut app, Action::AddPaths(vec!["/more".into(), "/music/a.flac".into()]));
    match app.take_effects().as_slice() {
        [Effect::Scan { paths, add_to_playlist, .. }] => {
            assert_eq!(paths, &vec!["/more".to_owned(), "/music/a.flac".to_owned()]);
            assert!(*add_to_playlist);
        }
        other => panic!("unexpected {other:?}"),
    }
}

#[test]
fn the_picker_lists_folders_first_and_audio_alone() {
    let mut app = player(Vec::new(), Vec::new());
    act(&mut app, Action::OpenFiles);
    match &app.front.overlay {
        Overlay::PathPicker(picker) => {
            let paths: Vec<&str> =
                picker.entries.iter().map(|entry| entry.path.as_str()).collect();
            assert_eq!(paths, vec!["/", "/home/Albums", "/home/b.flac"]);
        }
        other => panic!("unexpected {other:?}"),
    }
}

fn catalog_track(remote_id: &str) -> CatalogTrack {
    CatalogTrack {
        remote_id: remote_id.into(),
        title: remote_id.into(),
        artist: "R".into(),
        album: "R".into(),
        date: None,
        track_number: None,
        duration_ms: 1500,
        codec: "FLAC".into(),
        sample_rate: None,
        channels: None,
        file_size: 5,
        modified_ns: 6,
    }
}

fn catalog(app: &mut App<SilentEngine>, ids: &[&str], replace: bool) {
    let flow = app.handle_remote_event(RemoteEvent::Catalog {
        revision: 3,
        tracks: ids.iter().map(|id| catalog_track(id)).collect(),
        removed: Vec::new(),
        replace,
    });
    settle(app, flow, FlowSource::Remote);
}

fn remote_ids(app: &App<SilentEngine>) -> Vec<String> {
    let mut ids: Vec<String> = app
        .shelf
        .tracks
        .values()
        .filter_map(|track| match &track.origin {
            TrackOrigin::Remote { remote_id, .. } => Some(remote_id.clone()),
            TrackOrigin::Local => None,
        })
        .collect();
    ids.sort();
    ids
}

#[test]
fn a_catalog_replaces_what_the_server_listed_before() {
    let mut app = player(vec![sample_track(1, "A", "A", "One")], vec![1]);
    app.link.remote = true;
    let flow = app.handle_remote_event(RemoteEvent::Connected {
        server_name: "Studio".into(),
        fingerprint: "fp".into(),
        revision: 3,
        pair_required: false,
    });
    settle(&mut app, flow, FlowSource::Remote);
    catalog(&mut app, &["a", "b"], true);
    assert_eq!(remote_ids(&app), vec!["a", "b"]);
    assert_eq!(app.link.remote_revision, Some(3));
    catalog(&mut app, &["b"], true);
    assert_eq!(remote_ids(&app), vec!["b"]);
    assert!(app.shelf.tracks.contains_key(&1));
}

#[test]
fn a_server_that_wants_pairing_opens_the_prompt() {
    let mut app = player(Vec::new(), Vec::new());
    app.link.remote = true;
    let flow = app.handle_remote_event(RemoteEvent::Connected {
        server_name: "Studio".into(),
        fingerprint: "fp".into(),
        revision: 0,
        pair_required: true,
    });
    settle(&mut app, flow, FlowSource::Remote);
    assert!(matches!(app.front.overlay, Overlay::Pair { .. }));
    act(&mut app, Action::TextInput('4'));
    act(&mut app, Action::SubmitPair);
    assert!(matches!(app.take_effects().as_slice(), [Effect::Pair(code)] if code == "4"));
}

#[test]
fn connecting_dials_with_what_is_remembered() {
    let mut app = player(Vec::new(), Vec::new());
    act(&mut app, Action::BeginConnect);
    app.take_effects();
    for c in "pi".chars() {
        act(&mut app, Action::TextInput(c));
    }
    let flow = app.handle(Action::SubmitConnect);
    let next = match flow {
        Flow::Ask(Ask::ResolveEndpoint { endpoint }, next) => {
            assert_eq!(endpoint, "pi");
            next
        }
        other => panic!("unexpected {other:?}"),
    };
    let flow = app.resume(next, Answer::Address(Ok(address())), FlowSource::Action);
    let next = match flow {
        Flow::Ask(Ask::LoadRemote { .. }, next) => next,
        other => panic!("unexpected {other:?}"),
    };
    let saved = SavedRemote {
        address: "192.168.1.5:1744".into(),
        fingerprint: "fp".into(),
        token: "secret".into(),
        server_name: "Studio".into(),
    };
    let reply = Answer::Remote { text: "192.168.1.5:1744".into(), saved: Some(saved) };
    let flow = app.resume(next, reply, FlowSource::Action);
    settle(&mut app, flow, FlowSource::Action);
    match app.take_effects().as_slice() {
        [Effect::Connect { address: dialled, token, pin }] => {
            assert_eq!(*dialled, address());
            assert_eq!(token.as_deref(), Some("secret"));
            assert_eq!(pin.as_deref(), Some("fp"));
        }
        other => panic!("unexpected {other:?}"),
    }
}

#[test]
fn the_volume_stays_in_its_range() {
    let mut app = two_tracks();
    act(&mut app, Action::VolumeRelative(5));
    assert!((f32::from_bits(app.transport.audio.snapshot().volume) - 0.85).abs() < 1e-6);
    act(&mut app, Action::SetVolume { at: 9, of: 3 });
    assert_eq!(f32::from_bits(app.transport.audio.snapshot().volume), 1.0);
}

#[test]
fn a_click_on_the_seek_bar_seeks() {
    let mut app = two_tracks();
    app.play_at(0, 0).unwrap();
    app.tick();
    act(&mut app, Action::SeekFraction { at: 1, of: 2 });
    assert_eq!(app.transport.audio.snapshot().position, Duration::from_secs(90));
    act(&mut app, Action::SeekRelative(-100));
    assert_eq!(app.transport.audio.snapshot().position, Duration::from_secs(0));
}

#[test]
fn preferences_change_by_steps() {
    let mut app = two_tracks();
    act(&mut app, Action::OpenSettings);
    assert_eq!(app.selected_tab(), 3);
    assert_eq!(app.lists.focus, Focus::Settings);
    let before = app.setting_value(SettingId::ReplayGainMode, "");
    assert_eq!(before, "Album");
    app.panes.settings_selected = 4;
    let mut seen = Vec::new();
    for _ in 0..3 {
        act(&mut app, Action::SettingsAdjust(1));
        seen.push(app.prefs.replay_gain_mode);
    }
    assert_eq!(seen.len(), 3);
    assert!(seen.contains(&ReplayGainMode::Album));
    act(&mut app, Action::OpenSettings);
    assert!(!app.panes.settings_open);
}

#[test]
fn results_are_browsed_by_keyboard() {
    let mut app = two_tracks();
    app.panes.soulseek_open = true;
    app.soulseek.ui = SoulseekUi::ready();
    app.soulseek.ui.set_hits(vec![SoulseekHit {
        username: "alice".into(),
        name: r"album\track.flac".into(),
        size: 1,
        slots: 1,
        speed: 1,
        bitrate: None,
    }]);
    app.lists.focus = Focus::Playlist;
    assert_eq!(app.soulseek.ui.phase, SoulseekPhase::Ready);
    act(&mut app, Action::MoveSelection(2));
    assert_eq!(app.soulseek.ui.selected, 2);
    act(&mut app, Action::SoulseekFold(false));
    act(&mut app, Action::MoveSelection(-9));
    assert_eq!(app.soulseek.ui.selected, 0);
}

#[test]
fn measured_loudness_reaches_the_track() {
    let mut app = two_tracks();
    app.front.replaygain = true;
    let info = ReplayGainInfo {
        track_gain: Some(3.0f32.to_bits()),
        track_peak: None,
        album_gain: None,
        album_peak: None,
    };
    app.process_replaygain_event(ReplayGainEvent::Track {
        id: 1,
        info,
        path: "/music/One.flac".into(),
        file_size: Some(11),
        modified_ns: Some(5),
    });
    assert_eq!(app.shelf.tracks[&1].replay_gain.track_gain, Some(3.0f32.to_bits()));
    assert_eq!(app.shelf.tracks[&1].file_size, 11);
}

#[test]
fn quitting_ends_the_player() {
    let mut app = two_tracks();
    act(&mut app, Action::Quit);
    assert!(app.front.should_quit);
}

#[test]
fn help_opens_and_closes() {
    let mut app = two_tracks();
    act(&mut app, Action::ToggleHelp);
    assert!(matches!(app.front.overlay, Overlay::Help(_)));
    act(&mut app, Action::CloseOverlay);
    assert!(matches!(app.front.overlay, Overlay::Closed));
}

#[test]
fn the_menu_acts_and_closes() {
    let mut app = two_tracks();
    act(&mut app, Action::OpenMenu(3));
    act(&mut app, Action::ActivateMenuItem(0));
    assert!(matches!(app.front.overlay, Overlay::Closed));
    assert_eq!(app.transport.audio.snapshot().state, PlaybackState::Playing);
}

#[test]
fn silent_engine_obeys_controls_and_staging() {
    let staged = |track_id: TrackId, generation: u64| StagedTrack {
        source: MediaSource::LocalFile(format!("{track_id}.flac")),
        track_id,
        duration: Duration::from_secs(5),
        gain: GainPlan {
            active: false,
            gain: None,
            peak: None,
            preamp: 0,
            prevent_clipping: true,
        },
        generation,
    };
    let mut engine = SilentEngine::new(0.8f32.to_bits());
    engine.load_and_play(staged(4, 1)).unwrap();
    engine.stage_next(staged(5, 2)).unwrap();
    assert_eq!(engine.snapshot().staged_track_id, Some(5));
    engine.pause();
    assert_eq!(engine.snapshot().state, PlaybackState::Paused);
    engine.seek(Duration::from_secs(10)).unwrap();
    assert_eq!(engine.snapshot().position, Duration::from_secs(5));
    engine.set_volume(2.0f32.to_bits());
    assert_eq!(f32::from_bits(engine.snapshot().volume), 1.0);
    assert_eq!(
        engine.drain_events(),
        vec![AudioEvent::TrackStarted { track_id: 4, generation: 1 }]
    );
    engine.stop();
    assert_eq!(engine.snapshot().state, PlaybackState::Stopped);
    assert_eq!(engine.spectrum(), vec![0u32; SPECTRUM_BANDS]);
}

#[test]
fn going_on_by_hand_ignores_the_stop() {
    let mut app = three_tracks();
    app.play_at(0, 0).unwrap();
    act(&mut app, Action::ToggleStopAfterCurrent);
    act(&mut app, Action::Next);
    assert_eq!(app.transport.audio.snapshot().track_id, Some(2));
    assert!(app.transport.stop_after_current);
}

#[test]
fn starts_of_earlier_playbacks_are_ignored() {
    let mut app = two_tracks();
    app.play_at(0, 0).unwrap();
    app.tick();
    let staged = app.transport.staged_playback;
    app.apply_audio_events(&vec![AudioEvent::TrackStarted { track_id: 9, generation: 77 }]);
    assert_eq!(app.transport.playing, Some((7, 0)));
    assert_eq!(app.transport.audio_started_generation, Some(77));
    assert_eq!(app.transport.staged_playback, staged);
}

#[test]
fn one_pane_is_open_at_a_time() {
    let mut app = two_tracks();
    act(&mut app, Action::SelectPlaylist(1));
    assert!(app.panes.queue_open);
    act(&mut app, Action::SelectPlaylist(3));
    assert!(app.panes.settings_open && !app.panes.queue_open);
    act(&mut app, Action::SelectPlaylist(0));
    assert!(!app.panes.settings_open && !app.panes.queue_open && !app.panes.soulseek_open);
}

#[test]
fn a_finished_download_is_scanned() {
    let mut app = two_tracks();
    app.soulseek.session = true;
    app.soulseek.downloads_active = 1;
    let flow = app.process_soulseek_event(SoulseekEvent::Finished("/music/new.flac".into()));
    settle(&mut app, flow, FlowSource::Soulseek);
    assert_eq!(app.soulseek.downloads_active, 0);
    assert!(matches!(
        app.take_effects().as_slice(),
        [Effect::Scan { paths, .. }] if paths == &vec!["/music/new.flac".to_owned()]
    ));
}

/// An engine that refuses some tracks, and notes what it is asked for.
struct Picky {
    inner: SilentEngine,
    refused: Vec<TrackId>,
    asked: Vec<String>,
}

impl Picky {
    fn note(&mut self, what: &str, id: TrackId) -> Result<(), String> {
        self.asked.push(format!("{what} {id}"));
        if self.refused.contains(&id) {
            return Err(format!("no {id}"));
        }
        Ok(())
    }
}

impl AudioEngine for Picky {
    fn state(&self) -> EngineView {
        unreachable!("only contracts speak of it")
    }

    fn load_and_play(&mut self, track: StagedTrack) -> Result<(), String> {
        self.note("load", track.track_id)?;
        self.inner.load_and_play(track)
    }

    fn stage_next(&mut self, track: StagedTrack) -> Result<(), String> {
        self.inner.clear_staged();
        self.note("stage", track.track_id)?;
        self.inner.stage_next(track)
    }

    fn clear_staged(&mut self) {
        self.inner.clear_staged();
    }

    fn set_pending(&mut self, track_id: TrackId, duration: Duration, state: PlaybackState) {
        self.inner.set_pending(track_id, duration, state);
    }

    fn play(&mut self) -> Result<(), String> {
        self.inner.play()
    }

    fn pause(&mut self) {
        self.inner.pause();
    }

    fn stop(&mut self) {
        self.inner.stop();
    }

    fn seek(&mut self, position: Duration) -> Result<(), String> {
        self.asked.push(format!("seek {}", position.secs));
        self.inner.seek(position)
    }

    fn set_volume(&mut self, volume: u32) {
        self.inner.set_volume(volume);
    }

    fn set_output_gain(&mut self, gain: GainPlan) {
        self.inner.set_output_gain(gain);
    }

    fn snapshot(&self) -> AudioSnapshot {
        self.inner.snapshot()
    }

    fn drain_events(&mut self) -> Vec<AudioEvent> {
        self.inner.drain_events()
    }

    fn spectrum(&self) -> Vec<u32> {
        self.inner.spectrum()
    }
}

fn picky(refused: Vec<TrackId>) -> App<Picky> {
    let tracks = vec![
        sample_track(1, "A", "A", "One"),
        sample_track(2, "A", "A", "Two"),
        sample_track(3, "B", "B", "Three"),
    ];
    let engine = Picky { inner: SilentEngine::new(VOLUME), refused, asked: Vec::new() };
    App::open(startup(tracks, vec![1, 2, 3]), engine)
}

#[test]
fn tracks_are_passed_over_only_when_the_engine_refuses() {
    let mut app = picky(vec![2]);
    app.transport.playback_order = PlaybackOrder::RepeatPlaylist;
    app.play_at(0, 0).unwrap();
    app.advance(false).unwrap();
    assert_eq!(app.transport.audio.asked, vec!["load 1", "load 2", "load 3"]);
    assert_eq!(app.transport.playing, Some((7, 2)));
    assert_eq!(app.play_at(0, 1), Err("no 2".to_owned()));
    assert_eq!(app.transport.audio.asked.len(), 4);
}

#[test]
fn a_refused_stage_is_shown() {
    let mut app = picky(vec![2]);
    app.play_at(0, 0).unwrap();
    app.tick();
    assert_eq!(app.transport.audio.asked, vec!["load 1", "stage 2"]);
    assert_eq!(app.front.status, "Could not stage next track: no 2");
    assert!(app.transport.staged_playback.is_none());
}

#[test]
fn going_back_goes_by_the_position() {
    let mut app = picky(Vec::new());
    app.play_at(0, 1).unwrap();
    app.previous_from(Duration::from_secs(5)).unwrap();
    assert_eq!(app.transport.playing, Some((7, 1)));
    app.previous_from(Duration::from_millis(4999)).unwrap();
    assert_eq!(app.transport.playing, Some((7, 0)));
    assert_eq!(app.transport.audio.asked, vec!["load 2", "seek 0", "load 1"]);
}

#[test]
fn seeking_goes_from_the_position() {
    let mut app = picky(Vec::new());
    app.play_at(0, 0).unwrap();
    assert!(matches!(app.seek_from(Duration::from_secs(60), 5), Flow::Done));
    assert_eq!(app.transport.audio.snapshot().position, Duration::from_secs(65));
    assert!(matches!(app.seek_from(Duration::from_secs(3), -5), Flow::Done));
    assert_eq!(app.transport.audio.asked, vec!["load 1", "seek 65", "seek 0"]);
}

#[test]
fn another_engine_goes_on_from_the_position() {
    let fresh = |refused: Vec<TrackId>| Picky {
        inner: SilentEngine::new(VOLUME),
        refused,
        asked: Vec::new(),
    };
    let mut app = picky(Vec::new());
    app.play_at(0, 0).unwrap();
    app.toggle_play();
    let at = Duration::from_secs(42);
    let (flow, left) = app.engine_made_at(Ok(fresh(Vec::new())), at, AfterEngine::Report);
    assert!(matches!(flow, Flow::Done));
    assert!(left.is_none());
    assert_eq!(app.transport.audio.asked, vec!["load 1", "seek 42"]);
    let shown = app.transport.audio.snapshot();
    assert_eq!(shown.position, at);
    assert_eq!(shown.state, PlaybackState::Paused);
    let mut refusing = fresh(vec![1]);
    assert_eq!(app.carry_over(&mut refusing, at), Err("no 1".to_owned()));
    assert_eq!(refusing.asked, vec!["load 1"]);
    let refused = app.switch_output_device(fresh(vec![1]), at).err().unwrap();
    assert_eq!(refused.error, "no 1");
    assert_eq!(refused.engine.asked, vec!["load 1"]);
    let (flow, left) = app.engine_made_at(Ok(fresh(vec![1])), at, AfterEngine::Setting);
    assert!(matches!(flow, Flow::Failed(error) if error == "no 1"));
    assert_eq!(left.unwrap().asked, vec!["load 1"]);
    let (flow, left) = app.engine_made(Err("no device".into()), AfterEngine::Report);
    assert!(matches!(flow, Flow::Failed(error) if error == "no device"));
    assert!(left.is_none());
    assert_eq!(app.transport.audio.asked, vec!["load 1", "seek 42"]);
}

#[test]
fn what_an_engine_shows_is_noted_as_it_is() {
    let mut app = two_tracks();
    let mut shown = app.transport.audio.snapshot();
    shown.position = Duration::from_secs(9);
    app.note_snapshot(shown);
    assert_eq!(app.front.audio_snapshot.position, Duration::from_secs(9));
}

#[test]
fn messages_show_paths_as_text() {
    let mut track = sample_track(1, "A", "A", "One");
    track.path = staccato::path_codec::decode(b"/m/bad-\xff.flac");
    track.unavailable = true;
    let mut app = player(vec![track], vec![1]);
    assert_eq!(app.play_at(0, 0), Err("file is unavailable: /m/bad-\u{fffd}.flac".to_owned()));
    app.lists.playlist_filter = "bad-\u{fffd}".into();
    assert_eq!(app.visible_playlist_indices(), vec![0]);
    app.lists.playlist_filter = "ff".into();
    assert!(app.visible_playlist_indices().is_empty());
}

#[test]
fn an_engine_that_could_not_go_on_is_left_aside() {
    let mut app = picky(Vec::new());
    app.play_at(0, 0).unwrap();
    let other = || Picky { inner: SilentEngine::new(0), refused: Vec::new(), asked: Vec::new() };
    assert_eq!(app.engine_carried(other(), Err("no".into())).err().unwrap().error, "no");
    assert_eq!(app.transport.audio.asked, vec!["load 1"]);
    assert!(app.engine_carried(other(), Ok(())).is_ok());
    assert!(app.transport.audio.asked.is_empty());
}
