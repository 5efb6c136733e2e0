use std::collections::BTreeMap;

use staccato::app::flow::{GainJob, ReplayGainEvent};
use staccato::model::{Playlist, PlaybackOrder, ReplayGainInfo, ReplayGainMode, ScannedTrack, TrackOrigin};
use staccato::net::protocol::CatalogTrack;
use staccato::number::{parse_integer, parse_natural};
use staccato::path_codec::{decode, encode};
use staccato::replaygain::{
    gain_text, group_jobs, read_from_tag, AlbumLayout, FeedPlan, GainPass, GainTags,
};
use staccato::split::{split_at_char, split_once, split_words, starts_with, strip_prefix, trim_ending};
use staccato::storage::{
    bump_library_revision, clamp_stored, find_value, is_unavailable, library_revision, load_state,
    prune_local_tracks, remote_placeholder_path, save_state, track_origin, unclamp_stored,
    upsert_remote_track, upsert_track, LocalRow, SavedState, StateRow,
};
use staccato::time::Duration;

fn saved() -> SavedState {
    SavedState {
        active_playlist: 0,
        volume: 0.42f32.to_bits(),
        playback_order: PlaybackOrder::Shuffle,
        cursor_follows_playback: true,
        replay_gain_mode: ReplayGainMode::Album,
        replay_gain_preamp: 0,
        replay_gain_prevent_clip: true,
        show_album_art: true,
        show_spectrum: true,
        nerd_font: false,
        preferred_output_device: Some("test-device".into()),
    }
}

fn scanned() -> ScannedTrack {
    ScannedTrack {
        path: "music/test.flac".into(),
        title: "test".into(),
        artist: "Artist".into(),
        album: "Album".into(),
        date: Some(2026),
        track_number: Some(1),
        duration: Duration::from_secs(42),
        codec: "FLAC".into(),
        sample_rate: Some(44_100),
        channels: Some(2),
        file_size: 10,
        modified_ns: 20,
        scan_error: None,
        replay_gain: ReplayGainInfo::default(),
    }
}

fn bits(rows: &Vec<StateRow>, key: &str) -> Option<u32> {
    find_value(rows, key).and_then(|text| text.parse::<f32>().ok()).map(f32::to_bits)
}

#[test]
fn state_tracks_and_playlists_round_trip() {
    let track = upsert_track(1, &scanned());
    let tracks = BTreeMap::from([(track.id, track.clone())]);
    assert_eq!(tracks.len(), 1);
    let playlist = Playlist { id: 1, name: "Default".into(), items: vec![track.id] };
    assert_eq!(tracks[&playlist.items[0]].path, decode(&encode("music/test.flac")));
    let rows = save_state(&saved(), 0.42f32.to_string(), 0f32.to_string());
    assert_eq!(rows.len(), 11);
    let state = load_state(&rows, bits(&rows, "volume"), bits(&rows, "replay_gain_preamp"));
    assert_eq!(f32::from_bits(state.volume), 0.42);
    assert_eq!(state.playback_order, PlaybackOrder::Shuffle);
    assert_eq!(state.preferred_output_device.as_deref(), Some("test-device"));
    assert!(state.show_spectrum);
    assert!(!state.nerd_font);
}

#[test]
fn missing_values_have_defaults() {
    let state = load_state(&Vec::new(), None, None);
    assert_eq!(f32::from_bits(state.volume), 0.8);
    assert_eq!(state.replay_gain_mode, ReplayGainMode::Album);
    assert!(state.cursor_follows_playback);
    assert!(!state.nerd_font);
    assert_eq!(state.preferred_output_device, None);
    let odd = vec![
        StateRow { key: "active_playlist".into(), value: "x".into() },
        StateRow { key: "nerd_font".into(), value: "yes".into() },
    ];
    let state = load_state(&odd, None, None);
    assert_eq!(state.active_playlist, 0);
    assert!(state.nerd_font);
}

#[test]
fn prune_local_tracks_drops_files_that_disappeared() {
    let rows = vec![
        LocalRow { id: 1, path: "music/keep.flac".into() },
        LocalRow { id: 2, path: "music/gone.flac".into() },
    ];
    let stale = prune_local_tracks(&rows, &vec!["music/keep.flac".into()]);
    assert_eq!(stale, vec![2]);
}

#[test]
fn tracks_are_stored_as_they_were_scanned() {
    let track = upsert_track(5, &scanned());
    assert_eq!(track.id, 5);
    assert_eq!(track.path, "music/test.flac");
    assert_eq!(track.origin, TrackOrigin::Local);
    let listed = CatalogTrack {
        remote_id: "r".into(),
        title: "T".into(),
        artist: "A".into(),
        album: "B".into(),
        date: None,
        track_number: None,
        duration_ms: 1500,
        codec: "FLAC".into(),
        sample_rate: None,
        channels: None,
        file_size: 9,
        modified_ns: 8,
    };
    let track = upsert_remote_track(6, "fp", "Studio", &listed);
    assert_eq!(track.path, "staccato:fp/r");
    assert_eq!(track.duration, Duration { secs: 1, nanos: 500_000_000 });
    assert_eq!(remote_placeholder_path("fp", "r"), "staccato:fp/r");
}

#[test]
fn origins_need_an_identifier_and_a_server() {
    let remote = track_origin("remote".into(), Some("r".into()), Some("fp".into()), None);
    assert!(remote.is_remote());
    assert!(!track_origin("remote".into(), None, Some("fp".into()), None).is_remote());
    assert!(!track_origin("local".into(), Some("r".into()), Some("f".into()), None).is_remote());
    assert!(!is_unavailable(false, &remote, false));
    assert!(is_unavailable(false, &TrackOrigin::Local, false));
    assert!(is_unavailable(true, &remote, true));
}

#[test]
fn revisions_rise() {
    assert_eq!(library_revision(Some("41".into())), 41);
    assert_eq!(library_revision(Some("x".into())), 0);
    assert_eq!(library_revision(None), 0);
    assert_eq!(bump_library_revision(41), (42, "42".to_owned()));
    assert_eq!(bump_library_revision(u64::MAX).0, u64::MAX);
    assert_eq!(clamp_stored(u64::MAX), i64::MAX);
    assert_eq!(unclamp_stored(-4), 0);
}

#[test]
fn numbers_are_read_as_the_standard_library_does() {
    for text in ["0", "+7", "18446744073709551615", "18446744073709551616", "", "+", "-1", "1a"] {
        assert_eq!(parse_natural(text, u64::MAX), text.parse::<u64>().ok());
        assert_eq!(parse_integer(text), text.parse::<i64>().ok());
    }
    for text in ["-9223372036854775808", "-9223372036854775809", "-0", "-", "9223372036854775808"] {
        assert_eq!(parse_integer(text), text.parse::<i64>().ok());
    }
}

#[test]
fn texts_are_taken_apart() {
    assert_eq!(split_at_char("a::b", ':'), vec!["a", "", "b"]);
    assert_eq!(split_words("  a \t b\n"), vec!["a", "b"]);
    assert_eq!(split_once("k=v=w", '='), Some(("k".to_owned(), "v=w".to_owned())));
    assert_eq!(split_once("k", '='), None);
    assert!(starts_with("veth0", "veth"));
    assert_eq!(strip_prefix("72;x", "72;").as_deref(), Some("x"));
    assert_eq!(trim_ending("a.x.x", ".x"), "a");
    assert_eq!(trim_ending("a", ""), "a");
}

#[test]
fn parse_gain_accepts_common_tag_spellings() {
    let parse_gain = |value: &str| gain_text(value).parse::<f32>().ok();
    assert_eq!(parse_gain("-6.42 dB"), Some(-6.42));
    assert_eq!(parse_gain("−3.00dB"), Some(-3.0));
    assert_eq!(parse_gain("1.5"), Some(1.5));
}

#[test]
fn the_other_scheme_stands_in() {
    let tags = GainTags {
        track_gain: None,
        track_peak: Some(1),
        album_gain: Some(2),
        album_peak: None,
        r128_track_gain: Some(3),
        r128_album_gain: Some(4),
    };
    let info = read_from_tag(tags);
    assert_eq!(info.track_gain, Some(3));
    assert_eq!(info.album_gain, Some(2));
    assert_eq!(info.track_peak, Some(1));
}

#[test]
fn albums_are_measured_together() {
    let job = |id: i64, artist: &str, album: &str| GainJob {
        id,
        path: format!("/m/{id}.flac"),
        artist: artist.into(),
        album: album.into(),
    };
    let jobs = vec![job(1, "B", "X"), job(2, "a", "y"), job(3, "b", "x"), job(4, "A", "X")];
    let groups: Vec<Vec<i64>> = group_jobs(jobs)
        .iter()
        .map(|group| group.iter().map(|job| job.id).collect())
        .collect();
    assert_eq!(groups, vec![vec![4], vec![2], vec![1, 3]]);
    assert!(group_jobs(Vec::new()).is_empty());
    let mut layout = AlbumLayout::new();
    assert_eq!(layout.next(44_100, 2), FeedPlan::Create);
    assert_eq!(layout.next(44_100, 2), FeedPlan::Feed);
    assert_eq!(layout.next(48_000, 2), FeedPlan::Skip);
}

#[test]
fn a_measuring_pass_counts() {
    let mut pass = GainPass::new();
    assert!(matches!(pass.started(3), ReplayGainEvent::Started { total: 3 }));
    let info = ReplayGainInfo::default();
    let event = pass.measured(1, "/m/1.flac".into(), info, Some(5), None);
    assert!(matches!(event, ReplayGainEvent::Track { id: 1, file_size: Some(5), .. }));
    let events = pass.album_failed(2, "silence");
    assert_eq!(events.len(), 2);
    assert!(matches!(&events[1], ReplayGainEvent::Failed { error } if error == "silence"));
    assert!(matches!(pass.finished(), ReplayGainEvent::Finished { scanned: 1, failed: 2 }));
}

#[test]
fn non_utf8_paths_round_trip() {
    let path = b"bad-\xff.flac".to_vec();
    let text = decode(&path);
    assert_eq!(text, "bad-\u{f8f7}ff.flac");
    assert_eq!(encode(&text), path);
    for bytes in [
        b"/music/caf\xc3\xa9.ogg".to_vec(),
        b"\xe2\x82".to_vec(),
        "\u{f8f7}41".as_bytes().to_vec(),
        vec![0xf0, 0x9f, 0x8e, 0xb5, 0x80],
    ] {
        assert_eq!(encode(&decode(&bytes)), bytes);
    }
    assert_eq!(decode("/m/é.flac".as_bytes()), "/m/é.flac");
}

#[test]
fn words_end_at_any_white_space() {
    assert_eq!(split_words("a\u{3000}b\u{a0}c\td\u{200b}e"), vec!["a", "b", "c", "d\u{200b}e"]);
}
