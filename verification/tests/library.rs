use staccato::app::flow::ScanEvent;
use staccato::library::{
    cached_scan, clamp_nanos, codec_of, collect_audio_files, fallback_scanned_track,
    scan_file, scan_or_fallback, FileFacts, ScanPass, TagFacts,
};
use staccato::model::{fallback_title, ReplayGainInfo, Track, TrackId, TrackOrigin};
use staccato::path::same_path;
use staccato::path_codec::{decode, show_path};
use staccato::soulseek_session::{folder_failed, SoulseekEvent};
use staccato::time::Duration;
use staccato::tree::album_tree;

fn sample(id: TrackId, artist: &str, album: &str, title: &str, remote: Option<&str>) -> Track {
    Track {
        id,
        path: format!("/music/{title}.flac"),
        title: title.into(),
        artist: artist.into(),
        album: album.into(),
        date: Some(2024),
        track_number: Some(1),
        duration: Duration::from_secs(180),
        codec: "FLAC".into(),
        sample_rate: Some(44_100),
        channels: Some(2),
        file_size: 10,
        modified_ns: 0,
        unavailable: false,
        scan_error: None,
        origin: match remote {
            Some(server) => TrackOrigin::Remote {
                fingerprint: "fp".into(),
                remote_id: id.to_string(),
                server_name: server.into(),
            },
            None => TrackOrigin::Local,
        },
        replay_gain: ReplayGainInfo::default(),
    }
}

#[test]
fn album_tree_splits_local_and_remote() {
    let local = sample(1, "A", "A1", "One", None);
    let remote = sample(2, "B", "B1", "Two", Some("Studio"));
    let entries = album_tree(&vec![&local, &remote], true, false, true);
    assert_eq!(entries[0].label, "This computer");
    assert!(entries.iter().any(|entry| entry.label == "Studio"));
}

#[test]
fn album_tree_omits_empty_local_when_filtered() {
    let remote = sample(2, "B", "B1", "Two", Some("Studio"));
    let entries = album_tree(&vec![&remote], true, true, false);
    assert!(entries.iter().all(|entry| entry.label != "This computer"));
    assert_eq!(entries[0].label, "Studio");
    assert!(entries[0].unavailable);
}

#[test]
fn album_tree_goes_down_to_the_tracks() {
    let one = sample(1, "A", "A1", "One", None);
    let two = sample(2, "A", "A1", "Two", None);
    let entries = album_tree(&vec![&one, &two], false, false, true);
    let tracks: Vec<Option<TrackId>> = entries.iter().map(|entry| entry.track_id).collect();
    assert_eq!(tracks, vec![None, None, Some(1), Some(2)]);
    assert_eq!(entries[0].label, "A");
    assert_eq!(entries[0].track_ids, vec![1, 2]);
}

fn facts() -> FileFacts {
    FileFacts { file_size: 14, modified_ns: 3 }
}

fn tags(title: Option<&str>) -> TagFacts {
    TagFacts {
        title: title.map(|text| text.to_owned()),
        artist: Some("  ".into()),
        album: None,
        date: Some(1999),
        track_number: Some(2),
        duration: Duration::from_secs(3),
        sample_rate: Some(8_000),
        channels: Some(1),
        replay_gain: ReplayGainInfo::default(),
    }
}

#[test]
fn empty_tags_fall_back() {
    let track = scan_file("/m/fixture.wav", facts(), tags(None));
    assert_eq!(track.title, "fixture");
    assert_eq!(track.artist, "Unknown artist");
    assert_eq!(track.album, "Unknown album");
    assert_eq!(track.codec, "WAV");
    assert_eq!(track.scan_error, None);
    let track = scan_file("/m/fixture.wav", facts(), tags(Some(" Song ")));
    assert_eq!(track.title, "Song");
}

#[test]
fn corrupt_supported_file_gets_visible_fallback_metadata() {
    let track = fallback_scanned_track("/m/broken.flac", facts(), "invalid stream".into());
    assert_eq!(track.title, "broken");
    assert_eq!(track.scan_error.as_deref(), Some("invalid stream"));
    assert_eq!(track.file_size, 14);
    assert_eq!(codec_of("/m/none"), "Unknown");
    let served = scan_or_fallback("/m/broken.flac", Err("bad".into()), None);
    assert_eq!(served.file_size, 0);
    assert_eq!(served.modified_ns, 0);
}

#[test]
fn audio_files_are_collected_in_order_and_once() {
    let found: Vec<String> = ["/m/b.flac", "/m/A.mp3", "/m/x.txt", "/m/b.flac"]
        .iter()
        .map(|path| path.to_string())
        .collect();
    assert_eq!(collect_audio_files(found), vec!["/m/A.mp3".to_owned(), "/m/b.flac".to_owned()]);
}

#[test]
fn unchanged_files_are_not_read_again() {
    let known = vec![scan_file("/m/a.flac", facts(), tags(None))];
    assert!(cached_scan(&known, "/m/a.flac", facts()).is_some());
    let touched = FileFacts { modified_ns: 4, ..facts() };
    assert!(cached_scan(&known, "/m/a.flac", touched).is_none());
    assert!(cached_scan(&known, "/m/b.flac", facts()).is_none());
}

#[test]
fn a_scan_counts_what_it_reads() {
    let mut pass = ScanPass::new(true);
    assert!(matches!(
        pass.started(2),
        ScanEvent::Started { total_hint: 2, add_to_playlist: true }
    ));
    let event = pass.read(scan_file("/m/a.flac", facts(), tags(None)));
    assert!(matches!(event, ScanEvent::Track { add_to_playlist: true, .. }));
    let events = pass.unreadable("/m/b.flac", Some(facts()), "bad");
    assert_eq!(events.len(), 2);
    assert!(matches!(&events[1], ScanEvent::Failed { error, .. } if error == "bad"));
    assert_eq!(pass.unreadable("/m/c.flac", None, "gone").len(), 1);
    assert!(matches!(pass.finished(), ScanEvent::Finished { discovered: 1, failed: 2 }));
}

#[test]
fn times_are_clamped() {
    assert_eq!(clamp_nanos(5), 5);
    assert_eq!(clamp_nanos(u128::MAX), i64::MAX);
}

#[test]
fn paths_are_shown_with_replacement_characters() {
    let path = decode(b"/m/bad-\xff.fl\xfec");
    assert_eq!(show_path(&path), "/m/bad-\u{fffd}.fl\u{fffd}c");
    assert_eq!(show_path("/m/é.flac"), "/m/é.flac");
    assert_eq!(fallback_title(&path), "bad-\u{fffd}");
    assert_eq!(codec_of(&path), "FL\u{fffd}C");
    let folder = decode(b"/x\xffy");
    assert!(matches!(
        folder_failed(&folder, "no"),
        SoulseekEvent::DownloadFailed(text) if text == "creating /x\u{fffd}y: no"
    ));
}

#[test]
fn files_are_sorted_as_they_are_shown() {
    let high = decode(b"/m/\xff.flac");
    let found = vec![high.clone(), "/m/\u{10000}.flac".to_owned(), "/m/z.flac".to_owned()];
    assert_eq!(
        collect_audio_files(found),
        vec!["/m/z.flac".to_owned(), high, "/m/\u{10000}.flac".to_owned()]
    );
}

#[test]
fn texts_that_name_one_path_are_told_as_one() {
    assert!(same_path("/m//a.flac", "/m/a.flac"));
    assert!(same_path("/m/./a/", "/m/a"));
    assert!(same_path("a/.", "a"));
    assert!(!same_path("./a", "a"));
    assert!(!same_path("/a", "a"));
    assert!(!same_path("/a/../b", "/b"));
    assert!(!same_path("/m/a", "/m/b"));
    let found = vec!["/m//a.flac".to_owned(), "/m/a.flac".to_owned(), "/m//a.flac".to_owned()];
    assert_eq!(collect_audio_files(found), vec!["/m//a.flac"]);
    let known = fallback_scanned_track(
        "/m/a.flac",
        FileFacts { file_size: 3, modified_ns: 4 },
        "e".into(),
    );
    let facts = FileFacts { file_size: 3, modified_ns: 4 };
    let found = cached_scan(&vec![known], "/m//a.flac", facts).expect("known");
    assert_eq!(found.path, "/m/a.flac");
}
