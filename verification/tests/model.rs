use staccato::library::is_supported;
use staccato::model::{
    fallback_title, format_duration, text_matches, Focus, PlaybackOrder, ReplayGainInfo,
    ReplayGainMode,
};
use staccato::time::Duration;

#[test]
fn playback_order_cycles() {
    assert_eq!(PlaybackOrder::Default.next(), PlaybackOrder::RepeatPlaylist);
    assert_eq!(PlaybackOrder::Shuffle.next(), PlaybackOrder::ShuffleAlbums);
    assert_eq!(PlaybackOrder::ShuffleAlbums.next(), PlaybackOrder::Default);
}

#[test]
fn filters_supported_extensions_case_insensitively() {
    assert!(is_supported("song.FLAC"));
    assert!(is_supported("song.m4a"));
    assert!(!is_supported("cover.jpg"));
}

#[test]
fn support_goes_by_the_last_component() {
    assert!(is_supported("/music/a.b/song.AIFF/"));
    assert!(!is_supported("song"));
    assert!(!is_supported("/music.flac/song"));
    assert!(!is_supported("/music/.flac"));
    assert!(!is_supported("/music/song.flac/.."));
}

#[test]
fn modes_and_orders_keep_their_numbers() {
    for value in 0..3 {
        assert_eq!(ReplayGainMode::from_i64(value).as_i64(), value);
    }
    for value in 0..5 {
        assert_eq!(PlaybackOrder::from_i64(value).as_i64(), value);
    }
    assert_eq!(ReplayGainMode::from_i64(9), ReplayGainMode::Off);
    assert_eq!(PlaybackOrder::from_i64(-1), PlaybackOrder::Default);
    assert_eq!(ReplayGainMode::Off.label(), "None");
    assert_eq!(PlaybackOrder::RepeatTrack.label(), "Repeat (track)");
}

#[test]
fn gain_figures_fall_back_to_the_other_kind() {
    let info = ReplayGainInfo {
        track_gain: Some((-6.0f32).to_bits()),
        track_peak: Some(0.5f32.to_bits()),
        album_gain: None,
        album_peak: None,
    };
    assert_eq!(
        info.pick(ReplayGainMode::Album),
        (Some((-6.0f32).to_bits()), Some(0.5f32.to_bits()))
    );
    assert_eq!(info.pick(ReplayGainMode::Off), (None, None));
}

#[test]
fn focus_goes_round_its_ring_both_ways() {
    let ring = [Focus::AlbumList, Focus::PlaylistTabs, Focus::Playlist];
    assert_eq!(Focus::Playlist.cycle(false, &ring), Focus::AlbumList);
    assert_eq!(Focus::AlbumList.cycle(true, &ring), Focus::Playlist);
    assert_eq!(Focus::Queue.cycle(false, &ring), Focus::PlaylistTabs);
    assert_eq!(Focus::Queue.cycle(true, &[]), Focus::Queue);
}

#[test]
fn matching_leaves_letter_case_aside() {
    assert!(text_matches("BLÜ", &["x", "Himmelblün"]));
    assert!(text_matches("", &[]));
    assert!(!text_matches("zz", &["x", "y"]));
}

#[test]
fn durations_show_hours_only_where_there_are_any() {
    assert_eq!(format_duration(Duration::from_secs(65)), "1:05");
    assert_eq!(format_duration(Duration::from_secs(3_725)), "1:02:05");
    assert_eq!(format_duration(Duration::from_secs(0)), "0:00");
    assert_eq!(format_duration(Duration::from_millis(59_999)), "0:59");
}

#[test]
fn titles_come_from_file_names() {
    assert_eq!(fallback_title("/music/One.flac"), "One");
    assert_eq!(fallback_title("/music/.hidden"), ".hidden");
    assert_eq!(fallback_title("/"), "Unknown title");
    assert_eq!(fallback_title("a/.."), "Unknown title");
}
