use staccato::soulseek::{
    format_speed, SoulseekFilter, SoulseekFormat, SoulseekHit, SoulseekPhase, SoulseekRowKind,
    SoulseekScope, SoulseekUi,
};
use staccato::soulseek_session::{
    dest_for_remote_path, download_dir, download_update, flatten_hits, folder_failed,
    pick_credentials, sanitize_component, search_finished, session_step, DownloadUpdate,
    SearchFile, SearchResult, SessionStep, SoulseekCommand, SoulseekCredentials, SoulseekEvent,
};

fn hit(name: &str, slots: u8) -> SoulseekHit {
    SoulseekHit {
        username: "alice".into(),
        name: name.into(),
        size: 1,
        slots,
        speed: 1,
        bitrate: None,
    }
}

#[test]
fn flatten_hits_keeps_audio_and_prefers_free_slots() {
    let results = vec![SearchResult {
        username: "a".into(),
        slots: 0,
        speed: 1,
        files: vec![SearchFile {
            username: String::new(),
            name: "x\\skip.txt".into(),
            size: 10,
            bitrate: None,
        }],
    }];
    assert!(flatten_hits(results).is_empty());
}

#[test]
fn results_cascade_user_then_folder_then_file() {
    let hits = vec![SoulseekHit {
        username: "alice".into(),
        name: r"album\track.flac".into(),
        size: 1_000_000,
        slots: 1,
        speed: 2_000_000,
        bitrate: Some(320),
    }];
    let mut ui = SoulseekUi::ready();
    ui.set_hits(hits);
    let expanded = ui.visible_rows();
    assert_eq!(expanded.len(), 3);
    assert_eq!(expanded[0].kind, SoulseekRowKind::User);
    assert_eq!(expanded[1].kind, SoulseekRowKind::Folder);
    assert_eq!(expanded[2].kind, SoulseekRowKind::File);
    ui.selected = 1;
    ui.toggle(Some(false));
    let collapsed = ui.visible_rows();
    assert_eq!(collapsed.len(), 2);
    assert_eq!(collapsed[1].kind, SoulseekRowKind::Folder);
}

#[test]
fn enter_on_a_folder_selects_every_file_in_it() {
    let hits = vec![
        hit(r"album\a.flac", 1),
        hit(r"album\b.flac", 1),
        hit(r"other\c.flac", 1),
    ];
    let mut ui = SoulseekUi::ready();
    ui.set_hits(hits);
    ui.selected = 1;
    let folder = ui.hits_in_scope(SoulseekScope::Folder);
    assert_eq!(folder.len(), 2);
    assert!(folder.iter().all(|hit| hit.folder() == "album"));
    ui.selected = 0;
    assert_eq!(ui.hits_in_scope(SoulseekScope::User).len(), 3);
}

#[test]
fn hide_user_drops_that_user_from_the_current_search() {
    let mut ui = SoulseekUi::ready();
    ui.set_hits(vec![
        SoulseekHit {
            username: "alice".into(),
            name: r"album\a.flac".into(),
            size: 1,
            slots: 1,
            speed: 1,
            bitrate: None,
        },
        SoulseekHit {
            username: "bob".into(),
            name: r"album\b.flac".into(),
            size: 1,
            slots: 1,
            speed: 1,
            bitrate: None,
        },
    ]);
    ui.selected = 0;
    ui.hide_scope(SoulseekScope::User);
    assert!(ui.hits.iter().all(|hit| hit.username == "bob"));
    assert_eq!(ui.hits_in_scope(SoulseekScope::User).len(), 1);
}

#[test]
fn format_filter_keeps_only_matching_extensions() {
    let mut ui = SoulseekUi::ready();
    ui.set_hits(vec![
        hit(r"album\a.flac", 1),
        hit(r"album\b.mp3", 1),
        hit(r"album\c.ogg", 0),
    ]);
    ui.set_format(SoulseekFormat::Flac);
    let rows = ui.visible_rows();
    let files: Vec<_> = rows
        .iter()
        .filter(|row| row.kind == SoulseekRowKind::File)
        .collect();
    assert_eq!(files.len(), 1);
    assert!(files[0].label.contains("a.flac"));
    ui.selected = 1;
    assert_eq!(ui.hits_in_scope(SoulseekScope::Folder).len(), 1);
    ui.toggle_free_slot();
    ui.set_format(SoulseekFormat::All);
    assert_eq!(
        ui.visible_rows()
            .iter()
            .filter(|row| row.kind == SoulseekRowKind::File)
            .count(),
        2
    );
}

#[test]
fn folder_downloads_land_in_the_album_directory() {
    let dest = dest_for_remote_path("/music", r"shares\album\track.flac");
    assert_eq!(dest, "/music/album");
    assert_eq!(dest_for_remote_path("/music", "track.flac"), "/music");
}

#[test]
fn better_hits_come_first_and_the_list_is_cut() {
    let file = |name: &str, size: u64, bitrate: Option<u32>| SearchFile {
        username: String::new(),
        name: name.into(),
        size,
        bitrate,
    };
    let results = vec![
        SearchResult {
            username: "busy".into(),
            slots: 0,
            speed: 1,
            files: (0..200).map(|n| file("a/x.mp3", n, None)).collect(),
        },
        SearchResult {
            username: "free".into(),
            slots: 2,
            speed: 1,
            files: vec![
                file("a/small.flac", 1, Some(320)),
                file("a/large.flac", 9, Some(320)),
                file("a/best.flac", 1, Some(900)),
            ],
        },
    ];
    let hits = flatten_hits(results);
    assert_eq!(hits.len(), 150);
    assert_eq!(hits[0].name, "a/best.flac");
    assert_eq!(hits[1].name, "a/large.flac");
    assert_eq!(hits[2].name, "a/small.flac");
    assert_eq!(hits[0].username, "free");
    assert_eq!(hits[3].size, 199);
}

#[test]
fn rows_carry_sizes_speeds_and_counts() {
    let mut ui = SoulseekUi::ready();
    ui.set_hits(vec![SoulseekHit {
        username: "alice".into(),
        name: r"shares\album\track.flac".into(),
        size: 1_310_720,
        slots: 1,
        speed: 2_000_000,
        bitrate: Some(320),
    }]);
    let rows = ui.visible_rows();
    assert_eq!(rows[0].label, "▾ alice");
    assert_eq!(
        rows[0].detail,
        format!("{:.2} MiB/s   1 file", 2_000_000f64 / 1_048_576.0)
    );
    assert_eq!(rows[1].label, "  ▾ shares\\album");
    assert_eq!(rows[1].detail, "1 slot");
    assert_eq!(rows[2].label, "      track.flac");
    assert_eq!(rows[2].detail, "1.2 M  320 kbps");
    assert_eq!(rows[2].key, "file:alice:shares\\album\\track.flac");
}

#[test]
fn sizes_and_speeds_round_as_floating_point_does() {
    for size in [
        0u64,
        1,
        52_428,
        52_429,
        157_286,
        1_048_576,
        1_153_434,
        u64::MAX,
        9_007_199_254_740_993,
        (1 << 60) + 129,
    ] {
        let mut ui = SoulseekUi::ready();
        ui.set_hits(vec![SoulseekHit {
            size,
            ..hit("a.flac", 0)
        }]);
        let rows = ui.visible_rows();
        assert_eq!(rows[2].detail, format!("{:.1} M  ", size as f64 / 1_048_576.0));
    }
    for speed in [
        0u32, 1, 1023, 1024, 1536, 2560, 3584, 1_048_575, 1_048_576, 1_053_818, 1_053_819,
        u32::MAX,
    ] {
        let expected = if speed >= 1_048_576 {
            format!("{:.2} MiB/s", f64::from(speed) / 1_048_576.0)
        } else if speed >= 1024 {
            format!("{:.0} KiB/s", f64::from(speed) / 1024.0)
        } else if speed == 0 {
            "—".to_owned()
        } else {
            format!("{speed} B/s")
        };
        assert_eq!(format_speed(speed), expected);
    }
}

#[test]
fn statuses_and_prompts() {
    let mut ui = SoulseekUi::ready();
    assert_eq!(ui.results_status(), "Type a search and press Enter");
    ui.set_hits(vec![hit("a.flac", 1), hit("b.mp3", 0)]);
    assert_eq!(
        ui.results_status(),
        "2 files  ·  Shift+F10 or right-click"
    );
    ui.set_format(SoulseekFormat::Mp3);
    ui.toggle_free_slot();
    assert_eq!(ui.results_status(), "0 of 2 files  ·  MP3  ·  free slots");
    ui.query = "abc".into();
    assert_eq!(ui.prompt(true), "Search: abc█");
    ui.phase = SoulseekPhase::Password;
    ui.password = "äbc".into();
    assert_eq!(ui.prompt(false), "Password: ***");
    let mut fresh = SoulseekUi::default();
    fresh.username = "me".into();
    assert_eq!(fresh.prompt(false), "Username: me");
}

#[test]
fn formats_cycle_and_filters_say_when_they_are_active() {
    assert_eq!(SoulseekFormat::All.cycle(-1), SoulseekFormat::Wav);
    assert_eq!(SoulseekFormat::Wav.cycle(1), SoulseekFormat::All);
    assert_eq!(SoulseekFormat::Ogg.cycle(7).cycle(-7), SoulseekFormat::Ogg);
    assert!(!SoulseekFilter::default().is_active());
    assert!(SoulseekFormat::Ogg.matches(&hit("x.OGA", 0)));
    assert!(!SoulseekFormat::Ogg.matches(&hit("x", 0)));
    assert!(SoulseekFormat::All.matches(&hit("x", 0)));
}

#[test]
fn a_file_row_gives_its_hit_and_hides_alone() {
    let mut ui = SoulseekUi::ready();
    ui.set_hits(vec![hit(r"album\a.flac", 1), hit(r"album\b.flac", 1)]);
    ui.selected = 2;
    let found = ui.toggle(None).expect("a file");
    assert_eq!(found.name, r"album\a.flac");
    assert_eq!(found.file_name(), "a.flac");
    ui.hide_scope(SoulseekScope::File);
    assert_eq!(ui.hits.len(), 1);
    assert_eq!(ui.hits[0].name, r"album\b.flac");
    ui.hide_scope(SoulseekScope::Folder);
    assert!(ui.hits.is_empty());
    assert_eq!(ui.selected, 0);
}

#[test]
fn credentials_come_from_the_environment_first() {
    let saved = || {
        Some(SoulseekCredentials {
            username: "saved".into(),
            password: "pw".into(),
        })
    };
    let picked = pick_credentials(Some("env".into()), Some("x".into()), saved()).unwrap();
    assert_eq!(picked.username, "env");
    let picked = pick_credentials(Some("env".into()), Some("".into()), saved()).unwrap();
    assert_eq!(picked.username, "saved");
    assert!(pick_credentials(Some("env".into()), None, None).is_none());
}

#[test]
fn components_are_made_safe() {
    assert_eq!(sanitize_component(" .. "), "");
    assert_eq!(sanitize_component("."), "");
    assert_eq!(sanitize_component("a/b\\c\0d"), "a_b_c_d");
    assert_eq!(sanitize_component("\u{2003} album \t"), "album");
    assert_eq!(dest_for_remote_path("/music", r"x\..\y.flac"), "/music");
}

#[test]
fn downloads_go_to_the_first_root() {
    assert_eq!(download_dir("/data", &vec![]), "/data/soulseek");
    assert_eq!(download_dir("/data", &vec!["/m".into(), "/n".into()]), "/m");
}

#[test]
fn sessions_report_what_they_do() {
    match session_step(SoulseekCommand::Search("abba".into()), "/m") {
        SessionStep::Search { report, query } => {
            assert_eq!(query, "abba");
            assert!(matches!(report, SoulseekEvent::Status(text) if text == "Searching “abba”…"));
        }
        other => panic!("{other:?}"),
    }
    match session_step(
        SoulseekCommand::Download {
            username: "u".into(),
            name: r"s\album\t.mp3".into(),
            size: 5,
        },
        "/m",
    ) {
        SessionStep::Download {
            dest,
            display,
            report,
            size,
            ..
        } => {
            assert_eq!(dest, "/m/album");
            assert_eq!(display, "t.mp3");
            assert_eq!(size, 5);
            assert!(matches!(report, SoulseekEvent::Status(text) if text == "Downloading t.mp3…"));
        }
        other => panic!("{other:?}"),
    }
    assert!(matches!(
        folder_failed("/m/x", "denied"),
        SoulseekEvent::DownloadFailed(text) if text == "creating /m/x: denied"
    ));
    let events = search_finished(Ok(vec![]));
    assert!(matches!(&events[0], SoulseekEvent::Status(text) if text == "0 matching files"));
    assert!(matches!(&events[1], SoulseekEvent::SearchResults(hits) if hits.is_empty()));
    let events = search_finished(Err("down".into()));
    assert!(matches!(&events[0], SoulseekEvent::Error(text) if text == "down"));
}

#[test]
fn download_updates_are_told_apart() {
    let (event, over) = download_update(
        DownloadUpdate::InProgress {
            done: 50,
            total: 200,
            speed: "12".into(),
        },
        "/m",
        "t.mp3",
    );
    assert!(matches!(event, Some(SoulseekEvent::Status(text)) if text == "t.mp3  25%  12 KB/s"));
    assert!(!over);
    let (event, over) = download_update(DownloadUpdate::Completed { present: true }, "/m", "t");
    assert!(matches!(event, Some(SoulseekEvent::Finished(path)) if path == "/m/t"));
    assert!(over);
    let (event, _) = download_update(DownloadUpdate::Completed { present: false }, "/m", "t");
    assert!(matches!(event, Some(SoulseekEvent::Finished(path)) if path == "/m"));
    let (event, over) = download_update(DownloadUpdate::Failed(None), "/m", "t");
    assert!(
        matches!(event, Some(SoulseekEvent::DownloadFailed(text)) if text == "download of t failed")
    );
    assert!(over);
    let (event, over) = download_update(DownloadUpdate::TimedOut, "/m", "t");
    assert!(
        matches!(event, Some(SoulseekEvent::DownloadFailed(text)) if text == "download of t timed out")
    );
    assert!(over);
    let (event, over) = download_update(DownloadUpdate::Paused, "/m", "t");
    assert!(event.is_none() && !over);
    let (event, _) = download_update(DownloadUpdate::Queued, "/m", "t");
    assert!(matches!(event, Some(SoulseekEvent::Status(text)) if text == "Queued t"));
    let (event, _) = download_update(
        DownloadUpdate::InProgress {
            done: u64::MAX,
            total: 0,
            speed: "0".into(),
        },
        "/m",
        "t",
    );
    assert!(matches!(event, Some(SoulseekEvent::Status(text)) if text == "t  0%  0 KB/s"));
}

fn shared(user: &str, name: &str) -> SoulseekHit {
    SoulseekHit { username: user.into(), ..hit(name, 1) }
}

fn labels(ui: &SoulseekUi) -> Vec<String> {
    ui.visible_rows().iter().map(|row| row.label.trim().to_owned()).collect()
}

#[test]
fn the_open_list_shows_every_hit_below_its_folder() {
    let mut ui = SoulseekUi::ready();
    ui.set_hits(vec![
        shared("zoe", r"b\1.flac"),
        shared("adam", r"x\2.flac"),
        shared("zoe", r"a\3.flac"),
        shared("zoe", r"b\4.flac"),
    ]);
    assert_eq!(
        labels(&ui),
        vec![
            "▾ zoe", "▾ a", "3.flac", "▾ b", "1.flac", "4.flac", "▾ adam", "▾ x", "2.flac"
        ]
    );
}

#[test]
fn folding_hides_a_group_and_unfolding_restores_it() {
    let mut ui = SoulseekUi::ready();
    ui.set_hits(vec![
        shared("zoe", r"a\1.flac"),
        shared("zoe", r"b\2.flac"),
        shared("adam", r"a\3.flac"),
    ]);
    let open = labels(&ui);
    ui.selected = 1;
    assert!(ui.toggle(None).is_none());
    assert_eq!(
        labels(&ui),
        vec!["▾ zoe", "▸ a", "▾ b", "2.flac", "▾ adam", "▾ a", "3.flac"]
    );
    ui.toggle(Some(false));
    assert_eq!(labels(&ui).len(), 7);
    ui.toggle(None);
    assert_eq!(labels(&ui), open);
    ui.selected = 0;
    ui.toggle(Some(false));
    assert_eq!(labels(&ui), vec!["▸ zoe", "▾ adam", "▾ a", "3.flac"]);
    ui.toggle(Some(true));
    ui.toggle(Some(true));
    assert_eq!(labels(&ui), open);
    assert_eq!(ui.selected, 0);
}

#[test]
fn hiding_nothing_changes_nothing() {
    let mut ui = SoulseekUi::ready();
    ui.set_hits(vec![shared("zoe", r"a\1.flac"), shared("zoe", r"b\2.flac")]);
    ui.selected = 0;
    assert!(ui.hits_in_scope(SoulseekScope::File).is_empty());
    ui.hide_scope(SoulseekScope::File);
    assert_eq!((ui.hits.len(), ui.selected), (2, 0));
    ui.selected = 9;
    ui.hide_scope(SoulseekScope::User);
    assert_eq!((ui.hits.len(), ui.selected), (2, 9));
    ui.selected = 4;
    ui.hide_scope(SoulseekScope::Folder);
    assert_eq!((ui.hits.len(), ui.selected), (1, 2));
}
