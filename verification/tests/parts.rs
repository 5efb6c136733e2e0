use std::collections::BTreeSet;

use staccato::action::Action;
use staccato::audio::{
    clamp_unit, order_devices, AudioDevice, AudioEvent, Deck, MediaSource, StagedTrack, TrackClock,
    TrackSignals,
};
use staccato::help::{HelpRow, HelpView};
use staccato::menus::menu_actions;
use staccato::model::{GainPlan, PlaybackState};
use staccato::order::{order_texts, text_before, TextSet};
use staccato::overlay::{Overlay, PathPicker, PickerEntry, PickerMode};
use staccato::path::{extension, file_name, file_stem, join, parent};
use staccato::time::Duration;

fn staged(track_id: i64, generation: u64) -> StagedTrack {
    StagedTrack {
        source: MediaSource::LocalFile("a.flac".into()),
        track_id,
        duration: Duration::from_secs(5),
        gain: GainPlan {
            active: true,
            gain: None,
            peak: None,
            preamp: 0,
            prevent_clipping: false,
        },
        generation,
    }
}

#[test]
fn staged_sources_emit_ordered_boundaries() {
    let mut events = Vec::new();
    for (track_id, generation) in [(1, 11), (2, 12)] {
        let mut signals = TrackSignals::new(track_id, generation);
        for sample in [true, true, true, true, false, false] {
            events.extend(signals.next(sample));
        }
    }
    assert_eq!(
        events,
        vec![
            AudioEvent::TrackStarted { track_id: 1, generation: 11 },
            AudioEvent::TrackFinished { track_id: 1, generation: 11 },
            AudioEvent::TrackStarted { track_id: 2, generation: 12 },
            AudioEvent::TrackFinished { track_id: 2, generation: 12 },
        ]
    );
    let mut silent = TrackSignals::new(3, 13);
    assert_eq!(silent.next(false), None);
}

#[test]
fn clocks_count_samples_from_the_last_seek() {
    let mut clock = TrackClock::new(2, 48_000);
    clock.samples = 96_000;
    assert_eq!(clock.position(), Duration::from_secs(1));
    clock.seeked_to(Duration { secs: 7, nanos: 1_500 });
    assert_eq!(clock.position(), Duration { secs: 7, nanos: 1_000 });
    assert_eq!(TrackClock::new(0, 0).position(), Duration::from_secs(0));
}

#[test]
fn a_deck_goes_over_to_the_staged_track() {
    let mut deck = Deck::new(0x4000_0000, "Card".into(), "hw:0".into());
    assert_eq!(f32::from_bits(deck.snapshot.volume), 1.0);
    deck.loaded(&staged(1, 1));
    deck.staged(&staged(2, 2));
    assert!(!deck.apply_event(&AudioEvent::TrackStarted { track_id: 1, generation: 1 }, false));
    assert_eq!(deck.snapshot.staged_track_id, Some(2));
    assert!(deck.apply_event(&AudioEvent::TrackStarted { track_id: 2, generation: 2 }, true));
    assert_eq!(deck.snapshot.track_id, Some(2));
    assert_eq!(deck.snapshot.state, PlaybackState::Paused);
    assert_eq!(deck.snapshot.staged_track_id, None);
    assert_eq!(deck.seek_target(Duration::from_secs(9)), Duration::from_secs(5));
    deck.apply_event(&AudioEvent::DeviceLost("gone".into()), false);
    assert_eq!(deck.snapshot.error.as_deref(), Some("gone"));
    deck.resume().unwrap();
    assert_eq!(deck.snapshot.state, PlaybackState::Playing);
    deck.pause();
    assert_eq!(deck.snapshot.state, PlaybackState::Paused);
    deck.sought(Duration::from_secs(9));
    assert_eq!(deck.snapshot.position, Duration::from_secs(5));
    assert_eq!(f32::from_bits(deck.set_volume(0.25f32.to_bits())), 0.25);
    deck.stop();
    assert_eq!(deck.snapshot.track_id, None);
    assert_eq!(deck.resume(), Err("no track is loaded".to_owned()));
}

#[test]
fn volumes_are_clamped_by_their_bits() {
    for (given, expected) in
        [(0.5f32, 0.5f32), (-1.0, 0.0), (7.0, 1.0), (0.0, 0.0), (1.0, 1.0)]
    {
        assert_eq!(f32::from_bits(clamp_unit(given.to_bits())), expected);
    }
}

#[test]
fn devices_are_offered_by_name() {
    let device =
        |id: &str, name: &str| AudioDevice { id: id.into(), name: name.into() };
    let ordered = order_devices(vec![device("2", "b"), device("1", "A"), device("2", "B")]);
    assert_eq!(ordered, vec![device("1", "A"), device("2", "b")]);
}

#[test]
fn help_sections_fold_and_unfold() {
    let mut help = HelpView { selected: 0, collapsed: BTreeSet::new() };
    let open = help.visible_rows().len();
    assert!(matches!(help.visible_rows()[0], HelpRow::Section { open: true, .. }));
    help.toggle();
    assert!(help.visible_rows().len() < open);
    assert!(matches!(help.visible_rows()[0], HelpRow::Section { open: false, .. }));
    help.toggle();
    assert_eq!(help.visible_rows().len(), open);
}

#[test]
fn menus_lead_out() {
    for menu in 0..6 {
        let items = menu_actions(menu);
        assert!(!items.is_empty());
        assert!(items.iter().all(|(_, action)| !matches!(action, Action::OpenMenu(_))));
    }
    assert_eq!(menu_actions(0)[0], ("Add files…        Ctrl+O", Action::OpenFiles));
    assert_eq!(menu_actions(4)[5], ("Search Soulseek…", Action::BeginSoulseek));
}

#[test]
fn paths_are_taken_apart() {
    assert_eq!(file_name("/a/b.c/").as_deref(), Some("b.c"));
    assert_eq!(file_name("/a/.."), None);
    assert_eq!(extension("/a/.hidden"), None);
    assert_eq!(file_stem("/a/b.tar.gz").as_deref(), Some("b.tar"));
    assert_eq!(parent("/a/b").as_deref(), Some("/a"));
    assert_eq!(parent("/"), None);
    assert_eq!(join("/a", "b"), "/a/b");
    assert_eq!(join("/a", "/b"), "/b");
}

#[test]
fn overlays_take_text_and_move() {
    let mut overlay = Overlay::Rename { playlist_id: 1, text: "ab".into() };
    overlay.push_char('ç');
    overlay.pop_char();
    overlay.pop_char();
    assert!(matches!(&overlay, Overlay::Rename { text, .. } if text == "a"));
    let mut menu = Overlay::Menu { menu: 3, selected: 0 };
    menu.move_cursor(-1);
    assert!(matches!(menu, Overlay::Menu { menu: 3, selected: 7 }));
}

#[test]
fn pickers_offer_folders_alone_for_folders() {
    let found = vec![
        PickerEntry { path: "/m/b".into(), is_dir: true },
        PickerEntry { path: "/m/a.flac".into(), is_dir: false },
        PickerEntry { path: "/m/A".into(), is_dir: true },
    ];
    let picker = PathPicker::new(PickerMode::Folder, "/m".into(), found);
    let paths: Vec<&str> = picker.entries.iter().map(|entry| entry.path.as_str()).collect();
    assert_eq!(paths, vec!["/", "/m/A", "/m/b"]);
}

#[test]
fn texts_are_ordered_and_kept_once() {
    let texts: Vec<String> = ["b", "a", "b"].iter().map(|text| text.to_string()).collect();
    assert_eq!(order_texts(&texts), vec!["a", "b"]);
    assert!(text_before("a", "ab"));
    assert!(!text_before("b", "ab"));
    let mut set = TextSet::new();
    assert!(set.insert("x".into()));
    assert!(!set.insert("x".into()));
    assert!(set.contains("x"));
    assert!(set.remove("x"));
    assert!(!set.contains("x"));
}
