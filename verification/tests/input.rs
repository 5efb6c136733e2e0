use staccato::action::Action;
use staccato::app::resume::Startup;
use staccato::app::state::App;
use staccato::audio::SilentEngine;
use staccato::input::{
    InputEvent, InputMapper, KeyCode, KeyInput, KeyKind, Modifiers, MouseInput, MouseKind,
};
use staccato::layout::{contains, Rect, UiRegions};
use staccato::model::{Focus, Playlist, PlaylistColumn};
use staccato::overlay::{Overlay, PathPicker, PickerEntry, PickerMode};
use staccato::soulseek::{SoulseekFormat, SoulseekUi};
use staccato::storage::SavedState;
use staccato::time::Duration;

const NONE: Modifiers = Modifiers { control: false, shift: false, alt: false, other: false };
const CONTROL: Modifiers = Modifiers { control: true, ..NONE };
const SHIFT: Modifiers = Modifiers { shift: true, ..NONE };
const ALT: Modifiers = Modifiers { alt: true, ..NONE };

fn open() -> App<SilentEngine> {
    App::open(
        Startup {
            tracks: Vec::new(),
            playlists: vec![Playlist { id: 1, name: "Default".into(), items: Vec::new() }],
            saved: SavedState::default(),
            roots: Vec::new(),
            no_audio: true,
            audio_error: None,
            output_devices: Vec::new(),
            data_dir: "/data".into(),
        },
        SilentEngine::new(0),
    )
}

fn mouse(kind: MouseKind, column: u16, row: u16, modifiers: Modifiers) -> InputEvent {
    InputEvent::Mouse(MouseInput { kind, column, row, modifiers })
}

fn left_click(column: u16, row: u16) -> InputEvent {
    mouse(MouseKind::LeftDown, column, row, NONE)
}

fn right_click_at(column: u16, row: u16) -> InputEvent {
    mouse(MouseKind::RightDown, column, row, NONE)
}

fn held(code: KeyCode, modifiers: Modifiers) -> InputEvent {
    InputEvent::Key(KeyInput { code, modifiers, kind: KeyKind::Press })
}

fn key(code: KeyCode) -> InputEvent {
    held(code, NONE)
}

fn map(event: InputEvent, app: &App<SilentEngine>, regions: &UiRegions) -> Action {
    InputMapper::default().map(event, app, regions, Duration::from_secs(0))
}

#[test]
fn rectangle_hit_testing_excludes_bottom_and_right_edges() {
    let rect = Rect::new(2, 3, 4, 5);
    assert!(contains(rect, (2, 3)));
    assert!(!contains(rect, (6, 3)));
    assert!(!contains(rect, (2, 8)));
}

#[test]
fn click_outside_open_menu_closes_it() {
    let mut app = open();
    app.front.overlay = Overlay::Menu { menu: 0, selected: 0 };
    let regions = UiRegions { overlay: Some(Rect::new(0, 1, 12, 8)), ..UiRegions::new() };

    let action = map(left_click(40, 10), &app, &regions);

    assert_eq!(action, Action::CloseOverlay);
}

#[test]
fn top_level_menu_click_switches_an_open_menu() {
    let mut app = open();
    app.front.overlay = Overlay::Menu { menu: 0, selected: 0 };
    let regions = UiRegions {
        menu: vec![Rect::new(0, 0, 6, 1), Rect::new(6, 0, 6, 1)],
        overlay: Some(Rect::new(0, 1, 12, 8)),
        ..UiRegions::new()
    };

    let action = map(left_click(7, 0), &app, &regions);

    assert_eq!(action, Action::OpenMenu(1));
}

#[test]
fn soulseek_query_types_instead_of_changing_volume() {
    let mut app = open();
    app.panes.soulseek_open = true;
    app.soulseek.ui = SoulseekUi::ready();
    app.lists.focus = Focus::SoulseekQuery;

    let action = map(key(KeyCode::Char('a')), &app, &UiRegions::new());
    assert_eq!(action, Action::TextInput('a'));

    app.lists.focus = Focus::Playlist;
    let fold = map(key(KeyCode::Left), &app, &UiRegions::new());
    assert_eq!(fold, Action::SoulseekFold(false));

    app.lists.focus = Focus::SoulseekFilter;
    let cycle = map(key(KeyCode::Right), &app, &UiRegions::new());
    assert_eq!(cycle, Action::SoulseekCycleFormat(1));

    let menu = map(held(KeyCode::F(10), SHIFT), &app, &UiRegions::new());
    assert_eq!(menu, Action::OpenListContext { row: None, x: None, y: None });
}

#[test]
fn right_click_on_soulseek_results_opens_context_menu() {
    let mut app = open();
    app.panes.soulseek_open = true;
    app.soulseek.ui = SoulseekUi::ready();
    let regions = UiRegions {
        playlist: Rect::new(10, 10, 40, 12),
        playlist_offset: 0,
        ..UiRegions::new()
    };

    let action = map(right_click_at(12, 13), &app, &regions);
    assert_eq!(action, Action::OpenListContext { row: Some(1), x: Some(12), y: Some(13) });
}

#[test]
fn click_on_flac_chip_sets_the_format_filter() {
    let mut app = open();
    app.panes.soulseek_open = true;
    app.soulseek.ui = SoulseekUi::ready();
    let regions = UiRegions {
        soulseek_formats: vec![Rect::new(10, 8, 5, 1), Rect::new(15, 8, 6, 1)],
        ..UiRegions::new()
    };
    let action = map(left_click(16, 8), &app, &regions);
    assert_eq!(action, Action::SoulseekSetFormat(SoulseekFormat::Flac));
}

#[test]
fn the_documented_keys_do_what_they_say() {
    let app = open();
    let regions = UiRegions::new();
    let cases = vec![
        (held(KeyCode::Char('o'), CONTROL), Action::OpenFiles),
        (
            held(KeyCode::Char('o'), Modifiers { shift: true, ..CONTROL }),
            Action::OpenFolder,
        ),
        (key(KeyCode::Char(' ')), Action::TogglePlay),
        (key(KeyCode::Enter), Action::ActivateSelection),
        (key(KeyCode::Up), Action::MoveSelection(-1)),
        (key(KeyCode::Down), Action::MoveSelection(1)),
        (key(KeyCode::Left), Action::SeekRelative(-5)),
        (key(KeyCode::Right), Action::SeekRelative(5)),
        (key(KeyCode::Char('+')), Action::VolumeRelative(5)),
        (key(KeyCode::Char('-')), Action::VolumeRelative(-5)),
        (held(KeyCode::Char('f'), CONTROL), Action::BeginFilter),
        (key(KeyCode::Delete), Action::RemoveSelection),
        (key(KeyCode::F(1)), Action::ToggleHelp),
        (held(KeyCode::Char('q'), CONTROL), Action::Quit),
        (held(KeyCode::Up, ALT), Action::MovePlaylistItems(-1)),
        (held(KeyCode::Down, SHIFT), Action::ExtendSelection(1)),
        (key(KeyCode::Insert), Action::ToggleMark),
        (key(KeyCode::Char('x')), Action::Nothing),
    ];
    for (event, expected) in cases {
        assert_eq!(map(event, &app, &regions), expected);
    }
}

#[test]
fn released_keys_and_pastes_do_nothing() {
    let app = open();
    let released = InputEvent::Key(KeyInput {
        code: KeyCode::Enter,
        modifiers: NONE,
        kind: KeyKind::Release,
    });
    assert_eq!(map(released, &app, &UiRegions::new()), Action::Nothing);
    assert_eq!(map(InputEvent::Paste("x".into()), &app, &UiRegions::new()), Action::Nothing);
}

#[test]
fn the_arrows_go_round_the_tabs() {
    let mut app = open();
    app.lists.focus = Focus::PlaylistTabs;
    let left = map(key(KeyCode::Left), &app, &UiRegions::new());
    assert_eq!(left, Action::SelectPlaylist(3));
    app.panes.settings_open = true;
    let right = map(key(KeyCode::Right), &app, &UiRegions::new());
    assert_eq!(right, Action::SelectPlaylist(0));
}

#[test]
fn the_escape_key_clears_a_filter() {
    let mut app = open();
    assert_eq!(map(key(KeyCode::Esc), &app, &UiRegions::new()), Action::Nothing);
    app.lists.album_filter = "x".into();
    assert_eq!(map(key(KeyCode::Esc), &app, &UiRegions::new()), Action::ClearFilter);
}

#[test]
fn menus_are_worked_by_keys() {
    let mut app = open();
    app.front.overlay = Overlay::Menu { menu: 0, selected: 0 };
    assert_eq!(map(key(KeyCode::Left), &app, &UiRegions::new()), Action::OpenMenu(5));
    app.front.overlay = Overlay::Menu { menu: 5, selected: 0 };
    assert_eq!(map(key(KeyCode::Right), &app, &UiRegions::new()), Action::OpenMenu(0));
    assert_eq!(map(key(KeyCode::F(10)), &app, &UiRegions::new()), Action::CloseOverlay);
    app.front.overlay = Overlay::Pair { text: String::new() };
    assert_eq!(map(key(KeyCode::Char('5')), &app, &UiRegions::new()), Action::TextInput('5'));
    assert_eq!(map(key(KeyCode::Enter), &app, &UiRegions::new()), Action::OverlayActivate);
    app.front.overlay = Overlay::Properties { title: String::new(), body: String::new() };
    assert_eq!(map(key(KeyCode::Enter), &app, &UiRegions::new()), Action::Nothing);
    assert_eq!(map(key(KeyCode::Esc), &app, &UiRegions::new()), Action::CloseOverlay);
}

#[test]
fn a_folder_is_chosen_by_its_key_alone() {
    let mut app = open();
    let picker = |mode: PickerMode| PathPicker {
        mode,
        directory: "/m".into(),
        entries: Vec::new(),
        selected: 0,
    };
    app.front.overlay = Overlay::PathPicker(picker(PickerMode::Folder));
    let chosen = map(key(KeyCode::Char('A')), &app, &UiRegions::new());
    assert_eq!(chosen, Action::PickerChooseCurrent);
    app.front.overlay = Overlay::PathPicker(picker(PickerMode::Files));
    assert_eq!(map(key(KeyCode::Char('a')), &app, &UiRegions::new()), Action::Nothing);
}

#[test]
fn a_second_click_in_time_activates() {
    let app = open();
    let regions = UiRegions { playlist: Rect::new(0, 0, 40, 12), ..UiRegions::new() };
    let mut mapper = InputMapper::default();
    let first = mapper.map(left_click(5, 4), &app, &regions, Duration::from_millis(1000));
    assert_eq!(first, Action::SelectPlaylistRow(2));
    let second = mapper.map(left_click(5, 4), &app, &regions, Duration::from_millis(1450));
    assert_eq!(second, Action::ActivateSelection);
    let late = mapper.map(left_click(5, 4), &app, &regions, Duration::from_millis(1901));
    assert_eq!(late, Action::SelectPlaylistRow(2));
    let elsewhere = mapper.map(left_click(6, 4), &app, &regions, Duration::from_millis(1902));
    assert_eq!(elsewhere, Action::SelectPlaylistRow(2));
}

#[test]
fn a_second_click_in_the_picker_opens_the_entry() {
    let mut app = open();
    let entry = |path: &str| PickerEntry { path: path.into(), is_dir: true };
    app.front.overlay = Overlay::PathPicker(PathPicker {
        mode: PickerMode::Files,
        directory: "/m".into(),
        entries: vec![entry("/"), entry("/m/a")],
        selected: 0,
    });
    let regions = UiRegions { overlay: Some(Rect::new(0, 0, 40, 12)), ..UiRegions::new() };
    let mut mapper = InputMapper::default();
    let first = mapper.map(left_click(5, 4), &app, &regions, Duration::from_secs(1));
    assert_eq!(first, Action::OverlayMove(1));
    if let Overlay::PathPicker(picker) = &mut app.front.overlay {
        picker.selected = 1;
    }
    let second = mapper.map(left_click(5, 4), &app, &regions, Duration::from_secs(1));
    assert_eq!(second, Action::OverlayActivate);
}

#[test]
fn clicks_find_the_buttons_and_bars() {
    let app = open();
    let regions = UiRegions {
        previous: Rect::new(0, 1, 5, 1),
        play_pause: Rect::new(5, 1, 5, 1),
        stop: Rect::new(10, 1, 5, 1),
        next: Rect::new(15, 1, 5, 1),
        seek: Rect::new(21, 1, 20, 1),
        order: Rect::new(42, 1, 10, 1),
        volume: Rect::new(60, 1, 10, 1),
        tabs: vec![Rect::new(30, 3, 9, 1), Rect::new(40, 3, 7, 1)],
        playlist_headers: vec![(PlaylistColumn::Artist, Rect::new(30, 5, 10, 1))],
        album: Rect::new(0, 2, 24, 10),
        album_offset: 4,
        playlist: Rect::new(24, 4, 46, 10),
        ..UiRegions::new()
    };
    let cases = vec![
        ((0, 1), Action::Previous),
        ((9, 1), Action::TogglePlay),
        ((10, 1), Action::Stop),
        ((19, 1), Action::Next),
        ((31, 1), Action::SeekFraction { at: 10, of: 20 }),
        ((42, 1), Action::CyclePlaybackOrder),
        ((69, 1), Action::SetVolume { at: 9, of: 10 }),
        ((40, 3), Action::SelectPlaylist(1)),
        ((31, 5), Action::SortPlaylist(PlaylistColumn::Artist)),
        ((3, 5), Action::SelectAlbumRow(6)),
        ((69, 13), Action::SelectPlaylistRow(7)),
        ((5, 40), Action::Nothing),
    ];
    for ((column, row), expected) in cases {
        assert_eq!(map(left_click(column, row), &app, &regions), expected);
    }
    let toggled = map(mouse(MouseKind::LeftDown, 60, 8, CONTROL), &app, &regions);
    assert_eq!(toggled, Action::TogglePlaylistRow(2));
    let extended = map(mouse(MouseKind::LeftDown, 3, 5, SHIFT), &app, &regions);
    assert_eq!(extended, Action::ExtendSelection(6));
    assert_eq!(
        map(mouse(MouseKind::ScrollDown, 0, 0, NONE), &app, &regions),
        Action::MoveSelection(3)
    );
}
