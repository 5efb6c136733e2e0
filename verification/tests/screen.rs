use staccato::action::Action;
use staccato::app::resume::Startup;
use staccato::app::state::App;
use staccato::audio::SilentEngine;
use staccato::help::HelpView;
use staccato::layout::{
    album_width, art_panel_height, centered, equalizer_height, header_rects, layout_widths,
    place_popup, row_of_boxes, toolbar, Constraint, Rect, ToolbarTexts, MIN_HEIGHT, MIN_WIDTH,
};
use staccato::model::{Focus, Playlist, PlaylistColumn, ReplayGainInfo, Track, TrackOrigin};
use staccato::net::addr::{DiscoveredServer, IpAddr, SocketAddr};
use staccato::overlay::{Overlay, PathPicker, PickerEntry, PickerMode};
use staccato::page::{
    album_page, arrange, artwork_hint, equalizer_bands, filter_text, playlist_page, queue_page,
    search_page, settings_page, LineTone,
};
use staccato::panel::{panel, Panel, PanelBody};
use staccato::soulseek::{SoulseekHit, SoulseekUi};
use staccato::storage::SavedState;
use staccato::time::Duration;
use staccato::tree::AlbumEntry;
use staccato::ui::{
    album_row_text, context_menu_origin, filter_chips, fit_status, heading_text, menu_labels,
    menu_rects, playlist_row, playlist_title, resize_message, results_hint, setting_row_text,
    status_left, status_marks, status_right, status_right_place, tab_labels, tab_places, tab_rects,
    IconSet, MarkTone, RowTone, StatusTone,
};

const VOLUME: &str = "Vol:  80%";

fn open() -> App<SilentEngine> {
    App::open(
        Startup {
            tracks: vec![Track {
                id: 1,
                path: "/m/a.flac".into(),
                title: "Song".into(),
                artist: "Band".into(),
                album: "Disc".into(),
                date: Some(1999),
                track_number: None,
                duration: Duration::from_secs(65),
                codec: "FLAC".into(),
                sample_rate: Some(44_100),
                channels: None,
                file_size: 1,
                modified_ns: 1,
                unavailable: false,
                scan_error: None,
                origin: TrackOrigin::Local,
                replay_gain: ReplayGainInfo::default(),
            }],
            playlists: vec![Playlist { id: 1, name: "Default".into(), items: vec![1] }],
            saved: SavedState::default(),
            roots: Vec::new(),
            no_audio: true,
            audio_error: None,
            output_devices: Vec::new(),
            data_dir: "/data".into(),
        },
        SilentEngine::new(0),
    )
}

#[test]
fn centered_rect_stays_inside_parent() {
    let outer = Rect::new(10, 5, 20, 10);
    assert_eq!(centered(outer, 100, 100), outer);
    assert_eq!(centered(outer, 10, 4), Rect::new(15, 8, 10, 4));
}

#[test]
fn context_menu_stays_inside_the_frame() {
    let outer = Rect::new(0, 0, 20, 10);
    assert_eq!(place_popup(outer, 18, 8, 8, 5), Rect::new(12, 5, 8, 5));
}

#[test]
fn art_panel_leaves_room_for_the_album_list() {
    assert!(art_panel_height(32, 30) < 30);
    assert!(art_panel_height(32, 12) <= 4);
}

#[test]
fn panels_have_their_sizes() {
    assert_eq!(art_panel_height(32, 30), 18);
    assert_eq!(equalizer_height(13), 8);
    assert_eq!(equalizer_height(12), 6);
    assert_eq!(equalizer_height(10), 0);
    assert_eq!(album_width(70), 24);
    assert_eq!(album_width(110), 33);
    assert_eq!(album_width(300), 40);
}

#[test]
fn toolbar_fits_transport_seek_and_status_at_minimum_width() {
    let app = open();
    let regions = arrange(&app, Rect::new(0, 0, MIN_WIDTH, MIN_HEIGHT), VOLUME.into()).regions;
    assert_eq!(regions.previous.y, 1);
    assert_eq!(regions.seek.y, 1);
    assert_eq!(regions.volume.y, 1);
    assert!(regions.previous.right() <= regions.seek.x);
    assert!(regions.seek.width >= 4);
    if regions.order.width > 0 {
        assert!(regions.seek.right() <= regions.order.x);
        assert!(regions.order.right() <= regions.volume.x);
    } else {
        assert!(regions.seek.right() <= regions.volume.x);
    }
    assert_eq!(regions.album.y, 2);
}

#[test]
fn the_toolbar_fits_the_smallest_screen() {
    let texts = ToolbarTexts { volume: 9, order: 14, elapsed: 4, total: 4 };
    let bar = toolbar(Rect::new(0, 1, 70, 1), texts);
    assert_eq!(bar.previous, Rect::new(0, 1, 5, 1));
    assert_eq!(bar.next.right(), 20);
    assert_eq!(bar.volume, Rect::new(61, 1, 9, 1));
    assert_eq!(bar.order, Rect::new(46, 1, 14, 1));
    assert_eq!(bar.seek, Rect::new(26, 1, 14, 1));
    let (elapsed, total) = bar.clocks.unwrap();
    assert_eq!(elapsed, Rect::new(21, 1, 4, 1));
    assert_eq!(total, Rect::new(41, 1, 4, 1));
}

#[test]
fn a_crowded_toolbar_gives_up_its_texts() {
    let texts = ToolbarTexts { volume: 30, order: 14, elapsed: 20, total: 20 };
    let bar = toolbar(Rect::new(0, 1, 70, 1), texts);
    assert_eq!(bar.order, Rect::none());
    assert_eq!(bar.seek, Rect::new(21, 1, 18, 1));
    assert_eq!(bar.clocks, None);
}

#[test]
fn columns_share_what_is_left() {
    let widths = layout_widths(
        90,
        &vec![Constraint::Length(2), Constraint::Percentage(28), Constraint::Percentage(52)],
    );
    assert_eq!(widths, vec![2, 30, 57]);
    let headers = header_rects(Rect::new(10, 4, 60, 20), true);
    let columns: Vec<PlaylistColumn> = headers.iter().map(|(column, _)| *column).collect();
    assert_eq!(
        columns,
        vec![
            PlaylistColumn::Number,
            PlaylistColumn::Artist,
            PlaylistColumn::Title,
            PlaylistColumn::Time
        ]
    );
    assert_eq!(headers[0].1, Rect::new(13, 5, 4, 1));
    assert!(header_rects(Rect::new(0, 0, 2, 5), false).is_empty());
}

#[test]
fn boxes_stop_at_the_end_of_the_row() {
    let row = row_of_boxes(1, 2, 12, 1, &vec![4, 4, 4, 4]);
    assert_eq!(row, vec![Rect::new(1, 2, 4, 1), Rect::new(6, 2, 4, 1), Rect::new(11, 2, 1, 1)]);
}

#[test]
fn rectangles_are_cut_off_at_the_edge() {
    let rect = Rect::new(65_530, 0, 100, 1);
    assert_eq!(rect.width, 5);
    assert_eq!(rect.right(), u16::MAX);
    assert_eq!(Rect::new(3, 4, 10, 5).inner(), Rect::new(4, 5, 8, 3));
    assert_eq!(Rect::new(3, 4, 1, 5).inner(), Rect::none());
}

#[test]
fn icons_show_what_a_click_does() {
    assert_eq!(IconSet::default().transport(true), vec!["⏮", "⏸", "⏹", "⏭"]);
    assert_eq!(IconSet::Unicode.transport(false)[1], "▶");
    assert_eq!(IconSet::NerdFont.transport(false)[1], "\u{f040a}");
}

#[test]
fn undersized_terminal_shows_resize_message() {
    let message = resize_message(50, 12).unwrap();
    assert!(message.contains("needs at least"));
    assert!(message.contains("50×12"));
    assert_eq!(resize_message(70, 20), None);
}

#[test]
fn playlist_tab_hitboxes_cover_the_rendered_labels() {
    let mut app = open();
    let labels = tab_labels(&app);
    assert_eq!(labels, vec!["Default", "Queue", "Soulseek", "Preferences"]);
    let tabs = arrange(&app, Rect::new(0, 0, 110, 30), VOLUME.into()).regions.tabs;
    assert_eq!(tabs.len(), 4);
    for (region, label) in tabs.iter().zip(["Default", "Queue", "Soulseek", "Preferences"]) {
        assert_eq!(region.width, label.len() as u16 + 2);
        assert_eq!(region.y, 3);
    }
    assert_eq!(tabs[0].x, 34);
    assert_eq!(tabs[1].x, 44);
    app.transport.queue.push(1);
    assert_eq!(tab_labels(&app)[1], "Queue (1)");
}

#[test]
fn wide_characters_take_two_cells() {
    let area = Rect::new(0, 0, 40, 3);
    let tabs = tab_places(area, &vec!["日本".into(), "ab".into()]);
    assert_eq!(tabs, vec![Rect::new(1, 1, 6, 1), Rect::new(8, 1, 4, 1)]);
    assert_eq!(tab_rects(area, &vec![4, 2]), tabs);
}

#[test]
fn equalizer_sits_under_the_playlist_view() {
    let app = open();
    let regions = arrange(&app, Rect::new(0, 0, 110, 30), VOLUME.into()).regions;
    assert_eq!(regions.equalizer.y, regions.playlist.bottom());
    assert!(regions.equalizer.y > regions.playlist.y);
    assert!(regions.playlist.height >= 5);
    assert_eq!(regions.equalizer, Rect::new(33, 21, 77, 8));
    assert_eq!(equalizer_bands(regions.equalizer), 37);
}

#[test]
fn every_part_of_the_screen_has_its_place() {
    let app = open();
    let screen = arrange(&app, Rect::new(0, 0, 110, 30), VOLUME.into());
    let regions = screen.regions;
    assert_eq!(regions.previous.y, regions.menu[0].y + 1);
    assert_eq!(regions.previous.x, 0);
    assert_eq!(regions.previous.width, 5);
    assert_eq!(regions.next.right(), 20);
    assert_eq!(regions.seek.y, regions.previous.y);
    assert_eq!(regions.order.y, regions.previous.y);
    assert_eq!(regions.volume.y, regions.previous.y);
    assert!(regions.previous.right() <= regions.seek.x);
    assert!(regions.seek.right() <= regions.order.x);
    assert!(regions.order.right() <= regions.volume.x);
    assert_eq!(regions.album.y, regions.seek.y + 1);
    assert_eq!(regions.equalizer.x, regions.playlist.x);
    assert_eq!(regions.equalizer.y, regions.playlist.bottom());
    assert_eq!(regions.equalizer.width, regions.playlist.width);
    assert!(regions.equalizer.height >= 6);
    assert_eq!(screen.labels.order, "Order: Default");
    assert_eq!(screen.labels.volume, VOLUME);
    assert_eq!(screen.bands.status, Rect::new(0, 29, 110, 1));
    assert_eq!(screen.places.art, Some(Rect::new(0, 11, 33, 18)));
    assert_eq!(regions.album, Rect::new(0, 2, 33, 9));
    assert_eq!(artwork_hint(&app), "No embedded or folder artwork");
}

#[test]
fn parts_can_be_left_out() {
    let mut app = open();
    app.prefs.show_album_art = false;
    app.prefs.show_spectrum = false;
    app.lists.playlist_filter = "s".into();
    app.lists.focus = Focus::AlbumFilter;
    let screen = arrange(&app, Rect::new(0, 0, 110, 30), VOLUME.into());
    assert_eq!(screen.places.art, None);
    assert_eq!(screen.regions.album_filter, Rect::new(0, 2, 33, 3));
    assert_eq!(screen.regions.album, Rect::new(0, 5, 33, 24));
    assert_eq!(screen.regions.playlist_filter, Rect::new(33, 5, 77, 3));
    assert_eq!(screen.regions.playlist, Rect::new(33, 8, 77, 21));
    assert_eq!(screen.regions.equalizer, Rect::none());
    assert_eq!(filter_text("s", false), "Filter: s");
    assert_eq!(filter_text("s", true), "Filter: s█");
}

#[test]
fn soulseek_tab_renders_search_and_cascaded_tree() {
    let mut app = open();
    app.panes.soulseek_open = true;
    app.soulseek.ui = SoulseekUi::ready();
    app.soulseek.ui.query = "radiohead".into();
    app.soulseek.ui.set_hits(vec![SoulseekHit {
        username: "alice".into(),
        name: r"album\track.flac".into(),
        size: 1_000_000,
        slots: 1,
        speed: 2_000_000,
        bitrate: Some(320),
    }]);
    app.lists.focus = Focus::SoulseekQuery;
    let regions = arrange(&app, Rect::new(0, 0, 110, 30), VOLUME.into()).regions;
    let page = search_page(&app);
    let mut rendered = tab_labels(&app).join(" ");
    rendered.push_str(page.query_title);
    rendered.push_str(&page.query);
    for label in filter_chips(regions.soulseek_filter, false).labels {
        rendered.push_str(&label);
    }
    for line in &page.lines {
        rendered.push_str(&line.label);
    }
    for expected in
        ["Soulseek", "Search:", "FLAC", "radiohead", "alice", "album", "track.flac"]
    {
        assert!(rendered.contains(expected), "missing {expected:?} from Soulseek tab");
    }
    assert!(page.lines[0].heading);
    assert!(!page.lines[1].heading);
    assert!(page.query_focused);
    assert!(regions.soulseek_query.width > 0);
    assert!(regions.soulseek_filter.y > regions.soulseek_query.y);
    assert!(regions.playlist.y > regions.soulseek_filter.y);
    assert_eq!(regions.soulseek_formats.len(), 6);
    assert_eq!(regions.equalizer, Rect::none());
}

#[test]
fn who_signs_in_sees_no_filters() {
    let mut app = open();
    app.panes.soulseek_open = true;
    let regions = arrange(&app, Rect::new(0, 0, 70, 20), VOLUME.into()).regions;
    assert_eq!(regions.soulseek_filter, Rect::none());
    assert_eq!(regions.soulseek_query, Rect::new(24, 5, 46, 3));
    assert_eq!(regions.playlist, Rect::new(24, 8, 46, 11));
    let page = search_page(&app);
    assert_eq!(page.query_title, " Sign in ");
    assert_eq!(page.query, "Username: █");
}

#[test]
fn the_library_page_shows_marks_and_headings() {
    let mut app = open();
    let page = album_page(&app);
    assert_eq!(page.title, " Album List ");
    assert_eq!(page.selected, Some(0));
    assert_eq!(page.lines[0].tone, LineTone::Heading);
    let last = page.lines.len() - 1;
    assert_eq!(page.lines[last].tone, LineTone::Plain);
    app.lists.album_marked.insert(last);
    assert_eq!(album_page(&app).lines[last].tone, LineTone::Marked);
    app.lists.album_filter = "zzz".into();
    assert_eq!(album_page(&app).title, " Album List  [0] ");
    assert_eq!(album_page(&app).selected, None);
}

#[test]
fn the_playlist_page_follows_the_cursor() {
    let mut app = open();
    let wide = Rect::new(0, 0, 90, 20);
    let page = playlist_page(&app, wide);
    assert!(!page.compact);
    assert_eq!(page.headings.len(), 7);
    assert_eq!(page.rows.len(), 1);
    assert_eq!(page.selected, Some(0));
    app.lists.playlist_filter = "zzz".into();
    let page = playlist_page(&app, Rect::new(0, 0, 89, 20));
    assert!(page.compact);
    assert!(page.rows.is_empty());
    assert_eq!(page.selected, None);
    assert_eq!(queue_page(&app, wide).selected, None);
    app.transport.queue.push(1);
    let page = queue_page(&app, wide);
    assert_eq!(page.title, " Playback Queue  (1) ");
    assert_eq!(page.rows[0].cells[3], "Song");
    assert_eq!(page.selected, Some(0));
}

#[test]
fn the_preferences_page_lists_every_row() {
    let page = settings_page(&open(), "+3.0 dB");
    assert_eq!(page.lines.len(), 11);
    assert_eq!(page.lines[0].text, "Playback");
    assert_eq!(page.lines[0].tone, LineTone::Heading);
    assert!(page.lines[3].text.ends_with(" +3.0 dB"));
}

fn popup(app: &App<SilentEngine>, addresses: &Vec<String>) -> Option<Panel> {
    let area = Rect::new(0, 0, 110, 30);
    let regions = arrange(app, area, VOLUME.into()).regions;
    panel(app, area, &regions, addresses)
}

#[test]
fn popups_show_what_lies_over_the_screen() {
    let none = Vec::new();
    let mut app = open();
    assert!(popup(&app, &none).is_none());
    app.front.overlay = Overlay::Menu { menu: 1, selected: 2 };
    let shown = popup(&app, &none).unwrap();
    assert_eq!(shown.area, Rect::new(6, 1, 28, 8));
    assert!(matches!(shown.body, PanelBody::Choices { labels, selected: 2 } if labels.len() == 6));
    app.front.overlay = Overlay::Menu { menu: 0, selected: 0 };
    assert_eq!(popup(&app, &none).unwrap().area, Rect::new(0, 1, 28, 7));
    app.front.overlay = Overlay::Rename { playlist_id: 1, text: "Mix".into() };
    let shown = popup(&app, &none).unwrap();
    assert_eq!(shown.title, " Rename playlist ");
    assert_eq!(shown.area, Rect::new(31, 12, 48, 5));
    assert!(
        matches!(shown.body, PanelBody::Page(text) if text == "Mix█\n\nEnter: save    Esc: cancel")
    );
    app.front.overlay = Overlay::Pair { text: "12".into() };
    assert!(matches!(
        popup(&app, &none).unwrap().body,
        PanelBody::Page(text) if text.starts_with("Enter the 6-digit code") && text.contains("12█")
    ));
    app.front.overlay = Overlay::Properties { title: "T".into(), body: "B".into() };
    assert!(matches!(popup(&app, &none).unwrap().body, PanelBody::Page(text) if text == "B"));
    app.front.overlay = Overlay::Help(HelpView::default());
    match popup(&app, &none).unwrap().body {
        PanelBody::Choices { labels, selected } => {
            assert_eq!(selected, 0);
            assert!(labels[0].starts_with("▾ "));
            assert!(labels.iter().any(|label| label.starts_with("▸ ")));
            assert!(labels[1].starts_with("  "));
        }
        other => panic!("unexpected {other:?}"),
    }
}

#[test]
fn found_servers_are_listed_with_their_addresses() {
    let mut app = open();
    app.front.overlay = Overlay::Connect { text: "pi".into(), discovered: Vec::new() };
    assert!(matches!(
        popup(&app, &Vec::new()).unwrap().body,
        PanelBody::Page(text) if text
            == "Host:port (Enter to connect, Esc to cancel)\nSearching the LAN…\n\npi█"
    ));
    let server = DiscoveredServer {
        name: "Pi".into(),
        address: SocketAddr { ip: IpAddr::V4(1), port: 1744, flowinfo: 0, scope_id: 0 },
    };
    app.front.overlay = Overlay::Connect { text: String::new(), discovered: vec![server] };
    assert!(matches!(
        popup(&app, &vec!["0.0.0.1:1744".into()]).unwrap().body,
        PanelBody::Page(text) if text.contains("Found on the LAN:\n  Pi  0.0.0.1:1744\nLeave")
    ));
}

#[test]
fn pickers_and_context_menus_stay_on_the_screen() {
    let mut app = open();
    let entries = vec![
        PickerEntry { path: "/m/b.flac".into(), is_dir: false },
        PickerEntry { path: "/m/sub".into(), is_dir: true },
    ];
    app.front.overlay =
        Overlay::PathPicker(PathPicker::new(PickerMode::Files, "/m".into(), entries));
    let shown = popup(&app, &Vec::new()).unwrap();
    assert_eq!(shown.area, Rect::new(12, 3, 86, 24));
    assert_eq!(shown.title, " Add file ");
    match shown.body {
        PanelBody::Picker { places, directory, labels, row, keys } => {
            assert_eq!(places.head, Rect::new(13, 4, 84, 2));
            assert_eq!(places.list, Rect::new(13, 6, 84, 18));
            assert_eq!(places.foot, Rect::new(13, 24, 84, 2));
            assert_eq!(directory, "/m");
            assert_eq!(labels, vec!["▸ /", "▸ sub", "  b.flac"]);
            assert_eq!(row, Some(0));
            assert_eq!(keys, "Enter: open directory or add file   Esc: cancel");
        }
        other => panic!("unexpected {other:?}"),
    }
    app.front.overlay = Overlay::ContextMenu {
        selected: 0,
        items: vec![("Play".into(), Action::TogglePlay), ("Remove".into(), Action::Stop)],
        at: Some((109, 29)),
    };
    let shown = popup(&app, &Vec::new()).unwrap();
    assert_eq!(shown.area, Rect::new(102, 26, 8, 4));
    assert_eq!(shown.title, " Actions ");
}

#[test]
fn menus_stand_side_by_side() {
    assert_eq!(menu_labels(), vec!["File", "Edit", "View", "Playback", "Library", "Help"]);
    let rects = menu_rects(Rect::new(0, 0, 70, 1));
    for (rect, label) in rects.iter().zip(menu_labels()) {
        assert_eq!(rect.width, label.len() as u16 + 2);
    }
    assert_eq!(rects[3], Rect::new(18, 0, 10, 1));
}

#[test]
fn the_chips_leave_room_for_the_switch() {
    let chips = filter_chips(Rect::new(24, 5, 60, 3), true);
    assert_eq!(chips.formats.len(), 6);
    assert_eq!(chips.labels[1], " FLAC ");
    assert_eq!(chips.formats[1], Rect::new(30, 6, 6, 1));
    assert_eq!(chips.slots, " Slots: free ");
    assert_eq!(chips.slots_rect, Rect::new(70, 6, 13, 1));
    assert_eq!(filter_chips(Rect::new(24, 5, 30, 3), false).slots_rect, Rect::none());
}

#[test]
fn rows_of_the_library_are_indented() {
    let entry = |depth: u8, track_id: Option<i64>| AlbumEntry {
        depth,
        label: "x".into(),
        track_id,
        track_ids: Vec::new(),
        unavailable: depth == 2,
    };
    assert_eq!(album_row_text(&entry(0, None)), "▾ x");
    assert_eq!(album_row_text(&entry(1, None)), "  ▾ x");
    assert_eq!(album_row_text(&entry(2, Some(1))), "        x [unplayable]");
}

#[test]
fn rows_of_a_playlist_show_the_track() {
    let mut app = open();
    let row = playlist_row(&app, 0, 1, false);
    assert_eq!(row.cells, vec!["", "1", "Band", "Song", "Disc", "1999", "1:05"]);
    assert_eq!(row.tone, RowTone::Plain);
    assert_eq!(playlist_row(&app, 0, 1, true).cells.len(), 5);
    assert_eq!(playlist_row(&app, 0, 9, true).cells[2], "Missing track");
    assert_eq!(playlist_row(&app, 0, 9, true).tone, RowTone::Wrong);
    app.play_at(0, 0).unwrap();
    app.tick();
    assert_eq!(playlist_row(&app, 0, 1, true).cells[0], "▶");
    app.lists.playlist_marked.insert(1);
    assert_eq!(playlist_row(&app, 3, 1, true).tone, RowTone::Marked);
}

#[test]
fn headings_show_the_order() {
    let sort = Some((PlaylistColumn::Artist, false));
    assert_eq!(heading_text(Some(PlaylistColumn::Artist), sort), "Artist↓");
    assert_eq!(heading_text(Some(PlaylistColumn::Title), sort), "Title");
    assert_eq!(heading_text(None, sort), "");
    let mut app = open();
    assert_eq!(playlist_title(&app), " Playlist View ");
    app.lists.playlist_filter = "song".into();
    assert_eq!(playlist_title(&app), " Playlist View  [1] ");
    app.lists.playlist_sort = Some((PlaylistColumn::Title, true));
    assert_eq!(playlist_title(&app), " Playlist View  ·  Title ↑ ");
}

#[test]
fn preferences_line_up() {
    let row = setting_row_text("Album art", "On");
    assert_eq!(row, format!("  Album art{} On", " ".repeat(19)));
}

#[test]
fn the_status_line_tells_the_most_urgent() {
    let mut app = open();
    assert_eq!(status_left(&app), ("Ready".to_owned(), StatusTone::Plain));
    app.front.audio_error = Some("no card".into());
    assert_eq!(
        status_left(&app).0,
        "Audio unavailable: no card — Playback > Retry Audio"
    );
    app.front.scan_progress = Some((1, 3));
    assert_eq!(status_left(&app), ("Scanning 1/3 — Ready".to_owned(), StatusTone::Scanning));
    app.soulseek.downloads_active = 2;
    app.soulseek.ui.status = "track.flac  50%  100 KB/s".into();
    assert_eq!(
        status_left(&app),
        (
            "track.flac  50%  100 KB/s · 2 downloads".to_owned(),
            StatusTone::Downloading
        )
    );
}

#[test]
fn the_right_end_tells_what_plays() {
    let mut app = open();
    assert_eq!(status_right(&app, None), "1 items");
    app.play_at(0, 0).unwrap();
    app.tick();
    app.transport.queue.push(1);
    app.transport.stop_after_current = true;
    assert_eq!(
        status_right(&app, Some("RG +1.0 dB")),
        "Q:1 | SAC | RG +1.0 dB | FLAC | 44100 Hz | ? ch | 1:05"
    );
    let marks = status_marks(&app, Some("RG +1.0 dB"));
    let joined: String = marks.iter().map(|(text, _)| text.as_str()).collect();
    assert_eq!(joined, status_right(&app, Some("RG +1.0 dB")));
    assert_eq!(marks[0], ("Q:1".to_owned(), MarkTone::Queue));
    assert_eq!(marks[2].1, MarkTone::Stop);
    assert_eq!(marks[4].1, MarkTone::Gain);
    assert_eq!(status_right_place(Rect::new(0, 29, 70, 1), "1 items"), Rect::new(62, 29, 8, 1));
}

#[test]
fn long_status_lines_are_cut_off() {
    assert_eq!(fit_status("abcdef".into(), 10, "xxx", false), "abcd…");
    assert_eq!(fit_status("abcde".into(), 10, "xxx", false), "abcde");
    assert_eq!(fit_status("abcdef".into(), 10, "xxx", true), "ab…");
    assert_eq!(fit_status("abc".into(), 2, "xxx", false), "…");
}

#[test]
fn hints_stand_in_for_results() {
    let app = open();
    assert!(results_hint(&app).starts_with("Sign in with your Soulseek account."));
}

#[test]
fn a_context_menu_opens_at_the_click_or_the_row() {
    let list = Rect::new(10, 5, 30, 10);
    assert_eq!(context_menu_origin(Some((3, 4)), list, 9, 2), (3, 4));
    assert_eq!(context_menu_origin(None, list, 9, 2), (12, 14));
}
