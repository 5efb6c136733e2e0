//! What keys and clicks are for.

use vstd::prelude::*;

use crate::action::Action;
use crate::app::browse::lemma_visible;
use crate::app::cursor::control;
use crate::app::deal::place_or;
use crate::app::state::AppView;
use crate::input::{
    bar_click, event_action, heading_from, hit_from, EventView, KeyCode, KeyInput, KeyKind, LastClick,
    Modifiers, MouseInput, MouseKind,
};
use crate::layout::{Rect, UiRegions};
use crate::model::{Focus, PlaylistColumn, TrackId};
use crate::overlay::OverlayView;
use crate::soulseek::SoulseekPhase;
use crate::time::Duration;

verus! {

/// What a key asks for.
pub open spec fn pressed(app: AppView, code: KeyCode, modifiers: Modifiers) -> Action {
    app.key_action(KeyInput { code, modifiers, kind: KeyKind::Press })
}

/// Whether the bare screen takes the keys: nothing lies over it and no text is typed.
pub open spec fn is_bare(app: AppView) -> bool {
    &&& app.front.overlay is Closed
    &&& !app.panes.soulseek_open
    &&& app.lists.focus != Focus::AlbumFilter
    &&& app.lists.focus != Focus::PlaylistFilter
}

/// The nearest number between two bounds.
pub open spec fn within(n: int, lo: int, hi: int) -> int {
    if n < lo {
        lo
    } else if n > hi {
        hi
    } else {
        n
    }
}

/// Whether nothing but the cursors and marks of the lists is different.
pub open spec fn only_lists_differ(app: AppView, post: AppView) -> bool {
    post == AppView { lists: post.lists, ..app }
}

/// Keys count when they are pressed and while they are held, not when they are let go.
pub proof fn law_keys_count_when_they_go_down(
    app: AppView,
    regions: &UiRegions,
    key: KeyInput,
    last: LastClick,
    now: Duration,
)
    ensures
        key.kind != KeyKind::Release ==> event_action(
            app,
            regions,
            EventView::Key(key),
            last,
            now,
        ) == pressed(app, key.code, key.modifiers),
        key.kind == KeyKind::Release ==> event_action(
            app,
            regions,
            EventView::Key(key),
            last,
            now,
        ) == Action::Nothing,
{
}

/// The arrows move the cursor by a row and the page keys by a page, up or down; with the shift key
/// the arrows draw out the marked range, and with the alt key they move the items.
pub proof fn law_arrows_move_the_cursor(app: AppView, modifiers: Modifiers)
    requires
        is_bare(app),
    ensures
        modifiers.alt ==> pressed(app, KeyCode::Up, modifiers) == Action::MovePlaylistItems(
            -1i32,
        ) && pressed(app, KeyCode::Down, modifiers) == Action::MovePlaylistItems(1),
        modifiers.shift && !modifiers.alt ==> pressed(app, KeyCode::Up, modifiers)
            == Action::ExtendSelection(-1i32) && pressed(app, KeyCode::Down, modifiers)
            == Action::ExtendSelection(1),
        !modifiers.shift && !modifiers.alt ==> pressed(app, KeyCode::Up, modifiers)
            == Action::MoveSelection(-1i32) && pressed(app, KeyCode::Down, modifiers)
            == Action::MoveSelection(1),
        pressed(app, KeyCode::PageUp, modifiers) == Action::PageSelection(-1i32),
        pressed(app, KeyCode::PageDown, modifiers) == Action::PageSelection(1),
{
}

/// In the library the cursor moves as many rows as it is told to, as far as the list goes. The
/// row that it comes to is the one that is marked, and where the next range begins.
pub proof fn law_the_cursor_moves_in_the_library(app: AppView, delta: int)
    requires
        app.lists.focus == Focus::AlbumList,
        0 <= app.lists.album_selection < app.album_rows().len(),
    ensures
        ({
            let post = app.cursor_moved(delta);
            let at = post.lists.album_selection;
            &&& only_lists_differ(app, post)
            &&& at == within(app.lists.album_selection + delta, 0, app.album_rows().len() - 1)
            &&& post.lists.album_marked == Set::<usize>::empty().insert(at as usize)
            &&& post.lists.album_anchor == at
            &&& post.lists.playlist_selection == app.lists.playlist_selection
            &&& post.lists.playlist_marked == app.lists.playlist_marked
        }),
{
}

/// In the queue the cursor moves in the same way, and in the Soulseek results too, where a step
/// above the first row leaves them.
pub proof fn law_the_cursor_moves_in_the_other_lists(app: AppView, delta: int)
    ensures
        app.lists.focus == Focus::Queue && 0 <= app.transport.queue_selection
            < app.transport.queue.len() ==> {
            let post = app.cursor_moved(delta);
            &&& post.transport.queue_selection == within(
                app.transport.queue_selection + delta,
                0,
                app.transport.queue.len() - 1,
            )
            &&& post.transport.queue == app.transport.queue
            &&& post.lists == app.lists
            &&& post.shelf == app.shelf
        },
        app.lists.focus == Focus::Playlist && app.panes.soulseek_open && 0
            <= app.soulseek.ui.selected < app.soulseek.ui.rows().len() ==> {
            let post = app.cursor_moved(delta);
            let at = app.soulseek.ui.selected + delta;
            &&& post.soulseek.ui.hits == app.soulseek.ui.hits
            &&& at >= 0 ==> post.lists == app.lists && post.soulseek.ui.selected == within(
                at,
                0,
                app.soulseek.ui.rows().len() - 1,
            )
            &&& at < 0 ==> post.lists.focus == Focus::SoulseekFilter || post.lists.focus
                == Focus::SoulseekQuery
        },
{
}

proof fn lemma_place(s: Seq<usize>, k: int, or: int, from: int)
    requires
        0 <= from <= k < s.len(),
        forall|i: int, j: int| 0 <= i < j < s.len() ==> s[i] < s[j],
    ensures
        place_or(s, s[k], or, from) == k,
    decreases k - from,
{
    if from < k {
        assert(s[from] < s[k]);
        lemma_place(s, k, or, from + 1);
    }
}

/// In the playlist the cursor goes over the items that are shown. The item that it comes to is the
/// one that is marked.
pub proof fn law_the_cursor_moves_in_the_playlist(app: AppView, k: int, delta: int)
    requires
        app.lists.focus == Focus::Playlist,
        !app.panes.soulseek_open,
        app.shelf.active().items.len() <= usize::MAX,
        0 <= k < app.visible_items().len(),
        app.visible_items()[k] == app.lists.playlist_selection,
    ensures
        ({
            let shown = app.visible_items();
            let post = app.cursor_moved(delta);
            let at = post.lists.playlist_selection;
            &&& only_lists_differ(app, post)
            &&& at == shown[within(k + delta, 0, shown.len() - 1)]
            &&& 0 <= at < app.shelf.active().items.len() ==> post.lists.playlist_marked == Set::<
                TrackId,
            >::empty().insert(app.shelf.active().items[at])
            &&& post.lists.playlist_anchor == at
            &&& post.lists.album_selection == app.lists.album_selection
            &&& post.lists.album_marked == app.lists.album_marked
        }),
{
    lemma_visible(app.shelf, app.lists.playlist_filter);
    lemma_place(app.visible_items(), k, 0, 0);
}

/// A range of the library is drawn out from where it began: all rows from there to the cursor are
/// marked, and no others.
pub proof fn law_ranges_of_rows_are_drawn_out(app: AppView, delta: int)
    requires
        app.lists.focus == Focus::AlbumList,
        0 <= app.lists.album_selection < app.album_rows().len(),
    ensures
        ({
            let post = app.selection_extended(delta);
            let at = post.lists.album_selection;
            let from = app.lists.album_anchor;
            &&& only_lists_differ(app, post)
            &&& at == within(app.lists.album_selection + delta, 0, app.album_rows().len() - 1)
            &&& post.lists.album_anchor == from
            &&& forall|r: usize| #[trigger]
                post.lists.album_marked.contains(r) <==> (from <= r <= at || at <= r <= from)
        }),
{
}

/// Whether an item that is shown between two places has this identifier.
pub open spec fn shown_between(app: AppView, a: int, b: int, id: TrackId) -> bool {
    exists|k: int|
        0 <= k < app.visible_items().len() && (a <= k <= b || b <= k <= a)
            && app.shelf.active_item(#[trigger] app.visible_items()[k] as int) == Some(id)
}

/// The same in the playlist: the items that are shown from where the range began to the cursor are
/// marked, and no others.
pub proof fn law_ranges_of_items_are_drawn_out(
    app: AppView,
    k: int,
    from: int,
    delta: int,
)
    requires
        app.lists.focus == Focus::Playlist,
        !app.panes.soulseek_open,
        !app.panes.queue_open,
        app.shelf.active().items.len() <= usize::MAX,
        0 <= k < app.visible_items().len(),
        app.visible_items()[k] == app.lists.playlist_selection,
        0 <= from < app.visible_items().len(),
        app.visible_items()[from] == app.lists.playlist_anchor,
    ensures
        ({
            let shown = app.visible_items();
            let to = within(k + delta, 0, shown.len() - 1);
            let post = app.selection_extended(delta);
            &&& only_lists_differ(app, post)
            &&& post.lists.playlist_selection == shown[to]
            &&& post.lists.playlist_anchor == app.lists.playlist_anchor
            &&& forall|id: TrackId| #[trigger]
                post.lists.playlist_marked.contains(id) <==> shown_between(app, from, to, id)
        }),
{
    let shown = app.visible_items();
    let to = within(k + delta, 0, shown.len() - 1);
    lemma_visible(app.shelf, app.lists.playlist_filter);
    lemma_place(shown, k, 0, 0);
    lemma_place(shown, from, to, 0);
}

/// Setting a mark twice leaves the marks as they were, and once changes the mark of the row or the
/// item under the cursor and of no other.
pub proof fn law_marks_are_set_and_taken_away(app: AppView)
    ensures
        app.lists.focus == Focus::AlbumList ==> {
            let row = app.lists.album_selection as usize;
            &&& only_lists_differ(app, app.mark_toggled())
            &&& forall|r: usize| #[trigger]
                app.mark_toggled().lists.album_marked.contains(r) <==> (if r == row {
                    !app.lists.album_marked.contains(r)
                } else {
                    app.lists.album_marked.contains(r)
                })
            &&& app.mark_toggled().mark_toggled().lists.album_marked =~= app.lists.album_marked
        },
        app.lists.focus == Focus::Playlist && is_bare(app) && !app.panes.queue_open && 0
            <= app.lists.playlist_selection < app.shelf.active().items.len() ==> {
            let item = app.shelf.active().items[app.lists.playlist_selection];
            &&& only_lists_differ(app, app.mark_toggled())
            &&& forall|id: TrackId| #[trigger]
                app.mark_toggled().lists.playlist_marked.contains(id) <==> (if id == item {
                    !app.lists.playlist_marked.contains(id)
                } else {
                    app.lists.playlist_marked.contains(id)
                })
            &&& app.mark_toggled().mark_toggled().lists.playlist_marked
                =~= app.lists.playlist_marked
        },
{
}

/// On the bare screen the space bar starts and pauses, the arrows to the sides seek by five
/// seconds, plus and minus change the volume by five hundredths, enter activates the selection,
/// delete takes it out, and the insert key or the space bar with the control key marks it.
pub proof fn law_keys_play_and_edit(app: AppView, modifiers: Modifiers)
    requires
        is_bare(app),
        app.lists.focus != Focus::PlaylistTabs,
        app.lists.focus != Focus::Settings,
    ensures
        pressed(app, KeyCode::Char(' '), modifiers) == if modifiers.control {
            Action::ToggleMark
        } else {
            Action::TogglePlay
        },
        pressed(app, KeyCode::Insert, modifiers) == Action::ToggleMark,
        pressed(app, KeyCode::Left, modifiers) == Action::SeekRelative(-5i64),
        pressed(app, KeyCode::Right, modifiers) == Action::SeekRelative(5),
        pressed(app, KeyCode::Char('-'), modifiers) == Action::VolumeRelative(-5i32),
        pressed(app, KeyCode::Char('+'), modifiers) == Action::VolumeRelative(5),
        pressed(app, KeyCode::Char('='), modifiers) == Action::VolumeRelative(5),
        pressed(app, KeyCode::Enter, modifiers) == Action::ActivateSelection,
        pressed(app, KeyCode::Delete, modifiers) == Action::RemoveSelection,
{
}

/// The other keys of the bare screen: quitting, filtering, adding files and folders, making and
/// closing playlists, the preferences, the help, renaming, the menus, and the next focus.
pub proof fn law_keys_open_and_close(app: AppView, modifiers: Modifiers)
    requires
        is_bare(app),
    ensures
        modifiers.control ==> {
            &&& pressed(app, KeyCode::Char('q'), modifiers) == Action::Quit
            &&& pressed(app, KeyCode::Char('f'), modifiers) == Action::BeginFilter
            &&& pressed(app, KeyCode::Char('n'), modifiers) == Action::NewPlaylist
            &&& pressed(app, KeyCode::Char('w'), modifiers) == Action::ClosePlaylist
            &&& pressed(app, KeyCode::Char(','), modifiers) == Action::OpenSettings
            &&& pressed(app, KeyCode::Char('o'), modifiers) == if modifiers.shift {
                Action::OpenFolder
            } else {
                Action::OpenFiles
            }
        },
        !modifiers.control ==> pressed(app, KeyCode::Char('q'), modifiers) == Action::Nothing,
        pressed(app, KeyCode::F(1), modifiers) == Action::ToggleHelp,
        pressed(app, KeyCode::F(2), modifiers) == Action::BeginRenamePlaylist,
        !modifiers.shift ==> pressed(app, KeyCode::F(10), modifiers) == Action::OpenMenu(0),
        pressed(app, KeyCode::Tab, modifiers) == Action::FocusNext(modifiers.shift),
        pressed(app, KeyCode::BackTab, modifiers) == Action::FocusNext(true),
{
}

/// With the focus on the tabs the arrows to the sides go round them.
pub proof fn law_arrows_go_round_the_tabs(app: AppView, modifiers: Modifiers)
    requires
        is_bare(app),
        app.lists.focus == Focus::PlaylistTabs,
        0 <= app.tab() < app.tab_total() <= usize::MAX,
    ensures
        pressed(app, KeyCode::Right, modifiers) == Action::SelectPlaylist(
            if app.tab() + 1 == app.tab_total() {
                0
            } else {
                (app.tab() + 1) as usize
            },
        ),
        pressed(app, KeyCode::Left, modifiers) == Action::SelectPlaylist(
            if app.tab() == 0 {
                (app.tab_total() - 1) as usize
            } else {
                (app.tab() - 1) as usize
            },
        ),
{
    let n = app.tab_total();
    vstd::arithmetic::div_mod::lemma_small_mod(app.tab() as nat, n as nat);
    if app.tab() + 1 < n {
        vstd::arithmetic::div_mod::lemma_small_mod((app.tab() + 1) as nat, n as nat);
    } else {
        vstd::arithmetic::div_mod::lemma_mod_self_0(n);
    }
    if app.tab() > 0 {
        vstd::arithmetic::div_mod::lemma_small_mod((app.tab() - 1) as nat, n as nat);
    } else {
        vstd::arithmetic::div_mod::lemma_mod_add_multiples_vanish(-1, n);
        vstd::arithmetic::div_mod::lemma_small_mod((n - 1) as nat, n as nat);
    }
}

/// What is typed into a filter stands at its end, a backspace takes the last character away, and
/// clearing all of them. The other filter and the library stay as they are, and control characters
/// are left out.
pub proof fn law_filters_take_what_is_typed(app: AppView, c: char)
    requires
        app.front.overlay is Closed,
        !app.panes.soulseek_open,
    ensures
        ({
            let library = app.lists.album_filter;
            let playlist = app.lists.playlist_filter;
            &&& control(c) ==> app.typed(c) == app
            &&& app.lists.focus == Focus::AlbumFilter ==> {
                &&& !control(c) ==> app.typed(c).lists.album_filter == library.push(c)
                &&& app.typed(c).lists.playlist_filter == playlist
                &&& app.typed(c).shelf == app.shelf
                &&& library.len() > 0 ==> app.backspaced().lists.album_filter
                    == library.drop_last()
                &&& app.backspaced().lists.playlist_filter == playlist
                &&& app.filter_cleared().lists.album_filter.len() == 0
                &&& app.filter_cleared().lists.playlist_filter == playlist
                &&& app.filter_cleared().lists.focus == Focus::AlbumList
            }
            &&& app.lists.focus == Focus::PlaylistFilter ==> {
                &&& !control(c) ==> app.typed(c).lists.playlist_filter == playlist.push(c)
                &&& app.typed(c).lists.album_filter == library
                &&& app.typed(c).shelf == app.shelf
                &&& playlist.len() > 0 ==> app.backspaced().lists.playlist_filter
                    == playlist.drop_last()
                &&& app.backspaced().lists.album_filter == library
                &&& app.filter_cleared().lists.playlist_filter.len() == 0
                &&& app.filter_cleared().lists.album_filter == library
                &&& app.filter_cleared().lists.focus == Focus::Playlist
            }
        }),
{
}

/// What is typed while a playlist is renamed, a server is named or a code is entered goes into that
/// text, and into nothing else.
pub proof fn law_overlays_take_what_is_typed(app: AppView, text: Seq<char>, c: char)
    requires
        app.front.overlay.text() == Some(text),
        app.lists.focus != Focus::AlbumFilter,
        app.lists.focus != Focus::PlaylistFilter,
    ensures
        !control(c) ==> app.typed(c).front.overlay.text() == Some(text.push(c)),
        app.typed(c).lists == app.lists,
        app.typed(c).shelf == app.shelf,
        text.len() > 0 ==> app.backspaced().front.overlay.text() == Some(text.drop_last()),
        app.backspaced().lists == app.lists,
        forall|modifiers: Modifiers| #[trigger]
            pressed(app, KeyCode::Char(c), modifiers) == Action::TextInput(c),
        forall|modifiers: Modifiers| #[trigger]
            pressed(app, KeyCode::Backspace, modifiers) == Action::TextBackspace,
{
}

/// In the Soulseek tab what is typed goes into the name, the password or the query, whichever is
/// being asked for.
pub proof fn law_prompts_take_what_is_typed(app: AppView, c: char)
    requires
        app.front.overlay is Closed,
        app.panes.soulseek_open,
        app.lists.focus == Focus::SoulseekQuery,
        !control(c),
    ensures
        ({
            let before = app.soulseek.ui;
            let after = app.typed(c).soulseek.ui;
            &&& before.phase == SoulseekPhase::Username ==> after.username
                == before.username.push(c) && after.password == before.password && after.query
                == before.query
            &&& before.phase == SoulseekPhase::Password ==> after.password
                == before.password.push(c) && after.username == before.username && after.query
                == before.query
            &&& before.phase == SoulseekPhase::Ready ==> after.query == before.query.push(c)
                && after.username == before.username && after.password == before.password
            &&& after.phase == before.phase
            &&& after.hits == before.hits
        }),
{
}

/// In a menu the arrows to the sides go round the menus, and those up and down round the entries.
pub proof fn law_arrows_go_round_the_menus(app: AppView, menu: int, modifiers: Modifiers)
    requires
        app.front.overlay matches OverlayView::Menu { menu: m, .. } && m == menu,
        0 <= menu < 6,
    ensures
        pressed(app, KeyCode::Right, modifiers) == Action::OpenMenu(
            if menu == 5 {
                0
            } else {
                (menu + 1) as usize
            },
        ),
        pressed(app, KeyCode::Left, modifiers) == Action::OpenMenu(
            if menu == 0 {
                5
            } else {
                (menu - 1) as usize
            },
        ),
        pressed(app, KeyCode::Down, modifiers) == Action::OverlayMove(1),
        pressed(app, KeyCode::Up, modifiers) == Action::OverlayMove(-1i32),
        pressed(app, KeyCode::Enter, modifiers) == Action::OverlayActivate,
{
}

/// Whether none of these rectangles holds a cell.
pub open spec fn in_none(rects: Seq<Rect>, point: (u16, u16)) -> bool {
    forall|i: int| 0 <= i < rects.len() ==> !(#[trigger] rects[i]).has(point)
}

/// Whether one of these rectangles holds a cell, and no other does.
pub open spec fn in_one(rects: Seq<Rect>, index: int, point: (u16, u16)) -> bool {
    &&& 0 <= index < rects.len()
    &&& rects[index].has(point)
    &&& forall|i: int| 0 <= i < rects.len() && i != index ==> !(#[trigger] rects[i]).has(point)
}

/// The buttons and bars of the toolbar.
pub open spec fn controls(regions: &UiRegions) -> Seq<Rect> {
    seq![
        regions.previous,
        regions.play_pause,
        regions.stop,
        regions.next,
        regions.order,
        regions.seek,
        regions.volume,
    ]
}

proof fn lemma_hits_none(rects: Seq<Rect>, point: (u16, u16), from: int)
    requires
        in_none(rects, point),
        0 <= from,
    ensures
        hit_from(rects, point, from) is None,
    decreases rects.len() - from,
{
    if from < rects.len() {
        lemma_hits_none(rects, point, from + 1);
    }
}

proof fn lemma_hits_one(rects: Seq<Rect>, index: int, point: (u16, u16), from: int)
    requires
        in_one(rects, index, point),
        0 <= from <= index,
    ensures
        hit_from(rects, point, from) == Some(index),
    decreases index - from,
{
    if from < index {
        lemma_hits_one(rects, index, point, from + 1);
    }
}

/// What a click with the left button on a cell asks for.
pub open spec fn clicked(
    app: AppView,
    regions: &UiRegions,
    mouse: MouseInput,
    last: LastClick,
    now: Duration,
) -> Action {
    event_action(app, regions, EventView::Mouse(mouse), last, now)
}

/// A click on a button or a bar of the toolbar does what is drawn there, a click on a tab selects
/// it, and one on the title of a menu opens that menu.
pub proof fn law_clicks_work_the_toolbar(
    app: AppView,
    regions: &UiRegions,
    mouse: MouseInput,
    last: LastClick,
    now: Duration,
    index: int,
)
    requires
        app.front.overlay is Closed,
        mouse.kind == MouseKind::LeftDown,
        regions.menu@.len() <= usize::MAX,
        regions.tabs@.len() <= usize::MAX,
    ensures
        ({
            let point = (mouse.column, mouse.row);
            let action = clicked(app, regions, mouse, last, now);
            let on = |i: int| in_none(regions.menu@, point) && in_one(controls(regions), i, point);
            &&& on(0) ==> action == Action::Previous
            &&& on(1) ==> action == Action::TogglePlay
            &&& on(2) ==> action == Action::Stop
            &&& on(3) ==> action == Action::Next
            &&& on(4) ==> action == Action::CyclePlaybackOrder
            &&& on(5) ==> action == (Action::SeekFraction {
                at: (mouse.column - regions.seek.x) as u16,
                of: regions.seek.width,
            })
            &&& on(6) ==> action == (Action::SetVolume {
                at: (mouse.column - regions.volume.x) as u16,
                of: regions.volume.width,
            })
            &&& in_none(regions.menu@, point) && in_none(controls(regions), point) && in_one(
                regions.tabs@,
                index,
                point,
            ) ==> action == Action::SelectPlaylist(index as usize)
            &&& in_one(regions.menu@, index, point) ==> action == Action::OpenMenu(index as usize)
        }),
{
    let point = (mouse.column, mouse.row);
    let all = controls(regions);
    assert(all[0] == regions.previous && all[1] == regions.play_pause && all[2] == regions.stop
        && all[3] == regions.next && all[4] == regions.order && all[5] == regions.seek && all[6]
        == regions.volume);
    if in_none(regions.menu@, point) {
        lemma_hits_none(regions.menu@, point, 0);
        if in_one(regions.tabs@, index, point) {
            lemma_hits_one(regions.tabs@, index, point, 0);
        }
    }
    if in_one(regions.menu@, index, point) {
        lemma_hits_one(regions.menu@, index, point, 0);
    }
}

/// Whether a cell is in neither the bars above nor the headings and filters of the lists.
pub open spec fn in_the_lists(regions: &UiRegions, point: (u16, u16)) -> bool {
    &&& in_none(regions.menu@, point)
    &&& in_none(controls(regions), point)
    &&& in_none(regions.tabs@, point)
    &&& !regions.album_filter.has(point)
    &&& !regions.playlist_filter.has(point)
    &&& forall|i: int|
        0 <= i < regions.playlist_headers@.len() ==> !(#[trigger] regions.playlist_headers@[i]).1.has(
            point,
        )
}

proof fn lemma_no_heading(headers: Seq<(PlaylistColumn, Rect)>, point: (u16, u16), from: int)
    requires
        0 <= from,
        forall|i: int| 0 <= i < headers.len() ==> !(#[trigger] headers[i]).1.has(point),
    ensures
        heading_from(headers, point, from) is None,
    decreases headers.len() - from,
{
    if from < headers.len() {
        lemma_no_heading(headers, point, from + 1);
    }
}

proof fn lemma_lists(regions: &UiRegions, point: (u16, u16))
    requires
        in_the_lists(regions, point),
    ensures
        bar_click(regions, point) is None,
        heading_from(regions.playlist_headers@, point, 0) is None,
{
    let all = controls(regions);
    assert(all[0] == regions.previous && all[1] == regions.play_pause && all[2] == regions.stop
        && all[3] == regions.next && all[4] == regions.order && all[5] == regions.seek && all[6]
        == regions.volume);
    lemma_hits_none(regions.menu@, point, 0);
    lemma_hits_none(regions.tabs@, point, 0);
    lemma_no_heading(regions.playlist_headers@, point, 0);
}

/// A click on a row of the library brings the cursor to the row that is shown there: below the
/// frame the rows follow one another, beginning with the first that is shown.
pub proof fn law_clicks_select_rows_of_the_library(
    app: AppView,
    regions: &UiRegions,
    mouse: MouseInput,
    last: LastClick,
    now: Duration,
    line: int,
)
    requires
        app.front.overlay is Closed,
        !app.panes.soulseek_open,
        mouse.kind == MouseKind::LeftDown,
        !mouse.modifiers.shift,
        regions.wf(),
        in_the_lists(regions, (mouse.column, mouse.row)),
        regions.album.has((mouse.column, mouse.row)),
        0 <= line,
        mouse.row == regions.album.y + 1 + line,
        regions.album_offset + line < app.album_rows().len() <= usize::MAX,
    ensures
        ({
            let row = regions.album_offset + line;
            let post = app.album_row_selected(row);
            &&& clicked(app, regions, mouse, last, now) == Action::SelectAlbumRow(row as usize)
            &&& post.lists.album_selection == row
            &&& post.lists.focus == Focus::AlbumList
            &&& post.lists.album_marked == Set::<usize>::empty().insert(row as usize)
            &&& only_lists_differ(app, post)
        }),
{
    lemma_lists(regions, (mouse.column, mouse.row));
}

/// A click on a row of the playlist brings the cursor to the item that is shown there, and marks
/// it; the headings are above the first row.
pub proof fn law_clicks_select_items_of_the_playlist(
    app: AppView,
    regions: &UiRegions,
    mouse: MouseInput,
    now: Duration,
    line: int,
)
    requires
        is_bare(app),
        !app.panes.queue_open,
        !app.panes.settings_open,
        mouse.kind == MouseKind::LeftDown,
        !mouse.modifiers.shift,
        !mouse.modifiers.control,
        regions.wf(),
        in_the_lists(regions, (mouse.column, mouse.row)),
        !regions.album.has((mouse.column, mouse.row)),
        regions.playlist.has((mouse.column, mouse.row)),
        0 <= line,
        mouse.row == regions.playlist.y + 2 + line,
        regions.playlist_offset + line < app.visible_items().len() <= usize::MAX,
    ensures
        ({
            let row = regions.playlist_offset + line;
            let post = app.row_selected(row);
            &&& clicked(app, regions, mouse, None, now) == Action::SelectPlaylistRow(row as usize)
            &&& post.lists.playlist_selection == app.visible_items()[row]
            &&& post.lists.focus == Focus::Playlist
            &&& only_lists_differ(app, post)
        }),
{
    lemma_lists(regions, (mouse.column, mouse.row));
}

/// A click on the heading of a column sorts the playlist by it.
pub proof fn law_clicks_on_headings_sort(
    app: AppView,
    regions: &UiRegions,
    mouse: MouseInput,
    last: LastClick,
    now: Duration,
    index: int,
)
    requires
        app.front.overlay is Closed,
        mouse.kind == MouseKind::LeftDown,
        in_none(regions.menu@, (mouse.column, mouse.row)),
        in_none(controls(regions), (mouse.column, mouse.row)),
        in_none(regions.tabs@, (mouse.column, mouse.row)),
        !regions.album_filter.has((mouse.column, mouse.row)),
        !regions.playlist_filter.has((mouse.column, mouse.row)),
        0 <= index < regions.playlist_headers@.len(),
        regions.playlist_headers@[index].1.has((mouse.column, mouse.row)),
        forall|i: int|
            0 <= i < regions.playlist_headers@.len() && i != index
                ==> !(#[trigger] regions.playlist_headers@[i]).1.has((mouse.column, mouse.row)),
    ensures
        clicked(app, regions, mouse, last, now) == Action::SortPlaylist(
            regions.playlist_headers@[index].0,
        ),
{
    let point = (mouse.column, mouse.row);
    let all = controls(regions);
    assert(all[0] == regions.previous && all[1] == regions.play_pause && all[2] == regions.stop
        && all[3] == regions.next && all[4] == regions.order && all[5] == regions.seek && all[6]
        == regions.volume);
    lemma_hits_none(regions.menu@, point, 0);
    lemma_hits_none(regions.tabs@, point, 0);
    lemma_heading(regions.playlist_headers@, index, point, 0);
}

proof fn lemma_heading(
    headers: Seq<(PlaylistColumn, Rect)>,
    index: int,
    point: (u16, u16),
    from: int,
)
    requires
        0 <= from <= index < headers.len(),
        headers[index].1.has(point),
        forall|i: int| 0 <= i < headers.len() && i != index ==> !(#[trigger] headers[i]).1.has(
            point,
        ),
    ensures
        heading_from(headers, point, from) == Some(headers[index].0),
    decreases index - from,
{
    if from < index {
        lemma_heading(headers, index, point, from + 1);
    }
}

/// The wheel moves the cursor by three rows.
pub proof fn law_the_wheel_moves_the_cursor(
    app: AppView,
    regions: &UiRegions,
    mouse: MouseInput,
    last: LastClick,
    now: Duration,
)
    ensures
        mouse.kind == MouseKind::ScrollDown ==> clicked(app, regions, mouse, last, now)
            == Action::MoveSelection(3),
        mouse.kind == MouseKind::ScrollUp ==> clicked(app, regions, mouse, last, now)
            == Action::MoveSelection(-3i32),
{
}

} // verus!
