//! What keys and clicks ask for.

use vstd::prelude::*;

use crate::action::Action;
use crate::app::deal::{find_or, place_or};
use crate::app::state::{App, AppView};
use crate::app::tabs::EXTRA_TABS;
use crate::audio::AudioEngine;
use crate::layout::{contains, excess, Rect, UiRegions};
use crate::model::{Focus, PlaylistColumn};
use crate::overlay::{Overlay, OverlayView, PickerMode};
use crate::soulseek::SoulseekFormat;
use crate::time::Duration;
use crate::util::clamped;

verus! {

/// A second click on the same cell within this many milliseconds is a double click.
pub const DOUBLE_CLICK_MS: u64 = 450;

#[derive(Clone, Copy, Debug, PartialEq, Eq, Structural)]
pub enum KeyCode {
    Esc,
    Enter,
    Backspace,
    Tab,
    BackTab,
    Up,
    Down,
    Left,
    Right,
    PageUp,
    PageDown,
    Insert,
    Delete,
    Menu,
    F(u8),
    Char(char),
    Other,
}

#[derive(Clone, Copy, Debug, PartialEq, Eq, Structural)]
pub struct Modifiers {
    pub control: bool,
    pub shift: bool,
    pub alt: bool,
    /// Whether any other modifier is held.
    pub other: bool,
}

#[derive(Clone, Copy, Debug, PartialEq, Eq, Structural)]
pub enum KeyKind {
    Press,
    Repeat,
    Release,
}

#[derive(Clone, Copy, Debug, PartialEq, Eq, Structural)]
pub struct KeyInput {
    pub code: KeyCode,
    pub modifiers: Modifiers,
    pub kind: KeyKind,
}

#[derive(Clone, Copy, Debug, PartialEq, Eq, Structural)]
pub enum MouseKind {
    ScrollUp,
    ScrollDown,
    LeftDown,
    RightDown,
    Other,
}

#[derive(Clone, Copy, Debug, PartialEq, Eq, Structural)]
pub struct MouseInput {
    pub kind: MouseKind,
    pub column: u16,
    pub row: u16,
    pub modifiers: Modifiers,
}

/// What the terminal reports.
#[derive(Debug, PartialEq, Eq)]
pub enum InputEvent {
    Key(KeyInput),
    Mouse(MouseInput),
    Paste(String),
    Other,
}

/// What an event says.
pub enum EventView {
    Key(KeyInput),
    Mouse(MouseInput),
    Paste(Seq<char>),
    Other,
}

impl View for InputEvent {
    type V = EventView;

    open spec fn view(&self) -> EventView {
        match self {
            InputEvent::Key(key) => EventView::Key(*key),
            InputEvent::Mouse(mouse) => EventView::Mouse(*mouse),
            InputEvent::Paste(text) => EventView::Paste(text@),
            InputEvent::Other => EventView::Other,
        }
    }
}

impl UiRegions {
    /// There is at most one chip per format, and rows can be numbered.
    pub open spec fn wf(&self) -> bool {
        &&& self.soulseek_formats@.len() <= 6
        &&& self.album_offset + u16::MAX <= usize::MAX
        &&& self.playlist_offset + u16::MAX <= usize::MAX
        &&& self.overlay_offset + u16::MAX <= usize::MAX
    }
}

/// What a key does while something lies over the screen.
pub open spec fn overlay_key(overlay: OverlayView, code: KeyCode) -> Action {
    match overlay {
        OverlayView::Help(_) => page_key(code),
        OverlayView::Properties { .. } => page_key(code),
        OverlayView::Menu { menu, .. } => match code {
            KeyCode::Left => Action::OpenMenu(((menu + 5) % 6) as usize),
            KeyCode::Right => Action::OpenMenu(((menu + 1) % 6) as usize),
            _ => menu_key(code),
        },
        OverlayView::ContextMenu { .. } => menu_key(code),
        OverlayView::PathPicker(picker) => match code {
            KeyCode::Esc => Action::CloseOverlay,
            KeyCode::Up => Action::OverlayMove((-1) as i32),
            KeyCode::Down => Action::OverlayMove(1),
            KeyCode::PageUp => Action::OverlayMove((-10) as i32),
            KeyCode::PageDown => Action::OverlayMove(10),
            KeyCode::Enter => Action::OverlayActivate,
            KeyCode::Char(c) => if (c == 'a' || c == 'A') && picker.mode == PickerMode::Folder {
                Action::PickerChooseCurrent
            } else {
                Action::Nothing
            },
            _ => Action::Nothing,
        },
        _ => match code {
            KeyCode::Esc => Action::CloseOverlay,
            KeyCode::Enter => Action::OverlayActivate,
            KeyCode::Backspace => Action::TextBackspace,
            KeyCode::Char(c) => Action::TextInput(c),
            _ => Action::Nothing,
        },
    }
}

/// What a key does over a page of text: two of them close it.
pub open spec fn page_key(code: KeyCode) -> Action {
    if code == KeyCode::Esc || code == KeyCode::F(1) {
        Action::CloseOverlay
    } else {
        Action::Nothing
    }
}

/// What a key does in a list of things to do.
pub open spec fn menu_key(code: KeyCode) -> Action {
    match code {
        KeyCode::Esc => Action::CloseOverlay,
        KeyCode::F(n) => if n == 10 {
            Action::CloseOverlay
        } else {
            Action::Nothing
        },
        KeyCode::Up => Action::OverlayMove((-1) as i32),
        KeyCode::Down => Action::OverlayMove(1),
        KeyCode::Enter => Action::OverlayActivate,
        _ => Action::Nothing,
    }
}

/// What a key does while text is typed into the screen.
pub open spec fn typing_key(code: KeyCode, modifiers: Modifiers) -> Action {
    match code {
        KeyCode::Esc => Action::ClearFilter,
        KeyCode::Enter => Action::ActivateSelection,
        KeyCode::Backspace => Action::TextBackspace,
        KeyCode::Tab => Action::FocusNext(modifiers.shift),
        KeyCode::BackTab => Action::FocusNext(true),
        KeyCode::Down => Action::MoveSelection(1),
        KeyCode::Up => Action::MoveSelection((-1) as i32),
        KeyCode::PageUp => Action::PageSelection((-1) as i32),
        KeyCode::PageDown => Action::PageSelection(1),
        KeyCode::Char(c) => if c == 'q' && modifiers.control {
            Action::Quit
        } else {
            Action::TextInput(c)
        },
        _ => Action::Nothing,
    }
}

/// What a character does where no text is typed.
pub open spec fn shortcut(c: char, modifiers: Modifiers, adjusting: bool) -> Action {
    let control = modifiers.control;
    if c == 'q' && control {
        Action::Quit
    } else if c == 'f' && control {
        Action::BeginFilter
    } else if c == 'o' && control {
        if modifiers.shift {
            Action::OpenFolder
        } else {
            Action::OpenFiles
        }
    } else if c == ',' && control {
        Action::OpenSettings
    } else if c == 'n' && control {
        Action::NewPlaylist
    } else if c == 'w' && control {
        Action::ClosePlaylist
    } else if c == ' ' {
        if control {
            Action::ToggleMark
        } else {
            Action::TogglePlay
        }
    } else if c == '-' {
        if adjusting {
            Action::SettingsAdjust((-1) as i32)
        } else {
            Action::VolumeRelative((-5) as i32)
        }
    } else if c == '+' || c == '=' {
        if adjusting {
            Action::SettingsAdjust(1)
        } else {
            Action::VolumeRelative(5)
        }
    } else {
        Action::Nothing
    }
}

/// The context menu of the row under the cursor.
pub open spec fn context_here() -> Action {
    Action::OpenListContext { row: None, x: None, y: None }
}

impl AppView {
    /// Whether the keys change preferences.
    pub open spec fn adjusting(self) -> bool {
        self.panes.settings_open && self.lists.focus == Focus::Settings
    }

    pub open spec fn tab_total(self) -> int {
        self.shelf.playlists.len() + EXTRA_TABS
    }

    /// What the arrow to the left or to the right does.
    pub open spec fn sideways(self, step: int) -> Action {
        if self.adjusting() {
            Action::SettingsAdjust(step as i32)
        } else if self.panes.soulseek_open && self.lists.focus == Focus::SoulseekFilter {
            Action::SoulseekCycleFormat(step as i32)
        } else if self.panes.soulseek_open && self.lists.focus == Focus::Playlist {
            Action::SoulseekFold(step > 0)
        } else if self.lists.focus == Focus::PlaylistTabs {
            Action::SelectPlaylist(((self.tab() + step) % self.tab_total()) as usize)
        } else {
            Action::SeekRelative((step * 5) as i64)
        }
    }

    /// What an arrow up or down does.
    pub open spec fn upright(self, step: int, modifiers: Modifiers) -> Action {
        if modifiers.alt {
            Action::MovePlaylistItems(step as i32)
        } else if modifiers.shift {
            Action::ExtendSelection(step as i32)
        } else {
            Action::MoveSelection(step as i32)
        }
    }

    /// What a key does on the bare screen.
    pub open spec fn screen_key(self, code: KeyCode, modifiers: Modifiers) -> Action {
        match code {
            KeyCode::Esc => if (self.lists.focus == Focus::AlbumList || self.lists.focus
                == Focus::Playlist) && (self.lists.album_filter.len() > 0
                || self.lists.playlist_filter.len() > 0) {
                Action::ClearFilter
            } else {
                Action::Nothing
            },
            KeyCode::Char(c) => shortcut(c, modifiers, self.adjusting()),
            KeyCode::F(n) => if n == 1 {
                Action::ToggleHelp
            } else if n == 2 {
                Action::BeginRenamePlaylist
            } else if n == 10 {
                if modifiers.shift {
                    context_here()
                } else {
                    Action::OpenMenu(0)
                }
            } else {
                Action::Nothing
            },
            KeyCode::Menu => context_here(),
            KeyCode::Tab => Action::FocusNext(modifiers.shift),
            KeyCode::BackTab => Action::FocusNext(true),
            KeyCode::Insert => Action::ToggleMark,
            KeyCode::Enter => Action::ActivateSelection,
            KeyCode::Delete => Action::RemoveSelection,
            KeyCode::Up => self.upright(-1, modifiers),
            KeyCode::Down => self.upright(1, modifiers),
            KeyCode::PageUp => Action::PageSelection((-1) as i32),
            KeyCode::PageDown => Action::PageSelection(1),
            KeyCode::Left => self.sideways(-1),
            KeyCode::Right => self.sideways(1),
            KeyCode::Backspace => Action::Nothing,
            KeyCode::Other => Action::Nothing,
        }
    }

    /// What a key does.
    pub open spec fn key_action(self, key: KeyInput) -> Action {
        if !(self.front.overlay is Closed) {
            overlay_key(self.front.overlay, key.code)
        } else if self.captures() {
            typing_key(key.code, key.modifiers)
        } else {
            self.screen_key(key.code, key.modifiers)
        }
    }
}

/// The first rectangle at or behind `from` that holds a cell.
pub open spec fn hit_from(rects: Seq<Rect>, point: (u16, u16), from: int) -> Option<int>
    decreases rects.len() - from,
{
    if from < 0 || from >= rects.len() {
        None
    } else if rects[from].has(point) {
        Some(from)
    } else {
        hit_from(rects, point, from + 1)
    }
}

/// The first rectangle that holds a cell.
pub open spec fn hit(rects: Seq<Rect>, point: (u16, u16)) -> Option<int> {
    hit_from(rects, point, 0)
}

fn hit_index(rects: &Vec<Rect>, point: (u16, u16)) -> (index: Option<usize>)
    ensures
        hit(rects@, point) == match index {
            Some(i) => Some(i as int),
            None => None,
        },
        index matches Some(i) ==> i < rects@.len(),
{
    let mut i: usize = 0;
    while i < rects.len()
        invariant
            i <= rects@.len(),
            hit(rects@, point) == hit_from(rects@, point, i as int),
        decreases rects@.len() - i,
    {
        if contains(rects[i], point) {
            return Some(i);
        }
        i = i + 1;
    }
    None
}

/// The first heading at or behind `from` that holds a cell.
pub open spec fn heading_from(
    headers: Seq<(PlaylistColumn, Rect)>,
    point: (u16, u16),
    from: int,
) -> Option<PlaylistColumn>
    decreases headers.len() - from,
{
    if from < 0 || from >= headers.len() {
        None
    } else if headers[from].1.has(point) {
        Some(headers[from].0)
    } else {
        heading_from(headers, point, from + 1)
    }
}

fn hit_heading(headers: &Vec<(PlaylistColumn, Rect)>, point: (u16, u16)) -> (column: Option<
    PlaylistColumn,
>)
    ensures
        column == heading_from(headers@, point, 0),
{
    let mut i: usize = 0;
    while i < headers.len()
        invariant
            i <= headers@.len(),
            heading_from(headers@, point, 0) == heading_from(headers@, point, i as int),
        decreases headers@.len() - i,
    {
        if contains(headers[i].1, point) {
            return Some(headers[i].0);
        }
        i = i + 1;
    }
    None
}

/// The row of a list that a cell shows: `top` rows lie above the first one.
pub open spec fn row_at(area: Rect, row: u16, top: int, offset: usize) -> int {
    excess(row as int, area.y + top) + offset
}

fn row_under(area: Rect, row: u16, top: u16, offset: usize) -> (index: usize)
    requires
        offset + u16::MAX <= usize::MAX,
    ensures
        index == row_at(area, row, top as int, offset),
{
    let first: u32 = area.y as u32 + top as u32;
    if row as u32 > first {
        (row as u32 - first) as usize + offset
    } else {
        offset
    }
}

/// How far it is from one row to another, as far as a move can go.
pub open spec fn reach(row: int, from: int) -> i32 {
    clamped(row - from, i32::MIN as int, i32::MAX as int) as i32
}

fn row_distance(row: usize, from: usize) -> (delta: i32)
    ensures
        delta == reach(row as int, from as int),
{
    let wide: i128 = row as i128 - from as i128;
    if wide < i32::MIN as i128 {
        i32::MIN
    } else if wide > i32::MAX as i128 {
        i32::MAX
    } else {
        wide as i32
    }
}

/// The last click that can be the first half of a double click, and when it came.
pub type LastClick = Option<(u16, u16, Duration)>;

/// Whether a click at this time doubles the last one.
pub open spec fn doubles(last: LastClick, column: u16, row: u16, now: Duration) -> bool {
    match last {
        Some((x, y, at)) => x == column && y == row && now.total() - at.total() <= DOUBLE_CLICK_MS
            * 1_000_000,
        None => false,
    }
}

fn is_double(last: &LastClick, column: u16, row: u16, now: Duration) -> (double: bool)
    ensures
        double == doubles(*last, column, row, now),
{
    match last {
        Some((x, y, at)) => {
            let then: i128 = at.secs as i128 * 1_000_000_000 + at.nanos as i128;
            let time: i128 = now.secs as i128 * 1_000_000_000 + now.nanos as i128;
            *x == column && *y == row && time - then <= DOUBLE_CLICK_MS as i128 * 1_000_000
        },
        None => false,
    }
}

/// A click, and whether it is the second half of a double click.
pub struct Click {
    pub point: (u16, u16),
    pub modifiers: Modifiers,
    pub double: bool,
}

/// Whether a click lands where double clicks count: in the file picker, or in the main list.
pub open spec fn counts(app: AppView, regions: &UiRegions, point: (u16, u16)) -> bool {
    match app.front.overlay {
        OverlayView::PathPicker(_) => regions.overlay matches Some(area) && area.has(point),
        OverlayView::Closed => bar_click(regions, point) is None && pane_click(
            app,
            regions,
            point,
        ) is None && !regions.album.has(point) && regions.playlist.has(point),
        _ => false,
    }
}

/// What a click on an overlay does.
pub open spec fn overlay_click(app: AppView, regions: &UiRegions, click: Click) -> Action {
    let point = click.point;
    let inside = regions.overlay matches Some(area) && area.has(point);
    let area = regions.overlay->0;
    match app.front.overlay {
        OverlayView::ContextMenu { .. } => if inside {
            Action::ActivateMenuItem(row_at(area, point.1, 1, 0) as usize)
        } else {
            Action::CloseOverlay
        },
        OverlayView::Menu { .. } => if inside {
            Action::ActivateMenuItem(row_at(area, point.1, 1, 0) as usize)
        } else {
            match hit(regions.menu@, point) {
                Some(index) => Action::OpenMenu(index as usize),
                None => Action::CloseOverlay,
            }
        },
        OverlayView::PathPicker(picker) => if inside {
            let row = row_at(area, point.1, 3, regions.overlay_offset);
            if click.double && row == picker.selected {
                Action::OverlayActivate
            } else {
                Action::OverlayMove(reach(row, picker.selected))
            }
        } else {
            Action::Nothing
        },
        _ => Action::Nothing,
    }
}

/// What a click on the menu bar, the toolbar or the tabs does.
pub open spec fn bar_click(regions: &UiRegions, point: (u16, u16)) -> Option<Action> {
    match hit(regions.menu@, point) {
        Some(index) => Some(Action::OpenMenu(index as usize)),
        None => if regions.previous.has(point) {
            Some(Action::Previous)
        } else if regions.play_pause.has(point) {
            Some(Action::TogglePlay)
        } else if regions.stop.has(point) {
            Some(Action::Stop)
        } else if regions.next.has(point) {
            Some(Action::Next)
        } else if regions.order.has(point) {
            Some(Action::CyclePlaybackOrder)
        } else if regions.seek.has(point) {
            Some(
                Action::SeekFraction {
                    at: (point.0 - regions.seek.x) as u16,
                    of: regions.seek.width,
                },
            )
        } else if regions.volume.has(point) {
            Some(
                Action::SetVolume {
                    at: (point.0 - regions.volume.x) as u16,
                    of: regions.volume.width,
                },
            )
        } else {
            match hit(regions.tabs@, point) {
                Some(index) => Some(Action::SelectPlaylist(index as usize)),
                None => None,
            }
        },
    }
}

/// What a click on a filter, a heading or the Soulseek prompts does.
pub open spec fn pane_click(app: AppView, regions: &UiRegions, point: (u16, u16)) -> Option<
    Action,
> {
    if regions.album_filter.has(point) || regions.playlist_filter.has(point) {
        Some(Action::BeginFilter)
    } else if heading_from(regions.playlist_headers@, point, 0) is Some {
        Some(Action::SortPlaylist(heading_from(regions.playlist_headers@, point, 0)->0))
    } else if !app.panes.soulseek_open {
        None
    } else if regions.soulseek_query.has(point) {
        Some(Action::BeginSoulseek)
    } else if hit(regions.soulseek_formats@, point) is Some {
        Some(
            Action::SoulseekSetFormat(
                SoulseekFormat::numbered(hit(regions.soulseek_formats@, point)->0),
            ),
        )
    } else if regions.soulseek_slots.has(point) {
        Some(Action::SoulseekToggleFreeSlot)
    } else if regions.soulseek_filter.has(point) {
        Some(Action::SoulseekCycleFormat(0))
    } else {
        None
    }
}

/// What a click on one of the two lists does.
pub open spec fn list_click(app: AppView, regions: &UiRegions, click: Click) -> Action {
    let point = click.point;
    if regions.album.has(point) {
        let row = row_at(regions.album, point.1, 1, regions.album_offset);
        if click.modifiers.shift {
            Action::ExtendSelection(reach(row, app.lists.album_selection))
        } else {
            Action::SelectAlbumRow(row as usize)
        }
    } else if regions.playlist.has(point) {
        let top = if app.panes.settings_open {
            1
        } else {
            2int
        };
        let row = row_at(regions.playlist, point.1, top, regions.playlist_offset);
        let marking = !app.panes.soulseek_open && !app.panes.queue_open
            && !app.panes.settings_open;
        if click.double {
            Action::ActivateSelection
        } else if click.modifiers.control && marking {
            Action::TogglePlaylistRow(row as usize)
        } else if click.modifiers.shift && marking {
            Action::ExtendSelection(
                reach(
                    row,
                    place_or(app.visible_items(), app.lists.playlist_selection as usize, 0, 0),
                ),
            )
        } else {
            Action::SelectPlaylistRow(row as usize)
        }
    } else {
        Action::Nothing
    }
}

/// What a click with the left button does.
pub open spec fn left_click(app: AppView, regions: &UiRegions, click: Click) -> Action {
    if !(app.front.overlay is Closed) {
        overlay_click(app, regions, click)
    } else {
        match bar_click(regions, click.point) {
            Some(action) => action,
            None => match pane_click(app, regions, click.point) {
                Some(action) => action,
                None => list_click(app, regions, click),
            },
        }
    }
}

/// What a click with the right button does: a context menu where there is a row.
pub open spec fn right_click(app: AppView, regions: &UiRegions, point: (u16, u16)) -> Action {
    if app.front.overlay is ContextMenu {
        Action::CloseOverlay
    } else if !(app.front.overlay is Closed) || app.panes.settings_open {
        Action::Nothing
    } else if regions.playlist.has(point) {
        Action::OpenListContext {
            row: Some(row_at(regions.playlist, point.1, 2, regions.playlist_offset) as usize),
            x: Some(point.0),
            y: Some(point.1),
        }
    } else if regions.album.has(point) {
        Action::OpenListContext {
            row: Some(row_at(regions.album, point.1, 1, regions.album_offset) as usize),
            x: Some(point.0),
            y: Some(point.1),
        }
    } else {
        Action::Nothing
    }
}

/// What the mouse does.
pub open spec fn mouse_action(
    app: AppView,
    regions: &UiRegions,
    mouse: MouseInput,
    last: LastClick,
    now: Duration,
) -> Action {
    let point = (mouse.column, mouse.row);
    match mouse.kind {
        MouseKind::ScrollUp => Action::MoveSelection((-3) as i32),
        MouseKind::ScrollDown => Action::MoveSelection(3),
        MouseKind::LeftDown => left_click(
            app,
            regions,
            Click {
                point,
                modifiers: mouse.modifiers,
                double: doubles(last, mouse.column, mouse.row, now),
            },
        ),
        MouseKind::RightDown => right_click(app, regions, point),
        MouseKind::Other => Action::Nothing,
    }
}

/// What an event asks for.
pub open spec fn event_action(
    app: AppView,
    regions: &UiRegions,
    event: EventView,
    last: LastClick,
    now: Duration,
) -> Action {
    match event {
        EventView::Key(key) => if key.kind == KeyKind::Release {
            Action::Nothing
        } else {
            app.key_action(key)
        },
        EventView::Mouse(mouse) => mouse_action(app, regions, mouse, last, now),
        _ => Action::Nothing,
    }
}

/// The click that is remembered after an event.
pub open spec fn remembered(
    app: AppView,
    regions: &UiRegions,
    event: EventView,
    last: LastClick,
    now: Duration,
) -> LastClick {
    match event {
        EventView::Mouse(mouse) => if mouse.kind == MouseKind::LeftDown && counts(
            app,
            regions,
            (mouse.column, mouse.row),
        ) {
            Some((mouse.column, mouse.row, now))
        } else {
            last
        },
        _ => last,
    }
}

/// Turns keys and clicks into actions.
#[derive(Debug)]
pub struct InputMapper {
    pub last_click: LastClick,
}

impl Default for InputMapper {
    fn default() -> (mapper: InputMapper)
        ensures
            mapper.last_click is None,
    {
        InputMapper { last_click: None }
    }
}

fn map_page_key(code: KeyCode) -> (action: Action)
    ensures
        action == page_key(code),
{
    match code {
        KeyCode::Esc => Action::CloseOverlay,
        KeyCode::F(1) => Action::CloseOverlay,
        _ => Action::Nothing,
    }
}

fn map_menu_key(code: KeyCode) -> (action: Action)
    ensures
        action == menu_key(code),
{
    match code {
        KeyCode::Esc => Action::CloseOverlay,
        KeyCode::F(10) => Action::CloseOverlay,
        KeyCode::Up => Action::OverlayMove(-1),
        KeyCode::Down => Action::OverlayMove(1),
        KeyCode::Enter => Action::OverlayActivate,
        _ => Action::Nothing,
    }
}

fn map_overlay_key(overlay: &Overlay, code: KeyCode) -> (action: Action)
    requires
        !(overlay@ is Closed),
    ensures
        action == overlay_key(overlay@, code),
{
    match overlay {
        Overlay::Help(_) => map_page_key(code),
        Overlay::Properties { .. } => map_page_key(code),
        Overlay::Menu { menu, .. } => match code {
            KeyCode::Left => Action::OpenMenu((*menu % 6 + 5) % 6),
            KeyCode::Right => Action::OpenMenu((*menu % 6 + 1) % 6),
            _ => map_menu_key(code),
        },
        Overlay::ContextMenu { .. } => map_menu_key(code),
        Overlay::PathPicker(picker) => match code {
            KeyCode::Esc => Action::CloseOverlay,
            KeyCode::Up => Action::OverlayMove(-1),
            KeyCode::Down => Action::OverlayMove(1),
            KeyCode::PageUp => Action::OverlayMove(-10),
            KeyCode::PageDown => Action::OverlayMove(10),
            KeyCode::Enter => Action::OverlayActivate,
            KeyCode::Char(c) => if (c == 'a' || c == 'A') && picker.mode == PickerMode::Folder {
                Action::PickerChooseCurrent
            } else {
                Action::Nothing
            },
            _ => Action::Nothing,
        },
        _ => match code {
            KeyCode::Esc => Action::CloseOverlay,
            KeyCode::Enter => Action::OverlayActivate,
            KeyCode::Backspace => Action::TextBackspace,
            KeyCode::Char(c) => Action::TextInput(c),
            _ => Action::Nothing,
        },
    }
}

fn map_typing_key(code: KeyCode, modifiers: Modifiers) -> (action: Action)
    ensures
        action == typing_key(code, modifiers),
{
    match code {
        KeyCode::Esc => Action::ClearFilter,
        KeyCode::Enter => Action::ActivateSelection,
        KeyCode::Backspace => Action::TextBackspace,
        KeyCode::Tab => Action::FocusNext(modifiers.shift),
        KeyCode::BackTab => Action::FocusNext(true),
        KeyCode::Down => Action::MoveSelection(1),
        KeyCode::Up => Action::MoveSelection(-1),
        KeyCode::PageUp => Action::PageSelection(-1),
        KeyCode::PageDown => Action::PageSelection(1),
        KeyCode::Char(c) => if c == 'q' && modifiers.control {
            Action::Quit
        } else {
            Action::TextInput(c)
        },
        _ => Action::Nothing,
    }
}

fn map_shortcut(c: char, modifiers: Modifiers, adjusting: bool) -> (action: Action)
    ensures
        action == shortcut(c, modifiers, adjusting),
{
    let control = modifiers.control;
    match c {
        'q' if control => Action::Quit,
        'f' if control => Action::BeginFilter,
        'o' if control && modifiers.shift => Action::OpenFolder,
        'o' if control => Action::OpenFiles,
        ',' if control => Action::OpenSettings,
        'n' if control => Action::NewPlaylist,
        'w' if control => Action::ClosePlaylist,
        ' ' if control => Action::ToggleMark,
        ' ' => Action::TogglePlay,
        '-' if adjusting => Action::SettingsAdjust(-1),
        '-' => Action::VolumeRelative(-5),
        '+' | '=' => if adjusting {
            Action::SettingsAdjust(1)
        } else {
            Action::VolumeRelative(5)
        },
        _ => Action::Nothing,
    }
}

fn map_upright(step: i32, modifiers: Modifiers) -> (action: Action)
    ensures
        action == (if modifiers.alt {
            Action::MovePlaylistItems(step)
        } else if modifiers.shift {
            Action::ExtendSelection(step)
        } else {
            Action::MoveSelection(step)
        }),
{
    if modifiers.alt {
        Action::MovePlaylistItems(step)
    } else if modifiers.shift {
        Action::ExtendSelection(step)
    } else {
        Action::MoveSelection(step)
    }
}

fn map_sideways<E: AudioEngine>(app: &App<E>, right: bool) -> (action: Action)
    requires
        app@.wf(),
        app@.shelf.playlists.len() + EXTRA_TABS <= usize::MAX,
    ensures
        action == app@.sideways(if right {
            1
        } else {
            -1
        }),
{
    let focus = app.lists.focus;
    if app.panes.settings_open && focus == Focus::Settings {
        Action::SettingsAdjust(if right { 1 } else { -1 })
    } else if app.panes.soulseek_open && focus == Focus::SoulseekFilter {
        Action::SoulseekCycleFormat(if right { 1 } else { -1 })
    } else if app.panes.soulseek_open && focus == Focus::Playlist {
        Action::SoulseekFold(right)
    } else if focus == Focus::PlaylistTabs {
        let count: usize = app.tab_count();
        let tab: usize = app.selected_tab();
        let ghost total = app@.tab_total();
        assert(0 <= app@.tab() < total == count);
        let next: usize = if right {
            if tab + 1 == count {
                0
            } else {
                tab + 1
            }
        } else if tab == 0 {
            count - 1
        } else {
            tab - 1
        };
        proof {
            let step = if right {
                1
            } else {
                -1int
            };
            if tab + step == count {
                assert((tab + step) % total == 0) by (nonlinear_arith)
                    requires
                        tab + step == total,
                        total > 0,
                ;
            } else if tab + step == -1 {
                assert((-1int) % total == total - 1) by (nonlinear_arith)
                    requires
                        total > 1,
                ;
            } else {
                vstd::arithmetic::div_mod::lemma_small_mod((tab + step) as nat, total as nat);
            }
        }
        Action::SelectPlaylist(next)
    } else {
        Action::SeekRelative(if right { 5 } else { -5 })
    }
}

fn map_screen_key<E: AudioEngine>(app: &App<E>, code: KeyCode, modifiers: Modifiers) -> (action:
    Action)
    requires
        app@.wf(),
        app@.shelf.playlists.len() + EXTRA_TABS <= usize::MAX,
    ensures
        action == app@.screen_key(code, modifiers),
{
    match code {
        KeyCode::Esc => {
            let listing = app.lists.focus == Focus::AlbumList || app.lists.focus
                == Focus::Playlist;
            if listing && (!app.lists.album_filter.as_str().is_empty()
                || !app.lists.playlist_filter.as_str().is_empty()) {
                Action::ClearFilter
            } else {
                Action::Nothing
            }
        },
        KeyCode::Char(c) => map_shortcut(
            c,
            modifiers,
            app.panes.settings_open && app.lists.focus == Focus::Settings,
        ),
        KeyCode::F(n) => if n == 1 {
            Action::ToggleHelp
        } else if n == 2 {
            Action::BeginRenamePlaylist
        } else if n == 10 {
            if modifiers.shift {
                Action::OpenListContext { row: None, x: None, y: None }
            } else {
                Action::OpenMenu(0)
            }
        } else {
            Action::Nothing
        },
        KeyCode::Menu => Action::OpenListContext { row: None, x: None, y: None },
        KeyCode::Tab => Action::FocusNext(modifiers.shift),
        KeyCode::BackTab => Action::FocusNext(true),
        KeyCode::Insert => Action::ToggleMark,
        KeyCode::Enter => Action::ActivateSelection,
        KeyCode::Delete => Action::RemoveSelection,
        KeyCode::Up => map_upright(-1, modifiers),
        KeyCode::Down => map_upright(1, modifiers),
        KeyCode::PageUp => Action::PageSelection(-1),
        KeyCode::PageDown => Action::PageSelection(1),
        KeyCode::Left => map_sideways(app, false),
        KeyCode::Right => map_sideways(app, true),
        KeyCode::Backspace => Action::Nothing,
        KeyCode::Other => Action::Nothing,
    }
}

fn map_bar_click(regions: &UiRegions, point: (u16, u16)) -> (action: Option<Action>)
    ensures
        action == bar_click(regions, point),
{
    if let Some(index) = hit_index(&regions.menu, point) {
        return Some(Action::OpenMenu(index));
    }
    if contains(regions.previous, point) {
        return Some(Action::Previous);
    }
    if contains(regions.play_pause, point) {
        return Some(Action::TogglePlay);
    }
    if contains(regions.stop, point) {
        return Some(Action::Stop);
    }
    if contains(regions.next, point) {
        return Some(Action::Next);
    }
    if contains(regions.order, point) {
        return Some(Action::CyclePlaybackOrder);
    }
    if contains(regions.seek, point) {
        return Some(
            Action::SeekFraction { at: point.0 - regions.seek.x, of: regions.seek.width },
        );
    }
    if contains(regions.volume, point) {
        return Some(
            Action::SetVolume { at: point.0 - regions.volume.x, of: regions.volume.width },
        );
    }
    match hit_index(&regions.tabs, point) {
        Some(index) => Some(Action::SelectPlaylist(index)),
        None => None,
    }
}

fn map_pane_click<E: AudioEngine>(app: &App<E>, regions: &UiRegions, point: (u16, u16)) -> (action:
    Option<Action>)
    requires
        regions.wf(),
    ensures
        action == pane_click(app@, regions, point),
{
    if contains(regions.album_filter, point) || contains(regions.playlist_filter, point) {
        return Some(Action::BeginFilter);
    }
    if let Some(column) = hit_heading(&regions.playlist_headers, point) {
        return Some(Action::SortPlaylist(column));
    }
    if !app.panes.soulseek_open {
        return None;
    }
    if contains(regions.soulseek_query, point) {
        return Some(Action::BeginSoulseek);
    }
    if let Some(index) = hit_index(&regions.soulseek_formats, point) {
        return Some(Action::SoulseekSetFormat(SoulseekFormat::All.cycle(index as i32)));
    }
    if contains(regions.soulseek_slots, point) {
        Some(Action::SoulseekToggleFreeSlot)
    } else if contains(regions.soulseek_filter, point) {
        Some(Action::SoulseekCycleFormat(0))
    } else {
        None
    }
}

fn map_right_click<E: AudioEngine>(app: &App<E>, regions: &UiRegions, point: (u16, u16)) -> (action:
    Action)
    requires
        regions.wf(),
    ensures
        action == right_click(app@, regions, point),
{
    match &app.front.overlay {
        Overlay::ContextMenu { .. } => {
            return Action::CloseOverlay;
        },
        Overlay::Closed => {},
        _ => {
            return Action::Nothing;
        },
    }
    if app.panes.settings_open {
        return Action::Nothing;
    }
    if contains(regions.playlist, point) {
        Action::OpenListContext {
            row: Some(row_under(regions.playlist, point.1, 2, regions.playlist_offset)),
            x: Some(point.0),
            y: Some(point.1),
        }
    } else if contains(regions.album, point) {
        Action::OpenListContext {
            row: Some(row_under(regions.album, point.1, 1, regions.album_offset)),
            x: Some(point.0),
            y: Some(point.1),
        }
    } else {
        Action::Nothing
    }
}

impl InputMapper {
    /// What an event asks for, at this time on the player's clock.
    pub fn map<E: AudioEngine>(
        &mut self,
        event: InputEvent,
        app: &App<E>,
        regions: &UiRegions,
        now: Duration,
    ) -> (action: Action)
        requires
            app@.wf(),
            app@.shelf.playlists.len() + EXTRA_TABS <= usize::MAX,
            regions.wf(),
        ensures
            action == event_action(app@, regions, event@, old(self).last_click, now),
            final(self).last_click == remembered(
                app@,
                regions,
                event@,
                old(self).last_click,
                now,
            ),
    {
        match event {
            InputEvent::Key(key) => if key.kind == KeyKind::Release {
                Action::Nothing
            } else {
                self.key(key, app)
            },
            InputEvent::Mouse(mouse) => self.mouse(mouse, app, regions, now),
            _ => Action::Nothing,
        }
    }

    /// What a key asks for.
    pub fn key<E: AudioEngine>(&self, key: KeyInput, app: &App<E>) -> (action: Action)
        requires
            app@.wf(),
            app@.shelf.playlists.len() + EXTRA_TABS <= usize::MAX,
        ensures
            action == app@.key_action(key),
    {
        match &app.front.overlay {
            Overlay::Closed => {},
            overlay => {
                return map_overlay_key(overlay, key.code);
            },
        }
        if app.captures_text() {
            map_typing_key(key.code, key.modifiers)
        } else {
            map_screen_key(app, key.code, key.modifiers)
        }
    }

    /// What the mouse asks for.
    pub fn mouse<E: AudioEngine>(
        &mut self,
        mouse: MouseInput,
        app: &App<E>,
        regions: &UiRegions,
        now: Duration,
    ) -> (action: Action)
        requires
            app@.wf(),
            regions.wf(),
        ensures
            action == mouse_action(app@, regions, mouse, old(self).last_click, now),
            final(self).last_click == remembered(
                app@,
                regions,
                EventView::Mouse(mouse),
                old(self).last_click,
                now,
            ),
    {
        let point = (mouse.column, mouse.row);
        match mouse.kind {
            MouseKind::ScrollUp => Action::MoveSelection(-3),
            MouseKind::ScrollDown => Action::MoveSelection(3),
            MouseKind::RightDown => map_right_click(app, regions, point),
            MouseKind::Other => Action::Nothing,
            MouseKind::LeftDown => {
                match &app.front.overlay {
                    Overlay::Closed => self.screen_click(mouse, app, regions, now),
                    _ => self.overlay_click(mouse, app, regions, now),
                }
            },
        }
    }

    /// A click while something lies over the screen.
    fn overlay_click<E: AudioEngine>(
        &mut self,
        mouse: MouseInput,
        app: &App<E>,
        regions: &UiRegions,
        now: Duration,
    ) -> (action: Action)
        requires
            regions.wf(),
            mouse.kind == MouseKind::LeftDown,
            !(app@.front.overlay is Closed),
        ensures
            action == mouse_action(app@, regions, mouse, old(self).last_click, now),
            final(self).last_click == remembered(
                app@,
                regions,
                EventView::Mouse(mouse),
                old(self).last_click,
                now,
            ),
    {
        let point = (mouse.column, mouse.row);
        match &app.front.overlay {
            Overlay::ContextMenu { .. } => {
                if let Some(area) = regions.overlay {
                    if contains(area, point) {
                        return Action::ActivateMenuItem(row_under(area, mouse.row, 1, 0));
                    }
                }
                Action::CloseOverlay
            },
            Overlay::Menu { .. } => {
                if let Some(area) = regions.overlay {
                    if contains(area, point) {
                        return Action::ActivateMenuItem(row_under(area, mouse.row, 1, 0));
                    }
                }
                match hit_index(&regions.menu, point) {
                    Some(index) => Action::OpenMenu(index),
                    None => Action::CloseOverlay,
                }
            },
            Overlay::PathPicker(picker) => {
                if let Some(area) = regions.overlay {
                    if contains(area, point) {
                        let row: usize = row_under(area, mouse.row, 3, regions.overlay_offset);
                        let double = is_double(&self.last_click, mouse.column, mouse.row, now);
                        self.last_click = Some((mouse.column, mouse.row, now));
                        return if double && row == picker.selected {
                            Action::OverlayActivate
                        } else {
                            Action::OverlayMove(row_distance(row, picker.selected))
                        };
                    }
                }
                Action::Nothing
            },
            _ => Action::Nothing,
        }
    }

    /// A click on the bare screen.
    fn screen_click<E: AudioEngine>(
        &mut self,
        mouse: MouseInput,
        app: &App<E>,
        regions: &UiRegions,
        now: Duration,
    ) -> (action: Action)
        requires
            app@.wf(),
            regions.wf(),
            mouse.kind == MouseKind::LeftDown,
            app@.front.overlay is Closed,
        ensures
            action == mouse_action(app@, regions, mouse, old(self).last_click, now),
            final(self).last_click == remembered(
                app@,
                regions,
                EventView::Mouse(mouse),
                old(self).last_click,
                now,
            ),
    {
        let point = (mouse.column, mouse.row);
        if let Some(action) = map_bar_click(regions, point) {
            return action;
        }
        if let Some(action) = map_pane_click(app, regions, point) {
            return action;
        }
        if contains(regions.album, point) {
            let row: usize = row_under(regions.album, mouse.row, 1, regions.album_offset);
            return if mouse.modifiers.shift {
                Action::ExtendSelection(row_distance(row, app.lists.album_selection))
            } else {
                Action::SelectAlbumRow(row)
            };
        }
        if !contains(regions.playlist, point) {
            return Action::Nothing;
        }
        let top: u16 = if app.panes.settings_open { 1 } else { 2 };
        let row: usize = row_under(regions.playlist, mouse.row, top, regions.playlist_offset);
        let double = is_double(&self.last_click, mouse.column, mouse.row, now);
        self.last_click = Some((mouse.column, mouse.row, now));
        let marking = !app.panes.soulseek_open && !app.panes.queue_open && !app.panes.settings_open;
        if double {
            Action::ActivateSelection
        } else if mouse.modifiers.control && marking {
            Action::TogglePlaylistRow(row)
        } else if mouse.modifiers.shift && marking {
            let visible = app.visible_playlist_indices();
            let current: usize = find_or(&visible, app.lists.playlist_selection, 0);
            Action::ExtendSelection(row_distance(row, current))
        } else {
            Action::SelectPlaylistRow(row)
        }
    }
}

/// What a paste does: it goes where text is typed, and elsewhere the paths in it are added.
pub open spec fn pasted(app: AppView, text: Seq<char>, paths: Seq<String>, action: Action) -> bool {
    if app.captures() || app.front.overlay.text() is Some {
        action matches Action::PasteText(typed) && typed@ == text
    } else if paths.len() > 0 {
        action matches Action::AddPaths(added) && added@ == paths
    } else {
        action is Nothing
    }
}

/// What a paste asks for; `paths` are the paths that the text holds.
pub fn paste_action<E: AudioEngine>(app: &App<E>, text: String, paths: Vec<String>) -> (action:
    Action)
    ensures
        pasted(app@, text@, paths@, action),
{
    let prompt = match &app.front.overlay {
        Overlay::Rename { .. } => true,
        Overlay::Connect { .. } => true,
        Overlay::Pair { .. } => true,
        _ => false,
    };
    if prompt || app.captures_text() {
        Action::PasteText(text)
    } else if paths.len() > 0 {
        Action::AddPaths(paths)
    } else {
        Action::Nothing
    }
}

/// While text is typed, every character goes into it; only the key that leaves the player is
/// taken out.
pub proof fn law_typing_reaches_the_text(app: AppView, c: char, modifiers: Modifiers)
    requires
        app.captures(),
        !(c == 'q' && modifiers.control),
    ensures
        app.key_action(KeyInput { code: KeyCode::Char(c), modifiers, kind: KeyKind::Press })
            == Action::TextInput(c),
{
}

/// The escape key closes whatever lies over the screen.
pub proof fn law_escape_closes_overlays(app: AppView, modifiers: Modifiers, kind: KeyKind)
    requires
        !(app.front.overlay is Closed),
    ensures
        app.key_action(KeyInput { code: KeyCode::Esc, modifiers, kind }) == Action::CloseOverlay,
{
}

/// A click beside an open menu closes it.
pub proof fn law_clicks_beside_a_menu_close_it(app: AppView, regions: &UiRegions, click: Click)
    requires
        app.front.overlay is Menu || app.front.overlay is ContextMenu,
        regions.overlay matches Some(area) ==> !area.has(click.point),
        hit(regions.menu@, click.point) is None,
    ensures
        left_click(app, regions, click) == Action::CloseOverlay,
{
}

/// The same click again soon enough, where double clicks count on the main list, activates the
/// row; any later click does not.
pub proof fn law_double_clicks_activate(
    app: AppView,
    regions: &UiRegions,
    mouse: MouseInput,
    last: LastClick,
    first: Duration,
    second: Duration,
)
    requires
        mouse.kind == MouseKind::LeftDown,
        app.front.overlay is Closed,
        counts(app, regions, (mouse.column, mouse.row)),
    ensures
        ({
            let event = EventView::Mouse(mouse);
            let kept = remembered(app, regions, event, last, first);
            event_action(app, regions, event, kept, second) == Action::ActivateSelection
                <==> second.total() - first.total() <= DOUBLE_CLICK_MS * 1_000_000
        }),
{
}

} // verus!
