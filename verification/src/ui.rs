//! What the screen says.

use vstd::prelude::*;
use vstd::string::*;
use vstd::utf8::encode_utf8;

use crate::app::state::{App, AppView};
use crate::audio::AudioEngine;
use crate::layout::{
    boxes, cells, excess, lesser, row_of_boxes, text_width, Rect, MIN_HEIGHT, MIN_WIDTH,
};
use crate::model::{
    clock_text, format_duration, PlaybackState, PlaylistColumn, PlaylistView, Track, TrackId,
};
use crate::order::views;
use crate::soulseek::{SoulseekFormat, SoulseekPhase};
use crate::text::{append_decimal, chars_of, decimal, decimal_text, text_of};
use crate::tree::{AlbumEntry, EntryView};

verus! {

broadcast use vstd::std_specs::btree::group_btree_axioms;

/// The pictures on the buttons.
#[derive(Clone, Copy, Debug, PartialEq, Eq, Structural)]
pub enum IconSet {
    Unicode,
    NerdFont,
}

impl Default for IconSet {
    fn default() -> (icons: IconSet)
        ensures
            icons == IconSet::Unicode,
    {
        IconSet::Unicode
    }
}

impl IconSet {
    /// The pictures of the buttons for back, play or pause, stop and on.
    pub open spec fn pictures(self, playing: bool) -> Seq<Seq<char>> {
        match self {
            IconSet::Unicode => seq![
                "⏮"@,
                if playing {
                    "⏸"@
                } else {
                    "▶"@
                },
                "⏹"@,
                "⏭"@,
            ],
            IconSet::NerdFont => seq![
                "\u{f04ae}"@,
                if playing {
                    "\u{f03e4}"@
                } else {
                    "\u{f040a}"@
                },
                "\u{f04db}"@,
                "\u{f04ad}"@,
            ],
        }
    }

    pub fn transport(self, playing: bool) -> (icons: Vec<&'static str>)
        ensures
            icons@.map_values(|icon: &'static str| icon@) == self.pictures(playing),
    {
        let icons: Vec<&'static str> = match self {
            IconSet::Unicode => vec!["⏮", if playing { "⏸" } else { "▶" }, "⏹", "⏭"],
            IconSet::NerdFont => vec![
                "\u{f04ae}",
                if playing { "\u{f03e4}" } else { "\u{f040a}" },
                "\u{f04db}",
                "\u{f04ad}",
            ],
        };
        assert(icons@.map_values(|icon: &'static str| icon@) =~= self.pictures(playing));
        icons
    }
}

/// What is said on a screen that is too small.
pub open spec fn resize_text(width: u16, height: u16) -> Seq<char> {
    "Staccato needs at least 70×20\nCurrent terminal: "@ + decimal(width as nat) + "×"@ + decimal(
        height as nat,
    ) + "\n\nPlayback continues while you resize."@
}

/// What to say instead of drawing, on a screen that is too small.
pub fn resize_message(width: u16, height: u16) -> (message: Option<String>)
    ensures
        match message {
            Some(text) => (width < MIN_WIDTH || height < MIN_HEIGHT) && text@ == resize_text(
                width,
                height,
            ),
            None => width >= MIN_WIDTH && height >= MIN_HEIGHT,
        },
{
    if width >= MIN_WIDTH && height >= MIN_HEIGHT {
        return None;
    }
    let mut text = "Staccato needs at least 70×20\nCurrent terminal: ".to_owned();
    append_decimal(&mut text, width as u64);
    text.append("×");
    append_decimal(&mut text, height as u64);
    text.append("\n\nPlayback continues while you resize.");
    Some(text)
}

/// The titles of the menus.
pub open spec fn menu_titles() -> Seq<Seq<char>> {
    seq!["File"@, "Edit"@, "View"@, "Playback"@, "Library"@, "Help"@]
}

pub fn menu_labels() -> (labels: Vec<&'static str>)
    ensures
        labels@.map_values(|label: &'static str| label@) == menu_titles(),
{
    let labels: Vec<&'static str> = vec!["File", "Edit", "View", "Playback", "Library", "Help"];
    assert(labels@.map_values(|label: &'static str| label@) =~= menu_titles());
    labels
}

/// Boxes for the menus' titles: one behind the other, with a space on either side.
pub open spec fn menu_boxes(area: Rect) -> Seq<Rect> {
    boxes(
        area.x as int,
        area.y,
        u16::MAX as int,
        0,
        seq![6u16, 6u16, 6u16, 10u16, 9u16, 6u16],
    )
}

/// Where the menus' titles are.
pub fn menu_rects(area: Rect) -> (rects: Vec<Rect>)
    ensures
        rects@ == menu_boxes(area),
{
    let widths: Vec<u16> = vec![6, 6, 6, 10, 9, 6];
    assert(widths@ =~= seq![6u16, 6u16, 6u16, 10u16, 9u16, 6u16]);
    row_of_boxes(area.x, area.y, u16::MAX, 0, &widths)
}

/// The queue's tab: with the number of tracks in it, where there are any.
pub open spec fn queue_tab(queued: int) -> Seq<char> {
    if queued == 0 {
        "Queue"@
    } else {
        "Queue ("@ + decimal(queued as nat) + ")"@
    }
}

impl AppView {
    /// The titles of the tabs.
    pub open spec fn tab_titles(self) -> Seq<Seq<char>> {
        self.shelf.playlists.map_values(|playlist: PlaylistView| playlist.name) + seq![
            queue_tab(self.transport.queue.len() as int),
            "Soulseek"@,
            "Preferences"@,
        ]
    }
}

fn queue_label(queued: usize) -> (label: String)
    ensures
        label@ == queue_tab(queued as int),
{
    if queued == 0 {
        return "Queue".to_owned();
    }
    let mut label = "Queue (".to_owned();
    append_decimal(&mut label, queued as u64);
    label.append(")");
    label
}

/// The titles of the tabs.
pub fn tab_labels<E: AudioEngine>(app: &App<E>) -> (labels: Vec<String>)
    ensures
        views(labels@) == app@.tab_titles(),
{
    let mut labels: Vec<String> = Vec::new();
    let ghost names = app@.shelf.playlists.map_values(|playlist: PlaylistView| playlist.name);
    let mut i: usize = 0;
    assert(views(labels@) =~= names.take(0));
    while i < app.shelf.playlists.len()
        invariant
            i <= app.shelf.playlists@.len(),
            names == app@.shelf.playlists.map_values(|playlist: PlaylistView| playlist.name),
            views(labels@) == names.take(i as int),
        decreases app.shelf.playlists@.len() - i,
    {
        let ghost earlier = labels@;
        labels.push(app.shelf.playlists[i].name.clone());
        assert(views(labels@) =~= views(earlier).push(names[i as int]));
        i = i + 1;
        assert(names.take(i as int) =~= names.take(i - 1).push(names[i - 1]));
    }
    assert(names.take(i as int) =~= names);
    labels.push(queue_label(app.transport.queue.len()));
    labels.push("Soulseek".to_owned());
    labels.push("Preferences".to_owned());
    assert(views(labels@) =~= app@.tab_titles());
    labels
}

/// A width with a space on either side.
pub open spec fn padded(width: u16) -> u16 {
    lesser(width + 2, u16::MAX as int) as u16
}

/// Boxes for titles of these widths: inside the border, with a line between them.
pub open spec fn tab_boxes(area: Rect, widths: Seq<u16>) -> Seq<Rect> {
    boxes(
        area.x + 1,
        (area.y + 1) as u16,
        area.right_edge(),
        1,
        widths.map_values(|width: u16| padded(width)),
    )
}

/// Where the tabs are, by the widths of their titles.
pub fn tab_rects(area: Rect, widths: &Vec<u16>) -> (rects: Vec<Rect>)
    requires
        area.wf(),
        area.width > 0,
        area.height > 0,
    ensures
        rects@ == tab_boxes(area, widths@),
{
    let mut wide: Vec<u16> = Vec::new();
    let mut i: usize = 0;
    while i < widths.len()
        invariant
            i <= widths@.len(),
            wide@ =~= widths@.take(i as int).map_values(|width: u16| padded(width)),
        decreases widths@.len() - i,
    {
        wide.push(widths[i].saturating_add(2));
        i = i + 1;
    }
    assert(widths@.take(i as int) =~= widths@);
    row_of_boxes(area.x + 1, area.y + 1, area.right(), 1, &wide)
}

/// How many cells a line of text takes on a terminal.
pub uninterp spec fn shown_width(text: Seq<char>) -> nat;

/// `Line::width` of a line made of a text: the cells that the terminal gives it.
#[verifier::external_body]
fn line_width(text: &str) -> (width: usize)
    ensures
        width == shown_width(text@),
{
    ratatui::text::Line::from(text).width()
}

/// The widths of titles.
pub open spec fn title_widths(titles: Seq<Seq<char>>) -> Seq<u16> {
    titles.map_values(|title: Seq<char>| (shown_width(title) % 0x1_0000) as u16)
}

/// Where the tabs are, by their titles.
pub fn tab_places(area: Rect, titles: &Vec<String>) -> (rects: Vec<Rect>)
    requires
        area.wf(),
        area.width > 0,
        area.height > 0,
    ensures
        rects@ == tab_boxes(area, title_widths(views(titles@))),
{
    let mut widths: Vec<u16> = Vec::new();
    let mut i: usize = 0;
    while i < titles.len()
        invariant
            i <= titles@.len(),
            widths@ =~= title_widths(views(titles@)).take(i as int),
        decreases titles@.len() - i,
    {
        let width: usize = line_width(&titles[i]);
        widths.push((width % 0x1_0000) as u16);
        i = i + 1;
    }
    assert(title_widths(views(titles@)).take(i as int) =~= title_widths(views(titles@)));
    tab_rects(area, &widths)
}

/// The formats in the order of their chips.
pub open spec fn chip_texts() -> Seq<Seq<char>> {
    Seq::new(6, |i: int| " "@ + SoulseekFormat::numbered(i).label_text() + " "@)
}

pub open spec fn slots_text(free_only: bool) -> Seq<char> {
    if free_only {
        " Slots: free "@
    } else {
        " Slots: any "@
    }
}

/// The chips of the Soulseek tab: their texts, where they are, and the switch behind them with
/// its place, where there is room for it.
#[derive(Debug)]
pub struct Chips {
    pub labels: Vec<String>,
    pub formats: Vec<Rect>,
    pub slots: &'static str,
    pub slots_rect: Rect,
}

/// Where the row of chips ends.
pub open spec fn chips_end(rects: Seq<Rect>, start: int) -> int {
    if rects.len() == 0 {
        start
    } else {
        rects.last().x + rects.last().width
    }
}

/// Where the chips of the formats are in the frame of the filters.
pub open spec fn chip_boxes(area: Rect) -> Seq<Rect> {
    let inner = area.within_border();
    if inner.width == 0 || inner.height == 0 {
        Seq::empty()
    } else {
        boxes(
            inner.x as int,
            inner.y,
            inner.x + inner.width,
            0,
            chip_texts().map_values(|text: Seq<char>| cells(text)),
        )
    }
}

/// Where the switch is: at the right end, where the chips leave more room than it needs.
pub open spec fn slots_box(area: Rect, free_only: bool) -> Rect {
    let inner = area.within_border();
    let right = inner.x + inner.width;
    let width = slots_text(free_only).len() as int;
    if inner.width > 0 && inner.height > 0 && excess(
        right,
        chips_end(chip_boxes(area), inner.x as int),
    ) > width {
        Rect::at(right - width, inner.y as int, width, 1)
    } else {
        Rect::empty()
    }
}

/// Lays out the chips in the frame of the filters.
pub fn filter_chips(area: Rect, free_only: bool) -> (chips: Chips)
    requires
        area.wf(),
    ensures
        views(chips.labels@) == chip_texts(),
        chips.slots@ == slots_text(free_only),
        chips.formats@ == chip_boxes(area),
        chips.slots_rect == slots_box(area, free_only),
{
    let mut labels: Vec<String> = Vec::new();
    let mut widths: Vec<u16> = Vec::new();
    let ghost widths_of = chip_texts().map_values(|text: Seq<char>| cells(text));
    let mut i: usize = 0;
    while i < 6
        invariant
            i <= 6,
            views(labels@) =~= chip_texts().take(i as int),
            widths_of == chip_texts().map_values(|text: Seq<char>| cells(text)),
            widths@ =~= widths_of.take(i as int),
        decreases 6 - i,
    {
        let mut label = " ".to_owned();
        label.append(SoulseekFormat::All.cycle(i as i32).label());
        label.append(" ");
        assert(label@ =~= chip_texts()[i as int]);
        let ghost earlier = labels@;
        widths.push(text_width(&label));
        labels.push(label);
        assert(views(labels@) =~= views(earlier).push(label@));
        i = i + 1;
        assert(chip_texts().take(i as int) =~= chip_texts().take(i - 1).push(
            chip_texts()[i - 1],
        ));
    }
    assert(chip_texts().take(6) =~= chip_texts());
    assert(widths_of.take(6) =~= widths_of);
    let slots: &'static str = if free_only { " Slots: free " } else { " Slots: any " };
    proof {
        reveal_strlit(" Slots: free ");
        reveal_strlit(" Slots: any ");
    }
    let inner = area.inner();
    if inner.width == 0 || inner.height == 0 {
        let formats: Vec<Rect> = Vec::new();
        assert(formats@ =~= Seq::empty());
        return Chips { labels, formats, slots, slots_rect: Rect::none() };
    }
    let right: u16 = inner.right();
    let formats = row_of_boxes(inner.x, inner.y, right, 0, &widths);
    let end: u16 = if formats.len() > 0 {
        let last = formats[formats.len() - 1];
        proof {
            crate::layout::law_boxes_do_not_overlap(
                inner.x as int,
                inner.y,
                right as int,
                0,
                widths@,
                formats@.len() - 1,
            );
        }
        last.x + last.width
    } else {
        inner.x
    };
    let width: u16 = text_width(slots);
    let slots_rect = if right.saturating_sub(end) > width {
        Rect { x: right - width, y: inner.y, width, height: 1 }
    } else {
        Rect::none()
    };
    Chips { labels, formats, slots, slots_rect }
}

/// How a row of the library list is drawn: folded-out headings by depth, tracks further in.
pub open spec fn album_row(entry: EntryView) -> Seq<char> {
    (if entry.track_id is Some {
        if entry.depth <= 1 {
            "      "@
        } else if entry.depth == 2 {
            "        "@
        } else {
            "          "@
        }
    } else {
        if entry.depth == 0 {
            "▾ "@
        } else if entry.depth == 1 {
            "  ▾ "@
        } else {
            "    ▾ "@
        }
    }) + entry.label + (if entry.unavailable {
        " [unplayable]"@
    } else {
        Seq::empty()
    })
}

pub fn album_row_text(entry: &AlbumEntry) -> (text: String)
    ensures
        text@ == album_row(entry@),
{
    let mut text = match entry.track_id {
        Some(_) => if entry.depth <= 1 {
            "      ".to_owned()
        } else if entry.depth == 2 {
            "        ".to_owned()
        } else {
            "          ".to_owned()
        },
        None => if entry.depth == 0 {
            "▾ ".to_owned()
        } else if entry.depth == 1 {
            "  ▾ ".to_owned()
        } else {
            "    ▾ ".to_owned()
        },
    };
    text.append(&entry.label);
    if entry.unavailable {
        text.append(" [unplayable]");
    }
    assert(text@ =~= album_row(entry@));
    text
}

/// How a row of a playlist stands out.
#[derive(Clone, Copy, Debug, PartialEq, Eq, Structural)]
pub enum RowTone {
    Plain,
    Marked,
    Dimmed,
    /// There is no such track.
    Wrong,
}

/// A row of a playlist.
#[derive(Debug)]
pub struct PlaylistRow {
    pub cells: Vec<String>,
    pub playing: bool,
    pub tone: RowTone,
}

/// What a row of a playlist says.
pub struct RowView {
    pub cells: Seq<Seq<char>>,
    pub playing: bool,
    pub tone: RowTone,
}

impl View for PlaylistRow {
    type V = RowView;

    open spec fn view(&self) -> RowView {
        RowView { cells: views(self.cells@), playing: self.playing, tone: self.tone }
    }
}

pub open spec fn state_mark(state: PlaybackState) -> Seq<char> {
    match state {
        PlaybackState::Playing => "▶"@,
        PlaybackState::Paused => "Ⅱ"@,
        PlaybackState::Loading => "…"@,
        PlaybackState::Buffering => "…"@,
        PlaybackState::Stopped => ""@,
    }
}

/// Whether a track cannot be played.
pub open spec fn unplayable(track: Track) -> bool {
    track.unavailable || track.scan_error is Some
}

impl AppView {
    /// Whether a track of the playlist is marked, and that is shown.
    pub open spec fn shows_mark(self, id: TrackId) -> bool {
        self.lists.playlist_marked.contains(id) && !self.panes.queue_open
    }

    pub open spec fn row_mark(self, id: TrackId, track: Track) -> Seq<char> {
        if self.front.audio_snapshot.track_id == Some(id) {
            state_mark(self.front.audio_snapshot.state)
        } else if unplayable(track) {
            "!"@
        } else if self.shows_mark(id) {
            "•"@
        } else {
            ""@
        }
    }

    /// The row of a track at a place of a list.
    pub open spec fn row_of(self, index: int, id: TrackId, compact: bool) -> RowView {
        match self.shelf.track(id) {
            None => RowView {
                cells: seq!["!"@, ""@, "Missing track"@, ""@, ""@, ""@],
                playing: false,
                tone: RowTone::Wrong,
            },
            Some(track) => {
                let number = match track.track_number {
                    Some(number) => decimal(number as nat),
                    None => decimal((index + 1) as nat),
                };
                let first = seq![self.row_mark(id, track), number, track.artist@, track.title@];
                let length = clock_text(track.duration.secs as nat);
                RowView {
                    cells: if compact {
                        first.push(length)
                    } else {
                        first.push(track.album@).push(
                            match track.date {
                                Some(date) => decimal(date as nat),
                                None => Seq::empty(),
                            },
                        ).push(length)
                    },
                    playing: self.front.audio_snapshot.track_id == Some(id),
                    tone: if unplayable(track) {
                        RowTone::Dimmed
                    } else if self.shows_mark(id) && index != self.lists.playlist_selection {
                        RowTone::Marked
                    } else {
                        RowTone::Plain
                    },
                }
            },
        }
    }
}

fn state_icon(state: PlaybackState) -> (icon: &'static str)
    ensures
        icon@ == state_mark(state),
{
    match state {
        PlaybackState::Playing => "▶",
        PlaybackState::Paused => "Ⅱ",
        PlaybackState::Loading => "…",
        PlaybackState::Buffering => "…",
        PlaybackState::Stopped => "",
    }
}

/// The row of a track at a place of a list.
pub fn playlist_row<E: AudioEngine>(app: &App<E>, index: usize, id: TrackId, compact: bool) -> (row:
    PlaylistRow)
    requires
        index < usize::MAX,
    ensures
        row@ == app@.row_of(index as int, id, compact),
{
    let mut cells: Vec<String> = Vec::new();
    let track = match app.shelf.tracks.get(&id) {
        Some(track) => track,
        None => {
            cells.push("!".to_owned());
            cells.push("".to_owned());
            cells.push("Missing track".to_owned());
            cells.push("".to_owned());
            cells.push("".to_owned());
            cells.push("".to_owned());
            assert(views(cells@) =~= app@.row_of(index as int, id, compact).cells);
            return PlaylistRow { cells, playing: false, tone: RowTone::Wrong };
        },
    };
    let playing = match app.front.audio_snapshot.track_id {
        Some(current) => current == id,
        None => false,
    };
    let broken = track.unavailable || track.scan_error.is_some();
    let marked = app.lists.playlist_marked.contains(&id) && !app.panes.queue_open;
    let mark: &'static str = if playing {
        state_icon(app.front.audio_snapshot.state)
    } else if broken {
        "!"
    } else if marked {
        "•"
    } else {
        ""
    };
    cells.push(mark.to_owned());
    cells.push(
        match track.track_number {
            Some(number) => decimal_text(number as u64),
            None => decimal_text((index + 1) as u64),
        },
    );
    cells.push(track.artist.clone());
    cells.push(track.title.clone());
    if !compact {
        cells.push(track.album.clone());
        cells.push(
            match track.date {
                Some(date) => decimal_text(date as u64),
                None => {
                    let empty = String::new();
                    assert(empty@ =~= Seq::empty());
                    empty
                },
            },
        );
    }
    cells.push(format_duration(track.duration));
    let tone = if broken {
        RowTone::Dimmed
    } else if marked && index != app.lists.playlist_selection {
        RowTone::Marked
    } else {
        RowTone::Plain
    };
    assert(views(cells@) =~= app@.row_of(index as int, id, compact).cells);
    PlaylistRow { cells, playing, tone }
}

/// A heading, with an arrow where the list is sorted by it.
pub open spec fn heading(
    column: Option<PlaylistColumn>,
    sort: Option<(PlaylistColumn, bool)>,
) -> Seq<char> {
    match column {
        None => Seq::empty(),
        Some(column) => match sort {
            Some((current, ascending)) => if current == column {
                column.label_text().push(
                    if ascending {
                        '↑'
                    } else {
                        '↓'
                    },
                )
            } else {
                column.label_text()
            },
            None => column.label_text(),
        },
    }
}

pub fn heading_text(column: Option<PlaylistColumn>, sort: Option<(PlaylistColumn, bool)>) -> (text:
    String)
    ensures
        text@ == heading(column, sort),
{
    let column = match column {
        Some(column) => column,
        None => {
            let empty = String::new();
            assert(empty@ =~= Seq::empty());
            return empty;
        },
    };
    let mut text = column.label().to_owned();
    if let Some((current, ascending)) = sort {
        if current == column {
            text.push(if ascending { '↑' } else { '↓' });
        }
    }
    text
}

impl AppView {
    /// The title of the playlist's frame.
    pub open spec fn playlist_title(self) -> Seq<char> {
        match self.lists.playlist_sort {
            Some((column, ascending)) => " Playlist View  ·  "@ + column.label_text() + (
            if ascending {
                " ↑ "@
            } else {
                " ↓ "@
            }),
            None => if self.lists.playlist_filter.len() > 0 {
                " Playlist View  ["@ + decimal(self.visible_items().len()) + "] "@
            } else {
                " Playlist View "@
            },
        }
    }

    /// What is said in place of search results.
    pub open spec fn results_hint(self) -> Seq<char> {
        match self.soulseek.ui.phase {
            SoulseekPhase::Username =>
                "Sign in with your Soulseek account.\nCredentials stay in the data directory."@,
            SoulseekPhase::Password => "Enter password, then press Enter."@,
            SoulseekPhase::Ready => if self.soulseek.ui.filter.active()
                && self.soulseek.ui.hits.len() > 0 {
                "No files match the current filters."@
            } else {
                self.soulseek.ui.status
            },
        }
    }
}

/// The title of the playlist's frame.
pub fn playlist_title<E: AudioEngine>(app: &App<E>) -> (title: String)
    requires
        app@.wf(),
    ensures
        title@ == app@.playlist_title(),
{
    match app.lists.playlist_sort {
        Some((column, ascending)) => {
            let mut title = " Playlist View  ·  ".to_owned();
            title.append(column.label());
            title.append(if ascending { " ↑ " } else { " ↓ " });
            title
        },
        None => {
            if app.lists.playlist_filter.as_str().is_empty() {
                return " Playlist View ".to_owned();
            }
            let visible = app.visible_playlist_indices();
            let mut title = " Playlist View  [".to_owned();
            append_decimal(&mut title, visible.len() as u64);
            title.append("] ");
            title
        },
    }
}

/// What is said in place of search results.
pub fn results_hint<E: AudioEngine>(app: &App<E>) -> (hint: String)
    ensures
        hint@ == app@.results_hint(),
{
    match app.soulseek.ui.phase {
        SoulseekPhase::Username =>
            "Sign in with your Soulseek account.\nCredentials stay in the data directory.".to_owned(),
        SoulseekPhase::Password => "Enter password, then press Enter.".to_owned(),
        SoulseekPhase::Ready => {
            if app.soulseek.ui.filter.is_active() && app.soulseek.ui.hits.len() > 0 {
                "No files match the current filters.".to_owned()
            } else {
                app.soulseek.ui.status.clone()
            }
        },
    }
}

/// A number of spaces.
pub open spec fn spaces(n: int) -> Seq<char> {
    Seq::new(
        if n < 0 {
            0
        } else {
            n as nat
        },
        |i: int| ' ',
    )
}

/// A row of the preferences: the values stand below one another.
pub open spec fn setting_row(label: Seq<char>, value: Seq<char>) -> Seq<char> {
    "  "@ + label + spaces(28 - label.len()) + " "@ + value
}

pub fn setting_row_text(label: &str, value: &str) -> (text: String)
    ensures
        text@ == setting_row(label@, value@),
{
    let mut text = "  ".to_owned();
    text.append(label);
    let chars = chars_of(label);
    let pad: usize = if chars.len() < 28 { 28 - chars.len() } else { 0 };
    let ghost start = text@;
    let mut i: usize = 0;
    assert(text@ =~= start + spaces(0));
    while i < pad
        invariant
            i <= pad,
            text@ == start + spaces(i as int),
        decreases pad - i,
    {
        text.push(' ');
        i = i + 1;
        assert(text@ =~= start + spaces(i as int));
    }
    text.append(" ");
    text.append(value);
    assert(text@ =~= setting_row(label@, value@));
    text
}

/// How the status line stands out.
#[derive(Clone, Copy, Debug, PartialEq, Eq, Structural)]
pub enum StatusTone {
    Plain,
    Downloading,
    Scanning,
    Wrong,
}

pub open spec fn opt_number(number: Option<u32>) -> Seq<char> {
    match number {
        Some(number) => decimal(number as nat),
        None => "?"@,
    }
}

impl AppView {
    /// What plays, in technical terms; or how long the playlist is.
    pub open spec fn about_track(self) -> Seq<char> {
        let id = match self.front.audio_snapshot.track_id {
            Some(id) => id,
            None => 0,
        };
        match self.shelf.track(id) {
            Some(track) => track.codec@ + " | "@ + opt_number(track.sample_rate) + " Hz | "@ + (
            match track.channels {
                Some(channels) => decimal(channels as nat),
                None => "?"@,
            }) + " ch | "@ + clock_text(track.duration.secs as nat),
            None => decimal(self.shelf.active().items.len()) + " items"@,
        }
    }

    /// The right end of the status line: the queue, what is switched on, and what plays.
    pub open spec fn status_right(self, gain: Option<Seq<char>>) -> Seq<char> {
        (if self.transport.queue.len() > 0 {
            "Q:"@ + decimal(self.transport.queue.len()) + " | "@
        } else {
            Seq::empty()
        }) + (if self.transport.stop_after_current {
            "SAC | "@
        } else {
            Seq::empty()
        }) + (match gain {
            Some(gain) => gain + " | "@,
            None => Seq::empty(),
        }) + self.about_track()
    }

    /// The status line: downloads first, then scans, then a missing output, else what was last
    /// said.
    pub open spec fn status_left(self) -> (Seq<char>, StatusTone) {
        if self.soulseek.downloads_active > 0 {
            (
                self.soulseek.ui.status + (if self.soulseek.downloads_active > 1 {
                    " · "@ + decimal(self.soulseek.downloads_active as nat) + " downloads"@
                } else {
                    Seq::empty()
                }),
                StatusTone::Downloading,
            )
        } else {
            match (self.front.scan_progress, self.front.audio_error) {
                (Some((done, total)), _) => (
                    "Scanning "@ + decimal(done as nat) + "/"@ + decimal(total as nat) + " — "@
                        + self.front.status,
                    StatusTone::Scanning,
                ),
                (None, Some(error)) => (
                    "Audio unavailable: "@ + error + " — Playback > Retry Audio"@,
                    StatusTone::Wrong,
                ),
                (None, None) => (self.front.status, StatusTone::Plain),
            }
        }
    }
}

fn about_track<E: AudioEngine>(app: &App<E>) -> (text: String)
    requires
        app@.wf(),
    ensures
        text@ == app@.about_track(),
{
    let id: TrackId = match app.front.audio_snapshot.track_id {
        Some(id) => id,
        None => 0,
    };
    match app.shelf.tracks.get(&id) {
        Some(track) => {
            let mut text = track.codec.clone();
            text.append(" | ");
            match track.sample_rate {
                Some(rate) => append_decimal(&mut text, rate as u64),
                None => text.append("?"),
            }
            text.append(" Hz | ");
            match track.channels {
                Some(channels) => append_decimal(&mut text, channels as u64),
                None => text.append("?"),
            }
            text.append(" ch | ");
            let length = format_duration(track.duration);
            text.append(&length);
            assert(text@ =~= app@.about_track());
            text
        },
        None => {
            let playlist = app.active_playlist();
            let mut text = decimal_text(playlist.items.len() as u64);
            text.append(" items");
            text
        },
    }
}

/// The right end of the status line; `gain` is what is said of the loudness, where anything is.
pub fn status_right<E: AudioEngine>(app: &App<E>, gain: Option<&str>) -> (text: String)
    requires
        app@.wf(),
    ensures
        text@ == app@.status_right(
            match gain {
                Some(gain) => Some(gain@),
                None => None,
            },
        ),
{
    let mut text = String::new();
    if app.transport.queue.len() > 0 {
        text.append("Q:");
        append_decimal(&mut text, app.transport.queue.len() as u64);
        text.append(" | ");
    }
    if app.transport.stop_after_current {
        text.append("SAC | ");
    }
    if let Some(gain) = gain {
        text.append(gain);
        text.append(" | ");
    }
    let about = about_track(app);
    text.append(&about);
    assert(text@ =~= app@.status_right(
        match gain {
            Some(gain) => Some(gain@),
            None => None,
        },
    ));
    text
}

/// How a piece of the right end of the status line stands out.
#[derive(Clone, Copy, Debug, PartialEq, Eq, Structural)]
pub enum MarkTone {
    Plain,
    Queue,
    Stop,
    Gain,
}

/// A piece with the bar behind it.
pub open spec fn mark_with_bar(text: Seq<char>, tone: MarkTone) -> Seq<(Seq<char>, MarkTone)> {
    seq![(text, tone), (" | "@, MarkTone::Plain)]
}

impl AppView {
    /// The right end of the status line, in pieces.
    pub open spec fn status_marks(self, gain: Option<Seq<char>>) -> Seq<(Seq<char>, MarkTone)> {
        (if self.transport.queue.len() > 0 {
            mark_with_bar("Q:"@ + decimal(self.transport.queue.len()), MarkTone::Queue)
        } else {
            Seq::empty()
        }) + (if self.transport.stop_after_current {
            mark_with_bar("SAC"@, MarkTone::Stop)
        } else {
            Seq::empty()
        }) + (match gain {
            Some(gain) => mark_with_bar(gain, MarkTone::Gain),
            None => Seq::empty(),
        }) + seq![(self.about_track(), MarkTone::Plain)]
    }
}

/// The texts of pieces, and how they stand out.
pub open spec fn mark_views(marks: Seq<(String, MarkTone)>) -> Seq<(Seq<char>, MarkTone)> {
    marks.map_values(|mark: (String, MarkTone)| (mark.0@, mark.1))
}

/// The texts of pieces, one behind the other.
pub open spec fn joined_marks(marks: Seq<(Seq<char>, MarkTone)>) -> Seq<char>
    decreases marks.len(),
{
    if marks.len() == 0 {
        Seq::empty()
    } else {
        joined_marks(marks.drop_last()) + marks.last().0
    }
}

fn push_mark(marks: &mut Vec<(String, MarkTone)>, text: String, tone: MarkTone)
    ensures
        mark_views(final(marks)@) == mark_views(old(marks)@) + mark_with_bar(text@, tone),
{
    marks.push((text, tone));
    marks.push((" | ".to_owned(), MarkTone::Plain));
    assert(mark_views(marks@) =~= mark_views(old(marks)@) + mark_with_bar(text@, tone));
}

/// The right end of the status line in pieces, which stand out from one another.
pub fn status_marks<E: AudioEngine>(app: &App<E>, gain: Option<&str>) -> (marks: Vec<
    (String, MarkTone),
>)
    requires
        app@.wf(),
    ensures
        mark_views(marks@) == app@.status_marks(
            match gain {
                Some(gain) => Some(gain@),
                None => None,
            },
        ),
{
    let mut marks: Vec<(String, MarkTone)> = Vec::new();
    assert(mark_views(marks@) =~= Seq::empty());
    if app.transport.queue.len() > 0 {
        let mut text = "Q:".to_owned();
        append_decimal(&mut text, app.transport.queue.len() as u64);
        push_mark(&mut marks, text, MarkTone::Queue);
    }
    if app.transport.stop_after_current {
        push_mark(&mut marks, "SAC".to_owned(), MarkTone::Stop);
    }
    if let Some(gain) = gain {
        push_mark(&mut marks, gain.to_owned(), MarkTone::Gain);
    }
    let ghost before = mark_views(marks@);
    marks.push((about_track(app), MarkTone::Plain));
    assert(mark_views(marks@) =~= before.push((app@.about_track(), MarkTone::Plain)));
    assert(mark_views(marks@) =~= app@.status_marks(
        match gain {
            Some(gain) => Some(gain@),
            None => None,
        },
    ));
    marks
}

proof fn lemma_joined_marks_add(a: Seq<(Seq<char>, MarkTone)>, b: Seq<(Seq<char>, MarkTone)>)
    ensures
        joined_marks(a + b) == joined_marks(a) + joined_marks(b),
    decreases b.len(),
{
    if b.len() == 0 {
        assert(a + b =~= a);
        assert(joined_marks(a) + joined_marks(b) =~= joined_marks(a));
    } else {
        lemma_joined_marks_add(a, b.drop_last());
        assert((a + b).drop_last() =~= a + b.drop_last());
        assert(joined_marks(a) + (joined_marks(b.drop_last()) + b.last().0) =~= joined_marks(
            a + b.drop_last(),
        ) + b.last().0);
    }
}

proof fn lemma_joined_mark(text: Seq<char>, tone: MarkTone)
    ensures
        joined_marks(mark_with_bar(text, tone)) == text + " | "@,
        joined_marks(seq![(text, tone)]) == text,
{
    reveal_with_fuel(joined_marks, 2);
    let marks = mark_with_bar(text, tone);
    let first = seq![(text, tone)];
    assert(first.drop_last() =~= Seq::empty());
    assert(joined_marks(first) =~= text);
    assert(marks.drop_last() =~= first);
}

/// The pieces of the right end of the status line say, one behind the other, what it says.
pub proof fn law_marks_make_up_the_status(app: AppView, gain: Option<Seq<char>>)
    ensures
        joined_marks(app.status_marks(gain)) == app.status_right(gain),
{
    let none = Seq::<(Seq<char>, MarkTone)>::empty();
    let queue = if app.transport.queue.len() > 0 {
        mark_with_bar("Q:"@ + decimal(app.transport.queue.len()), MarkTone::Queue)
    } else {
        none
    };
    let stop = if app.transport.stop_after_current {
        mark_with_bar("SAC"@, MarkTone::Stop)
    } else {
        none
    };
    let loudness = match gain {
        Some(gain) => mark_with_bar(gain, MarkTone::Gain),
        None => none,
    };
    let about = seq![(app.about_track(), MarkTone::Plain)];
    lemma_joined_marks_add(queue + stop + loudness, about);
    lemma_joined_marks_add(queue + stop, loudness);
    lemma_joined_marks_add(queue, stop);
    lemma_joined_mark("Q:"@ + decimal(app.transport.queue.len()), MarkTone::Queue);
    lemma_joined_mark("SAC"@, MarkTone::Stop);
    lemma_joined_mark(app.about_track(), MarkTone::Plain);
    if let Some(gain) = gain {
        lemma_joined_mark(gain, MarkTone::Gain);
    }
    reveal_strlit("SAC");
    reveal_strlit(" | ");
    reveal_strlit("SAC | ");
    assert("SAC"@ + " | "@ =~= "SAC | "@);
    assert(joined_marks(app.status_marks(gain)) =~= app.status_right(gain));
}

/// Where the right end of the status line stands.
pub open spec fn status_right_box(area: Rect, right: Seq<char>) -> Rect {
    let width = lesser(encode_utf8(right).len() as int % 0x1_0000 + 1, u16::MAX as int);
    Rect::at(
        excess(area.right_edge(), width),
        area.y as int,
        lesser(width, area.width as int),
        1,
    )
}

pub fn status_right_place(area: Rect, right: &str) -> (place: Rect)
    requires
        area.wf(),
    ensures
        place == status_right_box(area, right@),
{
    let bytes: usize = right.as_bytes().len();
    let size: u16 = (bytes % 0x1_0000) as u16;
    let width: u16 = size.saturating_add(1);
    Rect {
        x: area.right().saturating_sub(width),
        y: area.y,
        width: if width < area.width { width } else { area.width },
        height: 1,
    }
}

/// The status line.
pub fn status_left<E: AudioEngine>(app: &App<E>) -> (line: (String, StatusTone))
    ensures
        (line.0@, line.1) == app@.status_left(),
{
    if app.soulseek.downloads_active > 0 {
        let mut text = app.soulseek.ui.status.clone();
        if app.soulseek.downloads_active > 1 {
            text.append(" · ");
            append_decimal(&mut text, app.soulseek.downloads_active as u64);
            text.append(" downloads");
        }
        assert(text@ =~= app@.status_left().0);
        return (text, StatusTone::Downloading);
    }
    if let Some((done, total)) = app.front.scan_progress {
        let mut text = "Scanning ".to_owned();
        append_decimal(&mut text, done as u64);
        text.append("/");
        append_decimal(&mut text, total as u64);
        text.append(" — ");
        text.append(&app.front.status);
        return (text, StatusTone::Scanning);
    }
    match &app.front.audio_error {
        Some(error) => {
            let mut text = "Audio unavailable: ".to_owned();
            text.append(error);
            text.append(" — Playback > Retry Audio");
            (text, StatusTone::Wrong)
        },
        None => (app.front.status.clone(), StatusTone::Plain),
    }
}

/// The room that the status line has beside its right end.
pub open spec fn status_room(width: u16, right: Seq<char>, downloading: bool) -> int {
    excess(
        excess(width as int, right.len() as int + 2),
        if downloading {
            2
        } else {
            0
        },
    )
}

/// A text cut off to a number of characters, with an ellipsis at the end.
pub open spec fn fitted(text: Seq<char>, room: int) -> Seq<char> {
    if text.len() > room {
        text.take(lesser(excess(room, 1), text.len() as int)).push('…')
    } else {
        text
    }
}

/// Cuts the status line off so that it leaves its right end free.
pub fn fit_status(text: String, width: u16, right: &str, downloading: bool) -> (fitting: String)
    ensures
        fitting@ == fitted(text@, status_room(width, right@, downloading)),
{
    let right_chars = chars_of(right);
    let wide: usize = width as usize;
    let beside: usize = if right_chars.len() < wide && right_chars.len() + 2 < wide {
        wide - right_chars.len() - 2
    } else {
        0
    };
    let room: usize = if downloading {
        if beside > 2 {
            beside - 2
        } else {
            0
        }
    } else {
        beside
    };
    assert(room == status_room(width, right@, downloading));
    let chars = chars_of(&text);
    if chars.len() <= room {
        return text;
    }
    let end: usize = if room > 1 { room - 1 } else { 0 };
    let mut cut = text_of(vstd::slice::slice_subrange(&chars, 0, end));
    assert(cut@ =~= text@.take(end as int));
    cut.push('…');
    cut
}

/// A status line that is cut off fits into its room, as long as there is any.
pub proof fn law_status_fits(text: Seq<char>, room: int)
    requires
        room >= 1,
    ensures
        fitted(text, room).len() <= room,
        text.len() <= room ==> fitted(text, room) == text,
{
}

/// Where a context menu opens: at the click, or else below the row under the cursor.
pub open spec fn context_origin(
    at: Option<(u16, u16)>,
    list: Rect,
    selected: int,
    offset: int,
) -> (int, int) {
    match at {
        Some((x, y)) => (x as int, y as int),
        None => (
            lesser(list.x + 2, u16::MAX as int),
            lesser(
                lesser(list.y + 2, u16::MAX as int) + excess(selected, offset) % 0x1_0000,
                u16::MAX as int,
            ),
        ),
    }
}

pub fn context_menu_origin(at: Option<(u16, u16)>, list: Rect, selected: usize, offset: usize) -> (
    origin: (u16, u16))
    ensures
        (origin.0 as int, origin.1 as int) == context_origin(
            at,
            list,
            selected as int,
            offset as int,
        ),
{
    match at {
        Some(point) => point,
        None => {
            let row: usize = if selected > offset { selected - offset } else { 0 };
            let down: u16 = (row % 0x1_0000) as u16;
            (list.x.saturating_add(2), list.y.saturating_add(2).saturating_add(down))
        },
    }
}

} // verus!
