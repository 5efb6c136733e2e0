//! The whole screen: where its parts stand, and what each of them shows.

use vstd::prelude::*;
use vstd::string::*;

use crate::app::deal::places as item_places;
use crate::app::state::{App, AppView, ContentPane, ShelfView};
use crate::audio::AudioEngine;
use crate::layout::{
    cells, header_rects, playlist_columns, table_columns, table_headings, text_width, toolbar,
    toolbar_places, Constraint, Rect, Toolbar, ToolbarTexts, UiRegions, MIN_HEIGHT, MIN_WIDTH,
};
use crate::model::{clock_text, format_duration, Focus, PlaylistColumn};
use crate::order::views;
use crate::screen::{
    bands, bands_of, filter_and_list, filter_places, places, places_of, playlist_and_equalizer,
    playlist_places, search_places, search_places_of, Bands, Places,
};
use crate::settings::{header_at, rows, setting_at, SettingRow, ROW_COUNT};
use crate::soulseek::{row_views, RowView as FoundView, SoulseekPhase, SoulseekRowKind};
use crate::text::{append_decimal, decimal, trimmed};
use crate::tree::{entry_views, EntryView};
use crate::ui::{
    album_row, album_row_text, chip_boxes, filter_chips, heading, heading_text, menu_boxes,
    menu_rects, playlist_row, playlist_title, results_hint, setting_row, setting_row_text,
    slots_box, tab_boxes, tab_labels, tab_places, title_widths, PlaylistRow, RowView,
};

verus! {

broadcast use vstd::std_specs::btree::group_btree_axioms;

/// The texts of the toolbar.
#[derive(Debug)]
pub struct ToolbarLabels {
    pub volume: String,
    pub order: String,
    pub elapsed: String,
    pub total: String,
}

impl ToolbarLabels {
    pub open spec fn widths(self) -> ToolbarTexts {
        ToolbarTexts {
            volume: cells(self.volume@),
            order: cells(self.order@),
            elapsed: cells(self.elapsed@),
            total: cells(self.total@),
        }
    }
}

impl AppView {
    /// The toolbar says the order, and how far the track has come.
    pub open spec fn labels_of(self, volume: Seq<char>, labels: ToolbarLabels) -> bool {
        &&& labels.volume@ == volume
        &&& labels.order@ == "Order: "@ + self.transport.playback_order.label_text()
        &&& labels.elapsed@ == clock_text(self.front.audio_snapshot.position.secs as nat)
        &&& labels.total@ == clock_text(self.front.audio_snapshot.duration.secs as nat)
    }

    /// A list is narrowed by a line above it, while one types into it or it says anything.
    pub open spec fn shows_album_filter(self) -> bool {
        self.lists.focus == Focus::AlbumFilter || self.lists.album_filter.len() > 0
    }

    pub open spec fn shows_playlist_filter(self) -> bool {
        self.lists.focus == Focus::PlaylistFilter || self.lists.playlist_filter.len() > 0
    }

    /// Whether the Soulseek tab asks for a name or a password.
    pub open spec fn signing_in(self) -> bool {
        self.soulseek.ui.phase != SoulseekPhase::Ready
    }
}

/// The rectangle, or none at all.
pub open spec fn place_or_none(place: Option<Rect>) -> Rect {
    match place {
        Some(rect) => rect,
        None => Rect::empty(),
    }
}

fn or_none(place: Option<Rect>) -> (rect: Rect)
    ensures
        rect == place_or_none(place),
{
    match place {
        Some(rect) => rect,
        None => Rect::none(),
    }
}

/// Whether the columns of a list give up the album and the date.
pub open spec fn narrow(list: Rect) -> bool {
    list.width < 90
}

/// Where the parts of the screen stand, and where a click hits them.
#[derive(Debug)]
pub struct Screen {
    pub bands: Bands,
    pub labels: ToolbarLabels,
    pub toolbar: Toolbar,
    pub places: Places,
    pub regions: UiRegions,
}

impl AppView {
    /// Clicks hit the buttons and bars of the toolbar.
    pub open spec fn toolbar_hit(bar: Toolbar, regions: UiRegions) -> bool {
        &&& regions.previous == bar.previous
        &&& regions.play_pause == bar.play_pause
        &&& regions.stop == bar.stop
        &&& regions.next == bar.next
        &&& regions.seek == bar.seek
        &&& regions.order == bar.order
        &&& regions.volume == bar.volume
    }

    /// Clicks hit what the open tab holds, and nothing of the others.
    pub open spec fn body_hit(self, body: Rect, regions: UiRegions) -> bool {
        let searched = search_places_of(body, self.signing_in());
        let (table, equalizer) = playlist_places(body, self.prefs.show_spectrum);
        let (filter, list) = filter_places(table, self.shows_playlist_filter());
        let pane = self.panes.pane();
        &&& regions.playlist == match pane {
            ContentPane::Soulseek => searched.results,
            ContentPane::Playlist => list,
            _ => body,
        }
        &&& regions.soulseek_query == if pane == ContentPane::Soulseek {
            searched.query
        } else {
            Rect::empty()
        }
        &&& match (pane, searched.filters) {
            (ContentPane::Soulseek, Some(filters)) => {
                &&& regions.soulseek_filter == filters
                &&& regions.soulseek_formats@ == chip_boxes(filters)
                &&& regions.soulseek_slots == slots_box(
                    filters,
                    self.soulseek.ui.filter.free_slot,
                )
            },
            _ => {
                &&& regions.soulseek_filter == Rect::empty()
                &&& regions.soulseek_formats@ == Seq::<Rect>::empty()
                &&& regions.soulseek_slots == Rect::empty()
            },
        }
        &&& if pane == ContentPane::Playlist {
            &&& regions.equalizer == place_or_none(equalizer)
            &&& regions.playlist_filter == place_or_none(filter)
            &&& regions.playlist_headers@ == table_headings(list, narrow(list))
        } else {
            &&& regions.equalizer == Rect::empty()
            &&& regions.playlist_filter == Rect::empty()
            &&& regions.playlist_headers@.len() == 0
        }
    }

    /// How the screen is arranged, before anything is drawn on it.
    pub open spec fn arranged(self, area: Rect, volume: Seq<char>, screen: Screen) -> bool {
        let regions = screen.regions;
        let (album_filter, album) = filter_places(
            screen.places.albums,
            self.shows_album_filter(),
        );
        &&& screen.bands == bands_of(area)
        &&& self.labels_of(volume, screen.labels)
        &&& screen.toolbar == toolbar_places(screen.bands.toolbar, screen.labels.widths())
        &&& screen.places == places_of(screen.bands.content, self.prefs.show_album_art)
        &&& regions.menu@ == menu_boxes(screen.bands.menu)
        &&& AppView::toolbar_hit(screen.toolbar, regions)
        &&& regions.album == album
        &&& regions.album_filter == place_or_none(album_filter)
        &&& regions.tabs@ == tab_boxes(screen.places.tabs, title_widths(self.tab_titles()))
        &&& self.body_hit(screen.places.body, regions)
        &&& regions.album_offset == 0
        &&& regions.playlist_offset == 0
        &&& regions.overlay_offset == 0
        &&& regions.overlay is None
    }
}

fn toolbar_labels<E: AudioEngine>(app: &App<E>, volume: String) -> (labels: ToolbarLabels)
    ensures
        app@.labels_of(volume@, labels),
{
    let mut order = "Order: ".to_owned();
    order.append(app.transport.playback_order.label());
    ToolbarLabels {
        volume,
        order,
        elapsed: format_duration(app.front.audio_snapshot.position),
        total: format_duration(app.front.audio_snapshot.duration),
    }
}

/// Fills in what the open tab holds.
fn body_regions<E: AudioEngine>(app: &App<E>, body: Rect, regions: &mut UiRegions)
    requires
        body.wf(),
        body.height >= MIN_HEIGHT - 6,
        old(regions).playlist_headers@.len() == 0,
        old(regions).soulseek_formats@ == Seq::<Rect>::empty(),
        old(regions).soulseek_query == Rect::empty(),
        old(regions).soulseek_filter == Rect::empty(),
        old(regions).soulseek_slots == Rect::empty(),
        old(regions).equalizer == Rect::empty(),
        old(regions).playlist_filter == Rect::empty(),
    ensures
        app@.body_hit(body, *final(regions)),
        *final(regions) == (UiRegions {
            playlist: final(regions).playlist,
            soulseek_query: final(regions).soulseek_query,
            soulseek_filter: final(regions).soulseek_filter,
            soulseek_formats: final(regions).soulseek_formats,
            soulseek_slots: final(regions).soulseek_slots,
            equalizer: final(regions).equalizer,
            playlist_filter: final(regions).playlist_filter,
            playlist_headers: final(regions).playlist_headers,
            ..*old(regions)
        }),
{
    match app.panes.content_pane() {
        ContentPane::Soulseek => {
            let signing_in = app.soulseek.ui.phase != SoulseekPhase::Ready;
            let searched = search_places(body, signing_in);
            regions.soulseek_query = searched.query;
            regions.playlist = searched.results;
            if let Some(filters) = searched.filters {
                let chips = filter_chips(filters, app.soulseek.ui.filter.free_slot);
                regions.soulseek_filter = filters;
                regions.soulseek_formats = chips.formats;
                regions.soulseek_slots = chips.slots_rect;
            }
        },
        ContentPane::Playlist => {
            let (table, equalizer) = playlist_and_equalizer(body, app.prefs.show_spectrum);
            let shown = app.lists.focus == Focus::PlaylistFilter
                || !app.lists.playlist_filter.as_str().is_empty();
            let (filter, list) = filter_and_list(table, shown);
            regions.equalizer = or_none(equalizer);
            regions.playlist_filter = or_none(filter);
            regions.playlist = list;
            regions.playlist_headers = header_rects(list, list.width < 90);
        },
        ContentPane::Queue | ContentPane::Settings => {
            regions.playlist = body;
        },
    }
}

/// Arranges the screen; `volume` is what the toolbar says of the volume.
pub fn arrange<E: AudioEngine>(app: &App<E>, area: Rect, volume: String) -> (screen: Screen)
    requires
        area.wf(),
        area.x + area.width < u16::MAX,
        area.width >= MIN_WIDTH,
        area.height >= MIN_HEIGHT,
    ensures
        app@.arranged(area, volume@, screen),
{
    let bands = bands(area);
    let labels = toolbar_labels(app, volume);
    let texts = ToolbarTexts {
        volume: text_width(&labels.volume),
        order: text_width(&labels.order),
        elapsed: text_width(&labels.elapsed),
        total: text_width(&labels.total),
    };
    let bar = toolbar(bands.toolbar, texts);
    let places = places(bands.content, app.prefs.show_album_art);
    let shown = app.lists.focus == Focus::AlbumFilter
        || !app.lists.album_filter.as_str().is_empty();
    let (album_filter, album) = filter_and_list(places.albums, shown);
    let mut regions = UiRegions::new();
    regions.menu = menu_rects(bands.menu);
    regions.previous = bar.previous;
    regions.play_pause = bar.play_pause;
    regions.stop = bar.stop;
    regions.next = bar.next;
    regions.seek = bar.seek;
    regions.order = bar.order;
    regions.volume = bar.volume;
    regions.album = album;
    regions.album_filter = or_none(album_filter);
    regions.tabs = tab_places(places.tabs, &tab_labels(app));
    body_regions(app, places.body, &mut regions);
    Screen { bands, labels, toolbar: bar, places, regions }
}

/// How a line of a list stands out.
#[derive(Clone, Copy, Debug, PartialEq, Eq, Structural)]
pub enum LineTone {
    Plain,
    Heading,
    Marked,
    Dimmed,
}

/// A line of a list.
#[derive(Debug)]
pub struct ListLine {
    pub text: String,
    pub tone: LineTone,
}

/// The texts of the lines of a list, and how they stand out.
pub open spec fn line_views(lines: Seq<ListLine>) -> Seq<(Seq<char>, LineTone)> {
    lines.map_values(|line: ListLine| (line.text@, line.tone))
}

/// A list in a frame.
#[derive(Debug)]
pub struct ListPage {
    pub title: String,
    pub focused: bool,
    pub lines: Vec<ListLine>,
    pub selected: Option<usize>,
}

impl AppView {
    /// A row of the library stands out where it cannot be played, where it is marked and the
    /// cursor is elsewhere, and where it heads a part of the library.
    pub open spec fn album_line(self, index: int, entry: EntryView) -> (Seq<char>, LineTone) {
        (
            album_row(entry),
            if entry.unavailable {
                LineTone::Dimmed
            } else if self.lists.album_marked.contains(index as usize) && index
                != self.lists.album_selection {
                LineTone::Marked
            } else if entry.depth == 0 {
                LineTone::Heading
            } else {
                LineTone::Plain
            },
        )
    }

    pub open spec fn album_lines(self) -> Seq<(Seq<char>, LineTone)> {
        Seq::new(self.album_rows().len(), |i: int| self.album_line(i, self.album_rows()[i]))
    }

    /// The library's title says how many rows a filter leaves.
    pub open spec fn album_title(self) -> Seq<char> {
        if self.lists.album_filter.len() == 0 {
            " Album List "@
        } else {
            " Album List  ["@ + decimal(self.album_rows().len()) + "] "@
        }
    }

    /// A row of the preferences.
    pub open spec fn setting_line(self, row: int, preamp: Seq<char>) -> (Seq<char>, LineTone) {
        match setting_at(row) {
            Some(id) => (
                setting_row(id.label_text(), self.setting_text(id, preamp)),
                LineTone::Plain,
            ),
            None => (header_at(row), LineTone::Heading),
        }
    }

    pub open spec fn setting_lines(self, preamp: Seq<char>) -> Seq<(Seq<char>, LineTone)> {
        Seq::new(ROW_COUNT as nat, |i: int| self.setting_line(i, preamp))
    }
}

/// The library.
pub fn album_page<E: AudioEngine>(app: &App<E>) -> (page: ListPage)
    ensures
        page.title@ == app@.album_title(),
        page.focused == (app@.lists.focus == Focus::AlbumList),
        line_views(page.lines@) == app@.album_lines(),
        page.selected == if app@.album_rows().len() > 0 {
            Some(app.lists.album_selection)
        } else {
            None
        },
{
    let entries = app.visible_album_entries();
    let ghost rows = app@.album_rows();
    let ghost said = app@.album_lines();
    let mut lines: Vec<ListLine> = Vec::new();
    let mut i: usize = 0;
    while i < entries.len()
        invariant
            i <= entries@.len(),
            entry_views(entries@) == rows,
            rows == app@.album_rows(),
            rows.len() == entries@.len(),
            said == app@.album_lines(),
            line_views(lines@) =~= said.take(i as int),
        decreases entries@.len() - i,
    {
        let entry = &entries[i];
        assert(rows[i as int] == entry@);
        let tone = if entry.unavailable {
            LineTone::Dimmed
        } else if app.lists.album_marked.contains(&i) && i != app.lists.album_selection {
            LineTone::Marked
        } else if entry.depth == 0 {
            LineTone::Heading
        } else {
            LineTone::Plain
        };
        let line = ListLine { text: album_row_text(entry), tone };
        assert((line.text@, line.tone) == said[i as int]);
        let ghost earlier = lines@;
        lines.push(line);
        assert(line_views(lines@) =~= line_views(earlier).push(said[i as int]));
        i = i + 1;
        assert(said.take(i as int) =~= said.take(i - 1).push(said[i - 1]));
    }
    assert(said.take(i as int) =~= said);
    let title = if app.lists.album_filter.as_str().is_empty() {
        " Album List ".to_owned()
    } else {
        let mut title = " Album List  [".to_owned();
        append_decimal(&mut title, entries.len() as u64);
        title.append("] ");
        title
    };
    ListPage {
        title,
        focused: app.lists.focus == Focus::AlbumList,
        lines,
        selected: if entries.len() > 0 { Some(app.lists.album_selection) } else { None },
    }
}

/// The preferences; `preamp` is how the preamplification is written.
pub fn settings_page<E: AudioEngine>(app: &App<E>, preamp: &str) -> (page: ListPage)
    ensures
        page.title@ == " Preferences "@,
        page.focused == (app@.lists.focus == Focus::Settings),
        line_views(page.lines@) == app@.setting_lines(preamp@),
        page.selected == Some(app.panes.settings_selected),
{
    let ghost said = app@.setting_lines(preamp@);
    let rows = rows();
    let mut lines: Vec<ListLine> = Vec::new();
    let mut i: usize = 0;
    while i < rows.len()
        invariant
            i <= rows@.len(),
            rows@.len() == ROW_COUNT,
            forall|k: int|
                0 <= k < ROW_COUNT ==> match #[trigger] rows@[k] {
                    SettingRow::Item(id) => setting_at(k) == Some(id),
                    SettingRow::Header(text) => setting_at(k) is None && text@ == header_at(k),
                },
            said == app@.setting_lines(preamp@),
            line_views(lines@) =~= said.take(i as int),
        decreases rows@.len() - i,
    {
        let line = match rows[i] {
            SettingRow::Item(id) => {
                let value = app.setting_value(id, preamp);
                ListLine { text: setting_row_text(id.label(), &value), tone: LineTone::Plain }
            },
            SettingRow::Header(text) => {
                ListLine { text: text.to_owned(), tone: LineTone::Heading }
            },
        };
        assert((line.text@, line.tone) == said[i as int]);
        let ghost earlier = lines@;
        lines.push(line);
        assert(line_views(lines@) =~= line_views(earlier).push(said[i as int]));
        i = i + 1;
        assert(said.take(i as int) =~= said.take(i - 1).push(said[i - 1]));
    }
    assert(said.take(i as int) =~= said);
    ListPage {
        title: " Preferences ".to_owned(),
        focused: app.lists.focus == Focus::Settings,
        lines,
        selected: Some(app.panes.settings_selected),
    }
}

/// A table of tracks in a frame.
#[derive(Debug)]
pub struct TablePage {
    pub title: String,
    pub focused: bool,
    pub compact: bool,
    pub headings: Vec<String>,
    pub rows: Vec<PlaylistRow>,
    pub selected: Option<usize>,
}

pub open spec fn table_rows(rows: Seq<PlaylistRow>) -> Seq<RowView> {
    rows.map_values(|row: PlaylistRow| row@)
}

/// The titles of a table's columns.
pub open spec fn column_titles(compact: bool, sort: Option<(PlaylistColumn, bool)>) -> Seq<
    Seq<char>,
> {
    table_columns(compact).map_values(
        |column: (Option<PlaylistColumn>, Constraint)| heading(column.0, sort),
    )
}

impl AppView {
    /// The rows of the playlist that the filter leaves.
    pub open spec fn playlist_rows(self, compact: bool) -> Seq<RowView> {
        self.visible_items().map_values(
            |index: usize| self.row_of(
                index as int,
                self.shelf.active().items[index as int],
                compact,
            ),
        )
    }

    pub open spec fn queue_rows(self, compact: bool) -> Seq<RowView> {
        Seq::new(
            self.transport.queue.len(),
            |i: int| self.row_of(i, self.transport.queue[i], compact),
        )
    }
}

/// What a filter leaves are places of the playlist.
proof fn lemma_visible_items_exist(shelf: ShelfView, filter: Seq<char>)
    ensures
        forall|k: int|
            0 <= k < shelf.visible_items(filter).len() ==> #[trigger] shelf.visible_items(
                filter,
            )[k] < shelf.active().items.len(),
{
    let n = shelf.active().items.len();
    let needle = trimmed(filter);
    let shown = |i: usize| shelf.item_shown(needle, i);
    assert forall|k: int| 0 <= k < shelf.visible_items(filter).len() implies #[trigger] shelf.visible_items(
        filter,
    )[k] < n by {
        item_places(n).lemma_filter_contains_rev(shown, shelf.visible_items(filter)[k]);
    }
}

fn column_texts(compact: bool, sort: Option<(PlaylistColumn, bool)>) -> (titles: Vec<String>)
    ensures
        views(titles@) == column_titles(compact, sort),
{
    let columns = playlist_columns(compact);
    let ghost said = column_titles(compact, sort);
    let mut titles: Vec<String> = Vec::new();
    let mut i: usize = 0;
    while i < columns.len()
        invariant
            i <= columns@.len(),
            columns@ == table_columns(compact),
            said == column_titles(compact, sort),
            views(titles@) =~= said.take(i as int),
        decreases columns@.len() - i,
    {
        let title = heading_text(columns[i].0, sort);
        let ghost earlier = titles@;
        titles.push(title);
        assert(views(titles@) =~= views(earlier).push(title@));
        i = i + 1;
        assert(said.take(i as int) =~= said.take(i - 1).push(said[i - 1]));
    }
    assert(said.take(i as int) =~= said);
    titles
}

/// The playlist, in a list this wide.
pub fn playlist_page<E: AudioEngine>(app: &App<E>, list: Rect) -> (page: TablePage)
    requires
        app@.wf(),
    ensures
        page.title@ == app@.playlist_title(),
        page.focused == (app@.lists.focus == Focus::Playlist),
        page.compact == narrow(list),
        views(page.headings@) == column_titles(narrow(list), app@.lists.playlist_sort),
        table_rows(page.rows@) == app@.playlist_rows(narrow(list)),
        match page.selected {
            Some(row) => row < app@.visible_items().len() && app@.visible_items()[row as int]
                == app@.lists.playlist_selection,
            None => !app@.visible_items().contains(app.lists.playlist_selection),
        },
{
    let compact = list.width < 90;
    let visible = app.visible_playlist_indices();
    let playlist = app.active_playlist();
    let ghost said = app@.playlist_rows(compact);
    let mut rows: Vec<PlaylistRow> = Vec::new();
    let mut selected: Option<usize> = None;
    let mut i: usize = 0;
    proof {
        lemma_visible_items_exist(app@.shelf, app@.lists.playlist_filter);
    }
    while i < visible.len()
        invariant
            i <= visible@.len(),
            visible@ == app@.visible_items(),
            playlist@ == app@.shelf.active(),
            forall|k: int|
                0 <= k < visible@.len() ==> #[trigger] visible@[k] < playlist@.items.len(),
            said == app@.playlist_rows(compact),
            table_rows(rows@) =~= said.take(i as int),
            match selected {
                Some(row) => row < i && visible@[row as int] == app.lists.playlist_selection,
                None => forall|k: int|
                    0 <= k < i ==> visible@[k] != app.lists.playlist_selection,
            },
        decreases visible@.len() - i,
    {
        let index: usize = visible[i];
        let count: usize = playlist.items.len();
        assert(index < count);
        let row = playlist_row(app, index, playlist.items[index], compact);
        assert(row@ == said[i as int]);
        let ghost earlier = rows@;
        rows.push(row);
        assert(table_rows(rows@) =~= table_rows(earlier).push(row@));
        if selected.is_none() && index == app.lists.playlist_selection {
            selected = Some(i);
        }
        i = i + 1;
        assert(said.take(i as int) =~= said.take(i - 1).push(said[i - 1]));
    }
    assert(said.take(i as int) =~= said);
    TablePage {
        title: playlist_title(app),
        focused: app.lists.focus == Focus::Playlist,
        compact,
        headings: column_texts(compact, app.lists.playlist_sort),
        rows,
        selected,
    }
}

/// The queue, in a list this wide.
pub fn queue_page<E: AudioEngine>(app: &App<E>, list: Rect) -> (page: TablePage)
    ensures
        page.title@ == " Playback Queue  ("@ + decimal(app@.transport.queue.len()) + ") "@,
        page.focused == (app@.lists.focus == Focus::Queue),
        page.compact == narrow(list),
        views(page.headings@) == column_titles(narrow(list), None),
        table_rows(page.rows@) == app@.queue_rows(narrow(list)),
        page.selected == if app@.transport.queue.len() > 0 {
            Some(app.transport.queue_selection)
        } else {
            None
        },
{
    let compact = list.width < 90;
    let ghost said = app@.queue_rows(compact);
    let mut rows: Vec<PlaylistRow> = Vec::new();
    let mut i: usize = 0;
    while i < app.transport.queue.len()
        invariant
            i <= app.transport.queue@.len(),
            said == app@.queue_rows(compact),
            table_rows(rows@) =~= said.take(i as int),
        decreases app.transport.queue@.len() - i,
    {
        let row = playlist_row(app, i, app.transport.queue[i], compact);
        assert(row@ == said[i as int]);
        let ghost earlier = rows@;
        rows.push(row);
        assert(table_rows(rows@) =~= table_rows(earlier).push(row@));
        i = i + 1;
        assert(said.take(i as int) =~= said.take(i - 1).push(said[i - 1]));
    }
    assert(said.take(i as int) =~= said);
    let mut title = " Playback Queue  (".to_owned();
    append_decimal(&mut title, app.transport.queue.len() as u64);
    title.append(") ");
    TablePage {
        title,
        focused: app.lists.focus == Focus::Queue,
        compact,
        headings: column_texts(compact, None),
        rows,
        selected: if app.transport.queue.len() > 0 {
            Some(app.transport.queue_selection)
        } else {
            None
        },
    }
}

/// A line of search results.
#[derive(Debug)]
pub struct ResultLine {
    pub label: String,
    pub detail: String,
    pub heading: bool,
}

/// The Soulseek tab: the line to type into, and what was found or what is said instead.
#[derive(Debug)]
pub struct SearchPage {
    pub query_title: &'static str,
    pub query: String,
    pub query_focused: bool,
    pub title: String,
    pub focused: bool,
    pub lines: Vec<ResultLine>,
    pub hint: String,
    pub selected: usize,
}

/// What the lines of search results say.
pub open spec fn result_views(lines: Seq<ResultLine>) -> Seq<(Seq<char>, Seq<char>, bool)> {
    lines.map_values(|line: ResultLine| (line.label@, line.detail@, line.heading))
}

impl AppView {
    /// The results in lines, those of users standing out.
    pub open spec fn result_lines(self) -> Seq<(Seq<char>, Seq<char>, bool)> {
        self.soulseek.ui.rows().map_values(
            |row: FoundView| (row.label, row.detail, row.kind == SoulseekRowKind::User),
        )
    }
}

/// The Soulseek tab. Who signs in types into its line, wherever the cursor is.
pub fn search_page<E: AudioEngine>(app: &App<E>) -> (page: SearchPage)
    ensures
        ({
            let focus = app@.lists.focus;
            let signing_in = app@.signing_in();
            &&& page.query_title@ == if signing_in {
                " Sign in "@
            } else {
                " Search "@
            }
            &&& page.query@ == app@.soulseek.ui.prompt_text(
                focus == Focus::SoulseekQuery || signing_in,
            )
            &&& page.query_focused == (focus == Focus::SoulseekQuery || (signing_in && focus
                != Focus::Playlist))
            &&& page.title@ == " "@ + app@.soulseek.ui.status + " "@
            &&& page.focused == (focus == Focus::Playlist)
            &&& result_views(page.lines@) == app@.result_lines()
            &&& page.hint@ == app@.results_hint()
            &&& page.selected == app@.soulseek.ui.selected
        }),
{
    let focus = app.lists.focus;
    let signing_in = app.soulseek.ui.phase != SoulseekPhase::Ready;
    let rows = app.soulseek.ui.visible_rows();
    let ghost found = app@.soulseek.ui.rows();
    let ghost said = app@.result_lines();
    let mut lines: Vec<ResultLine> = Vec::new();
    let mut i: usize = 0;
    assert(found.len() == rows@.len());
    while i < rows.len()
        invariant
            i <= rows@.len(),
            row_views(rows@) == found,
            found == app@.soulseek.ui.rows(),
            said == app@.result_lines(),
            result_views(lines@) =~= said.take(i as int),
        decreases rows@.len() - i,
    {
        let row = &rows[i];
        assert(found[i as int] == row@);
        let heading = match row.kind {
            SoulseekRowKind::User => true,
            SoulseekRowKind::Folder => false,
            SoulseekRowKind::File => false,
        };
        let line = ResultLine { label: row.label.clone(), detail: row.detail.clone(), heading };
        let ghost earlier = lines@;
        lines.push(line);
        assert(result_views(lines@) =~= result_views(earlier).push(said[i as int]));
        i = i + 1;
        assert(said.take(i as int) =~= said.take(i - 1).push(said[i - 1]));
    }
    assert(said.take(i as int) =~= said);
    let mut title = " ".to_owned();
    title.append(&app.soulseek.ui.status);
    title.append(" ");
    SearchPage {
        query_title: if signing_in { " Sign in " } else { " Search " },
        query: app.soulseek.ui.prompt(focus == Focus::SoulseekQuery || signing_in),
        query_focused: focus == Focus::SoulseekQuery || (signing_in && focus != Focus::Playlist),
        title,
        focused: focus == Focus::Playlist,
        lines,
        hint: results_hint(app),
        selected: app.soulseek.ui.selected,
    }
}

/// The line that narrows a list, with a caret where one types into it.
pub open spec fn filter_line(text: Seq<char>, typing: bool) -> Seq<char> {
    "Filter: "@ + text + (if typing {
        "█"@
    } else {
        ""@
    })
}

pub fn filter_text(text: &str, typing: bool) -> (line: String)
    ensures
        line@ == filter_line(text@, typing),
{
    let mut line = "Filter: ".to_owned();
    line.append(text);
    line.append(if typing { "█" } else { "" });
    line
}

/// What is said where there is no artwork to show.
pub fn artwork_hint<E: AudioEngine>(app: &App<E>) -> (hint: &'static str)
    requires
        app@.wf(),
    ensures
        hint@ == if app@.cover() is Some {
            "No embedded or folder artwork"@
        } else {
            "No track selected"@
        },
{
    match app.cover_track() {
        Some(_) => "No embedded or folder artwork",
        None => "No track selected",
    }
}

/// How many bands the equalizer has in its frame: one for two columns.
pub fn equalizer_bands(area: Rect) -> (bands: usize)
    ensures
        ({
            let inner = area.within_border();
            bands == if inner.height == 0 {
                0
            } else {
                inner.width as int / 2
            }
        }),
{
    let inner = area.inner();
    if inner.height == 0 {
        0
    } else {
        (inner.width / 2) as usize
    }
}

} // verus!
