//! What lies over the screen.

use vstd::prelude::*;
use vstd::string::*;
use vstd::utf8::encode_utf8;

use crate::action::Action;
use crate::app::state::{App, AppView};
use crate::audio::AudioEngine;
use crate::help::{HelpRow, HelpRowView, HelpView};
use crate::layout::{
    centered, excess, lesser, middle_of, place_popup, popup_at, Rect, UiRegions, MIN_HEIGHT,
    MIN_WIDTH,
};
use crate::menus::{labelled, menu_actions, menu_items};
use crate::net::addr::DiscoveredServer;
use crate::order::views;
use crate::overlay::{
    context_items, picker_entries, Overlay, OverlayView, PathPicker, PickerEntry, PickerEntryView,
    PickerMode, PickerView,
};
use crate::path::{file_name, file_name_of};
use crate::path_codec::{show_path, shown_path};
use crate::screen::{picker_places, picker_places_of, PickerPlaces};
use crate::text::chars_of;
use crate::ui::{context_menu_origin, context_origin, spaces};

verus! {

/// What a popup holds.
#[derive(Debug)]
pub enum PanelBody {
    /// A text to read or to type into.
    Page(String),
    /// Lines to choose from, and the one under the cursor.
    Choices { labels: Vec<String>, selected: usize },
    /// A folder, its entries with the one under the cursor, and what the keys do.
    Picker {
        places: PickerPlaces,
        directory: String,
        labels: Vec<String>,
        row: Option<usize>,
        keys: &'static str,
    },
}

/// A popup.
#[derive(Debug)]
pub struct Panel {
    pub area: Rect,
    pub title: String,
    pub body: PanelBody,
}

/// What a popup says.
pub enum BodyView {
    Page(Seq<char>),
    Choices { labels: Seq<Seq<char>>, selected: int },
    Picker {
        places: PickerPlaces,
        directory: Seq<char>,
        labels: Seq<Seq<char>>,
        row: Option<int>,
        keys: Seq<char>,
    },
}

/// Where a popup is, and what it says.
pub struct PanelView {
    pub area: Rect,
    pub title: Seq<char>,
    pub body: BodyView,
}

impl View for Panel {
    type V = PanelView;

    open spec fn view(&self) -> PanelView {
        PanelView {
            area: self.area,
            title: self.title@,
            body: match self.body {
                PanelBody::Page(text) => BodyView::Page(text@),
                PanelBody::Choices { labels, selected } => BodyView::Choices {
                    labels: views(labels@),
                    selected: selected as int,
                },
                PanelBody::Picker { places, directory, labels, row, keys } => {
                    BodyView::Picker {
                        places,
                        directory: directory@,
                        labels: views(labels@),
                        row: match row {
                            Some(row) => Some(row as int),
                            None => None,
                        },
                        keys: keys@,
                    }
                },
            },
        }
    }
}

/// The greatest of some sizes, or ten where there are none.
pub open spec fn greatest(sizes: Seq<int>) -> int
    decreases sizes.len(),
{
    if sizes.len() == 0 {
        10
    } else if sizes.len() == 1 {
        sizes[0]
    } else {
        let rest = greatest(sizes.drop_last());
        if rest < sizes.last() {
            sizes.last()
        } else {
            rest
        }
    }
}

/// A size in cells, with the border on either side.
pub open spec fn framed(size: int) -> u16 {
    lesser(size % 0x1_0000 + 2, u16::MAX as int) as u16
}

fn with_frame(size: usize) -> (cells: u16)
    ensures
        cells == framed(size as int),
{
    let inside: u16 = (size % 0x1_0000) as u16;
    inside.saturating_add(2)
}

/// A row of the help page: a heading that is folded out or in, or what a key does.
pub open spec fn help_line(row: HelpRowView) -> Seq<char> {
    match row {
        HelpRowView::Section { title, open, .. } => (if open {
            "▾ "@
        } else {
            "▸ "@
        }) + title,
        HelpRowView::Entry { keys, text } => "  "@ + keys + spaces(16 - keys.len()) + " "@ + text,
    }
}

fn help_row_text(row: HelpRow) -> (text: String)
    ensures
        text@ == help_line(row@),
{
    match row {
        HelpRow::Section { title, open, .. } => {
            let mut text = if open { "▾ ".to_owned() } else { "▸ ".to_owned() };
            text.append(title);
            text
        },
        HelpRow::Entry { keys, text: said } => {
            let mut text = "  ".to_owned();
            text.append(keys);
            let chars = chars_of(keys);
            let pad: usize = if chars.len() < 16 { 16 - chars.len() } else { 0 };
            let ghost start = text@;
            let mut i: usize = 0;
            assert(text@ =~= start + spaces(0));
            while i < pad
                invariant
                    i <= pad,
                    text@ == start + spaces(i as int),
                decreases pad - i,
            {
                text.push(' ');
                i = i + 1;
                assert(text@ =~= start + spaces(i as int));
            }
            text.append(" ");
            text.append(said);
            assert(text@ =~= help_line(row@));
            text
        },
    }
}

/// An entry of a folder, with a mark before those that can be opened.
pub open spec fn picker_line(entry: PickerEntryView) -> Seq<char> {
    (if entry.is_dir {
        "▸ "@
    } else {
        "  "@
    }) + (match file_name_of(entry.path) {
        Some(name) => shown_path(name),
        None => shown_path(entry.path),
    })
}

fn picker_row_text(entry: &PickerEntry) -> (text: String)
    ensures
        text@ == picker_line(entry@),
{
    let mut text = if entry.is_dir { "▸ ".to_owned() } else { "  ".to_owned() };
    match file_name(&entry.path) {
        Some(name) => text.append(&show_path(&name)),
        None => text.append(&show_path(&entry.path)),
    }
    text
}

/// The servers that were found, each on a line of its own.
pub open spec fn server_lines(
    servers: Seq<DiscoveredServer>,
    addresses: Seq<Seq<char>>,
    n: int,
) -> Seq<char>
    decreases n,
{
    if n <= 0 {
        Seq::empty()
    } else {
        server_lines(servers, addresses, n - 1) + "  "@ + servers[n - 1].name@ + "  "@
            + addresses[n - 1] + "\n"@
    }
}

/// What is said where an address is asked for.
pub open spec fn connect_text(
    text: Seq<char>,
    servers: Seq<DiscoveredServer>,
    addresses: Seq<Seq<char>>,
) -> Seq<char> {
    "Host:port (Enter to connect, Esc to cancel)\n"@ + (if servers.len() == 0 {
        "Searching the LAN…\n"@
    } else {
        "Found on the LAN:\n"@ + server_lines(servers, addresses, servers.len() as int)
            + "Leave the box empty to use the first result.\n"@
    }) + "\n"@ + text + "█"@
}

fn connect_page(text: &str, servers: &Vec<DiscoveredServer>, addresses: &Vec<String>) -> (page:
    String)
    requires
        addresses@.len() == servers@.len(),
    ensures
        page@ == connect_text(text@, servers@, views(addresses@)),
{
    let mut page = "Host:port (Enter to connect, Esc to cancel)\n".to_owned();
    if servers.len() == 0 {
        page.append("Searching the LAN…\n");
    } else {
        page.append("Found on the LAN:\n");
        let ghost start = page@;
        let mut i: usize = 0;
        assert(page@ =~= start + server_lines(servers@, views(addresses@), 0));
        while i < servers.len()
            invariant
                i <= servers@.len(),
                addresses@.len() == servers@.len(),
                page@ == start + server_lines(servers@, views(addresses@), i as int),
            decreases servers@.len() - i,
        {
            page.append("  ");
            page.append(&servers[i].name);
            page.append("  ");
            page.append(&addresses[i]);
            page.append("\n");
            i = i + 1;
            assert(page@ =~= start + server_lines(servers@, views(addresses@), i as int));
        }
        page.append("Leave the box empty to use the first result.\n");
    }
    page.append("\n");
    page.append(text);
    page.append("█");
    assert(page@ =~= connect_text(text@, servers@, views(addresses@)));
    page
}

/// A page in the middle of the screen.
pub open spec fn page_panel(
    screen: Rect,
    width: u16,
    height: u16,
    title: Seq<char>,
    text: Seq<char>,
) -> PanelView {
    PanelView { area: middle_of(screen, width, height), title, body: BodyView::Page(text) }
}

fn page_of(screen: Rect, width: u16, height: u16, title: String, text: String) -> (panel: Panel)
    requires
        screen.wf(),
    ensures
        panel@ == page_panel(screen, width, height, title@, text@),
{
    Panel { area: centered(screen, width, height), title, body: PanelBody::Page(text) }
}

/// A menu below its title, as wide as its longest entry.
pub open spec fn menu_panel(screen: Rect, titles: Seq<Rect>, menu: int, selected: int) -> PanelView {
    let items = menu_items(menu);
    let x = if 0 <= menu < titles.len() {
        titles[menu].x
    } else {
        screen.x
    };
    let width = lesser(
        framed(greatest(items.map_values(|item: (Seq<char>, Action)| encode_utf8(item.0).len() as int)))
            as int,
        screen.width as int,
    );
    PanelView {
        area: Rect::at(
            x as int,
            screen.y + 1,
            lesser(width, u16::MAX - x),
            lesser(framed(items.len() as int) as int, u16::MAX - (screen.y + 1)),
        ),
        title: Seq::empty(),
        body: BodyView::Choices {
            labels: items.map_values(|item: (Seq<char>, Action)| item.0),
            selected,
        },
    }
}

/// A list of what can be done, at the point that was clicked, or else beside the row under the
/// cursor.
pub open spec fn context_panel(
    screen: Rect,
    at: Option<(u16, u16)>,
    list: Rect,
    row: int,
    offset: int,
    items: Seq<(Seq<char>, Action)>,
    selected: int,
) -> PanelView {
    let (x, y) = context_origin(at, list, row, offset);
    PanelView {
        area: popup_at(
            screen,
            x as u16,
            y as u16,
            framed(greatest(items.map_values(|item: (Seq<char>, Action)| item.0.len() as int))),
            framed(items.len() as int),
        ),
        title: " Actions "@,
        body: BodyView::Choices {
            labels: items.map_values(|item: (Seq<char>, Action)| item.0),
            selected,
        },
    }
}

/// A file picker over most of the screen.
pub open spec fn picker_panel(screen: Rect, picker: PickerView) -> PanelView {
    let area = middle_of(
        screen,
        lesser(excess(screen.width as int, 10), 86) as u16,
        lesser(excess(screen.height as int, 6), 28) as u16,
    );
    PanelView {
        area,
        title: if picker.mode == PickerMode::Files {
            " Add file "@
        } else {
            " Add folder "@
        },
        body: BodyView::Picker {
            places: picker_places_of(area.within_border()),
            directory: shown_path(picker.directory),
            labels: picker.entries.map_values(|entry: PickerEntryView| picker_line(entry)),
            row: if picker.entries.len() > 0 {
                Some(picker.selected)
            } else {
                None
            },
            keys: if picker.mode == PickerMode::Folder {
                "Enter: open directory   A: add current folder   Esc: cancel"@
            } else {
                "Enter: open directory or add file   Esc: cancel"@
            },
        },
    }
}

fn menu_popup(screen: Rect, titles: &Vec<Rect>, menu: usize, selected: usize) -> (panel: Panel)
    requires
        screen.wf(),
        screen.height > 0,
    ensures
        panel@ == menu_panel(screen, titles@, menu as int, selected as int),
{
    let items = menu_actions(menu);
    let ghost said = menu_items(menu as int);
    let ghost sizes = said.map_values(|item: (Seq<char>, Action)| encode_utf8(item.0).len() as int);
    let ghost texts = said.map_values(|item: (Seq<char>, Action)| item.0);
    let mut labels: Vec<String> = Vec::new();
    let mut widest: usize = 10;
    let mut i: usize = 0;
    assert(said.len() == items@.len());
    assert(sizes.take(0) =~= Seq::empty());
    while i < items.len()
        invariant
            i <= items@.len(),
            said == labelled(items@),
            sizes == said.map_values(
                |item: (Seq<char>, Action)| encode_utf8(item.0).len() as int,
            ),
            texts == said.map_values(|item: (Seq<char>, Action)| item.0),
            views(labels@) =~= texts.take(i as int),
            widest == greatest(sizes.take(i as int)),
        decreases items@.len() - i,
    {
        let label: &'static str = items[i].0;
        assert(said[i as int].0 == label@);
        let size: usize = label.as_bytes().len();
        assert(sizes[i as int] == size);
        assert(sizes.take(i + 1).drop_last() =~= sizes.take(i as int));
        let ghost earlier = labels@;
        labels.push(label.to_owned());
        assert(views(labels@) =~= views(earlier).push(label@));
        if i == 0 || size > widest {
            widest = size;
        }
        i = i + 1;
        assert(texts.take(i as int) =~= texts.take(i - 1).push(texts[i - 1]));
    }
    assert(sizes.take(i as int) =~= sizes);
    assert(texts.take(i as int) =~= texts);
    let x: u16 = if menu < titles.len() { titles[menu].x } else { screen.x };
    let width: u16 = with_frame(widest);
    let area = Rect::new(
        x,
        screen.y + 1,
        if width < screen.width { width } else { screen.width },
        with_frame(items.len()),
    );
    let title = String::new();
    assert(title@ =~= Seq::empty());
    Panel { area, title, body: PanelBody::Choices { labels, selected } }
}

fn context_popup(
    screen: Rect,
    at: Option<(u16, u16)>,
    list: Rect,
    row: usize,
    offset: usize,
    items: &Vec<(String, Action)>,
    selected: usize,
) -> (panel: Panel)
    requires
        screen.wf(),
    ensures
        panel@ == context_panel(
            screen,
            at,
            list,
            row as int,
            offset as int,
            context_items(items@),
            selected as int,
        ),
{
    let ghost said = context_items(items@);
    let ghost sizes = said.map_values(|item: (Seq<char>, Action)| item.0.len() as int);
    let ghost texts = said.map_values(|item: (Seq<char>, Action)| item.0);
    let mut labels: Vec<String> = Vec::new();
    let mut widest: usize = 10;
    let mut i: usize = 0;
    assert(sizes.take(0) =~= Seq::empty());
    while i < items.len()
        invariant
            i <= items@.len(),
            said == context_items(items@),
            sizes == said.map_values(|item: (Seq<char>, Action)| item.0.len() as int),
            texts == said.map_values(|item: (Seq<char>, Action)| item.0),
            views(labels@) =~= texts.take(i as int),
            widest == greatest(sizes.take(i as int)),
        decreases items@.len() - i,
    {
        let label = items[i].0.clone();
        assert(said[i as int].0 == label@);
        let chars = chars_of(&label);
        let size: usize = chars.len();
        assert(sizes[i as int] == size);
        assert(sizes.take(i + 1).drop_last() =~= sizes.take(i as int));
        let ghost earlier = labels@;
        labels.push(label);
        assert(views(labels@) =~= views(earlier).push(label@));
        if i == 0 || size > widest {
            widest = size;
        }
        i = i + 1;
        assert(texts.take(i as int) =~= texts.take(i - 1).push(texts[i - 1]));
    }
    assert(sizes.take(i as int) =~= sizes);
    assert(texts.take(i as int) =~= texts);
    let (x, y) = context_menu_origin(at, list, row, offset);
    let area = place_popup(screen, x, y, with_frame(widest), with_frame(items.len()));
    Panel { area, title: " Actions ".to_owned(), body: PanelBody::Choices { labels, selected } }
}

fn picker_popup(screen: Rect, picker: &PathPicker) -> (panel: Panel)
    requires
        screen.wf(),
        screen.width >= MIN_WIDTH,
        screen.height >= MIN_HEIGHT,
    ensures
        panel@ == picker_panel(screen, picker@),
{
    let width: u16 = screen.width.saturating_sub(10);
    let height: u16 = screen.height.saturating_sub(6);
    let area = centered(
        screen,
        if width < 86 { width } else { 86 },
        if height < 28 { height } else { 28 },
    );
    let ghost lines = picker@.entries.map_values(|entry: PickerEntryView| picker_line(entry));
    let mut labels: Vec<String> = Vec::new();
    let mut i: usize = 0;
    while i < picker.entries.len()
        invariant
            i <= picker.entries@.len(),
            picker@.entries == picker_entries(picker.entries@),
            lines == picker@.entries.map_values(|entry: PickerEntryView| picker_line(entry)),
            views(labels@) =~= lines.take(i as int),
        decreases picker.entries@.len() - i,
    {
        let label = picker_row_text(&picker.entries[i]);
        let ghost earlier = labels@;
        labels.push(label);
        assert(views(labels@) =~= views(earlier).push(label@));
        i = i + 1;
        assert(lines.take(i as int) =~= lines.take(i - 1).push(lines[i - 1]));
    }
    assert(lines.take(i as int) =~= lines);
    Panel {
        area,
        title: match picker.mode {
            PickerMode::Files => " Add file ".to_owned(),
            PickerMode::Folder => " Add folder ".to_owned(),
        },
        body: PanelBody::Picker {
            places: picker_places(area.inner()),
            directory: show_path(&picker.directory),
            labels,
            row: if picker.entries.len() > 0 { Some(picker.selected) } else { None },
            keys: match picker.mode {
                PickerMode::Folder =>
                    "Enter: open directory   A: add current folder   Esc: cancel",
                PickerMode::Files => "Enter: open directory or add file   Esc: cancel",
            },
        },
    }
}

fn help_popup(screen: Rect, help: &HelpView) -> (panel: Panel)
    requires
        screen.wf(),
    ensures
        panel@ == (PanelView {
            area: middle_of(screen, 68, 24),
            title: " Help "@,
            body: BodyView::Choices {
                labels: help@.rows().map_values(|row: HelpRowView| help_line(row)),
                selected: help@.selected as int,
            },
        }),
{
    let rows = help.visible_rows();
    let ghost lines = help@.rows().map_values(|row: HelpRowView| help_line(row));
    let mut labels: Vec<String> = Vec::new();
    let mut i: usize = 0;
    assert(help@.rows().len() == rows@.len());
    while i < rows.len()
        invariant
            i <= rows@.len(),
            crate::help::help_views(rows@) == help@.rows(),
            lines == help@.rows().map_values(|row: HelpRowView| help_line(row)),
            views(labels@) =~= lines.take(i as int),
        decreases rows@.len() - i,
    {
        assert(help@.rows()[i as int] == rows@[i as int]@);
        let label = help_row_text(rows[i]);
        let ghost earlier = labels@;
        labels.push(label);
        assert(views(labels@) =~= views(earlier).push(label@));
        i = i + 1;
        assert(lines.take(i as int) =~= lines.take(i - 1).push(lines[i - 1]));
    }
    assert(lines.take(i as int) =~= lines);
    Panel {
        area: centered(screen, 68, 24),
        title: " Help ".to_owned(),
        body: PanelBody::Choices { labels, selected: help.selected },
    }
}

impl AppView {
    /// The popup over a screen: `titles` is where the menus are, `list` the list behind and
    /// `offset` the row it is scrolled to, and `addresses` how the found servers' addresses
    /// are written.
    pub open spec fn panel(
        self,
        screen: Rect,
        titles: Seq<Rect>,
        list: Rect,
        offset: int,
        addresses: Seq<Seq<char>>,
    ) -> Option<PanelView> {
        match self.front.overlay {
            OverlayView::Closed => None,
            OverlayView::Help(help) => Some(
                PanelView {
                    area: middle_of(screen, 68, 24),
                    title: " Help "@,
                    body: BodyView::Choices {
                        labels: help.rows().map_values(|row: HelpRowView| help_line(row)),
                        selected: help.selected as int,
                    },
                },
            ),
            OverlayView::Menu { menu, selected } => Some(
                menu_panel(screen, titles, menu, selected),
            ),
            OverlayView::PathPicker(picker) => Some(picker_panel(screen, picker)),
            OverlayView::Rename { text, .. } => Some(
                page_panel(
                    screen,
                    48,
                    5,
                    " Rename playlist "@,
                    text + "█\n\nEnter: save    Esc: cancel"@,
                ),
            ),
            OverlayView::Connect { text, discovered } => Some(
                page_panel(
                    screen,
                    56,
                    if discovered.len() < 5 {
                        10
                    } else {
                        lesser(discovered.len() as int + 5, u16::MAX as int) as u16
                    },
                    " Connect to server "@,
                    connect_text(text, discovered, addresses),
                ),
            ),
            OverlayView::Pair { text } => Some(
                page_panel(
                    screen,
                    48,
                    6,
                    " Pair "@,
                    "Enter the 6-digit code from the server.\n\n"@ + text
                        + "█\n\nEnter: pair    Esc: cancel"@,
                ),
            ),
            OverlayView::ContextMenu { selected, items, at } => Some(
                context_panel(
                    screen,
                    at,
                    list,
                    self.soulseek.ui.selected as int,
                    offset,
                    items,
                    selected,
                ),
            ),
            OverlayView::Properties { title, body } => Some(
                page_panel(screen, 72, 16, title, body),
            ),
        }
    }
}

/// The popup over the screen, where there is one.
pub fn panel<E: AudioEngine>(
    app: &App<E>,
    screen: Rect,
    regions: &UiRegions,
    addresses: &Vec<String>,
) -> (panel: Option<Panel>)
    requires
        screen.wf(),
        screen.width >= MIN_WIDTH,
        screen.height >= MIN_HEIGHT,
        app@.front.overlay matches OverlayView::Connect { discovered, .. }
            ==> addresses@.len() == discovered.len(),
    ensures
        match panel {
            Some(panel) => app@.panel(
                screen,
                regions.menu@,
                regions.playlist,
                regions.playlist_offset as int,
                views(addresses@),
            ) == Some(panel@),
            None => app@.front.overlay is Closed,
        },
{
    match &app.front.overlay {
        Overlay::Closed => None,
        Overlay::Help(help) => Some(help_popup(screen, help)),
        Overlay::Menu { menu, selected } => Some(
            menu_popup(screen, &regions.menu, *menu, *selected),
        ),
        Overlay::PathPicker(picker) => Some(picker_popup(screen, picker)),
        Overlay::Rename { text, .. } => {
            let mut page = text.clone();
            page.append("█\n\nEnter: save    Esc: cancel");
            Some(page_of(screen, 48, 5, " Rename playlist ".to_owned(), page))
        },
        Overlay::Connect { text, discovered } => {
            let found: usize = discovered.len();
            let height: u16 = if found < 5 {
                10
            } else if found < 65530 {
                found as u16 + 5
            } else {
                65535
            };
            let page = connect_page(text, discovered, addresses);
            Some(page_of(screen, 56, height, " Connect to server ".to_owned(), page))
        },
        Overlay::Pair { text } => {
            let mut page = "Enter the 6-digit code from the server.\n\n".to_owned();
            page.append(text);
            page.append("█\n\nEnter: pair    Esc: cancel");
            Some(page_of(screen, 48, 6, " Pair ".to_owned(), page))
        },
        Overlay::ContextMenu { selected, items, at } => Some(
            context_popup(
                screen,
                *at,
                regions.playlist,
                app.soulseek.ui.selected,
                regions.playlist_offset,
                items,
                *selected,
            ),
        ),
        Overlay::Properties { title, body } => Some(
            page_of(screen, 72, 16, title.clone(), body.clone()),
        ),
    }
}

} // verus!
