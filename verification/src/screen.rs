//! How the screen is divided.

use ratatui::layout::Layout;
use vstd::prelude::*;

use crate::layout::{
    album_width, art_height, art_panel_height, equalizer_height, law_artwork_leaves_room,
    list_width, spectrum_height, Rect, MIN_HEIGHT, MIN_WIDTH,
};

verus! {

/// How much of a side a part takes: a number of cells, or all that the others leave, which is
/// at least a number of cells.
#[derive(Clone, Copy, Debug, PartialEq, Eq, Structural)]
pub enum Part {
    Cells(u16),
    Rest(u16),
}

impl Part {
    /// The cells that the part takes, where `spare` cells are claimed by no part.
    pub open spec fn length(self, spare: int) -> int {
        match self {
            Part::Cells(cells) => cells as int,
            Part::Rest(cells) => cells + spare,
        }
    }
}

/// The cells that the first `n` parts take together.
pub open spec fn taken(parts: Seq<Part>, spare: int, n: int) -> int
    decreases n,
{
    if n <= 0 {
        0
    } else {
        taken(parts, spare, n - 1) + parts[n - 1].length(spare)
    }
}

/// The cells that a side has to have.
pub open spec fn claimed(parts: Seq<Part>) -> int {
    taken(parts, 0, parts.len() as int)
}

/// Whether parts can divide a side: there is room for all, and no two want the rest.
pub open spec fn divides(parts: Seq<Part>, side: u16) -> bool {
    &&& claimed(parts) <= side
    &&& forall|i: int, j: int|
        0 <= i < j < parts.len() && parts[i] is Rest ==> parts[j] is Cells
}

/// The parts of a rectangle from top to bottom.
pub open spec fn stacked(area: Rect, parts: Seq<Part>) -> Seq<Rect> {
    let spare = area.height - claimed(parts);
    Seq::new(
        parts.len(),
        |i: int|
            Rect::at(
                area.x as int,
                area.y + taken(parts, spare, i),
                area.width as int,
                parts[i].length(spare),
            ),
    )
}

/// The parts of a rectangle from left to right.
pub open spec fn side_by_side(area: Rect, parts: Seq<Part>) -> Seq<Rect> {
    let spare = area.width - claimed(parts);
    Seq::new(
        parts.len(),
        |i: int|
            Rect::at(
                area.x + taken(parts, spare, i),
                area.y as int,
                parts[i].length(spare),
                area.height as int,
            ),
    )
}

/// `Layout::split` of a vertical layout of `Length` and at most one `Min`: where there is room
/// for all, each `Length` is kept, the `Min` gets what they leave, and the parts follow one
/// another without a gap. Nothing is said of a layout that does not fit.
#[verifier::external_body]
fn rows_of(area: Rect, parts: &Vec<Part>) -> (rows: Vec<Rect>)
    requires
        area.wf(),
        divides(parts@, area.height),
    ensures
        rows@ == stacked(area, parts@),
{
    let sizes = parts.iter().map(|part| match part {
        Part::Cells(cells) => ratatui::layout::Constraint::Length(*cells),
        Part::Rest(cells) => ratatui::layout::Constraint::Min(*cells),
    });
    let whole = ratatui::layout::Rect::new(area.x, area.y, area.width, area.height);
    let rows = Layout::vertical(sizes).split(whole);
    rows.iter().map(|r| Rect { x: r.x, y: r.y, width: r.width, height: r.height }).collect()
}

/// `Layout::split` of a horizontal layout, of which the same is said as of a vertical one.
#[verifier::external_body]
fn columns_of(area: Rect, parts: &Vec<Part>) -> (columns: Vec<Rect>)
    requires
        area.wf(),
        divides(parts@, area.width),
    ensures
        columns@ == side_by_side(area, parts@),
{
    let sizes = parts.iter().map(|part| match part {
        Part::Cells(cells) => ratatui::layout::Constraint::Length(*cells),
        Part::Rest(cells) => ratatui::layout::Constraint::Min(*cells),
    });
    let whole = ratatui::layout::Rect::new(area.x, area.y, area.width, area.height);
    let columns = Layout::horizontal(sizes).split(whole);
    columns.iter().map(|r| Rect { x: r.x, y: r.y, width: r.width, height: r.height }).collect()
}

/// The four bands of the screen.
#[derive(Clone, Copy, Debug, PartialEq, Eq, Structural)]
pub struct Bands {
    pub menu: Rect,
    pub toolbar: Rect,
    pub content: Rect,
    pub status: Rect,
}

/// A line for the menus, one for the buttons, and one for the status at the bottom.
pub open spec fn bands_of(area: Rect) -> Bands {
    Bands {
        menu: Rect { height: 1, ..area },
        toolbar: Rect { y: (area.y + 1) as u16, height: 1, ..area },
        content: Rect { y: (area.y + 2) as u16, height: (area.height - 3) as u16, ..area },
        status: Rect { y: (area.y + area.height - 1) as u16, height: 1, ..area },
    }
}

/// Divides the screen.
pub fn bands(area: Rect) -> (bands: Bands)
    requires
        area.wf(),
        area.height >= MIN_HEIGHT,
    ensures
        bands == bands_of(area),
{
    let parts: Vec<Part> = vec![Part::Cells(1), Part::Cells(1), Part::Rest(10), Part::Cells(1)];
    proof {
        reveal_with_fuel(taken, 5);
    }
    let rows = rows_of(area, &parts);
    Bands { menu: rows[0], toolbar: rows[1], content: rows[2], status: rows[3] }
}

/// Where the library, the artwork, the tabs and the open tab stand.
#[derive(Clone, Copy, Debug, PartialEq, Eq)]
pub struct Places {
    pub albums: Rect,
    pub art: Option<Rect>,
    pub tabs: Rect,
    pub body: Rect,
}

/// How many rows the artwork takes: none where there is no room for six.
pub open spec fn art_rows(area: Rect, shown: bool) -> int {
    let height = art_height(list_width(area.width) as u16, area.height);
    if shown && height >= 6 {
        height
    } else {
        0
    }
}

/// The library on the left, above the artwork; the open tab on the right, below the tabs.
pub open spec fn places_of(area: Rect, art_shown: bool) -> Places {
    let left = list_width(area.width);
    let art = art_rows(area, art_shown);
    let right = Rect {
        x: (area.x + left) as u16,
        width: (area.width - left) as u16,
        ..area
    };
    Places {
        albums: Rect { width: left as u16, height: (area.height - art) as u16, ..area },
        art: if art > 0 {
            Some(
                Rect::at(area.x as int, area.y + area.height - art, left, art),
            )
        } else {
            None
        },
        tabs: Rect { height: 3, ..right },
        body: Rect { y: (area.y + 3) as u16, height: (area.height - 3) as u16, ..right },
    }
}

/// Divides what lies between the buttons and the status line.
pub fn places(area: Rect, art_shown: bool) -> (places: Places)
    requires
        area.wf(),
        area.width >= MIN_WIDTH,
        area.height >= MIN_HEIGHT - 3,
    ensures
        places == places_of(area, art_shown),
{
    let width: u16 = album_width(area.width);
    let parts: Vec<Part> = vec![Part::Cells(width), Part::Rest(30)];
    proof {
        reveal_with_fuel(taken, 3);
        law_artwork_leaves_room(width, area.height);
    }
    let columns = columns_of(area, &parts);
    let left = columns[0];
    let art: u16 = if art_shown { art_panel_height(left.width, area.height) } else { 0 };
    let (albums, art) = if art >= 6 {
        let parts: Vec<Part> = vec![Part::Rest(6), Part::Cells(art)];
        let rows = rows_of(left, &parts);
        (rows[0], Some(rows[1]))
    } else {
        let parts: Vec<Part> = vec![Part::Rest(6)];
        let rows = rows_of(left, &parts);
        (rows[0], None)
    };
    let parts: Vec<Part> = vec![Part::Cells(3), Part::Rest(5)];
    let rows = rows_of(columns[1], &parts);
    Places { albums, art, tabs: rows[0], body: rows[1] }
}

/// A line to type into, above a list, where it is shown.
pub open spec fn filter_places(area: Rect, shown: bool) -> (Option<Rect>, Rect) {
    if shown {
        (
            Some(Rect { height: 3, ..area }),
            Rect { y: (area.y + 3) as u16, height: (area.height - 3) as u16, ..area },
        )
    } else {
        (None, area)
    }
}

/// Divides a list from the line to type into.
pub fn filter_and_list(area: Rect, shown: bool) -> (places: (Option<Rect>, Rect))
    requires
        area.wf(),
        area.height >= 6,
    ensures
        places == filter_places(area, shown),
{
    if !shown {
        return (None, area);
    }
    let parts: Vec<Part> = vec![Part::Cells(3), Part::Rest(3)];
    proof {
        reveal_with_fuel(taken, 3);
    }
    let rows = rows_of(area, &parts);
    (Some(rows[0]), rows[1])
}

/// The playlist, and the equalizer below it, where it is shown and there is room for both.
pub open spec fn playlist_places(area: Rect, spectrum_shown: bool) -> (Rect, Option<Rect>) {
    let height = spectrum_height(area.height);
    if spectrum_shown && height > 0 {
        (
            Rect { height: (area.height - height) as u16, ..area },
            Some(Rect { y: (area.y + area.height - height) as u16, height, ..area }),
        )
    } else {
        (area, None)
    }
}

/// Divides the playlist from the equalizer.
pub fn playlist_and_equalizer(area: Rect, spectrum_shown: bool) -> (places: (Rect, Option<Rect>))
    requires
        area.wf(),
    ensures
        places == playlist_places(area, spectrum_shown),
{
    let height: u16 = if spectrum_shown { equalizer_height(area.height) } else { 0 };
    if height == 0 {
        return (area, None);
    }
    let parts: Vec<Part> = vec![Part::Rest(5), Part::Cells(height)];
    proof {
        reveal_with_fuel(taken, 3);
    }
    let rows = rows_of(area, &parts);
    (rows[0], Some(rows[1]))
}

/// Where the line to search by, the filters and the results stand.
#[derive(Clone, Copy, Debug, PartialEq, Eq)]
pub struct SearchPlaces {
    pub query: Rect,
    pub filters: Option<Rect>,
    pub results: Rect,
}

/// The line to search by, and below it the filters, but for those who sign in.
pub open spec fn search_places_of(area: Rect, signing_in: bool) -> SearchPlaces {
    let above = if signing_in {
        3
    } else {
        6int
    };
    SearchPlaces {
        query: Rect { height: 3, ..area },
        filters: if signing_in {
            None
        } else {
            Some(Rect { y: (area.y + 3) as u16, height: 3, ..area })
        },
        results: Rect {
            y: (area.y + above) as u16,
            height: (area.height - above) as u16,
            ..area
        },
    }
}

/// Divides the Soulseek tab.
pub fn search_places(area: Rect, signing_in: bool) -> (places: SearchPlaces)
    requires
        area.wf(),
        area.height >= 9,
    ensures
        places == search_places_of(area, signing_in),
{
    proof {
        reveal_with_fuel(taken, 4);
    }
    if signing_in {
        let parts: Vec<Part> = vec![Part::Cells(3), Part::Rest(3)];
        let rows = rows_of(area, &parts);
        SearchPlaces { query: rows[0], filters: None, results: rows[1] }
    } else {
        let parts: Vec<Part> = vec![Part::Cells(3), Part::Cells(3), Part::Rest(3)];
        let rows = rows_of(area, &parts);
        SearchPlaces { query: rows[0], filters: Some(rows[1]), results: rows[2] }
    }
}

/// Where the folder, its entries and the keys stand in a file picker.
#[derive(Clone, Copy, Debug, PartialEq, Eq, Structural)]
pub struct PickerPlaces {
    pub head: Rect,
    pub list: Rect,
    pub foot: Rect,
}

/// Two lines above and two below the entries.
pub open spec fn picker_places_of(area: Rect) -> PickerPlaces {
    PickerPlaces {
        head: Rect { height: 2, ..area },
        list: Rect { y: (area.y + 2) as u16, height: (area.height - 4) as u16, ..area },
        foot: Rect { y: (area.y + area.height - 2) as u16, height: 2, ..area },
    }
}

/// Divides a file picker.
pub fn picker_places(area: Rect) -> (places: PickerPlaces)
    requires
        area.wf(),
        area.height >= 7,
    ensures
        places == picker_places_of(area),
{
    let parts: Vec<Part> = vec![Part::Cells(2), Part::Rest(3), Part::Cells(2)];
    proof {
        reveal_with_fuel(taken, 4);
    }
    let rows = rows_of(area, &parts);
    PickerPlaces { head: rows[0], list: rows[1], foot: rows[2] }
}

/// The parts of the screen: the three lines, the library, the artwork, the tabs and the open
/// tab.
pub open spec fn panels_of(area: Rect, art_shown: bool) -> Seq<Rect> {
    let bands = bands_of(area);
    let places = places_of(bands.content, art_shown);
    let art = match places.art {
        Some(art) => art,
        None => Rect::empty(),
    };
    seq![
        bands.menu,
        bands.toolbar,
        places.albums,
        art,
        places.tabs,
        places.body,
        bands.status,
    ]
}

/// Every cell of the screen belongs to one part of it, and to one only.
pub proof fn law_every_cell_has_one_part(area: Rect, art_shown: bool, point: (u16, u16))
    requires
        area.wf(),
        area.width >= MIN_WIDTH,
        area.height >= MIN_HEIGHT,
    ensures
        area.has(point) <==> exists|i: int|
            0 <= i < 7 && (#[trigger] panels_of(area, art_shown)[i]).has(point),
        forall|i: int, j: int|
            0 <= i < j < 7 && (#[trigger] panels_of(area, art_shown)[i]).has(point)
                ==> !(#[trigger] panels_of(area, art_shown)[j]).has(point),
{
    let panels = panels_of(area, art_shown);
    law_artwork_leaves_room(list_width(area.width) as u16, (area.height - 3) as u16);
    if area.has(point) {
        let b = bands_of(area);
        let p = places_of(b.content, art_shown);
        let i: int = if b.menu.has(point) {
            0
        } else if b.toolbar.has(point) {
            1
        } else if b.status.has(point) {
            6
        } else if p.albums.has(point) {
            2
        } else if p.tabs.has(point) {
            4
        } else if p.body.has(point) {
            5
        } else {
            3
        };
        assert(panels[i].has(point));
    }
}

/// The equalizer stands right under the playlist, as wide as it, and the two fill the tab; the
/// line that narrows the playlist stands right above it.
pub proof fn law_the_equalizer_is_under_the_playlist(
    body: Rect,
    spectrum_shown: bool,
    filter_shown: bool,
)
    requires
        body.wf(),
        body.height >= MIN_HEIGHT - 6,
    ensures
        ({
            let (table, equalizer) = playlist_places(body, spectrum_shown);
            let (filter, list) = filter_places(table, filter_shown);
            &&& list.inside(body) && list.x == body.x && list.width == body.width
            &&& list.height >= 3
            &&& match equalizer {
                Some(equalizer) => {
                    &&& equalizer.y == list.y + list.height
                    &&& equalizer.x == list.x && equalizer.width == list.width
                    &&& equalizer.y + equalizer.height == body.y + body.height
                },
                None => list.y + list.height == body.y + body.height,
            }
            &&& match filter {
                Some(filter) => filter.y == body.y && filter.y + filter.height == list.y,
                None => list.y == body.y,
            }
        }),
{
}

} // verus!
