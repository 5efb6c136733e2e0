//! Where things stand on the screen.

use vstd::prelude::*;
use vstd::string::*;

use crate::model::PlaylistColumn;
use crate::text::chars_of;

verus! {

/// The narrowest and the lowest screen that the player draws on.
pub const MIN_WIDTH: u16 = 70;

pub const MIN_HEIGHT: u16 = 20;

/// The width of a button.
pub const CONTROL_WIDTH: u16 = 5;

/// The width below which the seek bar gives up its labels.
pub const MIN_SEEK: u16 = 4;

/// A rectangle of cells.
#[derive(Clone, Copy, Debug, PartialEq, Eq, Structural)]
pub struct Rect {
    pub x: u16,
    pub y: u16,
    pub width: u16,
    pub height: u16,
}

pub open spec fn lesser(a: int, b: int) -> int {
    if a < b {
        a
    } else {
        b
    }
}

/// `a - b`, or zero where that is negative.
pub open spec fn excess(a: int, b: int) -> int {
    if a > b {
        a - b
    } else {
        0
    }
}

impl Rect {
    pub open spec fn empty() -> Rect {
        Rect { x: 0, y: 0, width: 0, height: 0 }
    }

    /// Whether the rectangle lies within the coordinates that a cell can have.
    pub open spec fn wf(self) -> bool {
        self.x + self.width <= u16::MAX && self.y + self.height <= u16::MAX
    }

    /// The first column to the right.
    pub open spec fn right_edge(self) -> int {
        lesser(self.x + self.width, u16::MAX as int)
    }

    /// The first row below.
    pub open spec fn bottom_edge(self) -> int {
        lesser(self.y + self.height, u16::MAX as int)
    }

    /// Whether a cell lies in the rectangle: the first column to the right and the first row
    /// below are outside.
    pub open spec fn has(self, point: (u16, u16)) -> bool {
        self.x <= point.0 < self.right_edge() && self.y <= point.1 < self.bottom_edge()
    }

    /// Whether the rectangle lies in another.
    pub open spec fn inside(self, outer: Rect) -> bool {
        &&& outer.x <= self.x && self.x + self.width <= outer.x + outer.width
        &&& outer.y <= self.y && self.y + self.height <= outer.y + outer.height
    }

    /// The rectangle at these integers.
    pub open spec fn at(x: int, y: int, width: int, height: int) -> Rect {
        Rect { x: x as u16, y: y as u16, width: width as u16, height: height as u16 }
    }

    /// A rectangle, cut off where the coordinates end.
    pub fn new(x: u16, y: u16, width: u16, height: u16) -> (rect: Rect)
        ensures
            rect.wf(),
            rect == Rect::at(
                x as int,
                y as int,
                lesser(width as int, u16::MAX - x),
                lesser(height as int, u16::MAX - y),
            ),
    {
        let across: u16 = u16::MAX - x;
        let down: u16 = u16::MAX - y;
        Rect {
            x,
            y,
            width: if width < across { width } else { across },
            height: if height < down { height } else { down },
        }
    }

    pub fn none() -> (rect: Rect)
        ensures
            rect == Rect::empty(),
    {
        Rect { x: 0, y: 0, width: 0, height: 0 }
    }

    pub fn right(self) -> (column: u16)
        ensures
            column == self.right_edge(),
    {
        self.x.saturating_add(self.width)
    }

    pub fn bottom(self) -> (row: u16)
        ensures
            row == self.bottom_edge(),
    {
        self.y.saturating_add(self.height)
    }

    /// What is left inside a border one cell wide.
    pub open spec fn within_border(self) -> Rect {
        if self.width < 2 || self.height < 2 {
            Rect::empty()
        } else {
            Rect::at(
                lesser(self.x + 1, u16::MAX as int),
                lesser(self.y + 1, u16::MAX as int),
                self.width - 2,
                self.height - 2,
            )
        }
    }

    pub fn inner(self) -> (rect: Rect)
        ensures
            rect == self.within_border(),
    {
        if self.width < 2 || self.height < 2 {
            Rect::none()
        } else {
            Rect {
                x: self.x.saturating_add(1),
                y: self.y.saturating_add(1),
                width: self.width - 2,
                height: self.height - 2,
            }
        }
    }
}

/// Whether a cell lies in a rectangle.
pub fn contains(rect: Rect, point: (u16, u16)) -> (found: bool)
    ensures
        found == rect.has(point),
{
    point.0 >= rect.x && point.0 < rect.right() && point.1 >= rect.y && point.1 < rect.bottom()
}

/// A popup of at most this size in the middle of a rectangle.
pub open spec fn middle_of(outer: Rect, width: u16, height: u16) -> Rect {
    let w = lesser(width as int, outer.width as int);
    let h = lesser(height as int, outer.height as int);
    Rect::at(outer.x + (outer.width - w) / 2, outer.y + (outer.height - h) / 2, w, h)
}

pub fn centered(outer: Rect, width: u16, height: u16) -> (rect: Rect)
    requires
        outer.wf(),
    ensures
        rect == middle_of(outer, width, height),
        rect.inside(outer),
{
    let width: u16 = if width < outer.width { width } else { outer.width };
    let height: u16 = if height < outer.height { height } else { outer.height };
    Rect {
        x: outer.x + (outer.width - width) / 2,
        y: outer.y + (outer.height - height) / 2,
        width,
        height,
    }
}

/// The nearest place to a point at which a popup stays inside a rectangle.
pub open spec fn popup_at(outer: Rect, x: u16, y: u16, width: u16, height: u16) -> Rect {
    let w = lesser(width as int, outer.width as int);
    let h = lesser(height as int, outer.height as int);
    let left = lesser(x as int, outer.x + outer.width - w);
    let top = lesser(y as int, outer.y + outer.height - h);
    Rect::at(
        if left < outer.x { outer.x as int } else { left },
        if top < outer.y { outer.y as int } else { top },
        w,
        h,
    )
}

pub fn place_popup(outer: Rect, x: u16, y: u16, width: u16, height: u16) -> (rect: Rect)
    requires
        outer.wf(),
    ensures
        rect == popup_at(outer, x, y, width, height),
        rect.inside(outer),
{
    let width: u16 = if width < outer.width { width } else { outer.width };
    let height: u16 = if height < outer.height { height } else { outer.height };
    let right: u16 = outer.x + (outer.width - width);
    let bottom: u16 = outer.y + (outer.height - height);
    let left: u16 = if x < right { x } else { right };
    let top: u16 = if y < bottom { y } else { bottom };
    Rect {
        x: if left < outer.x { outer.x } else { left },
        y: if top < outer.y { outer.y } else { top },
        width,
        height,
    }
}

/// A popup in the middle lies inside, and leaves as much on the left as on the right and above
/// as below, give or take a cell.
pub proof fn law_centered_popups_are_in_the_middle(outer: Rect, width: u16, height: u16)
    requires
        outer.wf(),
    ensures
        middle_of(outer, width, height).inside(outer),
        ({
            let rect = middle_of(outer, width, height);
            let left = rect.x - outer.x;
            let right = outer.x + outer.width - (rect.x + rect.width);
            left <= right <= left + 1
        }),
        ({
            let rect = middle_of(outer, width, height);
            let above = rect.y - outer.y;
            let below = outer.y + outer.height - (rect.y + rect.height);
            above <= below <= above + 1
        }),
{
}

/// A popup stays inside, and stands at the point itself where it fits there.
pub proof fn law_popups_stay_inside(outer: Rect, x: u16, y: u16, width: u16, height: u16)
    requires
        outer.wf(),
    ensures
        popup_at(outer, x, y, width, height).inside(outer),
        ({
            let wanted = Rect { x, y, width, height };
            wanted.inside(outer) ==> popup_at(outer, x, y, width, height) == wanted
        }),
{
}

/// How high the artwork is: about as high as it is wide, and never at the expense of the list.
pub open spec fn art_height(column_width: u16, content_height: u16) -> int {
    let square = lesser(column_width + 1, u16::MAX as int) / 2 + 2;
    let wanted = if square < 8 {
        8
    } else if square > 18 {
        18
    } else {
        square
    };
    lesser(wanted, excess(content_height as int, 8))
}

pub fn art_panel_height(column_width: u16, content_height: u16) -> (height: u16)
    ensures
        height == art_height(column_width, content_height),
{
    let square: u16 = column_width.saturating_add(1) / 2 + 2;
    let wanted: u16 = if square < 8 {
        8
    } else if square > 18 {
        18
    } else {
        square
    };
    let room: u16 = content_height.saturating_sub(8);
    if wanted < room {
        wanted
    } else {
        room
    }
}

/// Eight rows stay for the album list, or all there are.
pub proof fn law_artwork_leaves_room(column_width: u16, content_height: u16)
    ensures
        art_height(column_width, content_height) <= 18,
        content_height >= 8 ==> content_height - art_height(column_width, content_height) >= 8,
        content_height < 8 ==> art_height(column_width, content_height) == 0,
{
}

/// How high the equalizer is in a pane of this height.
pub open spec fn spectrum_height(body_height: u16) -> u16 {
    if body_height >= 13 {
        8
    } else if body_height >= 11 {
        6
    } else {
        0
    }
}

pub fn equalizer_height(body_height: u16) -> (height: u16)
    ensures
        height == spectrum_height(body_height),
        height > 0 ==> body_height - height >= 5,
{
    if body_height >= 13 {
        8
    } else if body_height >= 11 {
        6
    } else {
        0
    }
}

/// How wide the album list is: three tenths of the screen, within bounds.
pub open spec fn list_width(width: u16) -> int {
    let share = width * 3 / 10;
    if share < 24 {
        24
    } else if share > 40 {
        40
    } else {
        share
    }
}

pub fn album_width(width: u16) -> (columns: u16)
    ensures
        columns == list_width(width),
{
    let share: u32 = width as u32 * 3 / 10;
    if share < 24 {
        24
    } else if share > 40 {
        40
    } else {
        share as u16
    }
}

/// The number of cells of a text: its characters, counted in a cell's coordinates.
pub open spec fn cells(text: Seq<char>) -> u16 {
    (text.len() % 0x1_0000) as u16
}

pub fn text_width(text: &str) -> (width: u16)
    ensures
        width == cells(text@),
{
    let chars = chars_of(text);
    (chars.len() % 0x1_0000) as u16
}

/// The row of buttons and bars under the menu bar.
#[derive(Clone, Copy, Debug, PartialEq, Eq)]
pub struct Toolbar {
    pub previous: Rect,
    pub play_pause: Rect,
    pub stop: Rect,
    pub next: Rect,
    pub seek: Rect,
    pub order: Rect,
    pub volume: Rect,
    /// Where the two clocks stand, where there is room for them.
    pub clocks: Option<(Rect, Rect)>,
}

/// The widths of the toolbar's texts.
#[derive(Clone, Copy, Debug, PartialEq, Eq, Structural)]
pub struct ToolbarTexts {
    pub volume: u16,
    pub order: u16,
    pub elapsed: u16,
    pub total: u16,
}

pub open spec fn button(area: Rect, index: int) -> Rect {
    Rect::at(area.x + index * CONTROL_WIDTH, area.y as int, CONTROL_WIDTH as int, 1)
}

/// Where the volume stands: at the right end.
pub open spec fn volume_place(area: Rect, texts: ToolbarTexts) -> Rect {
    Rect::at(
        excess(area.x + area.width, texts.volume as int),
        area.y as int,
        lesser(texts.volume as int, area.width as int),
        1,
    )
}

/// Where the bars between the buttons and the volume begin.
pub open spec fn bars_start(area: Rect) -> int {
    area.x + 4 * CONTROL_WIDTH + 1
}

/// How much of the playback order is shown: what the clocks and the shortest seek bar leave.
pub open spec fn order_width(area: Rect, texts: ToolbarTexts) -> int {
    let available = excess(volume_place(area, texts).x as int, bars_start(area) - 1);
    let reserved = 5 + texts.elapsed + MIN_SEEK + texts.total;
    lesser(texts.order as int, excess(available, reserved))
}

pub open spec fn order_place(area: Rect, texts: ToolbarTexts) -> Rect {
    if order_width(area, texts) > 0 {
        Rect::at(
            volume_place(area, texts).x - (order_width(area, texts) + 1),
            area.y as int,
            order_width(area, texts),
            1,
        )
    } else {
        Rect::empty()
    }
}

/// Where the seek bar and its clocks end.
pub open spec fn bars_end(area: Rect, texts: ToolbarTexts) -> int {
    let next = if order_width(area, texts) > 0 {
        order_place(area, texts).x
    } else {
        volume_place(area, texts).x
    };
    excess(next as int, 1)
}

/// The seek bar, and its clocks where there is room for them.
pub open spec fn seek_places(area: Rect, texts: ToolbarTexts) -> (Rect, Option<(Rect, Rect)>) {
    let start = bars_start(area);
    let end = bars_end(area, texts);
    if end <= start {
        (Rect::empty(), None)
    } else if end - start >= texts.elapsed + texts.total + MIN_SEEK + 2 {
        (
            Rect::at(
                start + texts.elapsed + 1,
                area.y as int,
                end - start - texts.elapsed - texts.total - 2,
                1,
            ),
            Some(
                (
                    Rect::at(start, area.y as int, texts.elapsed as int, 1),
                    Rect::at(end - texts.total, area.y as int, texts.total as int, 1),
                ),
            ),
        )
    } else {
        (Rect::at(start, area.y as int, end - start, 1), None)
    }
}

pub open spec fn toolbar_places(area: Rect, texts: ToolbarTexts) -> Toolbar {
    Toolbar {
        previous: button(area, 0),
        play_pause: button(area, 1),
        stop: button(area, 2),
        next: button(area, 3),
        seek: seek_places(area, texts).0,
        order: order_place(area, texts),
        volume: volume_place(area, texts),
        clocks: seek_places(area, texts).1,
    }
}

/// Lays out the toolbar.
pub fn toolbar(area: Rect, texts: ToolbarTexts) -> (bar: Toolbar)
    requires
        area.x + area.width < u16::MAX,
        area.width >= MIN_WIDTH,
    ensures
        bar == toolbar_places(area, texts),
{
    let y = area.y;
    let right: u16 = area.x + area.width;
    let volume = Rect {
        x: right.saturating_sub(texts.volume),
        y,
        width: if texts.volume < area.width { texts.volume } else { area.width },
        height: 1,
    };
    let after_buttons: u16 = area.x + 4 * CONTROL_WIDTH;
    let available: u32 = volume.x.saturating_sub(after_buttons) as u32;
    let reserved: u32 = 5 + texts.elapsed as u32 + MIN_SEEK as u32 + texts.total as u32;
    let spare: u32 = if available > reserved { available - reserved } else { 0 };
    let shown: u32 = if (texts.order as u32) < spare { texts.order as u32 } else { spare };
    let shown: u16 = shown as u16;
    assert(shown == order_width(area, texts));
    let order = if shown > 0 {
        Rect { x: volume.x - (shown + 1), y, width: shown, height: 1 }
    } else {
        Rect::none()
    };
    let start: u16 = after_buttons + 1;
    let after: u16 = if shown > 0 { order.x } else { volume.x };
    let end: u16 = after.saturating_sub(1);
    assert(end == bars_end(area, texts));
    let mut seek = Rect::none();
    let mut clocks: Option<(Rect, Rect)> = None;
    if end > start {
        let width: u16 = end - start;
        if width as u32 >= texts.elapsed as u32 + texts.total as u32 + MIN_SEEK as u32 + 2 {
            seek = Rect {
                x: start + texts.elapsed + 1,
                y,
                width: width - texts.elapsed - texts.total - 2,
                height: 1,
            };
            clocks = Some(
                (
                    Rect { x: start, y, width: texts.elapsed, height: 1 },
                    Rect { x: end - texts.total, y, width: texts.total, height: 1 },
                ),
            );
        } else {
            seek = Rect { x: start, y, width, height: 1 };
        }
    }
    let c: u16 = CONTROL_WIDTH;
    Toolbar {
        previous: Rect { x: area.x, y, width: c, height: 1 },
        play_pause: Rect { x: area.x + c, y, width: c, height: 1 },
        stop: Rect { x: area.x + 2 * c, y, width: c, height: 1 },
        next: Rect { x: area.x + 3 * c, y, width: c, height: 1 },
        seek,
        order,
        volume,
        clocks,
    }
}

/// The buttons, the seek bar, the playback order and the volume follow one another from left
/// to right without overlapping, as far as they are shown.
pub proof fn law_toolbar_parts_do_not_overlap(area: Rect, texts: ToolbarTexts)
    requires
        area.x + area.width < u16::MAX,
        area.width >= MIN_WIDTH,
        texts.volume <= area.width - 4 * CONTROL_WIDTH,
    ensures
        ({
            let bar = toolbar_places(area, texts);
            &&& bar.previous.x + bar.previous.width == bar.play_pause.x
            &&& bar.play_pause.x + bar.play_pause.width == bar.stop.x
            &&& bar.stop.x + bar.stop.width == bar.next.x
            &&& bar.next.x + bar.next.width <= bar.volume.x
            &&& bar.volume.x + bar.volume.width == area.x + area.width
            &&& bar.seek.width > 0 ==> bar.next.x + bar.next.width < bar.seek.x
            &&& bar.seek.width > 0 && bar.order.width > 0 ==> bar.seek.x + bar.seek.width
                < bar.order.x
            &&& bar.seek.width > 0 ==> bar.seek.x + bar.seek.width < bar.volume.x
            &&& bar.order.width > 0 ==> bar.order.x + bar.order.width < bar.volume.x
            &&& bar.order.width > 0 ==> bar.seek.width >= MIN_SEEK
        }),
{
}

/// Boxes of the given widths, one after the other in a row from `x` on, with a gap between
/// them, until the row ends at `right`.
pub open spec fn boxes(x: int, y: u16, right: int, gap: int, widths: Seq<u16>) -> Seq<Rect>
    decreases widths.len(),
{
    if widths.len() == 0 {
        Seq::empty()
    } else {
        let width = lesser(widths[0] as int, excess(right, x));
        if width == 0 {
            Seq::empty()
        } else {
            seq![Rect::at(x, y as int, width, 1)] + boxes(
                x + width + gap,
                y,
                right,
                gap,
                widths.skip(1),
            )
        }
    }
}

/// Lays boxes of the given widths out in a row.
pub fn row_of_boxes(x: u16, y: u16, right: u16, gap: u16, widths: &Vec<u16>) -> (rects: Vec<Rect>)
    ensures
        rects@ == boxes(x as int, y, right as int, gap as int, widths@),
{
    let mut rects: Vec<Rect> = Vec::new();
    let mut at: u32 = x as u32;
    let mut i: usize = 0;
    let ghost whole = boxes(x as int, y, right as int, gap as int, widths@);
    assert(widths@.skip(0) =~= widths@);
    assert(whole =~= rects@ + boxes(at as int, y, right as int, gap as int, widths@.skip(0)));
    while i < widths.len()
        invariant
            i <= widths@.len(),
            at <= 0x2_0000,
            whole == boxes(x as int, y, right as int, gap as int, widths@),
            whole == rects@ + boxes(
                at as int,
                y,
                right as int,
                gap as int,
                widths@.skip(i as int),
            ),
        decreases widths@.len() - i,
    {
        let room: u32 = if right as u32 > at { right as u32 - at } else { 0 };
        let width: u32 = if (widths[i] as u32) < room { widths[i] as u32 } else { room };
        let ghost rest = widths@.skip(i as int);
        assert(rest[0] == widths@[i as int]);
        assert(rest.skip(1) =~= widths@.skip(i + 1));
        if width == 0 {
            assert(whole =~= rects@);
            return rects;
        }
        let ghost before = rects@;
        rects.push(Rect { x: at as u16, y, width: width as u16, height: 1 });
        at = at + width + gap as u32;
        i = i + 1;
        assert(whole =~= rects@ + boxes(
            at as int,
            y,
            right as int,
            gap as int,
            widths@.skip(i as int),
        ));
    }
    assert(whole =~= rects@);
    rects
}

/// Boxes in a row do not overlap and end before the row does.
pub proof fn law_boxes_do_not_overlap(
    x: int,
    y: u16,
    right: int,
    gap: int,
    widths: Seq<u16>,
    i: int,
)
    requires
        0 <= x,
        right <= u16::MAX,
        gap >= 0,
        0 <= i < boxes(x, y, right, gap, widths).len(),
    ensures
        boxes(x, y, right, gap, widths).len() <= widths.len(),
        ({
            let row = boxes(x, y, right, gap, widths);
            &&& x <= row[i].x
            &&& row[i].x + row[i].width <= right
            &&& 0 < row[i].width <= widths[i]
            &&& i > 0 ==> row[i - 1].x + row[i - 1].width + gap == row[i].x
        }),
    decreases widths.len(),
{
    let row = boxes(x, y, right, gap, widths);
    let width = lesser(widths[0] as int, excess(right, x));
    let rest = boxes(x + width + gap, y, right, gap, widths.skip(1));
    assert(row[0] == Rect::at(x, y as int, width, 1));
    if rest.len() > 0 {
        let j = if i > 0 { i - 1 } else { 0 };
        law_boxes_do_not_overlap(x + width + gap, y, right, gap, widths.skip(1), j);
        assert(row[j + 1] == rest[j]);
        if i > 1 {
            assert(row[i - 1] == rest[i - 2]);
        }
        if i > 0 {
            assert(widths.skip(1)[i - 1] == widths[i]);
            if i == 1 {
                assert(rest[0] == Rect::at(
                    x + width + gap,
                    y as int,
                    lesser(widths.skip(1)[0] as int, excess(right, x + width + gap)),
                    1,
                ));
            }
        }
    }
}

/// The width of a column: a number of cells, or a share of what is left in hundredths.
#[derive(Clone, Copy, Debug, PartialEq, Eq, Structural)]
pub enum Constraint {
    Length(u16),
    Percentage(u16),
}

pub open spec fn fixed_cells(constraints: Seq<Constraint>) -> int
    decreases constraints.len(),
{
    if constraints.len() == 0 {
        0
    } else {
        fixed_cells(constraints.drop_last()) + match constraints.last() {
            Constraint::Length(width) => width as int,
            Constraint::Percentage(_) => 0,
        }
    }
}

pub open spec fn shares(constraints: Seq<Constraint>) -> int
    decreases constraints.len(),
{
    if constraints.len() == 0 {
        0
    } else {
        shares(constraints.drop_last()) + match constraints.last() {
            Constraint::Length(_) => 0,
            Constraint::Percentage(value) => value as int,
        }
    }
}

/// The width of a column of a table with these columns.
pub open spec fn column_width(total: u16, constraints: Seq<Constraint>, constraint: Constraint) -> int {
    let fixed = lesser(fixed_cells(constraints), u16::MAX as int);
    let percent = lesser(shares(constraints), u16::MAX as int);
    match constraint {
        Constraint::Length(width) => width as int,
        Constraint::Percentage(value) => if percent > 0 {
            excess(total as int, fixed) * value / percent
        } else {
            0
        },
    }
}

/// The widths of a table's columns.
pub open spec fn column_widths(total: u16, constraints: Seq<Constraint>) -> Seq<int> {
    constraints.map_values(|constraint: Constraint| column_width(total, constraints, constraint))
}

proof fn lemma_fixed_cells_grow(constraints: Seq<Constraint>, n: int)
    requires
        0 <= n <= constraints.len(),
    ensures
        0 <= fixed_cells(constraints.take(n)) <= fixed_cells(constraints),
        0 <= shares(constraints.take(n)) <= shares(constraints),
    decreases constraints.len(),
{
    if n == constraints.len() {
        assert(constraints.take(n) =~= constraints);
        if n > 0 {
            lemma_fixed_cells_grow(constraints.drop_last(), n - 1);
        }
    } else {
        lemma_fixed_cells_grow(constraints.drop_last(), n);
        assert(constraints.drop_last().take(n) =~= constraints.take(n));
    }
}

proof fn lemma_share(leftover: int, value: int, percent: int)
    requires
        0 <= leftover <= u16::MAX,
        0 <= value <= percent,
        0 < percent,
    ensures
        0 <= leftover * value / percent <= leftover,
{
    assert(leftover * value <= leftover * percent) by (nonlinear_arith)
        requires
            0 <= leftover,
            value <= percent,
    ;
    assert(0 <= leftover * value) by (nonlinear_arith)
        requires
            0 <= leftover,
            0 <= value,
    ;
    assert(0 <= leftover * value / percent <= leftover) by (nonlinear_arith)
        requires
            0 <= leftover * value <= leftover * percent,
            0 < percent,
    ;
}

proof fn lemma_share_in_total(constraints: Seq<Constraint>, i: int)
    requires
        0 <= i < constraints.len(),
    ensures
        constraints[i] matches Constraint::Percentage(value) ==> value <= shares(constraints),
    decreases constraints.len(),
{
    if i + 1 == constraints.len() {
        lemma_fixed_cells_grow(constraints, i);
        assert(constraints.take(i) =~= constraints.drop_last());
    } else {
        lemma_share_in_total(constraints.drop_last(), i);
    }
}

/// Works out the widths of a table's columns.
pub fn layout_widths(total: u16, constraints: &Vec<Constraint>) -> (widths: Vec<u16>)
    ensures
        widths@.map_values(|width: u16| width as int) == column_widths(total, constraints@),
{
    let mut fixed: u16 = 0;
    let mut percent: u16 = 0;
    let mut i: usize = 0;
    while i < constraints.len()
        invariant
            i <= constraints@.len(),
            fixed == lesser(fixed_cells(constraints@.take(i as int)), u16::MAX as int),
            percent == lesser(shares(constraints@.take(i as int)), u16::MAX as int),
        decreases constraints@.len() - i,
    {
        assert(constraints@.take(i + 1).drop_last() =~= constraints@.take(i as int));
        proof {
            lemma_fixed_cells_grow(constraints@, i as int);
        }
        match constraints[i] {
            Constraint::Length(width) => {
                fixed = fixed.saturating_add(width);
            },
            Constraint::Percentage(value) => {
                percent = percent.saturating_add(value);
            },
        }
        i = i + 1;
    }
    assert(constraints@.take(i as int) =~= constraints@);
    let leftover: u16 = total.saturating_sub(fixed);
    let mut widths: Vec<u16> = Vec::new();
    let mut j: usize = 0;
    while j < constraints.len()
        invariant
            j <= constraints@.len(),
            fixed == lesser(fixed_cells(constraints@), u16::MAX as int),
            percent == lesser(shares(constraints@), u16::MAX as int),
            leftover == excess(total as int, fixed as int),
            widths@.len() == j,
            forall|k: int|
                0 <= k < j ==> #[trigger] widths@[k] == column_width(
                    total,
                    constraints@,
                    constraints@[k],
                ),
        decreases constraints@.len() - j,
    {
        let width: u16 = match constraints[j] {
            Constraint::Length(width) => width,
            Constraint::Percentage(value) => {
                if percent > 0 {
                    proof {
                        lemma_share_in_total(constraints@, j as int);
                        lemma_share(leftover as int, value as int, percent as int);
                        assert(leftover * value <= 0xffff * 0xffff) by (nonlinear_arith)
                            requires
                                leftover <= 0xffff,
                                value <= 0xffff,
                        ;
                    }
                    (leftover as u32 * value as u32 / percent as u32) as u16
                } else {
                    0
                }
            },
        };
        widths.push(width);
        j = j + 1;
    }
    assert(widths@.map_values(|width: u16| width as int) =~= column_widths(total, constraints@));
    widths
}

/// The columns of a playlist: the marker, then what each column shows.
pub open spec fn table_columns(compact: bool) -> Seq<(Option<PlaylistColumn>, Constraint)> {
    if compact {
        seq![
            (None, Constraint::Length(2)),
            (Some(PlaylistColumn::Number), Constraint::Length(4)),
            (Some(PlaylistColumn::Artist), Constraint::Percentage(28)),
            (Some(PlaylistColumn::Title), Constraint::Percentage(52)),
            (Some(PlaylistColumn::Time), Constraint::Length(8)),
        ]
    } else {
        seq![
            (None, Constraint::Length(2)),
            (Some(PlaylistColumn::Number), Constraint::Length(4)),
            (Some(PlaylistColumn::Artist), Constraint::Percentage(19)),
            (Some(PlaylistColumn::Title), Constraint::Percentage(29)),
            (Some(PlaylistColumn::Album), Constraint::Percentage(25)),
            (Some(PlaylistColumn::Date), Constraint::Length(6)),
            (Some(PlaylistColumn::Time), Constraint::Length(8)),
        ]
    }
}

/// The columns of a playlist.
pub fn playlist_columns(compact: bool) -> (columns: Vec<(Option<PlaylistColumn>, Constraint)>)
    ensures
        columns@ == table_columns(compact),
{
    let columns: Vec<(Option<PlaylistColumn>, Constraint)> = if compact {
        vec![
            (None, Constraint::Length(2)),
            (Some(PlaylistColumn::Number), Constraint::Length(4)),
            (Some(PlaylistColumn::Artist), Constraint::Percentage(28)),
            (Some(PlaylistColumn::Title), Constraint::Percentage(52)),
            (Some(PlaylistColumn::Time), Constraint::Length(8)),
        ]
    } else {
        vec![
            (None, Constraint::Length(2)),
            (Some(PlaylistColumn::Number), Constraint::Length(4)),
            (Some(PlaylistColumn::Artist), Constraint::Percentage(19)),
            (Some(PlaylistColumn::Title), Constraint::Percentage(29)),
            (Some(PlaylistColumn::Album), Constraint::Percentage(25)),
            (Some(PlaylistColumn::Date), Constraint::Length(6)),
            (Some(PlaylistColumn::Time), Constraint::Length(8)),
        ]
    };
    assert(columns@ =~= table_columns(compact));
    columns
}

/// The headings from `x` on: those of columns that have one.
pub open spec fn headings(
    x: int,
    y: u16,
    columns: Seq<(Option<PlaylistColumn>, Constraint)>,
    widths: Seq<int>,
) -> Seq<(PlaylistColumn, Rect)>
    decreases columns.len(),
{
    if columns.len() == 0 || widths.len() == 0 {
        Seq::empty()
    } else {
        let rest = headings(
            lesser(x + widths[0], u16::MAX as int),
            y,
            columns.skip(1),
            widths.skip(1),
        );
        match columns[0].0 {
            Some(column) => seq![
                (
                    column,
                    Rect::at(x, y as int, lesser(widths[0], u16::MAX - x), lesser(1, u16::MAX - y)),
                ),
            ] + rest,
            None => rest,
        }
    }
}

/// The headings of a table in this rectangle.
pub open spec fn table_headings(area: Rect, compact: bool) -> Seq<(PlaylistColumn, Rect)> {
    let inner = area.within_border();
    if inner.width == 0 {
        Seq::empty()
    } else {
        headings(
            inner.x as int,
            inner.y,
            table_columns(compact),
            column_widths(
                inner.width,
                table_columns(compact).map_values(
                    |column: (Option<PlaylistColumn>, Constraint)| column.1,
                ),
            ),
        )
    }
}

/// Where the headings of a table are.
pub fn header_rects(area: Rect, compact: bool) -> (rects: Vec<(PlaylistColumn, Rect)>)
    ensures
        rects@ == table_headings(area, compact),
{
    let inner = area.inner();
    let mut rects: Vec<(PlaylistColumn, Rect)> = Vec::new();
    if inner.width == 0 {
        assert(rects@ =~= Seq::empty());
        return rects;
    }
    let columns = playlist_columns(compact);
    let mut constraints: Vec<Constraint> = Vec::new();
    let mut i: usize = 0;
    while i < columns.len()
        invariant
            i <= columns@.len(),
            constraints@ =~= columns@.take(i as int).map_values(
                |column: (Option<PlaylistColumn>, Constraint)| column.1,
            ),
        decreases columns@.len() - i,
    {
        constraints.push(columns[i].1);
        i = i + 1;
    }
    assert(columns@.take(i as int) =~= columns@);
    let widths = layout_widths(inner.width, &constraints);
    let ghost figures = column_widths(inner.width, constraints@);
    assert(figures == widths@.map_values(|width: u16| width as int));
    let mut x: u16 = inner.x;
    let mut j: usize = 0;
    let ghost whole = headings(inner.x as int, inner.y, columns@, figures);
    assert(columns@.skip(0) =~= columns@);
    assert(figures.skip(0) =~= figures);
    assert(whole =~= rects@ + headings(x as int, inner.y, columns@.skip(0), figures.skip(0)));
    assert(widths@.len() == figures.len());
    while j < columns.len()
        invariant
            j <= columns@.len(),
            columns@.len() == widths@.len(),
            figures == widths@.map_values(|width: u16| width as int),
            whole == rects@ + headings(
                x as int,
                inner.y,
                columns@.skip(j as int),
                figures.skip(j as int),
            ),
        decreases columns@.len() - j,
    {
        assert(columns@.skip(j as int)[0] == columns@[j as int]);
        assert(columns@.skip(j as int).skip(1) =~= columns@.skip(j + 1));
        assert(figures.skip(j as int)[0] == widths@[j as int] as int);
        assert(figures.skip(j as int).skip(1) =~= figures.skip(j + 1));
        let ghost before = rects@;
        if let Some(column) = columns[j].0 {
            rects.push((column, Rect::new(x, inner.y, widths[j], 1)));
        }
        x = x.saturating_add(widths[j]);
        j = j + 1;
        assert(whole =~= rects@ + headings(
            x as int,
            inner.y,
            columns@.skip(j as int),
            figures.skip(j as int),
        ));
    }
    assert(whole =~= rects@);
    rects
}

/// Where the things are that a click can hit.
#[derive(Debug)]
pub struct UiRegions {
    pub menu: Vec<Rect>,
    pub previous: Rect,
    pub play_pause: Rect,
    pub stop: Rect,
    pub next: Rect,
    pub seek: Rect,
    pub order: Rect,
    pub volume: Rect,
    pub album: Rect,
    pub album_offset: usize,
    pub tabs: Vec<Rect>,
    pub playlist: Rect,
    pub playlist_offset: usize,
    pub equalizer: Rect,
    pub soulseek_query: Rect,
    pub soulseek_filter: Rect,
    pub soulseek_formats: Vec<Rect>,
    pub soulseek_slots: Rect,
    pub album_filter: Rect,
    pub playlist_filter: Rect,
    pub playlist_headers: Vec<(PlaylistColumn, Rect)>,
    pub overlay_offset: usize,
    pub overlay: Option<Rect>,
}

impl UiRegions {
    /// Nothing that a click can hit.
    pub fn new() -> (regions: UiRegions)
        ensures
            regions.menu@ == Seq::<Rect>::empty(),
            regions.previous == Rect::empty(),
            regions.play_pause == Rect::empty(),
            regions.stop == Rect::empty(),
            regions.next == Rect::empty(),
            regions.seek == Rect::empty(),
            regions.order == Rect::empty(),
            regions.volume == Rect::empty(),
            regions.album == Rect::empty(),
            regions.album_offset == 0,
            regions.tabs@ == Seq::<Rect>::empty(),
            regions.playlist == Rect::empty(),
            regions.playlist_offset == 0,
            regions.equalizer == Rect::empty(),
            regions.soulseek_query == Rect::empty(),
            regions.soulseek_filter == Rect::empty(),
            regions.soulseek_formats@ == Seq::<Rect>::empty(),
            regions.soulseek_slots == Rect::empty(),
            regions.album_filter == Rect::empty(),
            regions.playlist_filter == Rect::empty(),
            regions.playlist_headers@ == Seq::<(PlaylistColumn, Rect)>::empty(),
            regions.overlay_offset == 0,
            regions.overlay is None,
    {
        UiRegions {
            menu: Vec::new(),
            previous: Rect::none(),
            play_pause: Rect::none(),
            stop: Rect::none(),
            next: Rect::none(),
            seek: Rect::none(),
            order: Rect::none(),
            volume: Rect::none(),
            album: Rect::none(),
            album_offset: 0,
            tabs: Vec::new(),
            playlist: Rect::none(),
            playlist_offset: 0,
            equalizer: Rect::none(),
            soulseek_query: Rect::none(),
            soulseek_filter: Rect::none(),
            soulseek_formats: Vec::new(),
            soulseek_slots: Rect::none(),
            album_filter: Rect::none(),
            playlist_filter: Rect::none(),
            playlist_headers: Vec::new(),
            overlay_offset: 0,
            overlay: None,
        }
    }
}

/// The library takes three tenths of the screen, but never less than it needs nor more than it can
/// use, and a wider screen never leaves it less room.
pub proof fn law_the_library_takes_its_share(width: u16, wider: u16)
    requires
        width <= wider,
    ensures
        24 <= list_width(width) <= 40,
        list_width(width) <= list_width(wider),
        24 < list_width(width) < 40 ==> 10 * list_width(width) <= 3 * width < 10 * list_width(width)
            + 10,
        width >= 134 ==> list_width(width) == 40,
        width < 80 ==> list_width(width) == 24,
{
}

/// The equalizer takes room only where enough rows are left for the list above it, and grows with
/// the room.
pub proof fn law_the_equalizer_leaves_room(height: u16, taller: u16)
    requires
        height <= taller,
    ensures
        spectrum_height(height) > 0 ==> spectrum_height(height) + 5 <= height,
        spectrum_height(height) <= spectrum_height(taller),
        height >= 11 ==> spectrum_height(height) > 0,
{
}

} // verus!
