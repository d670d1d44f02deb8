//! Screen geometry: rectangles, hit testing of list rows, scroll windows of
//! log panels and placement of popups.
use vstd::prelude::*;

verus! {

/// A screen rectangle (cells).
#[derive(Debug, Clone, Copy, PartialEq, Eq, Structural)]
pub struct Rect {
    pub x: u16,
    pub y: u16,
    pub width: u16,
    pub height: u16,
}

impl Rect {
    pub open spec fn spec_zero() -> Rect {
        Rect { x: 0, y: 0, width: 0, height: 0 }
    }

    /// The empty rectangle at the origin.
    pub fn zero() -> (r: Rect)
        ensures
            r == Rect::spec_zero(),
    {
        Rect { x: 0, y: 0, width: 0, height: 0 }
    }

    /// The rectangle lies inside the u16 screen coordinate space.
    pub open spec fn valid(self) -> bool {
        self.x + self.width <= u16::MAX && self.y + self.height <= u16::MAX
    }

    /// The cell (`col`, `row`) lies inside the rectangle.
    pub open spec fn contains(self, col: u16, row: u16) -> bool {
        self.x <= col < self.x + self.width && self.y <= row < self.y + self.height
    }
}

/// Whether the cell (`col`, `row`) lies inside `r`.
pub fn point_in(col: u16, row: u16, r: Rect) -> (b: bool)
    requires
        r.valid(),
    ensures
        b == r.contains(col, row),
{
    col >= r.x && col < r.x + r.width && row >= r.y && row < r.y + r.height
}

/// The item of a list drawn in `area` (with one row of top padding) that the
/// row `row` hits: the row's offset below the padding, if below `item_count`.
pub open spec fn spec_row_in_list(row: u16, area: Rect, item_count: usize) -> Option<usize> {
    let top: int = if area.y + 1 <= u16::MAX {
        area.y + 1
    } else {
        u16::MAX as int
    };
    if row < top {
        None
    } else if row - top < item_count {
        Some((row - top) as usize)
    } else {
        None
    }
}

/// Given a row clicked inside `area` rendering a list with one row of top
/// padding, return which item index was hit.
pub fn row_in_list(row: u16, area: Rect, item_count: usize) -> (r: Option<usize>)
    ensures
        r == spec_row_in_list(row, area, item_count),
        r matches Some(i) ==> i < item_count,
{
    let top = area.y.saturating_add(1);
    if row < top {
        return None;
    }
    let i = (row - top) as usize;
    if i < item_count {
        Some(i)
    } else {
        None
    }
}

/// The window `[start, end)` of `total` lines shown in a panel `height`
/// lines high, scrolled `scroll` lines up from the bottom (the scroll is
/// clamped so the window never runs above the first line).
pub open spec fn spec_scroll_window(total: nat, height: nat, scroll: nat) -> (nat, nat) {
    let max_scroll: nat = if total >= height {
        (total - height) as nat
    } else {
        0
    };
    let offset: nat = if scroll <= max_scroll {
        scroll
    } else {
        max_scroll
    };
    let end: nat = (total - offset) as nat;
    let start: nat = if end >= height {
        (end - height) as nat
    } else {
        0
    };
    (start, end)
}

/// The lines of a scrollable log panel to show.
pub fn scroll_window(total: usize, height: usize, scroll: usize) -> (r: (usize, usize))
    ensures
        (r.0 as nat, r.1 as nat) == spec_scroll_window(total as nat, height as nat, scroll as nat),
        r.0 <= r.1 <= total,
        r.1 - r.0 <= height,
        scroll == 0 ==> r.1 == total,
{
    let offset = if scroll < total.saturating_sub(height) {
        scroll
    } else {
        total.saturating_sub(height)
    };
    let end = total.saturating_sub(offset);
    let start = end.saturating_sub(height);
    (start, end)
}

/// A popup of at most `max_width` columns (and at least two columns of
/// margin on each side) and `height` rows, centred in `area`.
pub open spec fn spec_popup_rect(area: Rect, max_width: u16, height: u16) -> Rect {
    let avail: int = if area.width >= 4 {
        area.width - 4
    } else {
        0
    };
    let w: int = if max_width <= avail {
        max_width as int
    } else {
        avail
    };
    let x: int = (area.width - w) / 2;
    let y: int = if area.height >= height {
        (area.height - height) / 2
    } else {
        0
    };
    Rect { x: x as u16, y: y as u16, width: w as u16, height: height }
}

/// Placement of a centred popup.
pub fn popup_rect(area: Rect, max_width: u16, height: u16) -> (r: Rect)
    ensures
        r == spec_popup_rect(area, max_width, height),
{
    let avail = area.width.saturating_sub(4);
    let w = if max_width <= avail {
        max_width
    } else {
        avail
    };
    let x = (area.width - w) / 2;
    let y = area.height.saturating_sub(height) / 2;
    Rect { x, y, width: w, height }
}

/// Law: a click hits item `i` of a list drawn with one row of top padding
/// exactly when it is on row `y + 1 + i` of the area and there is such an
/// item; rows above the first item hit nothing.
pub proof fn law_row_hits_item(row: u16, area: Rect, item_count: usize, i: usize)
    requires
        area.y + 1 <= u16::MAX,
    ensures
        spec_row_in_list(row, area, item_count) == Some(i) <==> (row == area.y + 1 + i && i
            < item_count),
        row <= area.y ==> spec_row_in_list(row, area, item_count) is None,
{
}

/// Law: a log panel shows as many lines as fit, ending `scroll` lines
/// above the last one; scrolling one more line moves the whole window one
/// line back, until it reaches the first line, where it stays.
pub proof fn law_scroll_window_moves(total: nat, height: nat, scroll: nat)
    ensures
        ({
            let w = spec_scroll_window(total, height, scroll);
            &&& w.0 <= w.1 <= total
            &&& w.1 - w.0 == if total < height {
                total as int
            } else {
                height as int
            }
            &&& total >= height + scroll ==> w.1 == total - scroll
        }),
        total >= height + scroll + 1 ==> spec_scroll_window(total, height, scroll + 1)
            == (
            (spec_scroll_window(total, height, scroll).0 - 1) as nat,
            (spec_scroll_window(total, height, scroll).1 - 1) as nat,
        ),
        total < height + scroll + 1 ==> spec_scroll_window(total, height, scroll + 1).0 == 0,
{
}

/// Law: a popup is centred horizontally (its margins differ by at most one
/// column), keeps at least two columns free on each side, is no wider than
/// asked, and is centred vertically when it fits.
pub proof fn law_popup_centred(area: Rect, max_width: u16, height: u16)
    ensures
        ({
            let r = spec_popup_rect(area, max_width, height);
            &&& r.width <= max_width
            &&& area.width >= 4 ==> r.width + 4 <= area.width
            &&& 0 <= (area.width - r.width) - 2 * r.x <= 1
            &&& r.height == height
            &&& area.height >= height ==> 0 <= (area.height - height) - 2 * r.y <= 1
        }),
{
}

} // verus!
