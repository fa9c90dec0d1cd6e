//! Where things go on the screen.

use vstd::prelude::*;

use ratatui::layout::{Constraint, Layout};

use crate::style::cap_u16;
use crate::types::Rect;

verus! {

/// How long a part of a split area should be.
#[derive(Debug, Clone, Copy, PartialEq, Eq, Structural)]
pub enum Size {
    /// At least so many cells.
    Min(u16),
    /// So many cells.
    Length(u16),
    /// So many percent of the whole.
    Percentage(u16),
}

/// The first position behind a stretch of cells.
pub open spec fn end_of(start: u16, len: u16) -> int {
    cap_u16(start + len)
}

/// Whether `part` is a slice of `area`: as wide as it, or as high.
pub open spec fn slice_of(part: Rect, area: Rect, stacked: bool) -> bool {
    if stacked {
        part.x == area.x && part.width == area.width && area.y <= part.y && part.y + part.height
            <= end_of(area.y, area.height)
    } else {
        part.y == area.y && part.height == area.height && area.x <= part.x && part.x + part.width
            <= end_of(area.x, area.width)
    }
}

/// The percentage that a size asks for.
pub open spec fn share(s: Size) -> int {
    match s {
        Size::Percentage(p) => p as int,
        _ => 0,
    }
}

/// The cells that a size asks for at least.
pub open spec fn cells(s: Size) -> int {
    match s {
        Size::Min(n) => n as int,
        Size::Length(n) => n as int,
        Size::Percentage(_) => 0,
    }
}

pub open spec fn shares(sizes: Seq<Size>) -> int
    decreases sizes.len(),
{
    if sizes.len() == 0 {
        0
    } else {
        shares(sizes.drop_last()) + share(sizes.last())
    }
}

pub open spec fn all_cells(sizes: Seq<Size>) -> int
    decreases sizes.len(),
{
    if sizes.len() == 0 {
        0
    } else {
        all_cells(sizes.drop_last()) + cells(sizes.last())
    }
}

/// How many sizes can stretch.
pub open spec fn stretchy(sizes: Seq<Size>) -> int
    decreases sizes.len(),
{
    if sizes.len() == 0 {
        0
    } else {
        stretchy(sizes.drop_last()) + if sizes.last() is Min {
            1int
        } else {
            0
        }
    }
}

/// Whether all sizes are percentages.
pub open spec fn by_share(sizes: Seq<Size>) -> bool {
    forall|i: int| 0 <= i < sizes.len() ==> (#[trigger] sizes[i]) is Percentage
}

/// Whether no size is a percentage.
pub open spec fn by_cells(sizes: Seq<Size>) -> bool {
    forall|i: int| 0 <= i < sizes.len() ==> !((#[trigger] sizes[i]) is Percentage)
}

/// Whether there is one way alone to give every size what it asks for in
/// `len` cells: percentages of the whole, or fixed lengths and one part that
/// takes what is left.
pub open spec fn settled(sizes: Seq<Size>, len: int) -> bool {
    ||| by_share(sizes) && shares(sizes) <= 100
    ||| by_cells(sizes) && stretchy(sizes) == 1 && all_cells(sizes) <= len
}

/// How far from the start of `len` cells the part `i` starts. Shares are
/// rounded to the nearest cell.
pub open spec fn edge(sizes: Seq<Size>, len: int, i: int) -> int {
    let before = sizes.take(i);
    if by_share(sizes) {
        (len * shares(before) + 50) / 100
    } else {
        all_cells(before) + if stretchy(before) > 0 {
            len - all_cells(sizes)
        } else {
            0
        }
    }
}

/// The cells that an area has in the direction in which it is split.
pub open spec fn extent(area: Rect, stacked: bool) -> int {
    if stacked {
        end_of(area.y, area.height) - area.y
    } else {
        end_of(area.x, area.width) - area.x
    }
}

/// The slice of an area between two positions.
pub open spec fn cut(area: Rect, stacked: bool, from: int, to: int) -> Rect {
    if stacked {
        Rect { y: (area.y + from) as u16, height: (to - from) as u16, ..area }
    } else {
        Rect { x: (area.x + from) as u16, width: (to - from) as u16, ..area }
    }
}

/// Most parts that an area is split into.
pub const MAX_PARTS: usize = 16;

/// Whether the parts are those of an area that is split: a slice for each
/// size, and where the sizes settle it, the slices that they ask for, one
/// behind the other from the start.
pub open spec fn split_into(parts: Seq<Rect>, area: Rect, stacked: bool, sizes: Seq<Size>) -> bool {
    let len = extent(area, stacked);
    &&& parts.len() == sizes.len()
    &&& forall|i: int| 0 <= i < parts.len() ==> slice_of(#[trigger] parts[i], area, stacked)
    &&& settled(sizes, len) ==> forall|i: int|
        0 <= i < parts.len() ==> (#[trigger] parts[i]) == cut(
            area,
            stacked,
            edge(sizes, len, i),
            edge(sizes, len, i + 1),
        )
}

/// Splits an area into stacked parts, or into parts side by side, with
/// `ratatui::layout::Layout::split`. There is a part for each size, and each
/// lies within the area and spans it the other way. The solver behind it
/// gives every size what it asks for where that can be done: a length is
/// met to the cell, a percentage is taken of the whole and rounded, and the
/// one part with a minimum takes what is left. Nothing is said of the
/// lengths where the sizes do not fit, or where several parts can stretch:
/// which of them gives way is left to the solver, and can differ from run to
/// run.
#[verifier::external_body]
pub(crate) fn split_area(area: Rect, stacked: bool, sizes: &Vec<Size>) -> (parts: Vec<Rect>)
    requires
        sizes@.len() <= MAX_PARTS,
    ensures
        split_into(parts@, area, stacked, sizes@),
{
    let constraints: Vec<Constraint> = sizes.iter().map(|s| match s {
        Size::Min(n) => Constraint::Min(*n),
        Size::Length(n) => Constraint::Length(*n),
        Size::Percentage(n) => Constraint::Percentage(*n),
    }).collect();
    let outer = ratatui::layout::Rect { x: area.x, y: area.y, width: area.width, height: area.height };
    let layout = match stacked {
        true => Layout::vertical(constraints),
        false => Layout::horizontal(constraints),
    };
    layout.split(outer).iter().map(|r| Rect { x: r.x, y: r.y, width: r.width, height: r.height }).collect()
}

/// The sizes that leave a part of `percent` in the middle.
pub open spec fn middle(percent: u16) -> Seq<Size> {
    let side = Size::Percentage(((100 - percent) / 2) as u16);
    seq![side, Size::Percentage(percent), side]
}

/// The sizes that leave a part of `percent` in the middle.
pub fn middle_sizes(percent: u16) -> (sizes: Vec<Size>)
    requires
        percent <= 100,
    ensures
        sizes@ == middle(percent),
{
    let side = Size::Percentage((100 - percent) / 2);
    let mut sizes: Vec<Size> = Vec::new();
    sizes.push(side);
    sizes.push(Size::Percentage(percent));
    sizes.push(side);
    assert(sizes@ =~= middle(percent));
    sizes
}

/// Where the middle part of `percent` starts, and where it ends, in `len`
/// cells.
pub open spec fn middle_start(percent: u16, len: int) -> int {
    (len * ((100 - percent) / 2) + 50) / 100
}

pub open spec fn middle_end(percent: u16, len: int) -> int {
    (len * ((100 - percent) / 2 + percent) + 50) / 100
}

proof fn lemma_middle(percent: u16, len: int)
    requires
        percent <= 100,
    ensures
        settled(middle(percent), len),
        edge(middle(percent), len, 1) == middle_start(percent, len),
        edge(middle(percent), len, 2) == middle_end(percent, len),
{
    let m = middle(percent);
    reveal_with_fuel(shares, 4);
    assert(m.take(1).drop_last() =~= m.take(0));
    assert(m.take(2).drop_last() =~= m.take(1));
    assert(m.drop_last() =~= m.take(2));
    assert(shares(m.take(1)) == (100 - percent) / 2);
    assert(shares(m.take(2)) == (100 - percent) / 2 + percent);
    assert(shares(m) == (100 - percent) / 2 + percent + (100 - percent) / 2);
}

/// The part in the middle of `r`, so many percent wide and high.
pub open spec fn centered_share(percent_x: u16, percent_y: u16, r: Rect) -> Rect {
    let row = cut(
        r,
        true,
        middle_start(percent_y, extent(r, true)),
        middle_end(percent_y, extent(r, true)),
    );
    cut(
        row,
        false,
        middle_start(percent_x, extent(row, false)),
        middle_end(percent_x, extent(row, false)),
    )
}

/// The part in the middle of `r`, so many percent wide and high.
pub fn centered_rect(percent_x: u16, percent_y: u16, r: Rect) -> (part: Rect)
    requires
        percent_x <= 100,
        percent_y <= 100,
    ensures
        part == centered_share(percent_x, percent_y, r),
        r.x <= part.x,
        part.x + part.width <= end_of(r.x, r.width),
        r.y <= part.y,
        part.y + part.height <= end_of(r.y, r.height),
{
    let rows = split_area(r, true, &middle_sizes(percent_y));
    let columns = split_area(rows[1], false, &middle_sizes(percent_x));
    assert(slice_of(rows@[1], r, true));
    assert(slice_of(columns@[1], rows@[1], false));
    proof {
        lemma_middle(percent_y, extent(r, true));
        lemma_middle(percent_x, extent(rows@[1], false));
    }
    columns[1]
}

pub open spec fn smaller(a: u16, b: u16) -> u16 {
    if a <= b {
        a
    } else {
        b
    }
}

/// A part in the middle of `r`, so many cells wide and high, or as many as
/// there are.
pub open spec fn centered(width: u16, height: u16, r: Rect) -> Rect {
    let w = smaller(width, r.width);
    let h = smaller(height, r.height);
    Rect {
        x: (r.x + (r.width - w) / 2) as u16,
        y: (r.y + (r.height - h) / 2) as u16,
        width: w,
        height: h,
    }
}

/// A part in the middle of `r`, so many cells wide and high, or as many as
/// there are.
pub fn centered_rect_abs(width: u16, height: u16, r: Rect) -> (part: Rect)
    requires
        r.x + r.width <= u16::MAX,
        r.y + r.height <= u16::MAX,
    ensures
        part == centered(width, height, r),
{
    let w: u16 = if width <= r.width {
        width
    } else {
        r.width
    };
    let h: u16 = if height <= r.height {
        height
    } else {
        r.height
    };
    Rect { x: r.x + (r.width - w) / 2, y: r.y + (r.height - h) / 2, width: w, height: h }
}

/// A part in the middle lies within the area, and its margins differ by a
/// cell at most.
pub proof fn law_centered_parts_lie_within(width: u16, height: u16, r: Rect)
    requires
        r.x + r.width <= u16::MAX,
        r.y + r.height <= u16::MAX,
    ensures
        r.x <= centered(width, height, r).x,
        centered(width, height, r).x + centered(width, height, r).width <= r.x + r.width,
        r.y <= centered(width, height, r).y,
        centered(width, height, r).y + centered(width, height, r).height <= r.y + r.height,
        ({
            let left = centered(width, height, r).x - r.x;
            let right = r.x + r.width - centered(width, height, r).x - centered(
                width,
                height,
                r,
            ).width;
            left <= right <= left + 1
        }),
{
}

/// A part in the middle is as wide and as high as asked, or as the area
/// where that is smaller, and its upper and lower margins differ by a cell at
/// most.
pub proof fn law_centered_parts_have_their_size(width: u16, height: u16, r: Rect)
    requires
        r.x + r.width <= u16::MAX,
        r.y + r.height <= u16::MAX,
    ensures
        width <= r.width ==> centered(width, height, r).width == width,
        width > r.width ==> centered(width, height, r).width == r.width,
        height <= r.height ==> centered(width, height, r).height == height,
        height > r.height ==> centered(width, height, r).height == r.height,
        ({
            let top = centered(width, height, r).y - r.y;
            let bottom = r.y + r.height - centered(width, height, r).y - centered(
                width,
                height,
                r,
            ).height;
            top <= bottom <= top + 1
        }),
{
}

/// A middle part has equal shares on both sides, and starts and ends at the
/// cells nearest to its shares.
pub proof fn law_middle_parts_have_equal_sides(percent: u16, len: int)
    requires
        percent <= 100,
        0 <= len,
    ensures
        middle(percent).len() == 3,
        middle(percent)[0] == middle(percent)[2],
        middle(percent)[0] == Size::Percentage(((100 - percent) / 2) as u16),
        middle(percent)[1] == Size::Percentage(percent),
        -50 <= 100 * middle_start(percent, len) - len * ((100 - percent) / 2) <= 50,
        -50 <= 100 * middle_end(percent, len) - len * ((100 - percent) / 2 + percent) <= 50,
{
    let a = len * ((100 - percent) / 2);
    let b = len * ((100 - percent) / 2 + percent);
    assert(-50 <= 100 * ((a + 50) / 100) - a <= 50);
    assert(-50 <= 100 * ((b + 50) / 100) - b <= 50);
}

/// The part in the middle by shares lies between the cells of its shares, in
/// both directions.
pub proof fn law_shares_are_taken_both_ways(percent_x: u16, percent_y: u16, r: Rect)
    requires
        percent_x <= 100,
        percent_y <= 100,
        r.x + r.width <= u16::MAX,
        r.y + r.height <= u16::MAX,
    ensures
        ({
            let part = centered_share(percent_x, percent_y, r);
            let w = r.width as int;
            let h = r.height as int;
            &&& part.x == r.x + middle_start(percent_x, w)
            &&& part.width == middle_end(percent_x, w) - middle_start(percent_x, w)
            &&& part.y == r.y + middle_start(percent_y, h)
            &&& part.height == middle_end(percent_y, h) - middle_start(percent_y, h)
        }),
{
    lemma_middle_within(percent_x, r.width as int);
    lemma_middle_within(percent_y, r.height as int);
}

proof fn lemma_middle_within(percent: u16, len: int)
    requires
        percent <= 100,
        0 <= len,
    ensures
        0 <= middle_start(percent, len) <= middle_end(percent, len) <= len,
{
    let side = (100 - percent) / 2;
    assert(0 <= len * side) by (nonlinear_arith)
        requires
            0 <= len,
            0 <= side,
    ;
    assert(len * side <= len * (side + percent)) by (nonlinear_arith)
        requires
            0 <= len,
            0 <= percent,
    ;
    assert(len * (side + percent) <= len * 100) by (nonlinear_arith)
        requires
            0 <= len,
            side + percent <= 100,
    ;
}

} // verus!
