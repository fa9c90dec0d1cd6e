//! The cells of the screen: what they hold, and how a selection shows.

use vstd::prelude::*;

use ratatui::buffer::Buffer;
use ratatui::style::Color as TermColor;
use ratatui::style::Style as TermStyle;

use crate::layout::end_of;
use crate::mouse_select::{Cell, PositionMap};
use crate::style::Color;
use crate::types::Rect;

verus! {

/// The cells of a frame, `ratatui::buffer::Buffer`.
#[verifier::external_type_specification]
#[verifier::external_body]
pub struct ExBuffer(ratatui::buffer::Buffer);

/// What the cells of a buffer hold, by column and row: the first character
/// of each cell's symbol, where it has one.
pub uninterp spec fn buffer_chars(b: Buffer) -> Map<(u16, u16), Option<char>>;

/// The colours of a buffer's cells, by column and row: that of the text and
/// that behind it, each where it is one of [`Color`].
pub uninterp spec fn buffer_colors(b: Buffer) -> Map<(u16, u16), (Option<Color>, Option<Color>)>;

/// Reads a cell with `ratatui::buffer::Buffer::cell` and
/// `ratatui::buffer::Cell::symbol`. It gives the first character of the
/// symbol; nothing outside the buffer, and nothing for an empty symbol.
#[verifier::external_body]
fn cell_char(buf: &Buffer, x: u16, y: u16) -> (c: Option<char>)
    ensures
        c == (if buffer_chars(*buf).contains_key((x, y)) {
            buffer_chars(*buf)[(x, y)]
        } else {
            None
        }),
{
    match buf.cell((x, y)) {
        Some(cell) => cell.symbol().chars().next(),
        None => None,
    }
}

/// The colours of a cell after it is painted: a colour that is not given
/// stays.
pub open spec fn painted(
    old: (Option<Color>, Option<Color>),
    fg: Option<Color>,
    bg: Option<Color>,
) -> (Option<Color>, Option<Color>) {
    (
        if fg is Some {
            fg
        } else {
            old.0
        },
        if bg is Some {
            bg
        } else {
            old.1
        },
    )
}

/// Paints a cell with `ratatui::buffer::Buffer::cell_mut` and
/// `ratatui::buffer::Cell::set_style`. The colours that are given replace
/// those of the cell; its symbol stays, and so does every other cell. Outside
/// the buffer nothing happens.
#[verifier::external_body]
fn paint_cell(buf: &mut Buffer, x: u16, y: u16, fg: Option<Color>, bg: Option<Color>)
    ensures
        buffer_chars(*final(buf)) == buffer_chars(*old(buf)),
        buffer_colors(*final(buf)) == (if buffer_colors(*old(buf)).contains_key((x, y)) {
            buffer_colors(*old(buf)).insert(
                (x, y),
                painted(buffer_colors(*old(buf))[(x, y)], fg, bg),
            )
        } else {
            buffer_colors(*old(buf))
        }),
{
    let outside = |c: Color| match c {
        Color::Reset => TermColor::Reset,
        Color::Black => TermColor::Black,
        Color::Red => TermColor::Red,
        Color::Green => TermColor::Green,
        Color::Yellow => TermColor::Yellow,
        Color::Blue => TermColor::Blue,
        Color::Cyan => TermColor::Cyan,
        Color::Gray => TermColor::Gray,
        Color::DarkGray => TermColor::DarkGray,
        Color::White => TermColor::White,
    };
    let with = TermStyle { fg: fg.map(outside), bg: bg.map(outside), ..TermStyle::default() };
    if let Some(cell) = buf.cell_mut((x, y)) { cell.set_style(with); }
}

/// Whether a cell lies in an area.
pub open spec fn in_area(area: Rect, row: int, col: int) -> bool {
    area.y <= row < end_of(area.y, area.height) && area.x <= col < end_of(area.x, area.width)
}

/// What a buffer shows in an area, by row and column.
pub open spec fn cells_in(b: Buffer, area: Rect) -> Map<(int, int), char> {
    Map::new(
        |k: (int, int)|
            in_area(area, k.0, k.1) && buffer_chars(b).contains_key((k.1 as u16, k.0 as u16))
                && buffer_chars(b)[(k.1 as u16, k.0 as u16)] is Some,
        |k: (int, int)| buffer_chars(b)[(k.1 as u16, k.0 as u16)]->0,
    )
}

/// The cells of an area in the rows above `row`, and in that row those left
/// of `col`.
spec fn read_before(b: Buffer, area: Rect, row: int, col: int) -> Map<(int, int), char> {
    cells_in(b, area).restrict(
        Set::new(|k: (int, int)| k.0 < row || (k.0 == row && k.1 < col)),
    )
}

/// Notes what a frame shows in an area, so that a selection can be read off
/// it later. What was noted before is forgotten.
pub fn record_transcript_cells_into_position_map(buf: &Buffer, area: Rect, map: &mut PositionMap)
    requires
        old(map).wf(),
    ensures
        final(map).wf(),
        final(map)@ == cells_in(*buf, area),
{
    map.clear();
    let bottom = area.y.saturating_add(area.height);
    let right = area.x.saturating_add(area.width);
    let mut y: u16 = area.y;
    assert(map@ =~= read_before(*buf, area, y as int, area.x as int));
    while y < bottom
        invariant
            map.wf(),
            area.y <= y <= bottom,
            bottom == end_of(area.y, area.height),
            right == end_of(area.x, area.width),
            map@ == read_before(*buf, area, y as int, area.x as int),
        decreases bottom - y,
    {
        let mut x: u16 = area.x;
        while x < right
            invariant
                map.wf(),
                area.y <= y < bottom,
                area.x <= x <= right,
                bottom == end_of(area.y, area.height),
                right == end_of(area.x, area.width),
                map@ == read_before(*buf, area, y as int, x as int),
            decreases right - x,
        {
            let ghost before = map@;
            if let Some(ch) = cell_char(buf, x, y) {
                map.record(y, x, ch);
                assert(map@ =~= read_before(*buf, area, y as int, x + 1));
            } else {
                assert(map@ =~= read_before(*buf, area, y as int, x + 1));
            }
            x = x + 1;
        }
        assert(map@ =~= read_before(*buf, area, y + 1, area.x as int));
        y = y + 1;
    }
    assert(map@ =~= cells_in(*buf, area));
}

/// Whether a cell lies in a selection: behind its earlier end and before its
/// later one, in reading order.
pub open spec fn selects(selection: (Cell, Cell), row: int, col: int) -> bool {
    let (a, b) = if selection.0.before_or_at(selection.1) {
        selection
    } else {
        (selection.1, selection.0)
    };
    a.row <= row <= b.row && (row == a.row ==> a.col <= col) && (row == b.row ==> col <= b.col)
}

/// Whether a cell of the area lies in a selection.
pub open spec fn shows(area: Rect, selection: (Cell, Cell), row: int, col: int) -> bool {
    in_area(area, row, col) && selects(selection, row, col)
}

/// The colours of a buffer with a selection highlighted.
pub open spec fn highlighted(
    colors: Map<(u16, u16), (Option<Color>, Option<Color>)>,
    area: Rect,
    selection: (Cell, Cell),
    fg: Option<Color>,
    bg: Option<Color>,
) -> Map<(u16, u16), (Option<Color>, Option<Color>)> {
    Map::new(
        |k: (u16, u16)| colors.contains_key(k),
        |k: (u16, u16)|
            if shows(area, selection, k.1 as int, k.0 as int) {
                painted(colors[k], fg, bg)
            } else {
                colors[k]
            },
    )
}

/// As [`highlighted`], for the rows above `row`, and in that row the columns
/// left of `col`.
spec fn highlighted_before(
    colors: Map<(u16, u16), (Option<Color>, Option<Color>)>,
    area: Rect,
    selection: (Cell, Cell),
    fg: Option<Color>,
    bg: Option<Color>,
    row: int,
    col: int,
) -> Map<(u16, u16), (Option<Color>, Option<Color>)> {
    Map::new(
        |k: (u16, u16)| colors.contains_key(k),
        |k: (u16, u16)|
            if shows(area, selection, k.1 as int, k.0 as int) && (k.1 < row || (k.1 == row && k.0
                < col)) {
                painted(colors[k], fg, bg)
            } else {
                colors[k]
            },
    )
}

/// The first and the last selected column of a row of the area; none where
/// the first lies behind the last.
fn selected_columns(area: Rect, a: Cell, b: Cell, y: u16) -> (r: Option<(u16, u16)>)
    requires
        a.before_or_at(b),
        a.row <= y <= b.row,
    ensures
        match r {
            Some(c) => c.0 <= c.1 && forall|x: int| #[trigger]
                shows(area, (a, b), y as int, x) == (c.0 <= x <= c.1),
            None => forall|x: int| !#[trigger] shows(area, (a, b), y as int, x),
        },
{
    let bottom = area.y.saturating_add(area.height);
    let right = area.x.saturating_add(area.width);
    if y < area.y || y >= bottom || right == area.x {
        return None;
    }
    let mut lo: u16 = area.x;
    if y == a.row && a.col > lo {
        lo = a.col;
    }
    let mut hi: u16 = right - 1;
    if y == b.row && b.col < hi {
        hi = b.col;
    }
    if lo <= hi {
        Some((lo, hi))
    } else {
        None
    }
}

/// Highlights a selection, as far as it lies in an area. Its ends may come
/// in either order.
pub fn apply_selection_highlight(
    buf: &mut Buffer,
    area: Rect,
    selection: (Cell, Cell),
    fg: Option<Color>,
    bg: Option<Color>,
)
    ensures
        buffer_chars(*final(buf)) == buffer_chars(*old(buf)),
        buffer_colors(*final(buf)) == highlighted(
            buffer_colors(*old(buf)),
            area,
            selection,
            fg,
            bg,
        ),
{
    let forward = selection.0.row < selection.1.row || (selection.0.row == selection.1.row
        && selection.0.col <= selection.1.col);
    let (a, b) = if forward {
        (selection.0, selection.1)
    } else {
        (selection.1, selection.0)
    };
    let ghost chars = buffer_chars(*buf);
    let ghost colors = buffer_colors(*buf);
    let ghost sel = (a, b);
    assert(a.before_or_at(b));
    assert(forall|r: int, c: int| shows(area, sel, r, c) == shows(area, selection, r, c));
    let mut y: u16 = a.row;
    let mut done = false;
    assert(buffer_colors(*buf) =~= highlighted_before(colors, area, sel, fg, bg, y as int, 0));
    while !done
        invariant
            a.before_or_at(b),
            sel == (a, b),
            a.row <= y <= b.row,
            buffer_chars(*buf) == chars,
            buffer_colors(*buf) == highlighted_before(
                colors,
                area,
                sel,
                fg,
                bg,
                if done {
                    y + 1
                } else {
                    y as int
                },
                0,
            ),
            done ==> y == b.row,
        decreases
                (if done {
                    0
                } else {
                    b.row - y + 1
                }),
    {
        if let Some((lo, hi)) = selected_columns(area, a, b, y) {
            highlight_row(buf, area, a, b, y, lo, hi, fg, bg, Ghost(colors));
        } else {
            assert(buffer_colors(*buf) =~= highlighted_before(
                colors,
                area,
                sel,
                fg,
                bg,
                y + 1,
                0,
            ));
        }
        if y == b.row {
            done = true;
        } else {
            y = y + 1;
        }
    }
    assert(buffer_colors(*buf) =~= highlighted(colors, area, selection, fg, bg));
}

fn highlight_row(
    buf: &mut Buffer,
    area: Rect,
    a: Cell,
    b: Cell,
    y: u16,
    lo: u16,
    hi: u16,
    fg: Option<Color>,
    bg: Option<Color>,
    Ghost(colors): Ghost<Map<(u16, u16), (Option<Color>, Option<Color>)>>,
)
    requires
        lo <= hi,
        forall|x: int| #[trigger] shows(area, (a, b), y as int, x) == (lo <= x <= hi),
        buffer_colors(*old(buf)) == highlighted_before(colors, area, (a, b), fg, bg, y as int, 0),
    ensures
        buffer_chars(*final(buf)) == buffer_chars(*old(buf)),
        buffer_colors(*final(buf)) == highlighted_before(
            colors,
            area,
            (a, b),
            fg,
            bg,
            y + 1,
            0,
        ),
{
    let ghost chars = buffer_chars(*buf);
    let ghost sel = (a, b);
    let mut x: u16 = lo;
    let mut done = false;
    assert(buffer_colors(*buf) =~= highlighted_before(
        colors,
        area,
        sel,
        fg,
        bg,
        y as int,
        x as int,
    ));
    while !done
        invariant
            lo <= x <= hi,
            sel == (a, b),
            forall|c: int| #[trigger] shows(area, sel, y as int, c) == (lo <= c <= hi),
            buffer_chars(*buf) == chars,
            buffer_colors(*buf) == highlighted_before(
                colors,
                area,
                sel,
                fg,
                bg,
                y as int,
                if done {
                    x + 1
                } else {
                    x as int
                },
            ),
            done ==> x == hi,
        decreases
                (if done {
                    0
                } else {
                    hi - x + 1
                }),
    {
        assert(shows(area, sel, y as int, x as int));
        paint_cell(buf, x, y, fg, bg);
        assert(buffer_colors(*buf) =~= highlighted_before(
            colors,
            area,
            sel,
            fg,
            bg,
            y as int,
            x + 1,
        ));
        if x == hi {
            done = true;
        } else {
            x = x + 1;
        }
    }
    assert(buffer_colors(*buf) =~= highlighted_before(colors, area, sel, fg, bg, y + 1, 0));
}

/// Highlighting does not touch what the cells hold or any cell outside the
/// area.
pub proof fn law_highlights_stay_in_the_area(
    colors: Map<(u16, u16), (Option<Color>, Option<Color>)>,
    area: Rect,
    selection: (Cell, Cell),
    fg: Option<Color>,
    bg: Option<Color>,
    x: u16,
    y: u16,
)
    requires
        colors.contains_key((x, y)),
        !in_area(area, y as int, x as int),
    ensures
        highlighted(colors, area, selection, fg, bg)[(x, y)] == colors[(x, y)],
{
}

/// A selection shows alike whichever end it was begun at.
pub proof fn law_highlights_ignore_direction(
    colors: Map<(u16, u16), (Option<Color>, Option<Color>)>,
    area: Rect,
    a: Cell,
    b: Cell,
    fg: Option<Color>,
    bg: Option<Color>,
)
    ensures
        highlighted(colors, area, (a, b), fg, bg) == highlighted(colors, area, (b, a), fg, bg),
{
    assert(highlighted(colors, area, (a, b), fg, bg) =~= highlighted(
        colors,
        area,
        (b, a),
        fg,
        bg,
    ));
}

/// A cell of the area that lies in the selection is painted, and every other
/// cell keeps its colours; a colour that is not given stays.
pub proof fn law_selected_cells_are_painted(
    colors: Map<(u16, u16), (Option<Color>, Option<Color>)>,
    area: Rect,
    selection: (Cell, Cell),
    fg: Option<Color>,
    bg: Option<Color>,
    x: u16,
    y: u16,
)
    requires
        colors.contains_key((x, y)),
    ensures
        ({
            let after = highlighted(colors, area, selection, fg, bg);
            let inside = in_area(area, y as int, x as int) && selects(
                selection,
                y as int,
                x as int,
            );
            &&& after.dom() == colors.dom()
            &&& !inside ==> after[(x, y)] == colors[(x, y)]
            &&& inside && fg is Some ==> after[(x, y)].0 == fg
            &&& inside && bg is Some ==> after[(x, y)].1 == bg
            &&& inside && fg is None ==> after[(x, y)].0 == colors[(x, y)].0
            &&& inside && bg is None ==> after[(x, y)].1 == colors[(x, y)].1
        }),
{
    assert(highlighted(colors, area, selection, fg, bg).dom() =~= colors.dom());
}

/// A selection covers the cells from its earlier end to its later one in
/// reading order, both included.
pub proof fn law_selections_cover_what_lies_between(a: Cell, b: Cell, c: Cell)
    requires
        a.before_or_at(b),
    ensures
        selects((a, b), c.row as int, c.col as int) <==> a.before_or_at(c) && c.before_or_at(b),
{
}

/// A cell lies in an area where it lies below its top and left edges and
/// before its far ones.
pub proof fn law_areas_hold_their_cells(area: Rect, row: int, col: int)
    requires
        area.x + area.width <= u16::MAX,
        area.y + area.height <= u16::MAX,
    ensures
        in_area(area, row, col) <==> area.y <= row < area.y + area.height && area.x <= col < area.x
            + area.width,
{
}

/// What is noted of a frame is what it shows in the area: each cell under
/// its row and column, and no other.
pub proof fn law_frames_are_noted_cell_by_cell(b: Buffer, area: Rect, row: u16, col: u16)
    ensures
        cells_in(b, area).contains_key((row as int, col as int)) <==> in_area(
            area,
            row as int,
            col as int,
        ) && buffer_chars(b).contains_key((col, row)) && buffer_chars(b)[(col, row)] is Some,
        cells_in(b, area).contains_key((row as int, col as int)) ==> cells_in(
            b,
            area,
        )[(row as int, col as int)] == buffer_chars(b)[(col, row)]->0,
{
}

} // verus!
