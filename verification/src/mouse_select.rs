//! Text selection with the mouse on the transcript pane: what was drawn in
//! each cell of the last frame, and the state of the drag.

use vstd::prelude::*;

verus! {

/// A coordinate in terminal cells, counted from the top left.
#[derive(Debug, Clone, Copy, PartialEq, Eq, Structural)]
pub struct Cell {
    pub row: u16,
    pub col: u16,
}

impl Cell {
    pub fn new(row: u16, col: u16) -> (r: Cell)
        ensures
            r.row == row,
            r.col == col,
    {
        Cell { row, col }
    }

    /// Reading order.
    pub open spec fn before_or_at(self, other: Cell) -> bool {
        self.row < other.row || (self.row == other.row && self.col <= other.col)
    }
}

/// Entries of one row, by ascending column.
pub open spec fn ascending(row: Seq<(u16, char)>) -> bool {
    forall|i: int, j: int| 0 <= i < j < row.len() ==> (#[trigger] row[i]).0 < (#[trigger] row[j]).0
}

/// Whether entry `i` of a row stands in column `col`.
pub open spec fn entry_at(row: Seq<(u16, char)>, col: int, i: int) -> bool {
    0 <= i < row.len() && row[i].0 == col
}

/// What a row holds in a column.
pub open spec fn row_get(row: Seq<(u16, char)>, col: int) -> Option<char> {
    if exists|i: int| entry_at(row, col, i) {
        Some(row[choose|i: int| entry_at(row, col, i)].1)
    } else {
        None
    }
}

proof fn lemma_row_get(row: Seq<(u16, char)>, i: int)
    requires
        ascending(row),
        0 <= i < row.len(),
    ensures
        row_get(row, row[i].0 as int) == Some(row[i].1),
{
    let col = row[i].0 as int;
    assert(entry_at(row, col, i));
    let k = choose|k: int| entry_at(row, col, k);
    if k < i {
        assert(row[k].0 < row[i].0);
    } else if i < k {
        assert(row[i].0 < row[k].0);
    }
}

/// The text drawn in columns `lo` to `hi` of `row`, cells that hold nothing
/// left out.
pub open spec fn row_text(cells: Map<(int, int), char>, row: int, lo: int, hi: int) -> Seq<char>
    decreases hi - lo + 1,
{
    if hi < lo {
        Seq::empty()
    } else if cells.contains_key((row, hi)) {
        row_text(cells, row, lo, hi - 1).push(cells[(row, hi)])
    } else {
        row_text(cells, row, lo, hi - 1)
    }
}

proof fn lemma_row_text_gap(cells: Map<(int, int), char>, row: int, lo: int, from: int, to: int)
    requires
        from <= to,
        forall|c: int| from < c <= to ==> !cells.contains_key((row, c)),
    ensures
        row_text(cells, row, lo, to) == row_text(cells, row, lo, from),
    decreases to - from,
{
    if from < to {
        lemma_row_text_gap(cells, row, lo, from, to - 1);
        assert(!cells.contains_key((row, to)));
    }
}

/// The greatest column.
pub open spec fn last_col() -> int {
    u16::MAX as int
}

/// The rows below `first` up to `last`, each behind a line feed: whole rows,
/// but for the last, which ends at `col`.
pub open spec fn rows_text(cells: Map<(int, int), char>, first: int, last: int, col: int) -> Seq<
    char,
> {
    if last <= first {
        Seq::empty()
    } else {
        full_rows_text(cells, first, last - 1).push('\n') + row_text(cells, last, 0, col)
    }
}

/// The rows below `first` up to `last`, whole, each behind a line feed.
pub open spec fn full_rows_text(cells: Map<(int, int), char>, first: int, last: int) -> Seq<char>
    decreases last - first,
{
    if last <= first {
        Seq::empty()
    } else {
        full_rows_text(cells, first, last - 1).push('\n') + row_text(cells, last, 0, last_col())
    }
}

/// The text between two cells in reading order, both included: on one row
/// the columns between them; over several rows the first from its column on,
/// the last up to its column and those between whole, joined by line feeds.
pub open spec fn range_text(cells: Map<(int, int), char>, start: Cell, end: Cell) -> Seq<char> {
    let (a, b) = if start.before_or_at(end) {
        (start, end)
    } else {
        (end, start)
    };
    if a.row == b.row {
        row_text(cells, a.row as int, a.col as int, b.col as int)
    } else {
        row_text(cells, a.row as int, a.col as int, last_col()) + rows_text(
            cells,
            a.row as int,
            b.row as int,
            b.col as int,
        )
    }
}

/// What each terminal cell of the last frame showed. Cells are addressed by
/// row and column; cells that nothing was drawn in hold nothing.
#[derive(Debug)]
pub struct PositionMap {
    rows: Vec<Vec<(u16, char)>>,
}

impl View for PositionMap {
    type V = Map<(int, int), char>;

    closed spec fn view(&self) -> Map<(int, int), char> {
        Map::new(
            |k: (int, int)|
                0 <= k.0 < self.rows@.len() && row_get(self.rows@[k.0]@, k.1) is Some,
            |k: (int, int)| row_get(self.rows@[k.0]@, k.1)->0,
        )
    }
}

/// First entry of `row` whose column is not below `col`.
fn lower_bound(row: &Vec<(u16, char)>, col: u16) -> (i: usize)
    requires
        ascending(row@),
    ensures
        i <= row@.len(),
        forall|k: int| 0 <= k < i ==> (#[trigger] row@[k]).0 < col,
        forall|k: int| i <= k < row@.len() ==> (#[trigger] row@[k]).0 >= col,
{
    let mut lo: usize = 0;
    let mut hi: usize = row.len();
    while lo < hi
        invariant
            lo <= hi <= row@.len(),
            ascending(row@),
            forall|k: int| 0 <= k < lo ==> (#[trigger] row@[k]).0 < col,
            forall|k: int| hi <= k < row@.len() ==> (#[trigger] row@[k]).0 >= col,
        decreases hi - lo,
    {
        let mid: usize = lo + (hi - lo) / 2;
        if row[mid].0 < col {
            assert forall|k: int| 0 <= k < mid + 1 implies (#[trigger] row@[k]).0 < col by {
                if k < mid {
                    assert(row@[k].0 < row@[mid as int].0);
                }
            }
            lo = mid + 1;
        } else {
            assert forall|k: int| mid <= k < row@.len() implies (#[trigger] row@[k]).0 >= col by {
                if mid < k {
                    assert(row@[mid as int].0 < row@[k].0);
                }
            }
            hi = mid;
        }
    }
    lo
}

/// Puts `ch` into column `col` of a row, in place of what it held.
fn put(row: &mut Vec<(u16, char)>, col: u16, ch: char)
    requires
        ascending(old(row)@),
    ensures
        ascending(final(row)@),
        row_get(final(row)@, col as int) == Some(ch),
        forall|c: int|
            c != col ==> #[trigger] row_get(final(row)@, c) == row_get(old(row)@, c),
{
    let i = lower_bound(row, col);
    let ghost before = row@;
    if i < row.len() && row[i].0 == col {
        row.set(i, (col, ch));
        assert forall|c: int| c != col implies #[trigger] row_get(row@, c) == row_get(
            before,
            c,
        ) by {
            lemma_row_get_agree(before, row@, c);
        }
        proof {
            lemma_row_get(row@, i as int);
        }
    } else {
        row.insert(i, (col, ch));
        assert(ascending(row@)) by {
            assert forall|a: int, b: int| 0 <= a < b < row@.len() implies (#[trigger] row@[a]).0 < (
            #[trigger] row@[b]).0 by {
                if a < i && b > i {
                    assert(before[a].0 < before[b - 1].0);
                }
                if a == i {
                    assert(before[b - 1].0 >= col);
                }
                if b < i {
                    assert(before[a].0 < before[b].0);
                }
                if b == i {
                    assert(before[a].0 < col);
                }
                if a > i {
                    assert(before[a - 1].0 < before[b - 1].0);
                }
            }
        }
        assert forall|c: int| c != col implies #[trigger] row_get(row@, c) == row_get(
            before,
            c,
        ) by {
            assert forall|k: int| entry_at(before, c, k) implies exists|m: int|
                entry_at(row@, c, m) && row@[m] == before[k] by {
                let m = if k < i {
                    k
                } else {
                    k + 1
                };
                assert(entry_at(row@, c, m) && row@[m] == before[k]);
            }
            assert forall|m: int| entry_at(row@, c, m) implies exists|k: int|
                entry_at(before, c, k) && row@[m] == before[k] by {
                let k = if m < i {
                    m
                } else {
                    m - 1
                };
                assert(entry_at(before, c, k) && row@[m] == before[k]);
            }
            if exists|k: int| entry_at(before, c, k) {
                let k = choose|k: int| entry_at(before, c, k);
                let m = choose|m: int| entry_at(row@, c, m) && row@[m] == before[k];
                lemma_row_get(before, k);
                lemma_row_get(row@, m);
            }
        }
        proof {
            lemma_row_get(row@, i as int);
        }
    }
}

/// Rows that hold the same columns, and the same character in column `c`,
/// agree on it.
proof fn lemma_row_get_agree(a: Seq<(u16, char)>, b: Seq<(u16, char)>, c: int)
    requires
        ascending(a),
        ascending(b),
        a.len() == b.len(),
        forall|i: int| 0 <= i < a.len() ==> (#[trigger] a[i]).0 == b[i].0,
        forall|i: int| 0 <= i < a.len() && (#[trigger] a[i]).0 == c ==> a[i].1 == b[i].1,
    ensures
        row_get(a, c) == row_get(b, c),
{
    if exists|i: int| entry_at(a, c, i) {
        let i = choose|i: int| entry_at(a, c, i);
        assert(entry_at(b, c, i));
        lemma_row_get(a, i);
        lemma_row_get(b, i);
    } else if exists|i: int| entry_at(b, c, i) {
        let i = choose|i: int| entry_at(b, c, i);
        assert(entry_at(a, c, i));
    }
}

impl PositionMap {
    /// Every row lists its columns in ascending order.
    pub closed spec fn wf(&self) -> bool {
        forall|r: int| 0 <= r < self.rows@.len() ==> ascending(#[trigger] self.rows@[r]@)
    }

    pub fn new() -> (m: PositionMap)
        ensures
            m.wf(),
            m@ == Map::<(int, int), char>::empty(),
    {
        let m = PositionMap { rows: Vec::new() };
        assert(m@ =~= Map::<(int, int), char>::empty());
        m
    }

    /// Records the character drawn at a cell, in place of what was recorded
    /// there before.
    pub fn record(&mut self, row: u16, col: u16, ch: char)
        requires
            old(self).wf(),
        ensures
            final(self).wf(),
            final(self)@ == old(self)@.insert((row as int, col as int), ch),
    {
        let r: usize = row as usize;
        let ghost start = self.rows@;
        while self.rows.len() <= r
            invariant
                start.len() <= self.rows@.len(),
                self.rows@.len() <= r + 1 || self.rows@.len() == start.len(),
                forall|k: int| 0 <= k < start.len() ==> #[trigger] self.rows@[k] == start[k],
                forall|k: int|
                    start.len() <= k < self.rows@.len() ==> (#[trigger] self.rows@[k])@.len() == 0,
            decreases r + 1 - self.rows@.len(),
        {
            self.rows.push(Vec::new());
        }
        let ghost grown = self.rows@;
        assert(forall|k: int| 0 <= k < grown.len() ==> ascending(#[trigger] grown[k]@));
        put(&mut self.rows[r], col, ch);
        proof {
            assert(self.rows@.len() == grown.len());
            assert forall|k: int| 0 <= k < grown.len() implies ascending(
                #[trigger] self.rows@[k]@,
            ) by {
                if k != r {
                    assert(self.rows@[k] == grown[k]);
                }
            }
            let want = old(self)@.insert((row as int, col as int), ch);
            assert forall|k: (int, int)|
                #![trigger self@.contains_key(k)]
                #![trigger want.contains_key(k)]
                self@.contains_key(k) == want.contains_key(k) && (self@.contains_key(k) ==> self@[k]
                    == want[k]) by {
                if 0 <= k.0 < self.rows@.len() && k.0 != r {
                    assert(self.rows@[k.0] == grown[k.0]);
                    if k.0 >= start.len() {
                        assert(row_get(grown[k.0]@, k.1) is None);
                    }
                }
                if k.0 == r && k.1 != col {
                    assert(row_get(self.rows@[r as int]@, k.1) == row_get(grown[r as int]@, k.1));
                    if r >= start.len() {
                        assert(row_get(grown[r as int]@, k.1) is None);
                    }
                }
            }
            assert(self@ =~= want);
        }
    }

    /// Forgets every cell, before the next frame is drawn.
    pub fn clear(&mut self)
        requires
            old(self).wf(),
        ensures
            final(self).wf(),
            final(self)@ == Map::<(int, int), char>::empty(),
    {
        let mut i: usize = 0;
        let n: usize = self.rows.len();
        while i < n
            invariant
                i <= n,
                n == self.rows@.len(),
                forall|k: int| 0 <= k < i ==> (#[trigger] self.rows@[k])@.len() == 0,
            decreases n - i,
        {
            self.rows[i].clear();
            i = i + 1;
        }
        assert(self@ =~= Map::<(int, int), char>::empty()) by {
            assert forall|k: (int, int)| !self@.contains_key(k) by {
                if 0 <= k.0 < self.rows@.len() {
                    assert(self.rows@[k.0]@.len() == 0);
                }
            }
        }
    }

    /// What is recorded at a cell.
    pub fn get(&self, row: u16, col: u16) -> (r: Option<char>)
        requires
            self.wf(),
        ensures
            r == (if self@.contains_key((row as int, col as int)) {
                Some(self@[(row as int, col as int)])
            } else {
                None
            }),
    {
        let r: usize = row as usize;
        if r >= self.rows.len() {
            return None;
        }
        let bucket = &self.rows[r];
        let i = lower_bound(bucket, col);
        if i < bucket.len() && bucket[i].0 == col {
            proof {
                lemma_row_get(bucket@, i as int);
            }
            Some(bucket[i].1)
        } else {
            None
        }
    }

    /// Extracts the text that was dragged across, from `start` to `end`, both
    /// included and in either order.
    pub fn extract_range(&self, start: Cell, end: Cell) -> (out: String)
        requires
            self.wf(),
        ensures
            out@ == range_text(self@, start, end),
    {
        let (a, b) = if start.row < end.row || (start.row == end.row && start.col <= end.col) {
            (start, end)
        } else {
            (end, start)
        };
        let mut out = String::new();
        if a.row == b.row {
            self.append_row_range(a.row, a.col, b.col, &mut out);
            assert(out@ =~= range_text(self@, start, end));
            return out;
        }
        self.append_row_range(a.row, a.col, u16::MAX, &mut out);
        let ghost first = row_text(self@, a.row as int, a.col as int, last_col());
        assert(out@ =~= first + full_rows_text(self@, a.row as int, a.row as int));
        let mut row: u16 = a.row + 1;
        while row < b.row
            invariant
                a.row < row <= b.row,
                self.wf(),
                out@ == first + full_rows_text(self@, a.row as int, row - 1),
            decreases b.row - row,
        {
            out.push('\n');
            self.append_row_range(row, 0, u16::MAX, &mut out);
            assert(out@ =~= first + full_rows_text(self@, a.row as int, row as int));
            row = row + 1;
        }
        out.push('\n');
        self.append_row_range(b.row, 0, b.col, &mut out);
        assert(out@ =~= first + rows_text(self@, a.row as int, b.row as int, b.col as int));
        out
    }

    /// Appends what columns `lo` to `hi` of `row` hold.
    pub fn append_row_range(&self, row: u16, lo: u16, hi: u16, out: &mut String)
        requires
            self.wf(),
        ensures
            final(out)@ == old(out)@ + row_text(self@, row as int, lo as int, hi as int),
    {
        let r: usize = row as usize;
        let ghost pre = out@;
        let ghost base: int = lo - 1;
        if r >= self.rows.len() {
            proof {
                if lo <= hi {
                    lemma_row_text_gap(self@, row as int, lo as int, base, hi as int);
                }
                assert(pre + row_text(self@, row as int, lo as int, hi as int) =~= pre);
            }
            return;
        }
        let bucket = &self.rows[r];
        let n: usize = bucket.len();
        let mut i: usize = 0;
        let ghost mut upto: int = base;
        assert(pre + row_text(self@, row as int, lo as int, upto) =~= pre);
        while i < n && bucket[i].0 <= hi
            invariant
                i <= n == bucket@.len(),
                self.wf(),
                r == row,
                r < self.rows@.len(),
                *bucket == self.rows@[r as int],
                base == lo - 1,
                base <= upto,
                upto <= hi || upto == base,
                out@ == pre + row_text(self@, row as int, lo as int, upto),
                forall|k: int| 0 <= k < i ==> (#[trigger] bucket@[k]).0 <= upto || bucket@[k].0 < lo,
                forall|k: int| i <= k < n ==> (#[trigger] bucket@[k]).0 > upto || bucket@[k].0 < lo,
            decreases n - i,
        {
            let c = bucket[i].0;
            assert(ascending(bucket@));
            if c >= lo {
                proof {
                    assert forall|x: int| upto < x <= c - 1 implies !self@.contains_key(
                        (row as int, x),
                    ) by {
                        if exists|k: int| entry_at(bucket@, x, k) {
                            let k = choose|k: int| entry_at(bucket@, x, k);
                            if k > i {
                                assert(bucket@[i as int].0 < bucket@[k].0);
                            }
                        }
                    }
                    lemma_row_text_gap(self@, row as int, lo as int, upto, c - 1);
                    lemma_row_get(bucket@, i as int);
                    assert(self@.contains_key((row as int, c as int)));
                    assert(pre + row_text(self@, row as int, lo as int, c - 1).push(
                        bucket@[i as int].1,
                    ) =~= (pre + row_text(self@, row as int, lo as int, c - 1)).push(
                        bucket@[i as int].1,
                    ));
                    upto = c as int;
                    assert forall|k: int| i + 1 <= k < n implies (#[trigger] bucket@[k]).0 > upto
                        || bucket@[k].0 < lo by {
                        assert(bucket@[i as int].0 < bucket@[k].0);
                    }
                }
                out.push(bucket[i].1);
            }
            i = i + 1;
        }
        proof {
            assert(ascending(bucket@));
            if upto <= hi {
                assert forall|x: int| upto < x <= hi implies !self@.contains_key((row as int, x)) by {
                    if exists|k: int| entry_at(bucket@, x, k) {
                        let k = choose|k: int| entry_at(bucket@, x, k);
                        if k > i {
                            assert(bucket@[i as int].0 < bucket@[k].0);
                        }
                    }
                }
                lemma_row_text_gap(self@, row as int, lo as int, upto, hi as int);
            } else {
                assert(row_text(self@, row as int, lo as int, hi as int) =~= Seq::<char>::empty());
            }
        }
    }
}

/// A mouse selection in progress or just completed.
#[derive(Debug, Clone, Copy, PartialEq, Eq, Structural)]
pub enum MouseSelection {
    /// Nothing is selected.
    Idle,
    /// The left button is down. `start == end` for a click without a drag.
    Selecting { start: Cell, end: Cell },
    /// The button went up; the range stays until the next press.
    Done { start: Cell, end: Cell },
}

impl Default for MouseSelection {
    fn default() -> (r: MouseSelection)
        ensures
            r == MouseSelection::Idle,
    {
        MouseSelection::Idle
    }
}

impl MouseSelection {
    pub open spec fn down(self, cell: Cell) -> MouseSelection {
        MouseSelection::Selecting { start: cell, end: cell }
    }

    pub open spec fn dragged(self, cell: Cell) -> MouseSelection {
        match self {
            MouseSelection::Selecting { start, .. } => MouseSelection::Selecting {
                start,
                end: cell,
            },
            _ => self,
        }
    }

    pub open spec fn up(self, cell: Cell) -> MouseSelection {
        match self {
            MouseSelection::Selecting { start, .. } => MouseSelection::Done { start, end: cell },
            _ => self,
        }
    }

    pub open spec fn selected(self) -> Option<(Cell, Cell)> {
        match self {
            MouseSelection::Idle => None,
            MouseSelection::Selecting { start, end } => Some((start, end)),
            MouseSelection::Done { start, end } => Some((start, end)),
        }
    }

    /// The left button goes down: a new selection is anchored at `cell`.
    pub fn on_down(&mut self, cell: Cell)
        ensures
            *final(self) == old(self).down(cell),
    {
        *self = MouseSelection::Selecting { start: cell, end: cell };
    }

    /// The mouse moves with the left button down: the selection is extended.
    pub fn on_drag(&mut self, cell: Cell)
        ensures
            *final(self) == old(self).dragged(cell),
    {
        if let MouseSelection::Selecting { start, .. } = *self {
            *self = MouseSelection::Selecting { start, end: cell };
        }
    }

    /// The left button goes up: the selection is final.
    pub fn on_up(&mut self, cell: Cell)
        ensures
            *final(self) == old(self).up(cell),
    {
        if let MouseSelection::Selecting { start, .. } = *self {
            *self = MouseSelection::Done { start, end: cell };
        }
    }

    /// Drops the selection.
    pub fn cancel(&mut self)
        ensures
            *final(self) == MouseSelection::Idle,
    {
        *self = MouseSelection::Idle;
    }

    /// The selected range, live or completed.
    pub fn range(&self) -> (r: Option<(Cell, Cell)>)
        ensures
            r == self.selected(),
    {
        match *self {
            MouseSelection::Idle => None,
            MouseSelection::Selecting { start, end } => Some((start, end)),
            MouseSelection::Done { start, end } => Some((start, end)),
        }
    }
}

// ---------------------------------------------------------------------------
// Laws
// ---------------------------------------------------------------------------

/// The order in which the two ends of a selection are given does not matter.
pub proof fn law_range_text_is_symmetric(cells: Map<(int, int), char>, a: Cell, b: Cell)
    ensures
        range_text(cells, a, b) == range_text(cells, b, a),
{
}

/// Of two characters recorded at one cell the later one stays.
pub proof fn law_last_record_wins(cells: Map<(int, int), char>, row: u16, col: u16, a: char, b: char)
    ensures
        cells.insert((row as int, col as int), a).insert((row as int, col as int), b)
            == cells.insert((row as int, col as int), b),
{
    assert(cells.insert((row as int, col as int), a).insert((row as int, col as int), b)
        =~= cells.insert((row as int, col as int), b));
}

/// Nothing can be extracted where nothing was drawn on the one row that the
/// selection covers.
pub proof fn law_nothing_drawn_nothing_selected(cells: Map<(int, int), char>, a: Cell, b: Cell)
    requires
        a.row == b.row,
        forall|c: int| !cells.contains_key((a.row as int, c)),
    ensures
        range_text(cells, a, b) == Seq::<char>::empty(),
{
    let (lo, hi) = if a.before_or_at(b) {
        (a.col as int, b.col as int)
    } else {
        (b.col as int, a.col as int)
    };
    lemma_row_text_gap(cells, a.row as int, lo, lo - 1, hi);
}

/// A press, any drags and a release select from the press to the release,
/// and a drag or release without a press changes nothing.
pub proof fn law_drag_selects_from_press_to_release(
    s: MouseSelection,
    press: Cell,
    over: Cell,
    release: Cell,
)
    ensures
        s.down(press).selected() == Some((press, press)),
        s.down(press).dragged(over).selected() == Some((press, over)),
        s.down(press).dragged(over).up(release).selected() == Some((press, release)),
        s.down(press).up(release).selected() == Some((press, release)),
        MouseSelection::Idle.dragged(over) == MouseSelection::Idle,
        MouseSelection::Idle.up(release) == MouseSelection::Idle,
        s.down(press).up(release).dragged(over) == s.down(press).up(release),
{
}

/// Rows come before columns.
pub proof fn law_cells_are_read_row_by_row(a: Cell, b: Cell)
    ensures
        a.row < b.row ==> a.before_or_at(b) && !b.before_or_at(a),
        a.row == b.row ==> (a.before_or_at(b) <==> a.col <= b.col),
{
}

/// The text of a stretch of a row is that of its two parts; a cell adds what
/// was drawn in it, and nothing where nothing was.
pub proof fn law_rows_are_read_cell_by_cell(
    cells: Map<(int, int), char>,
    row: int,
    lo: int,
    mid: int,
    hi: int,
)
    requires
        lo <= mid + 1,
        mid <= hi,
    ensures
        row_text(cells, row, lo, hi) == row_text(cells, row, lo, mid) + row_text(
            cells,
            row,
            mid + 1,
            hi,
        ),
        row_text(cells, row, hi + 1, hi).len() == 0,
        cells.contains_key((row, hi)) ==> row_text(cells, row, hi, hi) == seq![cells[(row, hi)]],
        !cells.contains_key((row, hi)) ==> row_text(cells, row, hi, hi).len() == 0,
    decreases hi - mid,
{
    assert(row_text(cells, row, hi, hi - 1) == Seq::<char>::empty());
    assert(row_text(cells, row, hi + 1, hi) == Seq::<char>::empty());
    if cells.contains_key((row, hi)) {
        assert(row_text(cells, row, hi, hi) =~= seq![cells[(row, hi)]]);
    }
    if mid == hi {
        assert(row_text(cells, row, lo, hi) + Seq::<char>::empty() =~= row_text(cells, row, lo, hi));
    } else {
        law_rows_are_read_cell_by_cell(cells, row, lo, mid, hi - 1);
        assert(row_text(cells, row, lo, hi) =~= row_text(cells, row, lo, mid) + row_text(
            cells,
            row,
            mid + 1,
            hi,
        ));
    }
}

/// On one row the text runs from the one column to the other. Over several,
/// the first row runs from its column to its end, and each row below is set
/// off by a line feed: whole where it is not the last, up to the column where
/// it is.
pub proof fn law_selections_run_from_cell_to_cell(
    cells: Map<(int, int), char>,
    a: Cell,
    b: Cell,
    next: Cell,
)
    requires
        a.before_or_at(b),
        next.row == b.row + 1,
    ensures
        a.row == b.row ==> range_text(cells, a, b) == row_text(
            cells,
            a.row as int,
            a.col as int,
            b.col as int,
        ),
        b.col == 65535 ==> range_text(cells, a, next) == range_text(cells, a, b) + seq!['\n']
            + row_text(cells, next.row as int, 0, next.col as int),
{
    if b.col == 65535 {
        let r = b.row as int;
        let tail = row_text(cells, r + 1, 0, next.col as int);
        let head = row_text(cells, a.row as int, a.col as int, last_col());
        if a.row == b.row {
            assert(full_rows_text(cells, a.row as int, r) == Seq::<char>::empty());
            assert(rows_text(cells, a.row as int, r + 1, next.col as int) =~= seq!['\n'] + tail);
            assert(head + (seq!['\n'] + tail) =~= head + seq!['\n'] + tail);
        } else {
            let full = full_rows_text(cells, a.row as int, r);
            assert(full =~= rows_text(cells, a.row as int, r, last_col()));
            assert(head + (full.push('\n') + tail) =~= (head + full) + seq!['\n'] + tail);
        }
    }
}

/// A press starts over wherever the selection stood; a release ends it, and
/// what comes after it without a press changes nothing.
pub proof fn law_a_press_starts_over(s: MouseSelection, press: Cell, other: Cell, more: Cell)
    ensures
        s.down(press) == (MouseSelection::Selecting { start: press, end: press }),
        s.down(press).dragged(other).dragged(more) == s.down(press).dragged(more),
        s.down(press).dragged(other) == (MouseSelection::Selecting { start: press, end: other }),
        s.down(press).up(other) == (MouseSelection::Done { start: press, end: other }),
        s.down(press).up(other).up(more) == s.down(press).up(other),
        MouseSelection::Idle.selected() is None,
{
}

} // verus!
