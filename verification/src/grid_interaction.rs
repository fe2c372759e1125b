//! Mouse selection, hit testing and text cleaning over the terminal grid.

use crate::grid::PaneId;
use crate::text;
use crate::text::{chars_of, is_control};
use vstd::prelude::*;

verus! {

/// How a mouse selection extracts text.
#[derive(Clone, Copy, Debug, PartialEq, Eq, Structural)]
pub enum SelectionMode {
    /// The first row from the start column, inner rows whole, the last row to
    /// the end column.
    Linewise,
    /// Every row clipped to one column range.
    Block,
}

/// A mouse selection over a pane. Both ends are `(absolute line, column)`; an
/// empty selection has `anchor == head`.
#[derive(Clone, Copy, Debug, PartialEq, Eq)]
pub struct Selection {
    pub pane: PaneId,
    pub anchor: (usize, usize),
    pub head: (usize, usize),
    pub mode: SelectionMode,
}

/// Reading order of two grid positions.
pub open spec fn reads_before(a: (usize, usize), b: (usize, usize)) -> bool {
    a.0 < b.0 || (a.0 == b.0 && a.1 <= b.1)
}

/// The end of a selection that comes first in reading order.
pub open spec fn first_end(anchor: (usize, usize), head: (usize, usize)) -> (usize, usize) {
    if reads_before(anchor, head) {
        anchor
    } else {
        head
    }
}

/// The end of a selection that comes last in reading order.
pub open spec fn last_end(anchor: (usize, usize), head: (usize, usize)) -> (usize, usize) {
    if reads_before(anchor, head) {
        head
    } else {
        anchor
    }
}

/// Some cell of the selection lies on `line`.
pub open spec fn selects_line(anchor: (usize, usize), head: (usize, usize), line: int) -> bool {
    first_end(anchor, head).0 <= line <= last_end(anchor, head).0
}

/// The window of `rows` lines from `window_start` shows some line of the selection.
pub open spec fn selection_in_window(
    anchor: (usize, usize),
    head: (usize, usize),
    window_start: usize,
    rows: usize,
) -> bool {
    exists|line: int|
        #[trigger] selects_line(anchor, head, line) && window_start <= line < window_start + rows
}

/// The display position where the visible part of a selection starts.
pub open spec fn visible_start(
    anchor: (usize, usize),
    head: (usize, usize),
    window_start: usize,
) -> (usize, usize) {
    let s = first_end(anchor, head);
    if s.0 >= window_start {
        ((s.0 - window_start) as usize, s.1)
    } else {
        (0, 0)
    }
}

/// The display position where the visible part of a selection ends. A selection
/// that runs on below the window ends at the end of the last row.
pub open spec fn visible_end(
    anchor: (usize, usize),
    head: (usize, usize),
    window_start: usize,
    rows: usize,
) -> (usize, usize) {
    let e = last_end(anchor, head);
    if e.0 < window_start + rows {
        ((e.0 - window_start) as usize, e.1)
    } else {
        ((rows - 1) as usize, usize::MAX)
    }
}

/// The display positions of a selection in the current window, or `None` when
/// no selected line is in view.
pub open spec fn visible_rows(
    anchor: (usize, usize),
    head: (usize, usize),
    window_start: usize,
    rows: usize,
) -> Option<((usize, usize), (usize, usize))> {
    if selection_in_window(anchor, head, window_start, rows) {
        Some(
            (
                visible_start(anchor, head, window_start),
                visible_end(anchor, head, window_start, rows),
            ),
        )
    } else {
        None
    }
}

/// Map an absolute selection to display positions for the visible window.
pub fn selection_visible_rows(
    anchor: (usize, usize),
    head: (usize, usize),
    window_start: usize,
    rows: usize,
) -> (r: Option<((usize, usize), (usize, usize))>)
    requires
        window_start + rows <= usize::MAX,
    ensures
        r == visible_rows(anchor, head, window_start, rows),
{
    if rows == 0 {
        return None;
    }
    let (start, end) = if anchor.0 < head.0 || (anchor.0 == head.0 && anchor.1 <= head.1) {
        (anchor, head)
    } else {
        (head, anchor)
    };
    let win_end: usize = window_start + rows;
    if end.0 < window_start || start.0 >= win_end {
        return None;
    }
    proof {
        let line = if start.0 >= window_start {
            start.0 as int
        } else {
            window_start as int
        };
        assert(selects_line(anchor, head, line));
    }
    let start_disp = if start.0 >= window_start {
        (start.0 - window_start, start.1)
    } else {
        (0, 0)
    };
    let end_disp = if end.0 < win_end {
        (end.0 - window_start, end.1)
    } else {
        (rows - 1, usize::MAX)
    };
    Some((start_disp, end_disp))
}

/// The visible part of a selection does not depend on which end the drag
/// started from.
pub proof fn visible_rows_ignore_drag_direction(
    anchor: (usize, usize),
    head: (usize, usize),
    window_start: usize,
    rows: usize,
)
    ensures
        visible_rows(anchor, head, window_start, rows) == visible_rows(
            head,
            anchor,
            window_start,
            rows,
        ),
{
    assert(first_end(anchor, head) == first_end(head, anchor));
    assert(last_end(anchor, head) == last_end(head, anchor));
    assert forall|line: int| #[trigger] selects_line(anchor, head, line) == selects_line(
        head,
        anchor,
        line,
    ) by {}
    if selection_in_window(head, anchor, window_start, rows) {
        let line = choose|line: int|
            #[trigger] selects_line(head, anchor, line) && window_start <= line < window_start
                + rows;
        assert(selects_line(anchor, head, line));
    }
}

/// The visible part of a selection lies in the window, in reading order.
pub proof fn visible_rows_stay_in_window(
    anchor: (usize, usize),
    head: (usize, usize),
    window_start: usize,
    rows: usize,
)
    ensures
        visible_rows(anchor, head, window_start, rows) matches Some((s, e)) ==> reads_before(s, e)
            && e.0 < rows,
{
}

/// A selected line keeps its content as the view scrolls: wherever the window
/// stands, a selection that is wholly in view is shown at its own lines.
pub proof fn visible_rows_track_content(
    anchor: (usize, usize),
    head: (usize, usize),
    window_start: usize,
    rows: usize,
)
    requires
        window_start <= first_end(anchor, head).0,
        last_end(anchor, head).0 < window_start + rows,
    ensures
        visible_rows(anchor, head, window_start, rows) matches Some((s, e)) && window_start + s.0
            == first_end(anchor, head).0 && s.1 == first_end(anchor, head).1 && window_start + e.0
            == last_end(anchor, head).0 && e.1 == last_end(anchor, head).1,
{
    let line = first_end(anchor, head).0 as int;
    assert(selects_line(anchor, head, line));
}

/// The columns of display row `r` that a visible selection covers, both ends
/// included, or `None` where the row shows nothing of it.
pub open spec fn wash_columns(
    sel: Selection,
    start: (usize, usize),
    end: (usize, usize),
    cols: usize,
    r: int,
) -> Option<(usize, usize)> {
    let last = if cols == 0 {
        0
    } else {
        (cols - 1) as usize
    };
    let lo = if sel.mode == SelectionMode::Block {
        if sel.anchor.1 <= sel.head.1 {
            sel.anchor.1
        } else {
            sel.head.1
        }
    } else if r == start.0 {
        start.1
    } else {
        0
    };
    let right = if sel.mode == SelectionMode::Block {
        if sel.anchor.1 <= sel.head.1 {
            sel.head.1
        } else {
            sel.anchor.1
        }
    } else if r == end.0 {
        end.1
    } else {
        last
    };
    let hi = if right <= last {
        right
    } else {
        last
    };
    if cols == 0 || hi < lo {
        None
    } else {
        Some((lo, hi))
    }
}

/// The columns of one display row to wash, or `None` for a row with none.
pub fn wash_range(
    sel: Selection,
    start: (usize, usize),
    end: (usize, usize),
    cols: usize,
    r: usize,
) -> (out: Option<(usize, usize)>)
    ensures
        out == wash_columns(sel, start, end, cols, r as int),
{
    let last: usize = cols.saturating_sub(1);
    let block = sel.mode == SelectionMode::Block;
    let lo: usize = if block {
        if sel.anchor.1 <= sel.head.1 {
            sel.anchor.1
        } else {
            sel.head.1
        }
    } else if r == start.0 {
        start.1
    } else {
        0
    };
    let right: usize = if block {
        if sel.anchor.1 <= sel.head.1 {
            sel.head.1
        } else {
            sel.anchor.1
        }
    } else if r == end.0 {
        end.1
    } else {
        last
    };
    let hi: usize = if right <= last {
        right
    } else {
        last
    };
    if cols == 0 || hi < lo {
        None
    } else {
        Some((lo, hi))
    }
}

/// One washed row: the display row and its first and last washed column.
#[derive(Clone, Copy, Debug, PartialEq, Eq, Structural)]
pub struct WashRow {
    pub row: usize,
    pub lo: usize,
    pub hi: usize,
}

/// The washed rows `from..to` of a visible selection, top to bottom.
pub open spec fn wash_rows(
    sel: Selection,
    start: (usize, usize),
    end: (usize, usize),
    cols: usize,
    from: int,
    to: int,
) -> Seq<WashRow>
    decreases to - from,
{
    if to <= from {
        seq![]
    } else {
        let above = wash_rows(sel, start, end, cols, from, to - 1);
        match wash_columns(sel, start, end, cols, to - 1) {
            Some((lo, hi)) => above.push(WashRow { row: (to - 1) as usize, lo, hi }),
            None => above,
        }
    }
}

/// The wash a selection paints over a pane this frame: nothing for an empty
/// selection, one of another pane, or one that is scrolled out of view.
pub open spec fn selection_wash_spec(
    sel: Option<Selection>,
    pane: PaneId,
    window_start: usize,
    cols: usize,
    rows: usize,
) -> Seq<WashRow> {
    match sel {
        Some(s) => if s.pane == pane && s.anchor != s.head {
            match visible_rows(s.anchor, s.head, window_start, rows) {
                Some((a, b)) => wash_rows(s, a, b, cols, a.0 as int, b.0 + 1),
                None => seq![],
            }
        } else {
            seq![]
        },
        None => seq![],
    }
}

/// The rows and columns the selection wash covers in a pane.
pub fn selection_wash(
    sel: Option<Selection>,
    pane: PaneId,
    window_start: usize,
    cols: usize,
    rows: usize,
) -> (out: Vec<WashRow>)
    requires
        window_start + rows <= usize::MAX,
    ensures
        out@ == selection_wash_spec(sel, pane, window_start, cols, rows),
{
    let mut out: Vec<WashRow> = Vec::new();
    if let Some(s) = sel {
        let empty = s.anchor.0 == s.head.0 && s.anchor.1 == s.head.1;
        if s.pane == pane && !empty {
            if let Some((a, b)) = selection_visible_rows(s.anchor, s.head, window_start, rows) {
                proof {
                    visible_rows_stay_in_window(s.anchor, s.head, window_start, rows);
                }
                let mut r: usize = a.0;
                while r <= b.0
                    invariant
                        a.0 <= r <= b.0 + 1,
                        b.0 < rows,
                        out@ == wash_rows(s, a, b, cols, a.0 as int, r as int),
                    decreases b.0 + 1 - r,
                {
                    if let Some((lo, hi)) = wash_range(s, a, b, cols, r) {
                        out.push(WashRow { row: r, lo, hi });
                    }
                    r += 1;
                }
            }
        }
    }
    out
}

/// A washed cell lies in the grid.
pub proof fn wash_stays_in_grid(
    sel: Option<Selection>,
    pane: PaneId,
    window_start: usize,
    cols: usize,
    rows: usize,
)
    ensures
        forall|i: int|
            0 <= i < selection_wash_spec(sel, pane, window_start, cols, rows).len() ==> {
                let w = #[trigger] selection_wash_spec(sel, pane, window_start, cols, rows)[i];
                w.row < rows && w.lo <= w.hi < cols
            },
{
    if let Some(s) = sel {
        if let Some((a, b)) = visible_rows(s.anchor, s.head, window_start, rows) {
            visible_rows_stay_in_window(s.anchor, s.head, window_start, rows);
            wash_rows_in_grid(s, a, b, cols, a.0 as int, b.0 + 1, rows);
        }
    }
}

proof fn wash_rows_in_grid(
    sel: Selection,
    start: (usize, usize),
    end: (usize, usize),
    cols: usize,
    from: int,
    to: int,
    rows: usize,
)
    requires
        0 <= from,
        to <= rows,
    ensures
        forall|i: int|
            0 <= i < wash_rows(sel, start, end, cols, from, to).len() ==> {
                let w = #[trigger] wash_rows(sel, start, end, cols, from, to)[i];
                w.row < rows && w.lo <= w.hi < cols
            },
    decreases to - from,
{
    if to > from {
        wash_rows_in_grid(sel, start, end, cols, from, to - 1, rows);
        let above = wash_rows(sel, start, end, cols, from, to - 1);
        let all = wash_rows(sel, start, end, cols, from, to);
        assert forall|i: int| 0 <= i < all.len() implies {
            let w = #[trigger] all[i];
            w.row < rows && w.lo <= w.hi < cols
        } by {
            if i < above.len() {
                assert(all[i] == above[i]);
            }
        }
    }
}

/// One match in cell coordinates: a visual row and its columns
/// `[col_start, col_end)`.
#[derive(Clone, Copy, Debug, PartialEq, Eq, Structural)]
pub struct CellSpan {
    pub line: usize,
    pub col_start: usize,
    pub col_end: usize,
}

/// A span covers the cell at `(row, col)`.
pub open spec fn covers(s: CellSpan, row: usize, col: usize) -> bool {
    s.line == row && s.col_start <= col < s.col_end
}

/// The number of bytes UTF-8 takes for a character.
pub open spec fn utf8_len(c: char) -> nat {
    if c as u32 <= 0x7f {
        1
    } else if c as u32 <= 0x7ff {
        2
    } else if c as u32 <= 0xffff {
        3
    } else {
        4
    }
}

/// The byte at which character `i` of a text starts.
pub open spec fn byte_start(s: Seq<char>, i: int) -> nat
    decreases i,
{
    if i <= 0 {
        0
    } else {
        byte_start(s, i - 1) + utf8_len(s[i - 1])
    }
}

/// Cells taken by the first `n` characters: two for a wide glyph, one otherwise.
pub open spec fn cells_of(wide: Seq<bool>, n: int) -> nat
    decreases n,
{
    if n <= 0 {
        0
    } else {
        cells_of(wide, n - 1) + (if wide[n - 1] {
            2nat
        } else {
            1
        })
    }
}

/// `n` is the number of characters that start before `byte`.
pub open spec fn chars_before(s: Seq<char>, byte: nat, n: int) -> bool {
    &&& 0 <= n <= s.len()
    &&& forall|i: int| 0 <= i < n ==> #[trigger] byte_start(s, i) < byte
    &&& n < s.len() ==> byte_start(s, n) >= byte
}

/// The cell column of byte offset `byte` in `line`, where `wide[i]` tells
/// whether character `i` takes two cells. An offset past the end counts the
/// whole line.
pub fn byte_to_col(line: &str, byte: usize, wide: &Vec<bool>) -> (r: usize)
    requires
        wide@.len() == line@.len(),
        2 * line@.len() <= usize::MAX,
    ensures
        exists|n: int| chars_before(line@, byte as nat, n) && r == cells_of(wide@, n),
{
    let cs = chars_of(line);
    let mut at: usize = 0;
    let mut col: usize = 0;
    let mut i: usize = 0;
    while i < cs.len() && at < byte
        invariant
            i <= cs@.len(),
            cs@ == line@,
            wide@.len() == line@.len(),
            2 * line@.len() <= usize::MAX,
            at == byte_start(line@, i as int) || (at == usize::MAX && byte_start(line@, i as int)
                >= usize::MAX),
            col == cells_of(wide@, i as int),
            col <= 2 * i,
            forall|j: int| 0 <= j < i ==> #[trigger] byte_start(line@, j) < byte,
        decreases cs@.len() - i,
    {
        let n: u32 = cs[i] as u32;
        let step: usize = if n <= 0x7f {
            1
        } else if n <= 0x7ff {
            2
        } else if n <= 0xffff {
            3
        } else {
            4
        };
        at = at.saturating_add(step);
        col += if wide[i] {
            2
        } else {
            1
        };
        i += 1;
    }
    assert(chars_before(line@, byte as nat, i as int));
    col
}

/// The column of a byte offset is determined: two counts of the characters
/// before one offset agree.
pub proof fn chars_before_is_unique(s: Seq<char>, byte: nat, m: int, n: int)
    requires
        chars_before(s, byte, m),
        chars_before(s, byte, n),
    ensures
        m == n,
{
    if m < n {
        assert(byte_start(s, m) < byte);
    } else if n < m {
        assert(byte_start(s, n) < byte);
    }
}

/// The most scrollback lines one frame of drag autoscroll moves.
pub const AUTOSCROLL_MAX_LINES: i32 = 8;

/// How many lines a drag past the grid's edge scrolls this frame. `cells` is
/// the overshoot in grid rows, rounded up; a drag above the top scrolls back
/// into history (positive), one below the bottom scrolls forward (negative).
pub fn autoscroll_step(cells: i32, above_top: bool) -> (r: i32)
    ensures
        above_top ==> 1 <= r <= AUTOSCROLL_MAX_LINES && (1 <= cells <= AUTOSCROLL_MAX_LINES ==> r
            == cells) && (cells < 1 ==> r == 1) && (cells > AUTOSCROLL_MAX_LINES ==> r
            == AUTOSCROLL_MAX_LINES),
        !above_top ==> -AUTOSCROLL_MAX_LINES <= r <= -1 && (1 <= cells <= AUTOSCROLL_MAX_LINES ==> r
            == -cells) && (cells < 1 ==> r == -1) && (cells > AUTOSCROLL_MAX_LINES ==> r
            == -AUTOSCROLL_MAX_LINES),
{
    let lines: i32 = if cells < 1 {
        1
    } else if cells > AUTOSCROLL_MAX_LINES {
        AUTOSCROLL_MAX_LINES
    } else {
        cells
    };
    if above_top {
        lines
    } else {
        -lines
    }
}

/// Wheel lines per notch where the system has no such setting.
pub const DEFAULT_WHEEL_SCROLL_LINES: u32 = 3;

/// The setting that means one page per notch.
pub const WHEEL_PAGESCROLL: u32 = 0xffff_ffff;

/// The most lines per notch that is honoured.
pub const MAX_WHEEL_SCROLL_LINES: u32 = 100;

/// The rows one wheel notch moves: the system setting kept within 1 and the
/// maximum, where the page setting stands for a screenful less one row.
pub open spec fn notch_lines(os_lines: u32, visible_rows: usize) -> int {
    let wanted = if os_lines == WHEEL_PAGESCROLL {
        visible_rows - 1
    } else {
        os_lines as int
    };
    if wanted < 1 {
        1
    } else if wanted > MAX_WHEEL_SCROLL_LINES {
        MAX_WHEEL_SCROLL_LINES as int
    } else {
        wanted
    }
}

/// The lines a notch of the wheel scrolls by a system setting. A setting of
/// zero would disable the wheel and counts as none; without one a notch
/// scrolls the usual three lines.
pub open spec fn usable_setting(setting: Option<u32>) -> u32 {
    match setting {
        Some(n) => if n > 0 {
            n
        } else {
            DEFAULT_WHEEL_SCROLL_LINES
        },
        None => DEFAULT_WHEEL_SCROLL_LINES,
    }
}

/// The lines the system wants a notch of the wheel to scroll: its setting, or
/// the usual three where it has none, has zero, or could not be read.
pub fn read_os_wheel_scroll_lines(setting: Option<u32>) -> (r: u32)
    ensures
        r == usable_setting(setting),
        r > 0,
{
    match setting {
        Some(n) => if n > 0 {
            n
        } else {
            DEFAULT_WHEEL_SCROLL_LINES
        },
        None => DEFAULT_WHEEL_SCROLL_LINES,
    }
}

/// The lines the system wants a notch to scroll, read once and then remembered.
pub fn os_wheel_scroll_lines(known: &mut Option<u32>, setting: Option<u32>) -> (r: u32)
    ensures
        r == (match *old(known) {
            Some(n) => usable_setting(Some(n)),
            None => usable_setting(setting),
        }),
        r > 0,
        *final(known) == Some(r),
{
    let n: u32 = match *known {
        Some(n) => read_os_wheel_scroll_lines(Some(n)),
        None => read_os_wheel_scroll_lines(setting),
    };
    *known = Some(n);
    n
}

/// A value that was read once stays: a later read gives it again, whatever
/// the system would then answer.
pub proof fn a_read_wheel_setting_stays(first: Option<u32>)
    ensures
        usable_setting(Some(usable_setting(first))) == usable_setting(first),
        usable_setting(first) > 0,
{
}

/// Resolve the system's lines per notch to rows for a viewport.
pub fn lines_per_notch(os_lines_per_notch: u32, visible_rows: usize) -> (r: u32)
    ensures
        r == notch_lines(os_lines_per_notch, visible_rows),
        1 <= r <= MAX_WHEEL_SCROLL_LINES,
{
    if os_lines_per_notch == WHEEL_PAGESCROLL {
        let page: usize = visible_rows.saturating_sub(1);
        if page < 1 {
            1
        } else if page > 100 {
            100
        } else {
            page as u32
        }
    } else if os_lines_per_notch < 1 {
        1
    } else if os_lines_per_notch > MAX_WHEEL_SCROLL_LINES {
        MAX_WHEEL_SCROLL_LINES
    } else {
        os_lines_per_notch
    }
}

/// The grid cell nearest to a cell index that may lie past the last row or
/// column, or `None` for a grid with no cells.
pub fn clamp_to_grid(row: usize, col: usize, cols: usize, rows: usize) -> (r: Option<
    (usize, usize),
>)
    ensures
        r is None <==> cols == 0 || rows == 0,
        r matches Some((a, b)) ==> a < rows && b < cols && (row < rows ==> a == row) && (row >= rows
            ==> a == rows - 1) && (col < cols ==> b == col) && (col >= cols ==> b == cols - 1),
{
    if cols == 0 || rows == 0 {
        return None;
    }
    let a: usize = if row < rows {
        row
    } else {
        rows - 1
    };
    let b: usize = if col < cols {
        col
    } else {
        cols - 1
    };
    Some((a, b))
}

/// The one-based `(column, row)` a mouse report names for the cell at zero-based
/// `(row, col)`, kept within a grid of `cols` by `rows`; `None` where the pane
/// has no size or no cells.
pub fn report_cell(cell: Option<(usize, usize)>, size: Option<(u16, u16)>) -> (r: Option<
    (usize, usize),
>)
    requires
        cell matches Some((row, col)) ==> row < usize::MAX && col < usize::MAX,
    ensures
        r is Some <==> cell is Some && (size matches Some((cols, rows)) && cols != 0 && rows != 0),
        r matches Some((c, w)) ==> {
            let (row, col) = cell->0;
            let (cols, rows) = size->0;
            &&& c == (if col < cols {
                col + 1
            } else {
                cols as int
            })
            &&& w == (if row < rows {
                row + 1
            } else {
                rows as int
            })
        },
{
    match (cell, size) {
        (Some((row, col)), Some((cols, rows))) => {
            if cols == 0 || rows == 0 {
                return None;
            }
            let c: usize = if col + 1 <= cols as usize {
                col + 1
            } else {
                cols as usize
            };
            let w: usize = if row + 1 <= rows as usize {
                row + 1
            } else {
                rows as usize
            };
            Some((c, w))
        },
        _ => None,
    }
}

/// A pane as directional focus sees it from the focused pane: its distance on
/// the primary axis and between the centres on the other one (as numbers that
/// order the same way as the distances), whether it lies in the requested
/// direction, and whether it overlaps the focused pane on the other axis.
#[derive(Clone, Copy, Debug, PartialEq, Eq, Structural)]
pub struct Candidate {
    pub pane: PaneId,
    pub primary: u32,
    pub ortho: u32,
    pub in_dir: bool,
    pub overlap: bool,
}

/// A candidate the focus may move to.
pub open spec fn eligible(c: Candidate, focus: PaneId) -> bool {
    c.pane != focus && c.in_dir && c.overlap
}

/// `a` is strictly nearer than `b`: on the primary axis, or there equally near
/// and nearer on the other one.
pub open spec fn nearer(a: Candidate, b: Candidate) -> bool {
    a.primary < b.primary || (a.primary == b.primary && a.ortho < b.ortho)
}

/// Candidate `i` is the first of the nearest eligible ones.
pub open spec fn nearest_at(cands: Seq<Candidate>, focus: PaneId, i: int) -> bool {
    &&& 0 <= i < cands.len()
    &&& eligible(cands[i], focus)
    &&& forall|j: int| 0 <= j < cands.len() && eligible(cands[j], focus) ==> !nearer(cands[j], cands[i])
    &&& forall|j: int| 0 <= j < i && eligible(cands[j], focus) ==> nearer(cands[i], cands[j])
}

/// The pane adjacent to the focused one among the candidates, or `None` when
/// none is eligible.
pub fn neighbor_in_rects(cands: &Vec<Candidate>, focus: PaneId) -> (r: Option<PaneId>)
    ensures
        r is None <==> forall|i: int| 0 <= i < cands@.len() ==> !eligible(cands@[i], focus),
        r matches Some(p) ==> exists|i: int| nearest_at(cands@, focus, i) && cands@[i].pane == p,
{
    let mut best: Option<usize> = None;
    let mut i: usize = 0;
    while i < cands.len()
        invariant
            i <= cands@.len(),
            best is None ==> forall|j: int| 0 <= j < i ==> !eligible(cands@[j], focus),
            best matches Some(b) ==> b < i && nearest_at(cands@.take(i as int), focus, b as int),
        decreases cands@.len() - i,
    {
        let c = cands[i];
        let ok = c.pane != focus && c.in_dir && c.overlap;
        let ghost before = cands@.take(i as int);
        let ghost after = cands@.take(i + 1);
        assert(after =~= before.push(c));
        if ok {
            let better = match best {
                None => true,
                Some(b) => {
                    let o = cands[b];
                    c.primary < o.primary || (c.primary == o.primary && c.ortho < o.ortho)
                },
            };
            if better {
                proof {
                    if let Some(b) = best {
                        assert forall|j: int| 0 <= j < i && eligible(after[j], focus) implies nearer(
                            c,
                            after[j],
                        ) by {
                            assert(before[j] == after[j]);
                            assert(!nearer(before[j], before[b as int]));
                        }
                    }
                }
                best = Some(i);
            }
        }
        i += 1;
    }
    assert(cands@.take(i as int) =~= cands@);
    match best {
        Some(b) => Some(cands[b].pane),
        None => None,
    }
}

/// Whether std's `char::is_alphanumeric` holds of a character.
pub uninterp spec fn alphanumeric(c: char) -> bool;

/// `char::is_alphanumeric` of std: a fixed property of the character, named
/// rather than tabulated here.
pub assume_specification[ char::is_alphanumeric ](c: char) -> (r: bool)
    ensures
        r == alphanumeric(c),
;

/// The characters a double-click takes as part of a word: letters and digits,
/// and the punctuation of paths, flags and addresses.
pub open spec fn word_char(c: char) -> bool {
    alphanumeric(c) || c == '_' || c == '-' || c == '.' || c == '/' || c == '~' || c == ':' || c
        == '@'
}

/// Whether a double-click takes `c` as part of a word.
pub fn is_word_char(c: char) -> (r: bool)
    ensures
        r == word_char(c),
{
    c.is_alphanumeric() || c == '_' || c == '-' || c == '.' || c == '/' || c == '~' || c == ':' || c
        == '@'
}

/// `[a, b]` is the run of marked cells around `col` that no marked cell
/// continues, or `col` alone where the cell at `col` is not marked.
pub open spec fn run_around(marked: Seq<bool>, col: int, a: int, b: int) -> bool {
    if 0 <= col < marked.len() && marked[col] {
        &&& 0 <= a <= col <= b < marked.len()
        &&& forall|i: int| a <= i <= b ==> marked[i]
        &&& a > 0 ==> !marked[a - 1]
        &&& b + 1 < marked.len() ==> !marked[b + 1]
    } else {
        a == col && b == col
    }
}

/// Which cells of a row belong to a word.
pub open spec fn word_marks(row: Seq<char>) -> Seq<bool> {
    row.map_values(|c: char| word_char(c))
}

/// The first and last column of the word under `col`.
pub fn word_bounds(row: &Vec<char>, col: usize) -> (r: (usize, usize))
    ensures
        run_around(word_marks(row@), col as int, r.0 as int, r.1 as int),
{
    let mut marks: Vec<bool> = Vec::new();
    let mut i: usize = 0;
    while i < row.len()
        invariant
            i <= row@.len(),
            marks@ == word_marks(row@).take(i as int),
        decreases row@.len() - i,
    {
        marks.push(is_word_char(row[i]));
        assert(marks@ =~= word_marks(row@).take(i + 1));
        i += 1;
    }
    assert(word_marks(row@).take(i as int) =~= word_marks(row@));
    run_bounds(&marks, col)
}

/// The ends of the run of marked cells around `col`.
pub fn run_bounds(marked: &Vec<bool>, col: usize) -> (r: (usize, usize))
    ensures
        run_around(marked@, col as int, r.0 as int, r.1 as int),
{
    if col >= marked.len() || !marked[col] {
        return (col, col);
    }
    let mut start: usize = col;
    while start > 0 && marked[start - 1]
        invariant
            start <= col < marked@.len(),
            forall|i: int| start <= i <= col ==> marked@[i],
        decreases start,
    {
        start -= 1;
    }
    let mut end: usize = col;
    while end + 1 < marked.len() && marked[end + 1]
        invariant
            col <= end < marked@.len(),
            marked@.len() == marked.len(),
            forall|i: int| col <= i <= end ==> marked@[i],
        decreases marked@.len() - end,
    {
        end += 1;
    }
    (start, end)
}

/// The run around a column is determined.
pub proof fn run_around_is_unique(marked: Seq<bool>, col: int, a: int, b: int, c: int, d: int)
    requires
        run_around(marked, col, a, b),
        run_around(marked, col, c, d),
    ensures
        a == c,
        b == d,
{
    if 0 <= col < marked.len() && marked[col] {
        if a < c {
            assert(marked[c - 1]);
        } else if c < a {
            assert(marked[a - 1]);
        }
        if b < d {
            assert(marked[b + 1]);
        } else if d < b {
            assert(marked[d + 1]);
        }
    }
}

/// Every column of a word selects the same word.
pub proof fn word_is_the_same_from_each_of_its_columns(
    marked: Seq<bool>,
    col: int,
    other: int,
    a: int,
    b: int,
)
    requires
        0 <= col < marked.len(),
        marked[col],
        run_around(marked, col, a, b),
        a <= other <= b,
    ensures
        run_around(marked, other, a, b),
{
}

/// The characters that chrome text keeps: no control characters, no
/// bidirectional formatting, no zero-width characters.
pub open spec fn displayable(c: char) -> bool {
    let n = c as u32;
    &&& !text::control(c)
    &&& !(0x202a <= n <= 0x202e)
    &&& !(0x2066 <= n <= 0x2069)
    &&& n != 0x200e
    &&& n != 0x200f
    &&& !(0x200b <= n <= 0x200d)
    &&& n != 0xfeff
}

/// A text with only its displayable characters.
pub open spec fn scrubbed(s: Seq<char>) -> Seq<char> {
    s.filter(|c: char| displayable(c))
}

/// Drop the characters that are dangerous to show in chrome.
pub fn scrub_display_text(s: &str) -> (r: String)
    ensures
        r@ == scrubbed(s@),
{
    let cs = chars_of(s);
    let mut out = String::new();
    let mut i: usize = 0;
    let ghost keep = |c: char| displayable(c);
    while i < cs.len()
        invariant
            i <= cs@.len(),
            cs@ == s@,
            keep == (|c: char| displayable(c)),
            out@ == cs@.take(i as int).filter(keep),
        decreases cs@.len() - i,
    {
        let c = cs[i];
        let n: u32 = c as u32;
        let bidi = (0x202a <= n && n <= 0x202e) || (0x2066 <= n && n <= 0x2069) || n == 0x200e || n
            == 0x200f;
        let zero_width = (0x200b <= n && n <= 0x200d) || n == 0xfeff;
        proof {
            reveal(Seq::filter);
            assert(cs@.take(i + 1).drop_last() =~= cs@.take(i as int));
            assert(cs@.take(i + 1).last() == c);
        }
        if !is_control(c) && !bidi && !zero_width {
            out.push(c);
        }
        i += 1;
    }
    assert(cs@.take(i as int) =~= cs@);
    out
}

/// A scrubbed text holds displayable characters only, and scrubbing it again
/// changes nothing.
pub proof fn scrubbing_is_idempotent(s: Seq<char>)
    ensures
        forall|i: int| 0 <= i < scrubbed(s).len() ==> displayable(#[trigger] scrubbed(s)[i]),
        scrubbed(scrubbed(s)) == scrubbed(s),
    decreases s.len(),
{
    reveal(Seq::filter);
    let keep = |c: char| displayable(c);
    if s.len() > 0 {
        scrubbing_is_idempotent(s.drop_last());
        let rest = s.drop_last().filter(keep);
        if displayable(s.last()) {
            assert(rest.push(s.last()).drop_last() =~= rest);
        }
    }
}

/// A text of displayable characters is kept as it is.
pub proof fn scrubbing_keeps_plain_text(s: Seq<char>)
    requires
        forall|i: int| 0 <= i < s.len() ==> displayable(#[trigger] s[i]),
    ensures
        scrubbed(s) == s,
    decreases s.len(),
{
    reveal(Seq::filter);
    if s.len() > 0 {
        let t = s.drop_last();
        assert forall|i: int| 0 <= i < t.len() implies displayable(#[trigger] t[i]) by {
            assert(t[i] == s[i]);
        }
        scrubbing_keeps_plain_text(t);
        assert(displayable(s[s.len() - 1]));
        assert(t.push(s.last()) =~= s);
    }
}

/// Link `i` is the first whose span covers the cell.
pub open spec fn link_at(links: Seq<(CellSpan, String)>, row: usize, col: usize, i: int) -> bool {
    &&& 0 <= i < links.len()
    &&& covers(links[i].0, row, col)
    &&& forall|j: int| 0 <= j < i ==> !covers(#[trigger] links[j].0, row, col)
}

/// The position of the first link whose span covers the cell.
pub fn link_index_at_cell(links: &Vec<(CellSpan, String)>, row: usize, col: usize) -> (r: Option<
    usize,
>)
    ensures
        r is None <==> forall|i: int| 0 <= i < links@.len() ==> !covers(#[trigger] links@[i].0, row, col),
        r matches Some(i) ==> link_at(links@, row, col, i as int),
{
    let mut i: usize = 0;
    while i < links.len()
        invariant
            i <= links@.len(),
            forall|j: int| 0 <= j < i ==> !covers(#[trigger] links@[j].0, row, col),
        decreases links@.len() - i,
    {
        let s = links[i].0;
        if s.line == row && col >= s.col_start && col < s.col_end {
            return Some(i);
        }
        i += 1;
    }
    None
}

/// The address of the first link whose span covers the cell.
pub fn link_url_at_cell<'a>(
    links: &'a Vec<(CellSpan, String)>,
    row: usize,
    col: usize,
) -> (r: Option<&'a str>)
    ensures
        r is None <==> forall|i: int| 0 <= i < links@.len() ==> !covers(#[trigger] links@[i].0, row, col),
        r matches Some(u) ==> exists|i: int|
            link_at(links@, row, col, i) && u@ == (#[trigger] links@[i]).1@,
{
    match link_index_at_cell(links, row, col) {
        Some(i) => {
            let u = links[i].1.as_str();
            assert(link_at(links@, row, col, i as int) && u@ == links@[i as int].1@);
            Some(u)
        },
        None => None,
    }
}

/// The span of the first link that covers the cell.
pub fn link_span_at_cell(links: &Vec<(CellSpan, String)>, row: usize, col: usize) -> (r: Option<
    CellSpan,
>)
    ensures
        r is None <==> forall|i: int| 0 <= i < links@.len() ==> !covers(#[trigger] links@[i].0, row, col),
        r matches Some(s) ==> covers(s, row, col) && exists|i: int|
            link_at(links@, row, col, i) && s == (#[trigger] links@[i]).0,
{
    match link_index_at_cell(links, row, col) {
        Some(i) => {
            let s = links[i].0;
            assert(link_at(links@, row, col, i as int) && s == links@[i as int].0);
            Some(s)
        },
        None => None,
    }
}

/// Some washed row covers the cell at display row `r` and column `c`.
pub open spec fn washed(rows: Seq<WashRow>, r: int, c: int) -> bool {
    exists|i: int|
        0 <= i < rows.len() && (#[trigger] rows[i]).row == r && rows[i].lo <= c <= rows[i].hi
}

/// A row is washed by its own columns and by no others.
proof fn lemma_washed(
    sel: Selection,
    start: (usize, usize),
    end: (usize, usize),
    cols: usize,
    from: int,
    to: int,
    r: int,
    c: int,
)
    requires
        0 <= from,
        to <= usize::MAX,
    ensures
        washed(wash_rows(sel, start, end, cols, from, to), r, c) <==> from <= r < to && (
        wash_columns(sel, start, end, cols, r) matches Some((lo, hi)) && lo <= c <= hi),
    decreases to - from,
{
    if to > from {
        lemma_washed(sel, start, end, cols, from, to - 1, r, c);
        let above = wash_rows(sel, start, end, cols, from, to - 1);
        let all = wash_rows(sel, start, end, cols, from, to);
        if washed(above, r, c) {
            let i = choose|i: int|
                0 <= i < above.len() && (#[trigger] above[i]).row == r && above[i].lo <= c
                    <= above[i].hi;
            assert(all[i] == above[i]);
        }
        if washed(all, r, c) {
            let i = choose|i: int|
                0 <= i < all.len() && (#[trigger] all[i]).row == r && all[i].lo <= c <= all[i].hi;
            if i < above.len() {
                assert(above[i] == all[i]);
            }
        }
        if r == to - 1 {
            if let Some((lo, hi)) = wash_columns(sel, start, end, cols, r) {
                assert(all[above.len() as int] == (WashRow { row: r as usize, lo, hi }));
            }
        }
    }
}

/// A cell of the grid is washed exactly if it is selected. With a linewise
/// selection that is if it lies between the two ends in reading order, both
/// included; with a block, if its line lies between the lines of the ends and
/// its column between their columns.
pub proof fn a_cell_is_washed_exactly_if_it_is_selected(
    sel: Selection,
    window_start: usize,
    cols: usize,
    rows: usize,
    r: int,
    c: int,
)
    requires
        window_start + rows <= usize::MAX,
        sel.anchor != sel.head,
        0 <= r < rows,
        0 <= c < cols,
    ensures
        ({
            let wash = selection_wash_spec(Some(sel), sel.pane, window_start, cols, rows);
            let line = window_start + r;
            let (a, b) = (sel.anchor, sel.head);
            &&& sel.mode == SelectionMode::Linewise ==> (washed(wash, r, c) <==> {
                ||| (a.0 < line || (a.0 == line && a.1 <= c)) && (line < b.0 || (line == b.0 && c
                    <= b.1))
                ||| (b.0 < line || (b.0 == line && b.1 <= c)) && (line < a.0 || (line == a.0 && c
                    <= a.1))
            })
            &&& sel.mode == SelectionMode::Block ==> (washed(wash, r, c) <==> {
                &&& a.0 <= line <= b.0 || b.0 <= line <= a.0
                &&& a.1 <= c <= b.1 || b.1 <= c <= a.1
            })
        }),
{
    let line = window_start + r;
    let (a, b) = (sel.anchor, sel.head);
    match visible_rows(a, b, window_start, rows) {
        Some((s, e)) => {
            visible_rows_stay_in_window(a, b, window_start, rows);
            lemma_washed(sel, s, e, cols, s.0 as int, e.0 + 1, r, c);
        },
        None => {
            assert(!selects_line(a, b, line));
        },
    }
}

/// A selection of another pane, an empty one and none wash nothing.
pub proof fn nothing_else_is_washed(
    sel: Selection,
    pane: PaneId,
    window_start: usize,
    cols: usize,
    rows: usize,
)
    ensures
        selection_wash_spec(None, pane, window_start, cols, rows).len() == 0,
        sel.pane != pane || (sel.anchor.0 == sel.head.0 && sel.anchor.1 == sel.head.1)
            ==> selection_wash_spec(Some(sel), pane, window_start, cols, rows).len() == 0,
{
}

/// The washed rows are listed from the top down, each once.
pub proof fn washed_rows_come_in_order(
    sel: Option<Selection>,
    pane: PaneId,
    window_start: usize,
    cols: usize,
    rows: usize,
    i: int,
    j: int,
)
    requires
        0 <= i < j < selection_wash_spec(sel, pane, window_start, cols, rows).len(),
    ensures
        selection_wash_spec(sel, pane, window_start, cols, rows)[i].row < selection_wash_spec(
            sel,
            pane,
            window_start,
            cols,
            rows,
        )[j].row,
{
    if let Some(s) = sel {
        if let Some((a, b)) = visible_rows(s.anchor, s.head, window_start, rows) {
            visible_rows_stay_in_window(s.anchor, s.head, window_start, rows);
            lemma_wash_order(s, a, b, cols, a.0 as int, b.0 + 1, i, j);
        }
    }
}

proof fn lemma_wash_order(
    sel: Selection,
    start: (usize, usize),
    end: (usize, usize),
    cols: usize,
    from: int,
    to: int,
    i: int,
    j: int,
)
    requires
        0 <= from,
        to <= usize::MAX,
        0 <= i < j < wash_rows(sel, start, end, cols, from, to).len(),
    ensures
        wash_rows(sel, start, end, cols, from, to)[i].row < wash_rows(
            sel,
            start,
            end,
            cols,
            from,
            to,
        )[j].row,
    decreases to - from,
{
    if to > from {
        let above = wash_rows(sel, start, end, cols, from, to - 1);
        let all = wash_rows(sel, start, end, cols, from, to);
        assert(all[i] == above[i]);
        if j < above.len() {
            assert(all[j] == above[j]);
            lemma_wash_order(sel, start, end, cols, from, to - 1, i, j);
        } else {
            let w = above[i];
            assert(washed(above, w.row as int, w.lo as int)) by {
                wash_rows_in_grid(sel, start, end, cols, from, to - 1, usize::MAX);
            }
            lemma_washed(sel, start, end, cols, from, to - 1, w.row as int, w.lo as int);
        }
    }
}

/// A character takes as many bytes as UTF-8 gives it.
pub proof fn characters_take_their_bytes(c: char)
    ensures
        c <= '\u{7f}' ==> utf8_len(c) == 1,
        '\u{80}' <= c <= '\u{7ff}' ==> utf8_len(c) == 2,
        '\u{800}' <= c <= '\u{ffff}' ==> utf8_len(c) == 3,
        '\u{10000}' <= c ==> utf8_len(c) == 4,
{
}

/// In a text of one-byte characters, none of them wide, a byte's column is the
/// byte's offset, or the length of the text where the byte lies past its end.
pub proof fn plain_text_has_a_column_per_byte(s: Seq<char>, wide: Seq<bool>, byte: nat, n: int)
    requires
        chars_before(s, byte, n),
        wide.len() == s.len(),
        forall|i: int| 0 <= i < s.len() ==> #[trigger] s[i] <= '\u{7f}',
        forall|i: int| 0 <= i < s.len() ==> !#[trigger] wide[i],
    ensures
        byte <= s.len() ==> cells_of(wide, n) == byte,
        byte > s.len() ==> cells_of(wide, n) == s.len(),
{
    lemma_plain_cells(s, wide, n);
    if n > 0 {
        lemma_plain_cells(s, wide, n - 1);
        assert(byte_start(s, n - 1) < byte);
    }
}

proof fn lemma_plain_cells(s: Seq<char>, wide: Seq<bool>, n: int)
    requires
        0 <= n <= s.len(),
        wide.len() == s.len(),
        forall|i: int| 0 <= i < s.len() ==> #[trigger] s[i] <= '\u{7f}',
        forall|i: int| 0 <= i < s.len() ==> !#[trigger] wide[i],
    ensures
        byte_start(s, n) == n,
        cells_of(wide, n) == n,
    decreases n,
{
    if n > 0 {
        lemma_plain_cells(s, wide, n - 1);
        let c = s[n - 1];
        characters_take_their_bytes(c);
        assert(!wide[n - 1]);
    }
}

/// A wide character takes two cells and any other one, and the bytes of a
/// character lie between its start and that of the next.
pub proof fn cells_and_bytes_add_up(s: Seq<char>, wide: Seq<bool>, n: int)
    requires
        0 <= n,
    ensures
        cells_of(wide, 0) == 0,
        byte_start(s, 0) == 0,
        wide[n] ==> cells_of(wide, n + 1) == cells_of(wide, n) + 2,
        !wide[n] ==> cells_of(wide, n + 1) == cells_of(wide, n) + 1,
        1 <= byte_start(s, n + 1) - byte_start(s, n) <= 4,
{
}

/// The column of a byte counts the characters that begin before it and no
/// others.
pub proof fn a_column_counts_what_begins_before(s: Seq<char>, byte: nat, n: int, i: int)
    requires
        chars_before(s, byte, n),
        0 <= i < s.len(),
    ensures
        i < n <==> byte_start(s, i) < byte,
{
    if n <= i {
        lemma_starts_rise(s, n, i);
    }
}

proof fn lemma_starts_rise(s: Seq<char>, n: int, i: int)
    requires
        0 <= n <= i,
    ensures
        byte_start(s, n) <= byte_start(s, i),
    decreases i - n,
{
    if n < i {
        lemma_starts_rise(s, n, i - 1);
    }
}

/// A notch of the wheel scrolls the lines the system asks for, at least one and
/// at most a hundred; where it asks for a page, one row less than are in view.
pub proof fn a_notch_scrolls_what_the_system_asks(os_lines: u32, visible_rows: usize)
    ensures
        1 <= notch_lines(os_lines, visible_rows) <= 100,
        1 <= os_lines <= 100 ==> notch_lines(os_lines, visible_rows) == os_lines,
        os_lines == 0 ==> notch_lines(os_lines, visible_rows) == 1,
        100 < os_lines < 0xffff_ffff ==> notch_lines(os_lines, visible_rows) == 100,
        2 <= visible_rows <= 101 ==> notch_lines(0xffff_ffff, visible_rows) == visible_rows - 1,
        visible_rows < 2 ==> notch_lines(0xffff_ffff, visible_rows) == 1,
        visible_rows > 101 ==> notch_lines(0xffff_ffff, visible_rows) == 100,
{
}

/// The system's setting counts where it is not zero; else a notch scrolls three
/// lines.
pub proof fn the_usual_setting_is_three(n: u32)
    ensures
        n > 0 ==> usable_setting(Some(n)) == n,
        usable_setting(Some(0)) == 3,
        usable_setting(None) == 3,
{
}

/// The pane the focus moves to is another one, lies in the direction and beside
/// the focused pane, and no such pane is nearer: on the main axis, or as near
/// there and nearer on the other one.
pub proof fn the_focus_moves_to_the_nearest(
    cands: Seq<Candidate>,
    focus: PaneId,
    i: int,
    j: int,
)
    requires
        nearest_at(cands, focus, i),
        0 <= j < cands.len(),
        cands[j].pane != focus,
        cands[j].in_dir,
        cands[j].overlap,
    ensures
        cands[i].pane != focus,
        cands[i].in_dir,
        cands[i].overlap,
        cands[i].primary <= cands[j].primary,
        cands[i].primary == cands[j].primary ==> cands[i].ortho <= cands[j].ortho,
        cands[i].primary == cands[j].primary && cands[i].ortho == cands[j].ortho ==> i <= j,
{
}

/// A pane that is the focused one, that lies elsewhere or that is not beside it
/// is never moved to; every other one may be.
pub proof fn only_panes_in_the_direction_qualify(c: Candidate, focus: PaneId)
    ensures
        c.pane == focus ==> !eligible(c, focus),
        !c.in_dir ==> !eligible(c, focus),
        !c.overlap ==> !eligible(c, focus),
        c.pane != focus && c.in_dir && c.overlap ==> eligible(c, focus),
{
}

/// Letters and digits make up words, and so does the punctuation of paths, flags
/// and addresses; nothing else does.
pub proof fn words_hold_paths_and_addresses(c: char)
    ensures
        alphanumeric(c) ==> word_char(c),
        word_char('_') && word_char('-') && word_char('.') && word_char('/'),
        word_char('~') && word_char(':') && word_char('@'),
        word_char(c) && !alphanumeric(c) ==> seq!['_', '-', '.', '/', '~', ':', '@'].contains(c),
{
    let marks = seq!['_', '-', '.', '/', '~', ':', '@'];
    assert(marks[0] == '_' && marks[1] == '-' && marks[2] == '.' && marks[3] == '/');
    assert(marks[4] == '~' && marks[5] == ':' && marks[6] == '@');
}

/// The word under a column: every character from its first column to its last
/// belongs to a word, and the ones on either side do not. A column that holds no
/// word stands alone.
pub proof fn a_word_ends_where_its_characters_do(row: Seq<char>, col: int, a: int, b: int)
    requires
        run_around(word_marks(row), col, a, b),
    ensures
        0 <= col < row.len() && word_char(row[col]) ==> {
            &&& 0 <= a <= col <= b < row.len()
            &&& forall|i: int| a <= i <= b ==> word_char(#[trigger] row[i])
            &&& a > 0 ==> !word_char(row[a - 1])
            &&& b < row.len() - 1 ==> !word_char(row[b + 1])
        },
        !(0 <= col < row.len() && word_char(row[col])) ==> a == col && b == col,
{
    let marks = word_marks(row);
    if 0 <= col < row.len() && word_char(row[col]) {
        assert(marks[col]);
        assert forall|i: int| a <= i <= b implies word_char(#[trigger] row[i]) by {
            assert(marks[i]);
        }
    }
}

/// What chrome text never holds: control characters, marks that turn the
/// direction of writing, and characters without a width. It keeps all others.
pub proof fn chrome_text_drops_what_misleads(c: char)
    ensures
        c <= '\u{1f}' || '\u{7f}' <= c <= '\u{9f}' ==> !displayable(c),
        '\u{202a}' <= c <= '\u{202e}' || '\u{2066}' <= c <= '\u{2069}' ==> !displayable(c),
        c == '\u{200e}' || c == '\u{200f}' ==> !displayable(c),
        '\u{200b}' <= c <= '\u{200d}' || c == '\u{feff}' ==> !displayable(c),
        '\u{20}' <= c <= '\u{7e}' || '\u{a0}' <= c <= '\u{200a}' ==> displayable(c),
        '\u{2010}' <= c <= '\u{2029}' || '\u{202f}' <= c <= '\u{2065}' ==> displayable(c),
        '\u{206a}' <= c <= '\u{fefe}' || '\u{ff00}' <= c ==> displayable(c),
{
}

/// Scrubbing looks at each character alone: it keeps a displayable one, drops any
/// other, and of two texts in a row it leaves what it leaves of each.
pub proof fn scrubbing_goes_by_the_character(s: Seq<char>, t: Seq<char>, c: char)
    ensures
        scrubbed(s + t) == scrubbed(s) + scrubbed(t),
        displayable(c) ==> scrubbed(seq![c]) == seq![c],
        !displayable(c) ==> scrubbed(seq![c]) == Seq::<char>::empty(),
{
    reveal(Seq::filter);
    let keep = |c: char| displayable(c);
    Seq::filter_distributes_over_add(s, t, keep);
    let one = seq![c];
    assert(one.drop_last() =~= Seq::empty());
    assert(one.drop_last().filter(keep) =~= Seq::empty());
    assert(one.last() == c);
    assert(Seq::<char>::empty().push(c) =~= one);
}

/// The link at a cell is on the cell's row, from its first column up to but not
/// including its end, and no earlier link is.
pub proof fn the_first_link_over_a_cell_counts(
    links: Seq<(CellSpan, String)>,
    row: usize,
    col: usize,
    i: int,
)
    requires
        link_at(links, row, col, i),
    ensures
        0 <= i < links.len(),
        links[i].0.line == row,
        links[i].0.col_start <= col < links[i].0.col_end,
        forall|j: int|
            0 <= j < links.len() && (#[trigger] links[j]).0.line == row && links[j].0.col_start
                <= col < links[j].0.col_end ==> i <= j,
{
    assert forall|j: int|
        0 <= j < links.len() && (#[trigger] links[j]).0.line == row && links[j].0.col_start <= col
            < links[j].0.col_end implies i <= j by {
        assert(covers(links[j].0, row, col));
    }
}

/// A cell on a link's row, from its first column up to its end, is on the link.
pub proof fn a_link_covers_its_columns(s: CellSpan, row: usize, col: usize)
    ensures
        covers(s, row, col) <==> s.line == row && s.col_start <= col && col < s.col_end,
{
}

/// A drag past the top scrolls back and one past the bottom forward, by as many
/// lines as it goes past, at least one and at most eight, and the same both ways.
pub proof fn a_drag_past_the_edge_scrolls(cells: i32, up: i32, down: i32)
    requires
        call_ensures(autoscroll_step, (cells, true), up),
        call_ensures(autoscroll_step, (cells, false), down),
    ensures
        1 <= up <= 8,
        up + down == 0,
        1 <= cells <= 8 ==> up == cells,
        cells > 8 ==> up == 8,
        cells < 1 ==> up == 1,
{
}

/// A cell of the grid stays where it is, and one past its end goes to the last
/// row or column; a grid without cells has none.
pub proof fn cells_are_kept_within_the_grid(
    row: usize,
    col: usize,
    cols: usize,
    rows: usize,
    r: Option<(usize, usize)>,
)
    requires
        call_ensures(clamp_to_grid, (row, col, cols, rows), r),
    ensures
        cols == 0 || rows == 0 ==> r is None,
        cols > 0 && rows > 0 ==> (r matches Some(at) && at.0 <= row && at.1 <= col && at.0 < rows
            && at.1 < cols && (row < rows ==> at.0 == row) && (col < cols ==> at.1 == col) && (row
            >= rows ==> at.0 == rows - 1) && (col >= cols ==> at.1 == cols - 1)),
{
}

/// A mouse report counts columns and rows from one, the column first, and names
/// none outside the grid.
pub proof fn reports_count_from_one(
    row: usize,
    col: usize,
    cols: u16,
    rows: u16,
    r: Option<(usize, usize)>,
)
    requires
        row < usize::MAX,
        col < usize::MAX,
        cols > 0,
        rows > 0,
        call_ensures(report_cell, (Some((row, col)), Some((cols, rows))), r),
    ensures
        r matches Some(at) && 1 <= at.0 <= cols && 1 <= at.1 <= rows && (col < cols ==> at.0 == col
            + 1) && (row < rows ==> at.1 == row + 1),
{
}

/// The system's setting for the wheel is asked for once, and one that says
/// nothing counts as three lines.
pub proof fn the_wheel_setting_is_remembered(
    known: &mut Option<u32>,
    later: &mut Option<u32>,
    setting: Option<u32>,
    other: Option<u32>,
    r: u32,
    again: u32,
)
    requires
        call_ensures(os_wheel_scroll_lines, (known, setting), r),
        call_ensures(os_wheel_scroll_lines, (later, other), again),
        *old(later) == *final(known),
    ensures
        r > 0,
        again == r,
        *old(known) is None && setting is None ==> r == 3,
        *old(known) is None && (setting matches Some(n) && n > 0) ==> Some(r) == setting,
        (*old(known) matches Some(n) && n > 0) ==> Some(r) == *old(known),
{
}

} // verus!
