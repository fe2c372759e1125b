//! What one terminal pane does with a frame of pointer input.

use crate::grid::PaneId;
use crate::grid_interaction;
use crate::grid_interaction::{
    link_span_at_cell, link_url_at_cell, selection_visible_rows, word_bounds, CellSpan, Selection,
    SelectionMode,
};
use crate::text;
use crate::text::{copy_opt, owned};
use vstd::prelude::*;

verus! {

/// A mouse button as a terminal program is told of it.
#[derive(Clone, Copy, Debug, PartialEq, Eq, Structural)]
pub enum MouseButton {
    Left,
    Middle,
    Right,
    WheelUp,
    WheelDown,
    NoButton,
}

/// What a mouse report says of the button.
#[derive(Clone, Copy, Debug, PartialEq, Eq, Structural)]
pub enum MouseEventKind {
    Press,
    Release,
    Motion,
}

/// One report to the program that grabbed the mouse.
#[derive(Clone, Copy, Debug, PartialEq, Eq, Structural)]
pub struct MouseReport {
    pub button: MouseButton,
    pub kind: MouseEventKind,
}

/// What happened to one physical button this frame.
#[derive(Clone, Copy, Debug, PartialEq, Eq, Structural)]
pub struct ButtonFrame {
    pub pressed: bool,
    pub released: bool,
    pub down: bool,
}

/// The pointer over a pane this frame.
#[derive(Clone, Copy, Debug, PartialEq, Eq, Structural)]
pub struct PointerFrame {
    pub primary: ButtonFrame,
    pub middle: ButtonFrame,
    pub secondary: ButtonFrame,
    pub dragged: bool,
    pub hovered: bool,
}

/// Whether pointer gestures go to the program in the pane: it grabbed the
/// mouse, Shift does not force local handling, and the link modifier is up.
pub fn reports_to_program(mouse_grabbed: bool, shift: bool, link_modifier: bool) -> (r: bool)
    ensures
        r == (mouse_grabbed && !shift && !link_modifier),
{
    mouse_grabbed && !shift && !link_modifier
}

/// The press and release reports of one button.
pub open spec fn press_release(b: ButtonFrame, button: MouseButton) -> Seq<MouseReport> {
    (if b.pressed {
        seq![MouseReport { button, kind: MouseEventKind::Press }]
    } else {
        seq![]
    }) + (if b.released {
        seq![MouseReport { button, kind: MouseEventKind::Release }]
    } else {
        seq![]
    })
}

/// The button a motion report names: the held one, primary before secondary
/// before middle.
pub open spec fn held_button(p: PointerFrame) -> MouseButton {
    if p.primary.down {
        MouseButton::Left
    } else if p.secondary.down {
        MouseButton::Right
    } else if p.middle.down {
        MouseButton::Middle
    } else {
        MouseButton::NoButton
    }
}

/// The reports of a frame, in the order they are sent.
pub open spec fn button_reports_spec(p: PointerFrame) -> Seq<MouseReport> {
    press_release(p.primary, MouseButton::Left) + press_release(p.middle, MouseButton::Middle)
        + press_release(p.secondary, MouseButton::Right) + (if p.dragged || p.hovered {
        seq![MouseReport { button: held_button(p), kind: MouseEventKind::Motion }]
    } else {
        seq![]
    })
}

fn push_press_release(out: &mut Vec<MouseReport>, b: ButtonFrame, button: MouseButton)
    ensures
        final(out)@ == old(out)@ + press_release(b, button),
{
    if b.pressed {
        out.push(MouseReport { button, kind: MouseEventKind::Press });
    }
    if b.released {
        out.push(MouseReport { button, kind: MouseEventKind::Release });
    }
    assert(out@ =~= old(out)@ + press_release(b, button));
}

/// The reports a frame of pointer input sends to a program that grabbed the
/// mouse.
pub fn button_reports(p: &PointerFrame) -> (r: Vec<MouseReport>)
    ensures
        r@ == button_reports_spec(*p),
{
    let mut out: Vec<MouseReport> = Vec::new();
    push_press_release(&mut out, p.primary, MouseButton::Left);
    push_press_release(&mut out, p.middle, MouseButton::Middle);
    push_press_release(&mut out, p.secondary, MouseButton::Right);
    if p.dragged || p.hovered {
        let held = if p.primary.down {
            MouseButton::Left
        } else if p.secondary.down {
            MouseButton::Right
        } else if p.middle.down {
            MouseButton::Middle
        } else {
            MouseButton::NoButton
        };
        out.push(MouseReport { button: held, kind: MouseEventKind::Motion });
    }
    assert(out@ =~= button_reports_spec(*p));
    out
}

/// The most wheel reports one frame sends.
pub const MAX_WHEEL_REPORTS: i32 = 8;

/// The reports one frame of wheel travel sends: one per cell of travel, at
/// least one and at most the maximum.
pub fn wheel_reports(up: bool, cells: i32) -> (r: Vec<MouseReport>)
    ensures
        r@.len() == (if cells < 1 {
            1int
        } else if cells > MAX_WHEEL_REPORTS {
            MAX_WHEEL_REPORTS as int
        } else {
            cells as int
        }),
        forall|i: int|
            0 <= i < r@.len() ==> #[trigger] r@[i] == (MouseReport {
                button: if up {
                    MouseButton::WheelUp
                } else {
                    MouseButton::WheelDown
                },
                kind: MouseEventKind::Press,
            }),
{
    let ticks: i32 = if cells < 1 {
        1
    } else if cells > MAX_WHEEL_REPORTS {
        MAX_WHEEL_REPORTS
    } else {
        cells
    };
    let button = if up {
        MouseButton::WheelUp
    } else {
        MouseButton::WheelDown
    };
    let mut out: Vec<MouseReport> = Vec::new();
    let mut i: i32 = 0;
    while i < ticks
        invariant
            0 <= i <= ticks,
            out@.len() == i,
            forall|j: int|
                0 <= j < i ==> #[trigger] out@[j] == (MouseReport {
                    button,
                    kind: MouseEventKind::Press,
                }),
        decreases ticks - i,
    {
        out.push(MouseReport { button, kind: MouseEventKind::Press });
        i += 1;
    }
    out
}

/// Whether the program took the gesture: it accepted a press or a motion.
/// Releases are sent and their answer is ignored.
pub fn taken_by_program(reports: &Vec<MouseReport>, accepted: &Vec<bool>) -> (r: bool)
    requires
        accepted@.len() == reports@.len(),
    ensures
        r <==> exists|i: int|
            0 <= i < reports@.len() && accepted@[i] && reports@[i].kind != MouseEventKind::Release,
{
    let mut i: usize = 0;
    while i < reports.len()
        invariant
            i <= reports@.len(),
            accepted@.len() == reports@.len(),
            forall|j: int|
                0 <= j < i ==> !(accepted@[j] && reports@[j].kind != MouseEventKind::Release),
        decreases reports@.len() - i,
    {
        if accepted[i] && reports[i].kind != MouseEventKind::Release {
            return true;
        }
        i += 1;
    }
    false
}

/// A part of the visible grid to copy, in display positions.
#[derive(Clone, Copy, Debug, PartialEq, Eq)]
pub struct CopyRange {
    pub from: (usize, usize),
    pub to: (usize, usize),
    pub block: bool,
}

/// The absolute position of a display cell.
pub fn absolute_cell(window_start: usize, cell: Option<(usize, usize)>) -> (r: Option<
    (usize, usize),
>)
    requires
        cell matches Some((row, _)) ==> window_start + row <= usize::MAX,
    ensures
        cell is None <==> r is None,
        cell matches Some((row, col)) ==> r == Some(((window_start + row) as usize, col)),
{
    match cell {
        Some((row, col)) => Some((window_start + row, col)),
        None => None,
    }
}

/// The selection after a primary press: one over the body starts an empty
/// selection at the pressed cell; any other leaves the selection alone.
pub open spec fn after_press(
    sel: Option<Selection>,
    pane: PaneId,
    press: bool,
    cell: Option<(usize, usize)>,
    alt: bool,
) -> Option<Selection> {
    match cell {
        Some(at) if press => Some(
            Selection {
                pane,
                anchor: at,
                head: at,
                mode: if alt {
                    SelectionMode::Block
                } else {
                    SelectionMode::Linewise
                },
            },
        ),
        _ => sel,
    }
}

/// Start a selection where the primary button went down over the pane's body.
/// `over_body` is false where something floats above the pane. Tells whether
/// the gesture was taken.
pub fn press_selection(
    sel: &mut Option<Selection>,
    pane: PaneId,
    over_body: bool,
    pressed: bool,
    cell: Option<(usize, usize)>,
    alt: bool,
) -> (captured: bool)
    ensures
        *final(sel) == after_press(*old(sel), pane, over_body && pressed, cell, alt),
        captured == (over_body && pressed && cell is Some),
{
    if over_body && pressed {
        if let Some(at) = cell {
            let mode = if alt {
                SelectionMode::Block
            } else {
                SelectionMode::Linewise
            };
            *sel = Some(Selection { pane, anchor: at, head: at, mode });
            return true;
        }
    }
    false
}

/// How many clicks a click gesture had, where that selects text.
#[derive(Clone, Copy, Debug, PartialEq, Eq, Structural)]
pub enum MultiClick {
    /// A single click or none.
    No,
    /// Two clicks: the word under the pointer.
    Word,
    /// Three clicks: the whole line.
    Line,
}

/// `[a, b]` are the columns a multiple click at `col` takes from a row.
pub open spec fn clicked_columns(
    click: MultiClick,
    row: Seq<char>,
    cols: usize,
    col: usize,
    a: usize,
    b: usize,
) -> bool {
    match click {
        MultiClick::No => false,
        MultiClick::Word => grid_interaction::run_around(grid_interaction::word_marks(row), col as int, a as int, b as int),
        MultiClick::Line => a == 0 && b == (if cols == 0 {
            0
        } else {
            cols - 1
        }),
    }
}

/// Select the word or line under a multiple click. `row` holds the characters
/// of the clicked display row and `cols` the pane's width (0 where unknown).
/// The result is the part to copy, where the pane has a terminal.
pub fn multi_click_selection(
    sel: &mut Option<Selection>,
    pane: PaneId,
    click: MultiClick,
    cell: Option<(usize, usize)>,
    window_start: usize,
    row: &Vec<char>,
    cols: usize,
    has_term: bool,
) -> (r: (bool, Option<CopyRange>))
    ensures
        r.0 == (click != MultiClick::No && cell is Some),
        !r.0 ==> *final(sel) == *old(sel) && r.1 is None,
        r.0 ==> (cell matches Some(at) && exists|a: usize, b: usize|
            #[trigger] clicked_columns(click, row@, cols, at.1, a, b) && *final(sel) == Some(
                Selection {
                    pane,
                    anchor: (at.0, a),
                    head: (at.0, b),
                    mode: SelectionMode::Linewise,
                },
            ) && r.1 == (if has_term {
                let shown = if at.0 >= window_start {
                    (at.0 - window_start) as usize
                } else {
                    0
                };
                Some(CopyRange { from: (shown, a), to: (shown, b), block: false })
            } else {
                None
            })),
{
    if click == MultiClick::No {
        return (false, None);
    }
    match cell {
        None => (false, None),
        Some((line, c)) => {
            let shown: usize = line.saturating_sub(window_start);
            let (a, b) = if click == MultiClick::Line {
                (0, cols.saturating_sub(1))
            } else {
                word_bounds(row, c)
            };
            *sel = Some(
                Selection { pane, anchor: (line, a), head: (line, b), mode: SelectionMode::Linewise },
            );
            assert(clicked_columns(click, row@, cols, c, a, b));
            let copy = if has_term {
                Some(CopyRange { from: (shown, a), to: (shown, b), block: false })
            } else {
                None
            };
            (true, copy)
        },
    }
}

/// Whether a drag belongs to a selection of this pane, and so may scroll it.
pub fn drag_extends(sel: &Option<Selection>, pane: PaneId, dragged: bool) -> (r: bool)
    ensures
        r == (dragged && (*sel matches Some(s) && s.pane == pane)),
{
    match sel {
        Some(s) => dragged && s.pane == pane,
        None => false,
    }
}

/// The selection after a drag: the head follows the pointer, clamped to the
/// grid where the grid is known, else the plain hit cell.
pub open spec fn after_drag(
    sel: Option<Selection>,
    pane: PaneId,
    dragged: bool,
    clamped: Option<(usize, usize)>,
    cell: Option<(usize, usize)>,
) -> Option<Selection> {
    match sel {
        Some(s) if dragged && s.pane == pane => Some(
            Selection {
                head: match (clamped, cell) {
                    (Some(at), _) => at,
                    (None, Some(at)) => at,
                    (None, None) => s.head,
                },
                ..s
            },
        ),
        _ => sel,
    }
}

/// Move the head of the pane's selection with a drag. Tells whether the
/// gesture was taken.
pub fn drag_selection(
    sel: &mut Option<Selection>,
    pane: PaneId,
    dragged: bool,
    clamped: Option<(usize, usize)>,
    cell: Option<(usize, usize)>,
) -> (captured: bool)
    ensures
        *final(sel) == after_drag(*old(sel), pane, dragged, clamped, cell),
        captured == (dragged && (*old(sel) matches Some(s) && s.pane == pane)),
{
    if !dragged {
        return false;
    }
    match *sel {
        Some(s) => {
            if s.pane == pane {
                let head = match (clamped, cell) {
                    (Some(at), _) => at,
                    (None, Some(at)) => at,
                    (None, None) => s.head,
                };
                *sel = Some(Selection { pane: s.pane, anchor: s.anchor, head, mode: s.mode });
                true
            } else {
                false
            }
        },
        None => false,
    }
}

/// The selection after the primary button went up: an empty one of this pane
/// is dropped, unless the frame completed a multiple click.
pub open spec fn after_release(
    sel: Option<Selection>,
    pane: PaneId,
    released: bool,
    multi: bool,
) -> Option<Selection> {
    match sel {
        Some(s) if released && !multi && s.pane == pane && s.anchor == s.head => None,
        _ => sel,
    }
}

/// What a release copies: the visible part of a non-empty selection.
pub open spec fn release_copy(
    sel: Option<Selection>,
    pane: PaneId,
    released: bool,
    multi: bool,
    has_term: bool,
    window_start: usize,
    rows: usize,
) -> Option<CopyRange> {
    match sel {
        Some(s) if released && !multi && s.pane == pane && s.anchor != s.head && has_term => {
            match grid_interaction::visible_rows(s.anchor, s.head, window_start, rows) {
                Some((a, b)) => Some(
                    CopyRange { from: a, to: b, block: s.mode == SelectionMode::Block },
                ),
                None => None,
            }
        },
        _ => None,
    }
}

/// Finish a drag when the primary button goes up. The result is the part to
/// copy.
pub fn release_selection(
    sel: &mut Option<Selection>,
    pane: PaneId,
    released: bool,
    multi: bool,
    has_term: bool,
    window_start: usize,
    rows: usize,
) -> (copy: Option<CopyRange>)
    requires
        window_start + rows <= usize::MAX,
    ensures
        *final(sel) == after_release(*old(sel), pane, released, multi),
        copy == release_copy(*old(sel), pane, released, multi, has_term, window_start, rows),
{
    if multi || !released {
        return None;
    }
    match *sel {
        Some(s) => {
            if s.pane == pane {
                if s.anchor.0 == s.head.0 && s.anchor.1 == s.head.1 {
                    *sel = None;
                    None
                } else if has_term {
                    copy_visible(&s, window_start, rows)
                } else {
                    None
                }
            } else {
                None
            }
        },
        None => None,
    }
}

/// The pointer over a pane as far as selecting goes, up to a drag.
#[derive(Clone, Copy, Debug, PartialEq, Eq)]
pub struct PressFrame {
    /// The pointer is over the pane's body, and nothing floats above it.
    pub over_body: bool,
    /// The primary button went down.
    pub pressed: bool,
    pub alt: bool,
    /// The cell under the pointer, in absolute lines.
    pub cell: Option<(usize, usize)>,
    pub click: MultiClick,
    /// The first line in view.
    pub window_start: usize,
    /// The width of the pane, 0 where it is not known.
    pub cols: usize,
    pub has_term: bool,
}

/// The rest of the gesture: a drag and the release.
#[derive(Clone, Copy, Debug, PartialEq, Eq)]
pub struct DragFrame {
    pub dragged: bool,
    /// The cell of the grid nearest to the pointer, where the grid is known.
    pub clamped: Option<(usize, usize)>,
    /// The cell under the pointer, in absolute lines.
    pub cell: Option<(usize, usize)>,
    pub released: bool,
    pub click: MultiClick,
    pub has_term: bool,
    pub window_start: usize,
    pub rows: usize,
}

/// What a gesture came to: whether it was taken, so that it moves no pane, and
/// what is copied.
#[derive(Clone, Copy, Debug, PartialEq, Eq)]
pub struct Gesture {
    pub captured: bool,
    pub copy: Option<CopyRange>,
}

/// The first half of a frame's gesture: a press starts a selection, and a
/// multiple click then selects a word or a line.
pub fn begin_gesture(sel: &mut Option<Selection>, pane: PaneId, f: &PressFrame, row: &Vec<char>) -> (r:
    Gesture)
    ensures
        f.click == MultiClick::No || f.cell is None ==> {
            &&& *final(sel) == after_press(*old(sel), pane, f.over_body && f.pressed, f.cell, f.alt)
            &&& r.captured == (f.over_body && f.pressed && f.cell is Some)
            &&& r.copy is None
        },
        f.click != MultiClick::No && f.cell is Some ==> r.captured && (f.cell matches Some(at)
            && exists|a: usize, b: usize|
            #[trigger] clicked_columns(f.click, row@, f.cols, at.1, a, b) && *final(sel) == Some(
                Selection {
                    pane,
                    anchor: (at.0, a),
                    head: (at.0, b),
                    mode: SelectionMode::Linewise,
                },
            ) && r.copy == (if f.has_term {
                let shown = if at.0 >= f.window_start {
                    (at.0 - f.window_start) as usize
                } else {
                    0
                };
                Some(CopyRange { from: (shown, a), to: (shown, b), block: false })
            } else {
                None
            })),
{
    let pressed = press_selection(sel, pane, f.over_body, f.pressed, f.cell, f.alt);
    let (multi, copy) = multi_click_selection(
        sel,
        pane,
        f.click,
        f.cell,
        f.window_start,
        row,
        f.cols,
        f.has_term,
    );
    Gesture { captured: pressed || multi, copy }
}

/// The second half: a drag moves the end of the selection, and the release
/// drops an empty selection or copies what is in view of it.
pub fn finish_gesture(
    sel: &mut Option<Selection>,
    pane: PaneId,
    f: &DragFrame,
    begun: Gesture,
) -> (r: Gesture)
    requires
        f.window_start + f.rows <= usize::MAX,
    ensures
        ({
            let moved = after_drag(*old(sel), pane, f.dragged, f.clamped, f.cell);
            let multi = f.click != MultiClick::No;
            &&& *final(sel) == after_release(moved, pane, f.released, multi)
            &&& r.captured == (begun.captured || drags(*old(sel), pane, f.dragged))
            &&& r.copy == (match release_copy(
                moved,
                pane,
                f.released,
                multi,
                f.has_term,
                f.window_start,
                f.rows,
            ) {
                Some(c) => Some(c),
                None => begun.copy,
            })
        }),
{
    let dragged = drag_selection(sel, pane, f.dragged, f.clamped, f.cell);
    let multi = f.click != MultiClick::No;
    let copy = release_selection(
        sel,
        pane,
        f.released,
        multi,
        f.has_term,
        f.window_start,
        f.rows,
    );
    Gesture {
        captured: begun.captured || dragged,
        copy: match copy {
            Some(c) => Some(c),
            None => begun.copy,
        },
    }
}

/// A drag belongs to a selection of this pane.
pub open spec fn drags(sel: Option<Selection>, pane: PaneId, dragged: bool) -> bool {
    dragged && (sel matches Some(s) && s.pane == pane)
}

/// The visible part of a selection, to copy.
pub open spec fn visible_copy(s: Selection, window_start: usize, rows: usize) -> Option<CopyRange> {
    match grid_interaction::visible_rows(s.anchor, s.head, window_start, rows) {
        Some((a, b)) => Some(CopyRange { from: a, to: b, block: s.mode == SelectionMode::Block }),
        None => None,
    }
}

/// The visible part of a selection, to copy.
pub fn copy_visible(s: &Selection, window_start: usize, rows: usize) -> (r: Option<CopyRange>)
    requires
        window_start + rows <= usize::MAX,
    ensures
        r == visible_copy(*s, window_start, rows),
{
    match selection_visible_rows(s.anchor, s.head, window_start, rows) {
        Some((a, b)) => Some(CopyRange { from: a, to: b, block: s.mode == SelectionMode::Block }),
        None => None,
    }
}

/// A click that does not move clears the selection and copies nothing.
pub proof fn a_plain_click_clears_the_selection(
    sel: Option<Selection>,
    pane: PaneId,
    cell: (usize, usize),
    alt: bool,
    has_term: bool,
    window_start: usize,
    rows: usize,
)
    ensures
        after_release(after_press(sel, pane, true, Some(cell), alt), pane, true, false) is None,
        release_copy(
            after_press(sel, pane, true, Some(cell), alt),
            pane,
            true,
            false,
            has_term,
            window_start,
            rows,
        ) is None,
{
}

/// A drag keeps the anchor and the mode that the press fixed, and a release
/// after it keeps the selection where the pointer has left the pressed cell.
pub proof fn a_drag_keeps_what_the_press_fixed(
    sel: Option<Selection>,
    pane: PaneId,
    cell: (usize, usize),
    alt: bool,
    to: (usize, usize),
)
    requires
        to != cell,
    ensures
        ({
            let pressed = after_press(sel, pane, true, Some(cell), alt);
            let dragged = after_drag(pressed, pane, true, Some(to), None);
            after_release(dragged, pane, true, false) == Some(
                Selection {
                    pane,
                    anchor: cell,
                    head: to,
                    mode: if alt {
                        SelectionMode::Block
                    } else {
                        SelectionMode::Linewise
                    },
                },
            )
        }),
{
}

/// Pressing outside the pane's body, dragging another pane's selection and
/// releasing over it leave a selection of another pane as it is.
pub proof fn gestures_leave_other_panes_alone(
    s: Selection,
    pane: PaneId,
    cell: Option<(usize, usize)>,
    alt: bool,
    clamped: Option<(usize, usize)>,
)
    requires
        s.pane != pane,
    ensures
        after_press(Some(s), pane, false, cell, alt) == Some(s),
        after_drag(Some(s), pane, true, clamped, cell) == Some(s),
        after_release(Some(s), pane, true, false) == Some(s),
{
}

/// Whether the Copy item of the pane's context menu is enabled.
pub fn copy_enabled(sel: &Option<Selection>, pane: PaneId) -> (r: bool)
    ensures
        r == (*sel matches Some(s) && s.pane == pane && s.anchor != s.head),
{
    match sel {
        Some(s) => s.pane == pane && !(s.anchor.0 == s.head.0 && s.anchor.1 == s.head.1),
        None => false,
    }
}

/// The least alpha the focus ring keeps, however see-through the window is.
pub const FOCUS_RING_ALPHA_FLOOR: u8 = 150;

/// The alpha of a pane's border: the window's own, floored for the focused
/// pane.
pub fn border_alpha(focused: bool, bg_alpha: u8) -> (r: u8)
    ensures
        r == (if focused && bg_alpha < FOCUS_RING_ALPHA_FLOOR {
            FOCUS_RING_ALPHA_FLOOR
        } else {
            bg_alpha
        }),
{
    if focused && bg_alpha < FOCUS_RING_ALPHA_FLOOR {
        FOCUS_RING_ALPHA_FLOOR
    } else {
        bg_alpha
    }
}

/// The directory a deferred pane starts its shell in: its saved one, else the
/// one-shot startup directory, which is left for another pane where it is not
/// used.
pub fn deferred_spawn_cwd(restored: Option<String>, startup: &mut Option<String>) -> (r: Option<
    String,
>)
    ensures
        restored is Some ==> r == restored && *final(startup) == *old(startup),
        restored is None ==> r == *old(startup) && *final(startup) is None,
{
    match restored {
        Some(dir) => Some(dir),
        None => startup.take(),
    }
}

/// What a pane's body shows.
#[derive(Debug, PartialEq, Eq)]
pub enum BodyContent {
    /// The terminal grid, with its glyphs unless the atlas is still warming.
    Grid { glyphs: bool },
    /// A message in place of the grid.
    Message(String),
}

/// A pane as its body sees it.
#[derive(Debug, PartialEq, Eq)]
pub enum PaneContent {
    /// A running terminal.
    Live,
    /// A terminal that could not be opened, and why.
    Failed(String),
    /// No terminal.
    Empty,
}

/// What the body of a pane shows: the grid of a running terminal, the error of
/// a failed one, or a hint.
pub fn body_content(pane: &PaneContent, warming: bool) -> (r: BodyContent)
    ensures
        pane is Live ==> r == (BodyContent::Grid { glyphs: !warming }),
        *pane matches PaneContent::Failed(e) ==> (r matches BodyContent::Message(m) && m@ == e@),
        pane is Empty ==> (r matches BodyContent::Message(m) && m@
            == "This pane is empty. Open a new pane to start a terminal."@),
{
    match pane {
        PaneContent::Live => BodyContent::Grid { glyphs: !warming },
        PaneContent::Failed(e) => BodyContent::Message(e.clone()),
        PaneContent::Empty => BodyContent::Message(
            owned("This pane is empty. Open a new pane to start a terminal."),
        ),
    }
}

/// What the links of a pane do this frame.
#[derive(Debug, PartialEq, Eq)]
pub struct LinkEffects {
    /// Every link is underlined.
    pub underline_all: bool,
    /// The link under the pointer: the pointer becomes a hand over it.
    pub hover: Option<CellSpan>,
    /// The hovered link is underlined on its own.
    pub underline_hover: bool,
    /// The address to open.
    pub open: Option<String>,
}

/// Resolve the links of a pane: with the modifier held every link is
/// underlined and a click opens the one it lands on; without it the link under
/// the pointer alone is underlined and a click opens nothing.
pub fn link_effects(
    links: &Vec<(CellSpan, String)>,
    modifier: bool,
    hover: Option<(usize, usize)>,
    click: Option<(usize, usize)>,
) -> (r: LinkEffects)
    ensures
        r.underline_all == (modifier && links@.len() > 0),
        r.underline_hover == (!modifier && r.hover is Some),
        r.hover is Some <==> (hover matches Some((row, col)) && exists|i: int|
            0 <= i < links@.len() && grid_interaction::covers(#[trigger] links@[i].0, row, col)),
        r.hover matches Some(s) ==> (hover matches Some((row, col)) && exists|i: int|
            grid_interaction::link_at(links@, row, col, i) && s == (#[trigger] links@[i]).0),
        r.open is Some <==> modifier && (click matches Some((row, col)) && exists|i: int|
            0 <= i < links@.len() && grid_interaction::covers(#[trigger] links@[i].0, row, col)),
        r.open matches Some(u) ==> (click matches Some((row, col)) && exists|i: int|
            grid_interaction::link_at(links@, row, col, i) && u@ == (#[trigger] links@[i]).1@),
{
    let span = match hover {
        Some((row, col)) => link_span_at_cell(links, row, col),
        None => None,
    };
    let open = match click {
        Some((row, col)) => if modifier {
            match link_url_at_cell(links, row, col) {
                Some(u) => Some(owned(u)),
                None => None,
            }
        } else {
            None
        },
        None => None,
    };
    LinkEffects {
        underline_all: modifier && links.len() > 0,
        hover: span,
        underline_hover: !modifier && span.is_some(),
        open,
    }
}

/// Whether the wheel scrolls the pane's own history: it moved, over this pane,
/// and no zoom modifier is held.
pub fn wheel_scrolls_locally(moved: bool, hovered: bool, command: bool) -> (r: bool)
    ensures
        r == (moved && hovered && !command),
{
    moved && hovered && !command
}

/// Whether a drag on the body rearranges panes: no program, selection or
/// scrollbar took it.
pub fn drag_rearranges(drag_started: bool, captured: bool, scrollbar_grabbed: bool) -> (r: bool)
    ensures
        r == (drag_started && !captured && !scrollbar_grabbed),
{
    drag_started && !captured && !scrollbar_grabbed
}

/// The composition text to echo at the caret: a non-empty one, in the focused
/// pane, where the caret has a cell.
pub fn preedit_echo(focused: bool, has_caret: bool, preedit: &Option<String>) -> (r: Option<String>)
    ensures
        text::opt_text(r) == (match text::opt_text(*preedit) {
            Some(t) => if focused && has_caret && t.len() > 0 {
                Some(t)
            } else {
                None
            },
            None => None,
        }),
{
    if focused && has_caret {
        match preedit {
            Some(p) => if p.as_str().is_empty() {
                None
            } else {
                copy_opt(preedit)
            },
            None => None,
        }
    } else {
        None
    }
}

/// A button is reported under its own name: a press when it goes down, a release
/// when it goes up, a press before a release; the left button before the middle
/// one and that before the right one.
pub proof fn buttons_are_reported_by_name(p: PointerFrame, r: MouseReport)
    requires
        r.kind != MouseEventKind::Motion,
    ensures
        button_reports_spec(p).contains(r) <==> {
            ||| r == (MouseReport { button: MouseButton::Left, kind: MouseEventKind::Press })
                && p.primary.pressed
            ||| r == (MouseReport { button: MouseButton::Left, kind: MouseEventKind::Release })
                && p.primary.released
            ||| r == (MouseReport { button: MouseButton::Middle, kind: MouseEventKind::Press })
                && p.middle.pressed
            ||| r == (MouseReport { button: MouseButton::Middle, kind: MouseEventKind::Release })
                && p.middle.released
            ||| r == (MouseReport { button: MouseButton::Right, kind: MouseEventKind::Press })
                && p.secondary.pressed
            ||| r == (MouseReport { button: MouseButton::Right, kind: MouseEventKind::Release })
                && p.secondary.released
        },
{
    let a = press_release(p.primary, MouseButton::Left);
    let b = press_release(p.middle, MouseButton::Middle);
    let c = press_release(p.secondary, MouseButton::Right);
    let d = if p.dragged || p.hovered {
        seq![MouseReport { button: held_button(p), kind: MouseEventKind::Motion }]
    } else {
        seq![]
    };
    lemma_press_release(p.primary, MouseButton::Left, r);
    lemma_press_release(p.middle, MouseButton::Middle, r);
    lemma_press_release(p.secondary, MouseButton::Right, r);
    lemma_in_both(a, b, r);
    lemma_in_both(a + b, c, r);
    lemma_in_both(a + b + c, d, r);
    assert(!d.contains(r));
}

proof fn lemma_in_both(a: Seq<MouseReport>, b: Seq<MouseReport>, r: MouseReport)
    ensures
        (a + b).contains(r) <==> a.contains(r) || b.contains(r),
{
    if a.contains(r) {
        assert((a + b)[a.index_of(r)] == r);
    }
    if b.contains(r) {
        assert((a + b)[a.len() + b.index_of(r)] == r);
    }
}

proof fn lemma_press_release(f: ButtonFrame, button: MouseButton, r: MouseReport)
    ensures
        press_release(f, button).contains(r) <==> r.button == button && (r.kind
            == MouseEventKind::Press && f.pressed || r.kind == MouseEventKind::Release
            && f.released),
{
    let all = press_release(f, button);
    if f.pressed {
        assert(all[0] == (MouseReport { button, kind: MouseEventKind::Press }));
    }
    if f.released {
        assert(all[all.len() - 1] == (MouseReport { button, kind: MouseEventKind::Release }));
    }
}

/// A motion is reported last, exactly where the pointer is over the pane or
/// dragged out of it, with the button that is held: the left one before the right
/// one and that before the middle one, or none.
pub proof fn motions_name_the_held_button(p: PointerFrame, button: MouseButton)
    ensures
        ({
            let motion = MouseReport { button, kind: MouseEventKind::Motion };
            &&& button_reports_spec(p).contains(motion) <==> (p.dragged || p.hovered) && button
                == held_button(p)
            &&& p.dragged || p.hovered ==> button_reports_spec(p).last() == (MouseReport {
                button: held_button(p),
                kind: MouseEventKind::Motion,
            })
        }),
        p.primary.down ==> held_button(p) == MouseButton::Left,
        !p.primary.down && p.secondary.down ==> held_button(p) == MouseButton::Right,
        !p.primary.down && !p.secondary.down && p.middle.down ==> held_button(p)
            == MouseButton::Middle,
        !p.primary.down && !p.secondary.down && !p.middle.down ==> held_button(p)
            == MouseButton::NoButton,
{
    let motion = MouseReport { button, kind: MouseEventKind::Motion };
    let a = press_release(p.primary, MouseButton::Left);
    let b = press_release(p.middle, MouseButton::Middle);
    let c = press_release(p.secondary, MouseButton::Right);
    let d = if p.dragged || p.hovered {
        seq![MouseReport { button: held_button(p), kind: MouseEventKind::Motion }]
    } else {
        seq![]
    };
    lemma_press_release(p.primary, MouseButton::Left, motion);
    lemma_press_release(p.middle, MouseButton::Middle, motion);
    lemma_press_release(p.secondary, MouseButton::Right, motion);
    lemma_in_both(a, b, motion);
    lemma_in_both(a + b, c, motion);
    lemma_in_both(a + b + c, d, motion);
    if p.dragged || p.hovered {
        assert(d[0] == (MouseReport { button: held_button(p), kind: MouseEventKind::Motion }));
    }
}

/// Nothing is reported twice: there are as many reports as buttons went down or
/// up, and one more where the pointer moved; and all of one button come before
/// those of the next.
pub proof fn reports_are_counted(p: PointerFrame)
    ensures
        button_reports_spec(p).len() == (if p.primary.pressed {
            1int
        } else {
            0
        }) + (if p.primary.released {
            1int
        } else {
            0
        }) + (if p.middle.pressed {
            1int
        } else {
            0
        }) + (if p.middle.released {
            1int
        } else {
            0
        }) + (if p.secondary.pressed {
            1int
        } else {
            0
        }) + (if p.secondary.released {
            1int
        } else {
            0
        }) + (if p.dragged || p.hovered {
            1int
        } else {
            0
        }),
        p.primary.pressed ==> button_reports_spec(p)[0] == (MouseReport {
            button: MouseButton::Left,
            kind: MouseEventKind::Press,
        }),
        p.primary.pressed && p.primary.released ==> button_reports_spec(p)[1] == (MouseReport {
            button: MouseButton::Left,
            kind: MouseEventKind::Release,
        }),
        !p.primary.pressed && !p.primary.released && p.middle.pressed ==> button_reports_spec(p)[0]
            == (MouseReport { button: MouseButton::Middle, kind: MouseEventKind::Press }),
{
}

/// A press over the body starts an empty selection at its cell, a block with Alt
/// and lines without; without a press or a cell nothing changes.
pub proof fn a_press_starts_a_selection(
    sel: Option<Selection>,
    pane: PaneId,
    at: (usize, usize),
    cell: Option<(usize, usize)>,
    alt: bool,
)
    ensures
        after_press(sel, pane, true, Some(at), true) == Some(
            Selection { pane, anchor: at, head: at, mode: SelectionMode::Block },
        ),
        after_press(sel, pane, true, Some(at), false) == Some(
            Selection { pane, anchor: at, head: at, mode: SelectionMode::Linewise },
        ),
        after_press(sel, pane, true, None, alt) == sel,
        after_press(sel, pane, false, cell, alt) == sel,
{
}

/// Two clicks take the word under the pointer, three the whole row; one takes
/// nothing.
pub proof fn clicks_take_words_and_lines(
    row: Seq<char>,
    cols: usize,
    col: usize,
    a: usize,
    b: usize,
)
    ensures
        !clicked_columns(MultiClick::No, row, cols, col, a, b),
        clicked_columns(MultiClick::Line, row, cols, col, a, b) && cols > 0 ==> a == 0 && b == cols
            - 1,
        clicked_columns(MultiClick::Line, row, cols, col, a, b) && cols == 0 ==> a == 0 && b == 0,
        clicked_columns(MultiClick::Word, row, cols, col, a, b) && col < row.len()
            && grid_interaction::word_char(row[col as int]) ==> a <= col <= b && b < row.len()
            && forall|i: int|
            a <= i <= b ==> grid_interaction::word_char(#[trigger] row[i]),
        clicked_columns(MultiClick::Word, row, cols, col, a, b) && !(col < row.len()
            && grid_interaction::word_char(row[col as int])) ==> a == col && b == col,
{
    if clicked_columns(MultiClick::Word, row, cols, col, a, b) {
        grid_interaction::a_word_ends_where_its_characters_do(row, col as int, a as int, b as int);
    }
}

/// A drag moves the head of the pane's own selection, to the nearest cell of the
/// grid where that is known and else to the cell under the pointer, and nothing
/// else of it; without a drag, or a selection, nothing changes.
pub proof fn a_drag_moves_the_head_alone(
    s: Selection,
    clamped: Option<(usize, usize)>,
    cell: Option<(usize, usize)>,
    at: (usize, usize),
    pane: PaneId,
)
    ensures
        after_drag(Some(s), s.pane, true, Some(at), cell) == Some(Selection { head: at, ..s }),
        after_drag(Some(s), s.pane, true, None, Some(at)) == Some(Selection { head: at, ..s }),
        after_drag(Some(s), s.pane, true, None, None) == Some(s),
        after_drag(Some(s), pane, false, clamped, cell) == Some(s),
        after_drag(None, pane, true, clamped, cell) is None,
        drags(Some(s), s.pane, true),
        !drags(Some(s), pane, false),
        s.pane != pane ==> !drags(Some(s), pane, true),
        !drags(None, pane, true),
{
}

/// Letting go drops an empty selection of the pane and keeps any other; after a
/// multiple click, and without letting go, it stays.
pub proof fn letting_go_drops_an_empty_selection(s: Selection, pane: PaneId)
    ensures
        s.anchor == s.head ==> after_release(Some(s), s.pane, true, false) is None,
        s.anchor != s.head ==> after_release(Some(s), s.pane, true, false) == Some(s),
        after_release(Some(s), pane, true, true) == Some(s),
        after_release(Some(s), pane, false, false) == Some(s),
        after_release(None, pane, true, false) is None,
{
}

/// Letting go of a selection of the pane copies what is in view of it, where the
/// pane has a terminal; in every other case nothing is copied. A block is copied
/// as a block.
pub proof fn letting_go_copies_what_is_in_view(
    s: Selection,
    pane: PaneId,
    window_start: usize,
    rows: usize,
)
    requires
        window_start + rows <= usize::MAX,
    ensures
        s.anchor != s.head ==> release_copy(
            Some(s),
            s.pane,
            true,
            false,
            true,
            window_start,
            rows,
        ) == visible_copy(s, window_start, rows),
        s.anchor == s.head ==> release_copy(
            Some(s),
            s.pane,
            true,
            false,
            true,
            window_start,
            rows,
        ) is None,
        release_copy(Some(s), s.pane, true, false, false, window_start, rows) is None,
        release_copy(Some(s), s.pane, true, true, true, window_start, rows) is None,
        release_copy(Some(s), s.pane, false, false, true, window_start, rows) is None,
        s.pane != pane ==> release_copy(
            Some(s),
            pane,
            true,
            false,
            true,
            window_start,
            rows,
        ) is None,
        release_copy(None, pane, true, false, true, window_start, rows) is None,
        visible_copy(s, window_start, rows) matches Some(c) ==> (c.block <==> s.mode
            == SelectionMode::Block),
        window_start <= s.anchor.0 < window_start + rows && window_start <= s.head.0 < window_start
            + rows ==> (visible_copy(s, window_start, rows) matches Some(c) && {
            let (a, b) = (s.anchor, s.head);
            let forward = a.0 < b.0 || (a.0 == b.0 && a.1 <= b.1);
            &&& forward ==> window_start + c.from.0 == a.0 && c.from.1 == a.1 && window_start
                + c.to.0 == b.0 && c.to.1 == b.1
            &&& !forward ==> window_start + c.from.0 == b.0 && c.from.1 == b.1 && window_start
                + c.to.0 == a.0 && c.to.1 == a.1
        }),
        s.anchor.0 < window_start && s.head.0 < window_start ==> visible_copy(
            s,
            window_start,
            rows,
        ) is None,
        s.anchor.0 >= window_start + rows && s.head.0 >= window_start + rows ==> visible_copy(
            s,
            window_start,
            rows,
        ) is None,
{
    if window_start <= s.anchor.0 < window_start + rows && window_start <= s.head.0 < window_start
        + rows {
        grid_interaction::visible_rows_track_content(s.anchor, s.head, window_start, rows);
    }
}

/// A program that grabbed the mouse is told of it unless Shift or the link
/// modifier is held.
pub proof fn shift_keeps_the_mouse(grabbed: bool, shift: bool, link: bool, r: bool)
    requires
        call_ensures(reports_to_program, (grabbed, shift, link), r),
    ensures
        !grabbed ==> !r,
        shift ==> !r,
        link ==> !r,
        grabbed && !shift && !link ==> r,
{
}

/// The wheel is reported once for each cell it travels, at least once and at most
/// eight times, up or down as it turns.
pub proof fn the_wheel_is_reported_by_the_cell(up: bool, cells: i32, r: Vec<MouseReport>, i: int)
    requires
        call_ensures(wheel_reports, (up, cells), r),
    ensures
        1 <= r@.len() <= 8,
        1 <= cells <= 8 ==> r@.len() == cells,
        cells > 8 ==> r@.len() == 8,
        0 <= i < r@.len() && up ==> r@[i].button == MouseButton::WheelUp && r@[i].kind
            == MouseEventKind::Press,
        0 <= i < r@.len() && !up ==> r@[i].button == MouseButton::WheelDown && r@[i].kind
            == MouseEventKind::Press,
{
    if 0 <= i < r@.len() {
        let report = r@[i];
    }
}

/// A cell of the window stands as many lines below the first line in view as its
/// row says, in its own column.
pub proof fn a_cell_stands_below_the_window_start(
    window_start: usize,
    row: usize,
    col: usize,
    r: Option<(usize, usize)>,
)
    requires
        window_start + row <= usize::MAX,
        call_ensures(absolute_cell, (window_start, Some((row, col))), r),
    ensures
        r matches Some(at) && at.0 == window_start + row && at.1 == col,
{
}

/// Only a drag of the pane's own selection extends it, and only a selection of
/// the pane that holds something can be copied from its menu.
pub proof fn a_selection_belongs_to_its_pane(
    s: Selection,
    pane: PaneId,
    dragged: bool,
    r: bool,
    c: bool,
)
    requires
        call_ensures(drag_extends, (&Some(s), pane, dragged), r),
        call_ensures(copy_enabled, (&Some(s), pane), c),
    ensures
        r <==> dragged && s.pane == pane,
        s.pane != pane ==> !c,
        s.anchor == s.head ==> !c,
        s.pane == pane && s.anchor != s.head ==> c,
{
}

/// The border of the focused pane never fades below its floor; that of any other
/// is as see-through as the window.
pub proof fn the_focus_ring_stays_visible(bg_alpha: u8, r: u8, s: u8)
    requires
        call_ensures(border_alpha, (true, bg_alpha), r),
        call_ensures(border_alpha, (false, bg_alpha), s),
    ensures
        s == bg_alpha,
        bg_alpha >= 150 ==> r == bg_alpha,
        bg_alpha < 150 ==> r == 150,
{
}

/// A running terminal shows its grid, with its glyphs unless they are still being
/// prepared; a failed one shows its error.
pub proof fn a_pane_shows_its_terminal(
    warming: bool,
    e: String,
    live: BodyContent,
    failed: BodyContent,
    empty: BodyContent,
)
    requires
        call_ensures(body_content, (&PaneContent::Live, warming), live),
        call_ensures(body_content, (&PaneContent::Failed(e), warming), failed),
        call_ensures(body_content, (&PaneContent::Empty, warming), empty),
    ensures
        live == (BodyContent::Grid { glyphs: !warming }),
        failed matches BodyContent::Message(m) && m@ == e@,
        empty matches BodyContent::Message(m) && m@
            == "This pane is empty. Open a new pane to start a terminal."@,
{
}

/// With the modifier every link is underlined and a click opens the one it lands
/// on; without it the link under the pointer alone is underlined, and nothing is
/// opened.
pub proof fn links_open_with_the_modifier(
    links: Vec<(CellSpan, String)>,
    hover: Option<(usize, usize)>,
    row: usize,
    col: usize,
    with: LinkEffects,
    without: LinkEffects,
)
    requires
        call_ensures(link_effects, (&links, true, hover, Some((row, col))), with),
        call_ensures(link_effects, (&links, false, hover, Some((row, col))), without),
    ensures
        with.underline_all == (links@.len() > 0) && !with.underline_hover,
        !without.underline_all && without.underline_hover == (without.hover is Some),
        without.open is None,
        hover is None ==> with.hover is None && without.hover is None,
        with.open is Some <==> exists|i: int|
            0 <= i < links@.len() && (#[trigger] links@[i]).0.line == row && links@[i].0.col_start
                <= col < links@[i].0.col_end,
{
    if exists|i: int|
        0 <= i < links@.len() && (#[trigger] links@[i]).0.line == row && links@[i].0.col_start
            <= col < links@[i].0.col_end {
        let i = choose|i: int|
            0 <= i < links@.len() && (#[trigger] links@[i]).0.line == row && links@[i].0.col_start
                <= col < links@[i].0.col_end;
        assert(grid_interaction::covers(links@[i].0, row, col));
    }
    if with.open is Some {
        let i = choose|i: int|
            0 <= i < links@.len() && grid_interaction::covers(#[trigger] links@[i].0, row, col);
        assert(links@[i].0.line == row);
    }
}

/// The wheel scrolls the history of the pane it is over, unless it zooms; a drag
/// moves panes where nothing else has taken it.
pub proof fn gestures_have_one_taker(
    a: bool,
    b: bool,
    c: bool,
    wheel: bool,
    drag: bool,
)
    requires
        call_ensures(wheel_scrolls_locally, (a, b, c), wheel),
        call_ensures(drag_rearranges, (a, b, c), drag),
    ensures
        !a ==> !wheel && !drag,
        a && b && !c ==> wheel,
        !b || c ==> !wheel,
        a && !b && !c ==> drag,
        b || c ==> !drag,
{
}

/// A composition is echoed in the focused pane, where the caret has a cell and
/// there is text to echo, as it is.
pub proof fn a_composition_is_echoed_at_the_caret(
    focused: bool,
    has_caret: bool,
    preedit: Option<String>,
    r: Option<String>,
)
    requires
        call_ensures(preedit_echo, (focused, has_caret, &preedit), r),
    ensures
        !focused || !has_caret || preedit is None ==> r is None,
        preedit matches Some(t) ==> (t@.len() == 0 ==> r is None),
        preedit matches Some(t) ==> (focused && has_caret && t@.len() > 0 ==> (r matches Some(s)
            && s@ == t@)),
{
}

/// A pane starts where it was left; the directory of the command line goes to the
/// first pane that was left nowhere.
pub proof fn the_startup_directory_is_used_once(
    restored: Option<String>,
    startup: &mut Option<String>,
    r: Option<String>,
)
    requires
        call_ensures(deferred_spawn_cwd, (restored, startup), r),
    ensures
        restored is Some ==> r == restored && *final(startup) == *old(startup),
        restored is None ==> r == *old(startup) && *final(startup) is None,
{
}

/// A press on a cell of the body takes the gesture, and starts a selection there.
pub proof fn a_press_takes_the_gesture(
    sel: &mut Option<Selection>,
    pane: PaneId,
    over_body: bool,
    pressed: bool,
    cell: Option<(usize, usize)>,
    alt: bool,
    captured: bool,
)
    requires
        call_ensures(press_selection, (sel, pane, over_body, pressed, cell, alt), captured),
    ensures
        captured <==> over_body && pressed && cell is Some,
        !over_body || !pressed ==> *final(sel) == *old(sel),
        captured ==> (*final(sel) matches Some(s) && s.pane == pane && Some(s.anchor) == cell
            && Some(s.head) == cell && (s.mode == SelectionMode::Block) == alt),
{
}

/// A drag takes the gesture where the selection is the pane's own, and moves only
/// the selection's head.
pub proof fn a_drag_takes_the_gesture(
    sel: &mut Option<Selection>,
    pane: PaneId,
    dragged: bool,
    clamped: Option<(usize, usize)>,
    cell: Option<(usize, usize)>,
    captured: bool,
)
    requires
        call_ensures(drag_selection, (sel, pane, dragged, clamped, cell), captured),
    ensures
        captured <==> dragged && (*old(sel) matches Some(s) && s.pane == pane),
        !captured ==> *final(sel) == *old(sel),
        captured ==> (*final(sel) matches Some(s) && (*old(sel) matches Some(o) && s.pane == o.pane
            && s.anchor == o.anchor && s.mode == o.mode)),
{
}

/// A gesture that was taken stays taken, and what a release copies goes before
/// what the press copied.
pub proof fn a_gesture_is_finished(
    sel: &mut Option<Selection>,
    pane: PaneId,
    f: &DragFrame,
    begun: Gesture,
    r: Gesture,
)
    requires
        call_ensures(finish_gesture, (sel, pane, f, begun), r),
    ensures
        begun.captured ==> r.captured,
        !begun.captured ==> (r.captured <==> f.dragged && (*old(sel) matches Some(s) && s.pane
            == pane)),
        !f.released ==> r.copy == begun.copy,
        !f.released && !f.dragged ==> *final(sel) == *old(sel),
{
}

} // verus!
