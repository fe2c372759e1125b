//! What a pane's grid is painted with, pass by pass: backgrounds, glyphs, line
//! decorations, the caret and the scan lines.

use crate::frame::{cursor_blink_on, CursorBlinkPhase};
use crate::scrollbar::Rgb;
use crate::text;
use crate::text::{chars_of, string_of};
use vstd::prelude::*;

verus! {

/// How strong the colour of a selection lies over the grid.
pub const SELECTION_WASH_ALPHA: u8 = 0x60;

/// How a line under text is drawn.
#[derive(Clone, Copy, Debug, PartialEq, Eq, Structural)]
pub enum UnderlineStyle {
    NoLine,
    Single,
    Double,
    Dotted,
    Dashed,
    Curly,
}

/// How a cell is drawn.
#[derive(Clone, Copy, Debug, PartialEq, Eq, Structural)]
pub struct CellStyle {
    pub fg: Rgb,
    /// The background, where it is not the window's.
    pub bg: Option<Rgb>,
    pub bold: bool,
    pub italic: bool,
    pub underline: UnderlineStyle,
    /// The colour of the underline, where it is not the text's.
    pub underline_color: Option<Rgb>,
    pub strikeout: bool,
    pub overline: bool,
}

/// The plain style: text in one colour and nothing more.
pub open spec fn plain_style(fg: Rgb) -> CellStyle {
    CellStyle {
        fg,
        bg: None,
        bold: false,
        italic: false,
        underline: UnderlineStyle::NoLine,
        underline_color: None,
        strikeout: false,
        overline: false,
    }
}

impl CellStyle {
    /// The plain style.
    pub fn plain(fg: Rgb) -> (r: CellStyle)
        ensures
            r == plain_style(fg),
    {
        CellStyle {
            fg,
            bg: None,
            bold: false,
            italic: false,
            underline: UnderlineStyle::NoLine,
            underline_color: None,
            strikeout: false,
            overline: false,
        }
    }
}

/// Neighbouring cells of a row that are drawn alike.
#[derive(Clone, Copy, Debug, PartialEq, Eq, Structural)]
pub struct StyledSpan {
    pub col: usize,
    pub width: usize,
    pub style: CellStyle,
}

/// A glyph and the column it stands in.
#[derive(Clone, Copy, Debug, PartialEq, Eq, Structural)]
pub struct GlyphCell {
    pub c: char,
    pub col: usize,
    pub style: CellStyle,
}

/// One of the times a glyph is drawn.
#[derive(Clone, Copy, Debug, PartialEq, Eq, Structural)]
pub enum GlyphPass {
    /// The red fringe, to the left.
    GhostRed,
    /// The blue fringe, to the right.
    GhostBlue,
    /// A second strike half a pixel to the right, where there is no bold face.
    FauxBold,
    /// The glyph itself.
    Main,
}

/// How the caret is drawn.
#[derive(Clone, Copy, Debug, PartialEq, Eq, Structural)]
pub enum CaretShape {
    /// A filled cell.
    Filled,
    /// The outline of a cell.
    Outline,
    /// A bar at the left of the cell.
    Bar,
    /// A bar at the foot of the cell.
    Underline,
}

/// The caret style of the preferences.
#[derive(Clone, Copy, Debug, PartialEq, Eq, Structural)]
pub enum CursorStyle {
    Block,
    Bar,
    Underline,
}

/// One thing to paint.
#[derive(Clone, Copy, Debug, PartialEq, Eq, Structural)]
pub enum PaintOp {
    /// Fill cells of a row.
    Background { row: usize, col: usize, width: usize, color: Rgb },
    /// Draw a glyph.
    Glyph { row: usize, cell: GlyphCell, pass: GlyphPass },
    /// A line under cells of a row.
    Underline { row: usize, col: usize, width: usize, style: UnderlineStyle, color: Rgb },
    /// A line through cells of a row.
    Strikeout { row: usize, col: usize, width: usize, color: Rgb },
    /// A line over cells of a row.
    Overline { row: usize, col: usize, width: usize, color: Rgb },
    /// The caret.
    Caret { row: usize, col: usize, shape: CaretShape },
    /// The scan lines, moving or at rest.
    Scanlines { moving: bool },
}

/// The fills of a row: every span that has a background of its own.
pub open spec fn row_backgrounds(row: usize, spans: Seq<StyledSpan>) -> Seq<PaintOp>
    decreases spans.len(),
{
    if spans.len() == 0 {
        Seq::empty()
    } else {
        let s = spans.last();
        row_backgrounds(row, spans.drop_last()) + (match s.style.bg {
            Some(color) => seq![
                PaintOp::Background { row, col: s.col, width: s.width, color },
            ],
            None => Seq::empty(),
        })
    }
}

/// The times a glyph is drawn: fringes first where they are on, then the second
/// strike of a bold glyph that has no face of its own, and the glyph on top.
pub open spec fn glyph_passes(bold: bool, ghosts: bool, faux_bold: bool) -> Seq<GlyphPass> {
    (if ghosts {
        seq![GlyphPass::GhostRed, GlyphPass::GhostBlue]
    } else {
        Seq::empty()
    }) + (if bold && faux_bold {
        seq![GlyphPass::FauxBold]
    } else {
        Seq::empty()
    }) + seq![GlyphPass::Main]
}

/// What a glyph is drawn with.
pub open spec fn cell_glyphs(row: usize, cell: GlyphCell, ghosts: bool, faux_bold: bool) -> Seq<
    PaintOp,
> {
    glyph_passes(cell.style.bold, ghosts, faux_bold).map_values(
        |pass: GlyphPass| PaintOp::Glyph { row, cell, pass },
    )
}

/// What the glyphs of a row are drawn with.
pub open spec fn row_glyphs(
    row: usize,
    cells: Seq<GlyphCell>,
    ghosts: bool,
    faux_bold: bool,
) -> Seq<PaintOp>
    decreases cells.len(),
{
    if cells.len() == 0 {
        Seq::empty()
    } else {
        row_glyphs(row, cells.drop_last(), ghosts, faux_bold) + cell_glyphs(
            row,
            cells.last(),
            ghosts,
            faux_bold,
        )
    }
}

/// The lines of a span: the underline in its own colour where it has one, the
/// others always in the colour of the text.
pub open spec fn span_lines(row: usize, s: StyledSpan) -> Seq<PaintOp> {
    (if s.style.underline != UnderlineStyle::NoLine {
        seq![
            PaintOp::Underline {
                row,
                col: s.col,
                width: s.width,
                style: s.style.underline,
                color: match s.style.underline_color {
                    Some(c) => c,
                    None => s.style.fg,
                },
            },
        ]
    } else {
        Seq::empty()
    }) + (if s.style.strikeout {
        seq![PaintOp::Strikeout { row, col: s.col, width: s.width, color: s.style.fg }]
    } else {
        Seq::empty()
    }) + (if s.style.overline {
        seq![PaintOp::Overline { row, col: s.col, width: s.width, color: s.style.fg }]
    } else {
        Seq::empty()
    })
}

/// The lines of a row.
pub open spec fn row_lines(row: usize, spans: Seq<StyledSpan>) -> Seq<PaintOp>
    decreases spans.len(),
{
    if spans.len() == 0 {
        Seq::empty()
    } else {
        row_lines(row, spans.drop_last()) + span_lines(row, spans.last())
    }
}

/// A row of the grid: its spans and its glyphs.
#[derive(Debug, PartialEq, Eq)]
pub struct GridRow {
    pub spans: Vec<StyledSpan>,
    pub glyphs: Vec<GlyphCell>,
}

/// The fills of the first `n` rows.
pub open spec fn backgrounds(rows: Seq<GridRow>, n: int) -> Seq<PaintOp>
    decreases n,
{
    if n <= 0 {
        Seq::empty()
    } else {
        backgrounds(rows, n - 1) + row_backgrounds((n - 1) as usize, rows[n - 1].spans@)
    }
}

/// The glyphs of the first `n` rows.
pub open spec fn glyphs(rows: Seq<GridRow>, n: int, ghosts: bool, faux_bold: bool) -> Seq<PaintOp>
    decreases n,
{
    if n <= 0 {
        Seq::empty()
    } else {
        glyphs(rows, n - 1, ghosts, faux_bold) + row_glyphs(
            (n - 1) as usize,
            rows[n - 1].glyphs@,
            ghosts,
            faux_bold,
        )
    }
}

/// The lines of the first `n` rows.
pub open spec fn lines(rows: Seq<GridRow>, n: int) -> Seq<PaintOp>
    decreases n,
{
    if n <= 0 {
        Seq::empty()
    } else {
        lines(rows, n - 1) + row_lines((n - 1) as usize, rows[n - 1].spans@)
    }
}

/// The caret and the preferences it is drawn by.
#[derive(Clone, Copy, Debug, PartialEq, Eq)]
pub struct Caret {
    /// The cell it stands in, row and column; none where it is hidden.
    pub cell: Option<(usize, usize)>,
    pub style: CursorStyle,
    pub blink: bool,
    pub focused: bool,
    pub pinned_phase: Option<CursorBlinkPhase>,
    pub time_ms: u64,
}

/// The shape of the caret: a block is hollow in a pane without the focus.
pub open spec fn caret_shape(style: CursorStyle, focused: bool) -> CaretShape {
    match style {
        CursorStyle::Block => if focused {
            CaretShape::Filled
        } else {
            CaretShape::Outline
        },
        CursorStyle::Bar => CaretShape::Bar,
        CursorStyle::Underline => CaretShape::Underline,
    }
}

/// Whether the caret is painted now.
pub open spec fn caret_on(c: Caret) -> bool {
    match c.pinned_phase {
        Some(p) => p == CursorBlinkPhase::On,
        None => !c.blink || !c.focused || c.time_ms % 1060 < 530,
    }
}

/// What the caret is painted with.
pub open spec fn caret_ops(c: Caret) -> Seq<PaintOp> {
    match c.cell {
        Some((row, col)) => if caret_on(c) {
            seq![PaintOp::Caret { row, col, shape: caret_shape(c.style, c.focused) }]
        } else {
            Seq::empty()
        },
        None => Seq::empty(),
    }
}

/// The screen effects that are on.
#[derive(Clone, Copy, Debug, PartialEq, Eq, Structural)]
pub struct ScreenEffects {
    /// Coloured fringes around the glyphs.
    pub ghosts: bool,
    /// There is no bold face.
    pub faux_bold: bool,
    pub crt_scanlines: bool,
    pub animations_enabled: bool,
    pub reduced_motion: bool,
}

/// The scan lines.
pub open spec fn scanline_ops(fx: ScreenEffects) -> Seq<PaintOp> {
    if fx.crt_scanlines {
        seq![PaintOp::Scanlines { moving: fx.animations_enabled && !fx.reduced_motion }]
    } else {
        Seq::empty()
    }
}

/// What a grid is painted with, from the bottom up.
pub open spec fn painted(rows: Seq<GridRow>, caret: Caret, fx: ScreenEffects) -> Seq<PaintOp> {
    let n = rows.len() as int;
    backgrounds(rows, n) + glyphs(rows, n, fx.ghosts, fx.faux_bold) + lines(rows, n) + caret_ops(
        caret,
    ) + scanline_ops(fx)
}

/// Add the fills of a row.
fn push_backgrounds(out: &mut Vec<PaintOp>, row: usize, spans: &Vec<StyledSpan>)
    ensures
        final(out)@ == old(out)@ + row_backgrounds(row, spans@),
{
    let mut i: usize = 0;
    assert(spans@.take(0) =~= Seq::empty());
    assert(out@ =~= old(out)@ + row_backgrounds(row, spans@.take(0)));
    while i < spans.len()
        invariant
            i <= spans.len(),
            out@ == old(out)@ + row_backgrounds(row, spans@.take(i as int)),
        decreases spans.len() - i,
    {
        assert(spans@.take(i + 1).drop_last() =~= spans@.take(i as int));
        let s = spans[i];
        if let Some(color) = s.style.bg {
            out.push(PaintOp::Background { row, col: s.col, width: s.width, color });
        }
        i += 1;
        assert(out@ =~= old(out)@ + row_backgrounds(row, spans@.take(i as int)));
    }
    assert(spans@.take(spans@.len() as int) =~= spans@);
}

/// Add the passes of a glyph.
fn push_glyph(out: &mut Vec<PaintOp>, row: usize, cell: GlyphCell, ghosts: bool, faux_bold: bool)
    ensures
        final(out)@ == old(out)@ + cell_glyphs(row, cell, ghosts, faux_bold),
{
    if ghosts {
        out.push(PaintOp::Glyph { row, cell, pass: GlyphPass::GhostRed });
        out.push(PaintOp::Glyph { row, cell, pass: GlyphPass::GhostBlue });
    }
    if cell.style.bold && faux_bold {
        out.push(PaintOp::Glyph { row, cell, pass: GlyphPass::FauxBold });
    }
    out.push(PaintOp::Glyph { row, cell, pass: GlyphPass::Main });
    assert(out@ =~= old(out)@ + cell_glyphs(row, cell, ghosts, faux_bold));
}

/// Add the glyphs of a row.
fn push_glyphs(
    out: &mut Vec<PaintOp>,
    row: usize,
    cells: &Vec<GlyphCell>,
    ghosts: bool,
    faux_bold: bool,
)
    ensures
        final(out)@ == old(out)@ + row_glyphs(row, cells@, ghosts, faux_bold),
{
    let mut i: usize = 0;
    assert(cells@.take(0) =~= Seq::empty());
    assert(out@ =~= old(out)@ + row_glyphs(row, cells@.take(0), ghosts, faux_bold));
    while i < cells.len()
        invariant
            i <= cells.len(),
            out@ == old(out)@ + row_glyphs(row, cells@.take(i as int), ghosts, faux_bold),
        decreases cells.len() - i,
    {
        assert(cells@.take(i + 1).drop_last() =~= cells@.take(i as int));
        push_glyph(out, row, cells[i], ghosts, faux_bold);
        i += 1;
        assert(out@ =~= old(out)@ + row_glyphs(row, cells@.take(i as int), ghosts, faux_bold));
    }
    assert(cells@.take(cells@.len() as int) =~= cells@);
}

/// Add the lines of a span.
fn push_span_lines(out: &mut Vec<PaintOp>, row: usize, s: StyledSpan)
    ensures
        final(out)@ == old(out)@ + span_lines(row, s),
{
    let color = s.style.fg;
    if s.style.underline != UnderlineStyle::NoLine {
        let own = match s.style.underline_color {
            Some(c) => c,
            None => color,
        };
        out.push(
            PaintOp::Underline {
                row,
                col: s.col,
                width: s.width,
                style: s.style.underline,
                color: own,
            },
        );
    }
    if s.style.strikeout {
        out.push(PaintOp::Strikeout { row, col: s.col, width: s.width, color });
    }
    if s.style.overline {
        out.push(PaintOp::Overline { row, col: s.col, width: s.width, color });
    }
    assert(out@ =~= old(out)@ + span_lines(row, s));
}

/// Add the lines of a row.
fn push_lines(out: &mut Vec<PaintOp>, row: usize, spans: &Vec<StyledSpan>)
    ensures
        final(out)@ == old(out)@ + row_lines(row, spans@),
{
    let mut i: usize = 0;
    assert(spans@.take(0) =~= Seq::empty());
    assert(out@ =~= old(out)@ + row_lines(row, spans@.take(0)));
    while i < spans.len()
        invariant
            i <= spans.len(),
            out@ == old(out)@ + row_lines(row, spans@.take(i as int)),
        decreases spans.len() - i,
    {
        assert(spans@.take(i + 1).drop_last() =~= spans@.take(i as int));
        push_span_lines(out, row, spans[i]);
        i += 1;
        assert(out@ =~= old(out)@ + row_lines(row, spans@.take(i as int)));
    }
    assert(spans@.take(spans@.len() as int) =~= spans@);
}

/// What a grid is painted with, from the bottom up.
pub fn paint_grid_native(rows: &Vec<GridRow>, caret: &Caret, fx: &ScreenEffects) -> (r: Vec<
    PaintOp,
>)
    ensures
        r@ == painted(rows@, *caret, *fx),
{
    let mut out: Vec<PaintOp> = Vec::new();
    let mut i: usize = 0;
    while i < rows.len()
        invariant
            i <= rows.len(),
            out@ == backgrounds(rows@, i as int),
        decreases rows.len() - i,
    {
        push_backgrounds(&mut out, i, &rows[i].spans);
        i += 1;
    }
    let ghost below = out@;
    let mut j: usize = 0;
    assert(out@ =~= below + glyphs(rows@, 0, fx.ghosts, fx.faux_bold));
    while j < rows.len()
        invariant
            j <= rows.len(),
            out@ == below + glyphs(rows@, j as int, fx.ghosts, fx.faux_bold),
        decreases rows.len() - j,
    {
        push_glyphs(&mut out, j, &rows[j].glyphs, fx.ghosts, fx.faux_bold);
        j += 1;
        assert(out@ =~= below + glyphs(rows@, j as int, fx.ghosts, fx.faux_bold));
    }
    let ghost below = out@;
    let mut k: usize = 0;
    assert(out@ =~= below + lines(rows@, 0));
    while k < rows.len()
        invariant
            k <= rows.len(),
            out@ == below + lines(rows@, k as int),
        decreases rows.len() - k,
    {
        push_lines(&mut out, k, &rows[k].spans);
        k += 1;
        assert(out@ =~= below + lines(rows@, k as int));
    }
    let ghost below = out@;
    if let Some((row, col)) = caret.cell {
        if cursor_blink_on(caret.pinned_phase, caret.blink, caret.focused, caret.time_ms) {
            let shape = match caret.style {
                CursorStyle::Block => {
                    if caret.focused {
                        CaretShape::Filled
                    } else {
                        CaretShape::Outline
                    }
                },
                CursorStyle::Bar => CaretShape::Bar,
                CursorStyle::Underline => CaretShape::Underline,
            };
            out.push(PaintOp::Caret { row, col, shape });
        }
    }
    assert(out@ =~= below + caret_ops(*caret));
    let ghost below = out@;
    if fx.crt_scanlines {
        out.push(PaintOp::Scanlines { moving: !fx.reduced_motion && fx.animations_enabled });
    }
    assert(out@ =~= below + scanline_ops(*fx));
    out
}

/// Every fill is a fill.
proof fn lemma_backgrounds(rows: Seq<GridRow>, n: int, i: int)
    requires
        0 <= i < backgrounds(rows, n).len(),
    ensures
        backgrounds(rows, n)[i] is Background,
    decreases n,
{
    if n > 0 {
        let rest = backgrounds(rows, n - 1);
        let row = (n - 1) as usize;
        let spans = rows[n - 1].spans@;
        if i < rest.len() {
            lemma_backgrounds(rows, n - 1, i);
        } else {
            lemma_row_backgrounds(row, spans, i - rest.len());
        }
    }
}

/// Every fill of a row is a fill.
proof fn lemma_row_backgrounds(row: usize, spans: Seq<StyledSpan>, i: int)
    requires
        0 <= i < row_backgrounds(row, spans).len(),
    ensures
        row_backgrounds(row, spans)[i] is Background,
    decreases spans.len(),
{
    if spans.len() > 0 {
        let rest = row_backgrounds(row, spans.drop_last());
        if i < rest.len() {
            lemma_row_backgrounds(row, spans.drop_last(), i);
        }
    }
}

/// Every glyph drawn is a glyph.
proof fn lemma_glyphs(rows: Seq<GridRow>, n: int, ghosts: bool, faux_bold: bool, i: int)
    requires
        0 <= i < glyphs(rows, n, ghosts, faux_bold).len(),
    ensures
        glyphs(rows, n, ghosts, faux_bold)[i] is Glyph,
    decreases n,
{
    if n > 0 {
        let rest = glyphs(rows, n - 1, ghosts, faux_bold);
        if i < rest.len() {
            lemma_glyphs(rows, n - 1, ghosts, faux_bold, i);
        } else {
            lemma_row_glyphs(
                (n - 1) as usize,
                rows[n - 1].glyphs@,
                ghosts,
                faux_bold,
                i - rest.len(),
            );
        }
    }
}

/// Every glyph drawn of a row is a glyph.
proof fn lemma_row_glyphs(
    row: usize,
    cells: Seq<GlyphCell>,
    ghosts: bool,
    faux_bold: bool,
    i: int,
)
    requires
        0 <= i < row_glyphs(row, cells, ghosts, faux_bold).len(),
    ensures
        row_glyphs(row, cells, ghosts, faux_bold)[i] is Glyph,
    decreases cells.len(),
{
    if cells.len() > 0 {
        let rest = row_glyphs(row, cells.drop_last(), ghosts, faux_bold);
        if i < rest.len() {
            lemma_row_glyphs(row, cells.drop_last(), ghosts, faux_bold, i);
        }
    }
}

/// No line is a fill or a glyph.
proof fn lemma_lines(rows: Seq<GridRow>, n: int, i: int)
    requires
        0 <= i < lines(rows, n).len(),
    ensures
        !(lines(rows, n)[i] is Background),
        !(lines(rows, n)[i] is Glyph),
    decreases n,
{
    if n > 0 {
        let rest = lines(rows, n - 1);
        if i < rest.len() {
            lemma_lines(rows, n - 1, i);
        } else {
            lemma_row_lines((n - 1) as usize, rows[n - 1].spans@, i - rest.len());
        }
    }
}

/// No line of a row is a fill or a glyph.
proof fn lemma_row_lines(row: usize, spans: Seq<StyledSpan>, i: int)
    requires
        0 <= i < row_lines(row, spans).len(),
    ensures
        !(row_lines(row, spans)[i] is Background),
        !(row_lines(row, spans)[i] is Glyph),
    decreases spans.len(),
{
    if spans.len() > 0 {
        let rest = row_lines(row, spans.drop_last());
        if i < rest.len() {
            lemma_row_lines(row, spans.drop_last(), i);
        }
    }
}

/// Text always lies on top of the backgrounds: whatever is painted after a
/// glyph is no background, of any row.
pub proof fn backgrounds_lie_below_the_text(
    rows: Seq<GridRow>,
    caret: Caret,
    fx: ScreenEffects,
    i: int,
    j: int,
)
    requires
        0 <= i < j < painted(rows, caret, fx).len(),
        painted(rows, caret, fx)[i] is Glyph,
    ensures
        !(painted(rows, caret, fx)[j] is Background),
{
    let n = rows.len() as int;
    let a = backgrounds(rows, n);
    let b = glyphs(rows, n, fx.ghosts, fx.faux_bold);
    let c = lines(rows, n);
    if i < a.len() {
        lemma_backgrounds(rows, n, i);
    }
    if j < a.len() {
    } else if j < a.len() + b.len() {
        lemma_glyphs(rows, n, fx.ghosts, fx.faux_bold, j - a.len());
    } else if j < a.len() + b.len() + c.len() {
        lemma_lines(rows, n, j - a.len() - b.len());
    }
}

/// The scan lines dim everything: they are painted last, and stand still where
/// less motion is asked for.
pub proof fn scan_lines_are_painted_last(rows: Seq<GridRow>, caret: Caret, fx: ScreenEffects)
    requires
        fx.crt_scanlines,
    ensures
        painted(rows, caret, fx).last() == (PaintOp::Scanlines {
            moving: fx.animations_enabled && !fx.reduced_motion,
        }),
{
}

/// The line so far and the lines before it, after reading a text.
pub struct LinesRead {
    pub done: Seq<Seq<char>>,
    pub open: Seq<char>,
}

/// A line without the carriage return before its end.
pub open spec fn without_return(line: Seq<char>) -> Seq<char> {
    if line.len() > 0 && line.last() == '\r' {
        line.drop_last()
    } else {
        line
    }
}

/// Reading a text line by line.
pub open spec fn read_lines(s: Seq<char>) -> LinesRead
    decreases s.len(),
{
    if s.len() == 0 {
        LinesRead { done: Seq::empty(), open: Seq::empty() }
    } else {
        let r = read_lines(s.drop_last());
        if s.last() == '\n' {
            LinesRead { done: r.done.push(without_return(r.open)), open: Seq::empty() }
        } else {
            LinesRead { done: r.done, open: r.open.push(s.last()) }
        }
    }
}

/// The lines of a text: each ends at a line feed, with or without a carriage
/// return before it; a last line needs no end.
pub open spec fn text_lines(s: Seq<char>) -> Seq<Seq<char>> {
    let r = read_lines(s);
    if r.open.len() == 0 {
        r.done
    } else {
        r.done.push(r.open)
    }
}

/// The lines of a text.
pub fn lines_of(s: &str) -> (r: Vec<String>)
    ensures
        text::texts(r@) == text_lines(s@),
{
    let cs = chars_of(s);
    let mut out: Vec<String> = Vec::new();
    let mut start: usize = 0;
    let mut i: usize = 0;
    assert(cs@.take(0) =~= Seq::empty());
    assert(text::texts(out@) =~= Seq::empty());
    assert(cs@.subrange(0, 0) =~= Seq::empty());
    while i < cs.len()
        invariant
            start <= i <= cs.len(),
            text::texts(out@) == read_lines(cs@.take(i as int)).done,
            cs@.subrange(start as int, i as int) == read_lines(cs@.take(i as int)).open,
        decreases cs.len() - i,
    {
        assert(cs@.take(i + 1).drop_last() =~= cs@.take(i as int));
        assert(cs@.take(i + 1).last() == cs@[i as int]);
        let ghost open = cs@.subrange(start as int, i as int);
        if cs[i] == '\n' {
            let end: usize = if i > start && cs[i - 1] == '\r' {
                i - 1
            } else {
                i
            };
            let ghost before = out@;
            let line = string_of(&cs, start, end);
            proof {
                if open.len() > 0 {
                    assert(open.last() == cs@[i - 1]);
                }
                assert(line@ =~= without_return(open));
            }
            out.push(line);
            assert(text::texts(out@) =~= text::texts(before).push(line@));
            start = i + 1;
            assert(cs@.subrange(start as int, i + 1) =~= Seq::empty());
        } else {
            assert(cs@.subrange(start as int, i + 1) =~= open.push(cs@[i as int]));
        }
        i += 1;
    }
    assert(cs@.take(cs@.len() as int) =~= cs@);
    if start < cs.len() {
        let ghost before = out@;
        let line = string_of(&cs, start, cs.len());
        out.push(line);
        assert(text::texts(out@) =~= text::texts(before).push(line@));
    }
    out
}

/// Whether the plain text stands in for the styled rows: where there are none.
pub fn falls_back_to_text(styled_rows: Option<usize>) -> (r: bool)
    ensures
        r == (styled_rows is None || styled_rows == Some(0usize)),
{
    match styled_rows {
        Some(n) => n == 0,
        None => true,
    }
}

/// Something to paint is what a span of a row asks for: the fill of its own
/// background, its line in its own colour where it has one, and the lines
/// through and over it in the colour of the text.
pub open spec fn asked_by(op: PaintOp, r: int, s: StyledSpan) -> bool {
    match op {
        PaintOp::Background { row, col, width, color } => {
            &&& row == r && col == s.col && width == s.width
            &&& s.style.bg == Some(color)
        },
        PaintOp::Underline { row, col, width, style, color } => {
            &&& row == r && col == s.col && width == s.width
            &&& style != UnderlineStyle::NoLine && style == s.style.underline
            &&& s.style.underline_color is Some ==> Some(color) == s.style.underline_color
            &&& s.style.underline_color is None ==> color == s.style.fg
        },
        PaintOp::Strikeout { row, col, width, color } => {
            &&& row == r && col == s.col && width == s.width
            &&& s.style.strikeout && color == s.style.fg
        },
        PaintOp::Overline { row, col, width, color } => {
            &&& row == r && col == s.col && width == s.width
            &&& s.style.overline && color == s.style.fg
        },
        _ => false,
    }
}

/// Something to paint is a pass of a glyph of a row: each glyph has its main
/// pass, the fringes where they are on, and the second strike where it is bold
/// and there is no bold face.
pub open spec fn drawn_for(op: PaintOp, r: int, g: GlyphCell, fx: ScreenEffects) -> bool {
    op matches PaintOp::Glyph { row, cell, pass } && row == r && cell == g && (match pass {
        GlyphPass::GhostRed => fx.ghosts,
        GlyphPass::GhostBlue => fx.ghosts,
        GlyphPass::FauxBold => fx.faux_bold && g.style.bold,
        GlyphPass::Main => true,
    })
}

proof fn lemma_row_fills(row: usize, spans: Seq<StyledSpan>, op: PaintOp)
    ensures
        row_backgrounds(row, spans).contains(op) <==> op is Background && exists|k: int|
            0 <= k < spans.len() && asked_by(op, row as int, #[trigger] spans[k]),
    decreases spans.len(),
{
    if spans.len() > 0 {
        let rest = spans.drop_last();
        let s = spans.last();
        lemma_row_fills(row, rest, op);
        let own: Seq<PaintOp> = match s.style.bg {
            Some(color) => seq![PaintOp::Background { row, col: s.col, width: s.width, color }],
            None => Seq::empty(),
        };
        assert(row_backgrounds(row, spans) == row_backgrounds(row, rest) + own);
        lemma_in_sum(row_backgrounds(row, rest), own, op);
        assert(own.contains(op) <==> op is Background && asked_by(op, row as int, s)) by {
            if own.len() > 0 {
                assert(own[0] == own.last());
            }
        }
        lemma_asked_last(op, row as int, spans);
    }
}

proof fn lemma_row_decorations(row: usize, spans: Seq<StyledSpan>, op: PaintOp)
    ensures
        row_lines(row, spans).contains(op) <==> !(op is Background) && exists|k: int|
            0 <= k < spans.len() && asked_by(op, row as int, #[trigger] spans[k]),
    decreases spans.len(),
{
    if spans.len() > 0 {
        let rest = spans.drop_last();
        let s = spans.last();
        lemma_row_decorations(row, rest, op);
        lemma_in_sum(row_lines(row, rest), span_lines(row, s), op);
        lemma_span_decorations(row, s, op);
        lemma_asked_last(op, row as int, spans);
    }
}

proof fn lemma_span_decorations(row: usize, s: StyledSpan, op: PaintOp)
    ensures
        span_lines(row, s).contains(op) <==> !(op is Background) && asked_by(op, row as int, s),
{
    let all = span_lines(row, s);
    let u: int = if s.style.underline != UnderlineStyle::NoLine {
        1
    } else {
        0
    };
    let t: int = if s.style.strikeout {
        1
    } else {
        0
    };
    if !(op is Background) && asked_by(op, row as int, s) {
        if op is Underline {
            assert(all[0] == op);
        } else if op is Strikeout {
            assert(all[u] == op);
        } else {
            assert(all[u + t] == op);
        }
    }
}

proof fn lemma_asked_last(op: PaintOp, r: int, spans: Seq<StyledSpan>)
    requires
        spans.len() > 0,
    ensures
        (exists|k: int| 0 <= k < spans.len() && asked_by(op, r, #[trigger] spans[k])) <==> asked_by(
            op,
            r,
            spans.last(),
        ) || (exists|k: int|
            0 <= k < spans.drop_last().len() && asked_by(op, r, #[trigger] spans.drop_last()[k])),
{
    let rest = spans.drop_last();
    if exists|k: int| 0 <= k < spans.len() && asked_by(op, r, #[trigger] spans[k]) {
        let k = choose|k: int| 0 <= k < spans.len() && asked_by(op, r, #[trigger] spans[k]);
        if k < rest.len() {
            assert(rest[k] == spans[k]);
        }
    }
    if exists|k: int| 0 <= k < rest.len() && asked_by(op, r, #[trigger] rest[k]) {
        let k = choose|k: int| 0 <= k < rest.len() && asked_by(op, r, #[trigger] rest[k]);
        assert(asked_by(op, r, spans[k]));
    }
    assert(spans[spans.len() - 1] == spans.last());
}

proof fn lemma_in_sum(a: Seq<PaintOp>, b: Seq<PaintOp>, op: PaintOp)
    ensures
        (a + b).contains(op) <==> a.contains(op) || b.contains(op),
{
    if a.contains(op) {
        let i = a.index_of(op);
        assert((a + b)[i] == op);
    }
    if b.contains(op) {
        let i = b.index_of(op);
        assert((a + b)[a.len() + i] == op);
    }
}

proof fn lemma_row_passes(row: usize, cells: Seq<GlyphCell>, fx: ScreenEffects, op: PaintOp)
    ensures
        row_glyphs(row, cells, fx.ghosts, fx.faux_bold).contains(op) <==> exists|k: int|
            0 <= k < cells.len() && drawn_for(op, row as int, #[trigger] cells[k], fx),
    decreases cells.len(),
{
    if cells.len() > 0 {
        let rest = cells.drop_last();
        let g = cells.last();
        lemma_row_passes(row, rest, fx, op);
        let own = cell_glyphs(row, g, fx.ghosts, fx.faux_bold);
        lemma_in_sum(row_glyphs(row, rest, fx.ghosts, fx.faux_bold), own, op);
        assert(own.contains(op) <==> drawn_for(op, row as int, g, fx)) by {
            let passes = glyph_passes(g.style.bold, fx.ghosts, fx.faux_bold);
            let before: int = if fx.ghosts {
                2
            } else {
                0
            };
            if drawn_for(op, row as int, g, fx) {
                if op->pass == GlyphPass::GhostRed {
                    assert(own[0] == op);
                } else if op->pass == GlyphPass::GhostBlue {
                    assert(own[1] == op);
                } else if op->pass == GlyphPass::FauxBold {
                    assert(passes[before] == GlyphPass::FauxBold);
                    assert(own[before] == op);
                } else {
                    assert(passes[passes.len() - 1] == GlyphPass::Main);
                    assert(own[own.len() - 1] == op);
                }
            }
            if own.contains(op) {
                let i = own.index_of(op);
                assert(own[i] == (PaintOp::Glyph { row, cell: g, pass: passes[i] }));
            }
        }
        if exists|k: int| 0 <= k < cells.len() && drawn_for(op, row as int, #[trigger] cells[k], fx) {
            let k = choose|k: int|
                0 <= k < cells.len() && drawn_for(op, row as int, #[trigger] cells[k], fx);
            if k < rest.len() {
                assert(rest[k] == cells[k]);
            }
        }
        if exists|k: int| 0 <= k < rest.len() && drawn_for(op, row as int, #[trigger] rest[k], fx) {
            let k = choose|k: int|
                0 <= k < rest.len() && drawn_for(op, row as int, #[trigger] rest[k], fx);
            assert(drawn_for(op, row as int, cells[k], fx));
        }
        assert(cells[cells.len() - 1] == g);
    }
}

proof fn lemma_all_fills(rows: Seq<GridRow>, n: int, op: PaintOp)
    requires
        0 <= n <= rows.len() <= usize::MAX,
    ensures
        backgrounds(rows, n).contains(op) <==> op is Background && exists|r: int, k: int|
            0 <= r < n && 0 <= k < rows[r].spans@.len() && asked_by(
                op,
                r,
                #[trigger] rows[r].spans@[k],
            ),
    decreases n,
{
    if n > 0 {
        lemma_all_fills(rows, n - 1, op);
        lemma_row_fills((n - 1) as usize, rows[n - 1].spans@, op);
        lemma_in_sum(
            backgrounds(rows, n - 1),
            row_backgrounds((n - 1) as usize, rows[n - 1].spans@),
            op,
        );
    }
}

proof fn lemma_all_decorations(rows: Seq<GridRow>, n: int, op: PaintOp)
    requires
        0 <= n <= rows.len() <= usize::MAX,
    ensures
        lines(rows, n).contains(op) <==> !(op is Background) && exists|r: int, k: int|
            0 <= r < n && 0 <= k < rows[r].spans@.len() && asked_by(
                op,
                r,
                #[trigger] rows[r].spans@[k],
            ),
    decreases n,
{
    if n > 0 {
        lemma_all_decorations(rows, n - 1, op);
        lemma_row_decorations((n - 1) as usize, rows[n - 1].spans@, op);
        lemma_in_sum(lines(rows, n - 1), row_lines((n - 1) as usize, rows[n - 1].spans@), op);
    }
}

proof fn lemma_all_passes(rows: Seq<GridRow>, n: int, fx: ScreenEffects, op: PaintOp)
    requires
        0 <= n <= rows.len() <= usize::MAX,
    ensures
        glyphs(rows, n, fx.ghosts, fx.faux_bold).contains(op) <==> exists|r: int, k: int|
            0 <= r < n && 0 <= k < rows[r].glyphs@.len() && drawn_for(
                op,
                r,
                #[trigger] rows[r].glyphs@[k],
                fx,
            ),
    decreases n,
{
    if n > 0 {
        lemma_all_passes(rows, n - 1, fx, op);
        lemma_row_passes((n - 1) as usize, rows[n - 1].glyphs@, fx, op);
        lemma_in_sum(
            glyphs(rows, n - 1, fx.ghosts, fx.faux_bold),
            row_glyphs((n - 1) as usize, rows[n - 1].glyphs@, fx.ghosts, fx.faux_bold),
            op,
        );
    }
}

proof fn lemma_painted_parts(rows: Seq<GridRow>, caret: Caret, fx: ScreenEffects, op: PaintOp)
    requires
        rows.len() <= usize::MAX,
    ensures
        painted(rows, caret, fx).contains(op) <==> {
            ||| backgrounds(rows, rows.len() as int).contains(op)
            ||| glyphs(rows, rows.len() as int, fx.ghosts, fx.faux_bold).contains(op)
            ||| lines(rows, rows.len() as int).contains(op)
            ||| caret_ops(caret).contains(op)
            ||| scanline_ops(fx).contains(op)
        },
{
    let n = rows.len() as int;
    let a = backgrounds(rows, n);
    let b = glyphs(rows, n, fx.ghosts, fx.faux_bold);
    let c = lines(rows, n);
    lemma_in_sum(a, b, op);
    lemma_in_sum(a + b, c, op);
    lemma_in_sum(a + b + c, caret_ops(caret), op);
    lemma_in_sum(a + b + c + caret_ops(caret), scanline_ops(fx), op);
}

/// A fill or a line is painted exactly if a span of the grid asks for it, on its
/// own row.
pub proof fn spans_get_what_they_ask_for(
    rows: Seq<GridRow>,
    caret: Caret,
    fx: ScreenEffects,
    op: PaintOp,
)
    requires
        rows.len() <= usize::MAX,
        op is Background || op is Underline || op is Strikeout || op is Overline,
    ensures
        painted(rows, caret, fx).contains(op) <==> exists|r: int, k: int|
            0 <= r < rows.len() && 0 <= k < rows[r].spans@.len() && asked_by(
                op,
                r,
                #[trigger] rows[r].spans@[k],
            ),
{
    let n = rows.len() as int;
    lemma_painted_parts(rows, caret, fx, op);
    lemma_all_fills(rows, n, op);
    lemma_all_decorations(rows, n, op);
    lemma_all_passes(rows, n, fx, op);
}

/// Every underlined span has its line, in the colour of the line where it has
/// one and of the text otherwise.
pub proof fn underlined_spans_have_their_line(
    rows: Seq<GridRow>,
    caret: Caret,
    fx: ScreenEffects,
    r: int,
    k: int,
)
    requires
        rows.len() <= usize::MAX,
        0 <= r < rows.len(),
        0 <= k < rows[r].spans@.len(),
        rows[r].spans@[k].style.underline != UnderlineStyle::NoLine,
    ensures
        ({
            let s = rows[r].spans@[k];
            painted(rows, caret, fx).contains(
                PaintOp::Underline {
                    row: r as usize,
                    col: s.col,
                    width: s.width,
                    style: s.style.underline,
                    color: if s.style.underline_color is Some {
                        s.style.underline_color->0
                    } else {
                        s.style.fg
                    },
                },
            )
        }),
{
    let s = rows[r].spans@[k];
    let op = PaintOp::Underline {
        row: r as usize,
        col: s.col,
        width: s.width,
        style: s.style.underline,
        color: if s.style.underline_color is Some {
            s.style.underline_color->0
        } else {
            s.style.fg
        },
    };
    assert(asked_by(op, r, rows[r].spans@[k]));
    spans_get_what_they_ask_for(rows, caret, fx, op);
}

/// A pass of a glyph is painted exactly if a glyph of the grid has it, on its own
/// row.
pub proof fn glyphs_get_their_passes(
    rows: Seq<GridRow>,
    caret: Caret,
    fx: ScreenEffects,
    op: PaintOp,
)
    requires
        rows.len() <= usize::MAX,
        op is Glyph,
    ensures
        painted(rows, caret, fx).contains(op) <==> exists|r: int, k: int|
            0 <= r < rows.len() && 0 <= k < rows[r].glyphs@.len() && drawn_for(
                op,
                r,
                #[trigger] rows[r].glyphs@[k],
                fx,
            ),
{
    let n = rows.len() as int;
    lemma_painted_parts(rows, caret, fx, op);
    lemma_all_fills(rows, n, op);
    lemma_all_decorations(rows, n, op);
    lemma_all_passes(rows, n, fx, op);
}

/// A glyph lies on top of its fringes and of its second strike.
pub proof fn a_glyph_lies_on_top_of_its_fringes(row: usize, cell: GlyphCell, faux_bold: bool)
    ensures
        !(cell.style.bold && faux_bold) ==> cell_glyphs(row, cell, false, faux_bold) == seq![
            PaintOp::Glyph { row, cell, pass: GlyphPass::Main },
        ],
        !(cell.style.bold && faux_bold) ==> cell_glyphs(row, cell, true, faux_bold) == seq![
            PaintOp::Glyph { row, cell, pass: GlyphPass::GhostRed },
            PaintOp::Glyph { row, cell, pass: GlyphPass::GhostBlue },
            PaintOp::Glyph { row, cell, pass: GlyphPass::Main },
        ],
        cell.style.bold ==> cell_glyphs(row, cell, false, true) == seq![
            PaintOp::Glyph { row, cell, pass: GlyphPass::FauxBold },
            PaintOp::Glyph { row, cell, pass: GlyphPass::Main },
        ],
        cell.style.bold ==> cell_glyphs(row, cell, true, true) == seq![
            PaintOp::Glyph { row, cell, pass: GlyphPass::GhostRed },
            PaintOp::Glyph { row, cell, pass: GlyphPass::GhostBlue },
            PaintOp::Glyph { row, cell, pass: GlyphPass::FauxBold },
            PaintOp::Glyph { row, cell, pass: GlyphPass::Main },
        ],
{
}

/// The caret is painted exactly where it stands and while it shows: in the phase
/// it is pinned to, always where it does not blink or its pane lacks the focus,
/// and else for the first 530 of every 1060 milliseconds. A block is filled with
/// the focus and hollow without it.
pub proof fn the_caret_is_painted_where_it_stands(
    rows: Seq<GridRow>,
    caret: Caret,
    fx: ScreenEffects,
    row: usize,
    col: usize,
    shape: CaretShape,
)
    requires
        rows.len() <= usize::MAX,
    ensures
        painted(rows, caret, fx).contains(PaintOp::Caret { row, col, shape }) <==> {
            &&& caret.cell == Some((row, col))
            &&& caret.pinned_phase != Some(CursorBlinkPhase::Off)
            &&& caret.pinned_phase is None && caret.blink && caret.focused ==> exists|k: int|
                #![trigger k * 1060]
                k * 1060 <= caret.time_ms < k * 1060 + 530
            &&& shape == CaretShape::Filled <==> caret.style == CursorStyle::Block && caret.focused
            &&& shape == CaretShape::Outline <==> caret.style == CursorStyle::Block
                && !caret.focused
            &&& shape == CaretShape::Bar <==> caret.style == CursorStyle::Bar
            &&& shape == CaretShape::Underline <==> caret.style == CursorStyle::Underline
        },
{
    let op = PaintOp::Caret { row, col, shape };
    let n = rows.len() as int;
    lemma_painted_parts(rows, caret, fx, op);
    lemma_all_fills(rows, n, op);
    lemma_all_decorations(rows, n, op);
    lemma_all_passes(rows, n, fx, op);
    let k = caret.time_ms as int / 1060;
    assert(k * 1060 <= caret.time_ms < k * 1060 + 1060);
    assert(caret.time_ms % 1060 < 530 <==> exists|k: int|
        #![trigger k * 1060]
        k * 1060 <= caret.time_ms < k * 1060 + 530);
    let own = caret_ops(caret);
    if own.len() > 0 {
        assert(own[0] == own.last());
    }
    if own.contains(op) {
        assert(own[own.index_of(op)] == op);
    }
}

/// The scan lines are painted exactly where they are on, and move exactly where
/// animations are on and less motion is not asked for.
pub proof fn scan_lines_are_painted_where_they_are_on(
    rows: Seq<GridRow>,
    caret: Caret,
    fx: ScreenEffects,
    moving: bool,
)
    requires
        rows.len() <= usize::MAX,
    ensures
        painted(rows, caret, fx).contains(PaintOp::Scanlines { moving }) <==> fx.crt_scanlines && (
        moving <==> fx.animations_enabled && !fx.reduced_motion),
{
    let op = PaintOp::Scanlines { moving };
    let n = rows.len() as int;
    lemma_painted_parts(rows, caret, fx, op);
    lemma_all_fills(rows, n, op);
    lemma_all_decorations(rows, n, op);
    lemma_all_passes(rows, n, fx, op);
    let own = scanline_ops(fx);
    if own.len() > 0 {
        assert(own[0] == own.last());
    }
}

/// The layer something is painted in, from the bottom up.
pub open spec fn layer(op: PaintOp) -> int {
    match op {
        PaintOp::Background { .. } => 0,
        PaintOp::Glyph { .. } => 1,
        PaintOp::Underline { .. } => 2,
        PaintOp::Strikeout { .. } => 2,
        PaintOp::Overline { .. } => 2,
        PaintOp::Caret { .. } => 3,
        PaintOp::Scanlines { .. } => 4,
    }
}

/// The layers are painted one after the other: all fills, all glyphs, all lines,
/// the caret, the scan lines.
pub proof fn layers_are_painted_in_turn(
    rows: Seq<GridRow>,
    caret: Caret,
    fx: ScreenEffects,
    i: int,
    j: int,
)
    requires
        rows.len() <= usize::MAX,
        0 <= i < j < painted(rows, caret, fx).len(),
    ensures
        layer(painted(rows, caret, fx)[i]) <= layer(painted(rows, caret, fx)[j]),
{
    lemma_layer_at(rows, caret, fx, i);
    lemma_layer_at(rows, caret, fx, j);
}

proof fn lemma_layer_at(rows: Seq<GridRow>, caret: Caret, fx: ScreenEffects, i: int)
    requires
        rows.len() <= usize::MAX,
        0 <= i < painted(rows, caret, fx).len(),
    ensures
        ({
            let n = rows.len() as int;
            let a = backgrounds(rows, n).len();
            let b = a + glyphs(rows, n, fx.ghosts, fx.faux_bold).len();
            let c = b + lines(rows, n).len();
            let d = c + caret_ops(caret).len();
            layer(painted(rows, caret, fx)[i]) == (if i < a {
                0int
            } else if i < b {
                1
            } else if i < c {
                2
            } else if i < d {
                3
            } else {
                4
            })
        }),
{
    let n = rows.len() as int;
    let a = backgrounds(rows, n);
    let b = glyphs(rows, n, fx.ghosts, fx.faux_bold);
    let c = lines(rows, n);
    let op = painted(rows, caret, fx)[i];
    if i < a.len() {
        lemma_backgrounds(rows, n, i);
    } else if i < a.len() + b.len() {
        lemma_glyphs(rows, n, fx.ghosts, fx.faux_bold, i - a.len());
    } else if i < a.len() + b.len() + c.len() {
        assert(c[i - a.len() - b.len()] == op);
        assert(c.contains(op));
        lemma_all_decorations(rows, n, op);
    }
}

/// Nothing is painted twice: a row's fills, glyphs and lines are those of its
/// spans and glyphs one after the other, and a grid's those of its rows from the
/// top down.
pub proof fn nothing_is_painted_twice(
    rows: Seq<GridRow>,
    n: int,
    row: usize,
    s: StyledSpan,
    fx: ScreenEffects,
)
    requires
        0 <= n < rows.len() <= usize::MAX,
    ensures
        row_backgrounds(row, seq![s]).len() == (if s.style.bg is Some {
            1int
        } else {
            0
        }),
        row_lines(row, seq![s]).len() == (if s.style.underline == UnderlineStyle::NoLine {
            0int
        } else {
            1
        }) + (if s.style.strikeout {
            1int
        } else {
            0
        }) + (if s.style.overline {
            1int
        } else {
            0
        }),
        backgrounds(rows, n + 1) == backgrounds(rows, n) + row_backgrounds(
            n as usize,
            rows[n].spans@,
        ),
        lines(rows, n + 1) == lines(rows, n) + row_lines(n as usize, rows[n].spans@),
        glyphs(rows, n + 1, fx.ghosts, fx.faux_bold) == glyphs(rows, n, fx.ghosts, fx.faux_bold)
            + row_glyphs(n as usize, rows[n].glyphs@, fx.ghosts, fx.faux_bold),
{
    reveal_with_fuel(row_backgrounds, 2);
    reveal_with_fuel(row_lines, 2);
    assert(seq![s].drop_last() =~= Seq::<StyledSpan>::empty());
    assert(seq![s].last() == s);
}

/// Two runs of spans of a row are painted one after the other.
pub proof fn spans_are_painted_in_turn(row: usize, a: Seq<StyledSpan>, b: Seq<StyledSpan>)
    ensures
        row_backgrounds(row, a + b) == row_backgrounds(row, a) + row_backgrounds(row, b),
        row_lines(row, a + b) == row_lines(row, a) + row_lines(row, b),
    decreases b.len(),
{
    if b.len() == 0 {
        assert(a + b =~= a);
    } else {
        spans_are_painted_in_turn(row, a, b.drop_last());
        assert((a + b).drop_last() =~= a + b.drop_last());
        assert((a + b).last() == b.last());
    }
}

/// Two runs of glyphs of a row are painted one after the other.
pub proof fn glyphs_are_painted_in_turn(
    row: usize,
    a: Seq<GlyphCell>,
    b: Seq<GlyphCell>,
    ghosts: bool,
    faux_bold: bool,
)
    ensures
        row_glyphs(row, a + b, ghosts, faux_bold) == row_glyphs(row, a, ghosts, faux_bold)
            + row_glyphs(row, b, ghosts, faux_bold),
    decreases b.len(),
{
    if b.len() == 0 {
        assert(a + b =~= a);
    } else {
        glyphs_are_painted_in_turn(row, a, b.drop_last(), ghosts, faux_bold);
        assert((a + b).drop_last() =~= a + b.drop_last());
        assert((a + b).last() == b.last());
    }
}

/// What follows a line feed is read as a text of its own.
proof fn lemma_read_on(s: Seq<char>, t: Seq<char>)
    ensures
        read_lines(s.push('\n') + t).done == read_lines(s.push('\n')).done + read_lines(t).done,
        read_lines(s.push('\n') + t).open == read_lines(t).open,
    decreases t.len(),
{
    let head = s.push('\n');
    assert(head.drop_last() =~= s);
    if t.len() == 0 {
        assert(head + t =~= head);
    } else {
        lemma_read_on(s, t.drop_last());
        assert((head + t).drop_last() =~= head + t.drop_last());
        assert((head + t).last() == t.last());
    }
}

/// A text without a line feed is all one open line.
proof fn lemma_read_line(s: Seq<char>)
    requires
        !s.contains('\n'),
    ensures
        read_lines(s).done == Seq::<Seq<char>>::empty(),
        read_lines(s).open == s,
    decreases s.len(),
{
    if s.len() > 0 {
        let rest = s.drop_last();
        assert(s[s.len() - 1] != '\n');
        assert(!rest.contains('\n')) by {
            if rest.contains('\n') {
                let i = rest.index_of('\n');
                assert(s[i] == '\n');
            }
        }
        lemma_read_line(rest);
        assert(rest.push(s.last()) =~= s);
    }
}

/// A text is read line by line: a line that ends in a line feed comes without
/// it, and without a carriage return before it; a last line needs no end; and no
/// text has no lines.
pub proof fn lines_end_at_line_feeds(line: Seq<char>, rest: Seq<char>)
    requires
        !line.contains('\n'),
    ensures
        text_lines(Seq::<char>::empty()) == Seq::<Seq<char>>::empty(),
        line.len() > 0 ==> text_lines(line) == seq![line],
        line.len() == 0 || line.last() != '\r' ==> text_lines(line.push('\n') + rest) == seq![line]
            + text_lines(rest),
        line.len() > 0 && line.last() == '\r' ==> text_lines(line.push('\n') + rest) == seq![
            line.drop_last(),
        ] + text_lines(rest),
{
    lemma_read_line(line);
    lemma_read_on(line, rest);
    let head = line.push('\n');
    assert(head.drop_last() =~= line);
    assert(read_lines(head).done =~= seq![without_return(line)]);
    assert(read_lines(head + rest).done =~= seq![without_return(line)] + read_lines(rest).done);
    assert(text_lines(head + rest) =~= seq![without_return(line)] + text_lines(rest));
    assert(Seq::<Seq<char>>::empty().push(line) =~= seq![line]);
}

/// The plain style draws text in its colour and nothing else.
pub proof fn the_plain_style_is_bare(fg: Rgb)
    ensures
        plain_style(fg).fg == fg,
        plain_style(fg).bg is None,
        plain_style(fg).underline == UnderlineStyle::NoLine,
        plain_style(fg).underline_color is None,
        !plain_style(fg).bold && !plain_style(fg).italic,
        !plain_style(fg).strikeout && !plain_style(fg).overline,
{
}

/// A screen with styled rows is painted from them; without any it falls back to
/// its text.
pub proof fn text_is_painted_where_nothing_is_styled(styled: Option<usize>, r: bool)
    requires
        call_ensures(falls_back_to_text, (styled,), r),
    ensures
        styled is None ==> r,
        styled matches Some(n) ==> (r <==> n == 0),
{
}

} // verus!
