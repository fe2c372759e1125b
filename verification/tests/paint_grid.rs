use c0pl4nd::paint_grid::{
    falls_back_to_text, lines_of, paint_grid_native, Caret, CaretShape, CellStyle, CursorStyle,
    GlyphCell, GlyphPass, GridRow, PaintOp, ScreenEffects, StyledSpan, UnderlineStyle,
};
use c0pl4nd::scrollbar::Rgb;

const FG: Rgb = Rgb { r: 200, g: 200, b: 200 };
const BG: Rgb = Rgb { r: 10, g: 20, b: 30 };

fn caret() -> Caret {
    Caret {
        cell: None,
        style: CursorStyle::Block,
        blink: false,
        focused: true,
        pinned_phase: None,
        time_ms: 0,
    }
}

fn effects() -> ScreenEffects {
    ScreenEffects {
        ghosts: false,
        faux_bold: false,
        crt_scanlines: false,
        animations_enabled: true,
        reduced_motion: false,
    }
}

#[test]
fn passes_come_in_order_over_all_rows() {
    let marked = CellStyle {
        bg: Some(BG),
        bold: true,
        underline: UnderlineStyle::Curly,
        underline_color: Some(BG),
        strikeout: true,
        ..CellStyle::plain(FG)
    };
    let plain = CellStyle::plain(FG);
    let glyph = GlyphCell { c: 'x', col: 0, style: marked };
    let rows = vec![
        GridRow {
            spans: vec![
                StyledSpan { col: 0, width: 2, style: marked },
                StyledSpan { col: 2, width: 1, style: plain },
            ],
            glyphs: vec![glyph],
        },
        GridRow {
            spans: vec![StyledSpan { col: 0, width: 1, style: CellStyle { bg: Some(FG), ..plain } }],
            glyphs: Vec::new(),
        },
    ];
    let fx = ScreenEffects { ghosts: true, faux_bold: true, crt_scanlines: true, ..effects() };
    let at = Caret { cell: Some((1, 1)), ..caret() };
    assert_eq!(
        paint_grid_native(&rows, &at, &fx),
        vec![
            PaintOp::Background { row: 0, col: 0, width: 2, color: BG },
            PaintOp::Background { row: 1, col: 0, width: 1, color: FG },
            PaintOp::Glyph { row: 0, cell: glyph, pass: GlyphPass::GhostRed },
            PaintOp::Glyph { row: 0, cell: glyph, pass: GlyphPass::GhostBlue },
            PaintOp::Glyph { row: 0, cell: glyph, pass: GlyphPass::FauxBold },
            PaintOp::Glyph { row: 0, cell: glyph, pass: GlyphPass::Main },
            PaintOp::Underline {
                row: 0,
                col: 0,
                width: 2,
                style: UnderlineStyle::Curly,
                color: BG
            },
            PaintOp::Strikeout { row: 0, col: 0, width: 2, color: FG },
            PaintOp::Caret { row: 1, col: 1, shape: CaretShape::Filled },
            PaintOp::Scanlines { moving: true },
        ]
    );
}

#[test]
fn a_block_caret_is_hollow_without_the_focus() {
    let at = Caret { cell: Some((0, 0)), focused: false, blink: true, time_ms: 600, ..caret() };
    assert_eq!(
        paint_grid_native(&Vec::new(), &at, &effects()),
        vec![PaintOp::Caret { row: 0, col: 0, shape: CaretShape::Outline }]
    );
    let bar = Caret { style: CursorStyle::Bar, ..at };
    assert_eq!(
        paint_grid_native(&Vec::new(), &bar, &effects()),
        vec![PaintOp::Caret { row: 0, col: 0, shape: CaretShape::Bar }]
    );
    let still = ScreenEffects { crt_scanlines: true, reduced_motion: true, ..effects() };
    assert_eq!(
        paint_grid_native(&Vec::new(), &caret(), &still),
        vec![PaintOp::Scanlines { moving: false }]
    );
}

#[test]
fn lines_are_those_of_the_standard_library() {
    for s in ["", "a", "a\n", "a\nb", "a\r\nb\r\n", "\n\n", "a\r", "x\r\ny\r", "\r\n"] {
        let want: Vec<String> = s.lines().map(|l| l.to_string()).collect();
        assert_eq!(lines_of(s), want, "{s:?}");
    }
    assert!(falls_back_to_text(None) && falls_back_to_text(Some(0)));
    assert!(!falls_back_to_text(Some(1)));
}
