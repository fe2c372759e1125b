use c0pl4nd::colors::{
    cursor_color, hex, term_default_fg, AnsiRow, ColorSet, DynamicColor, ThemeColors,
};
use c0pl4nd::scrollbar::Rgb;

fn row(tag: &str) -> AnsiRow {
    let s = |n: &str| format!("{tag}{n}");
    AnsiRow {
        black: s("0"),
        red: s("1"),
        green: s("2"),
        yellow: s("3"),
        blue: s("4"),
        magenta: s("5"),
        cyan: s("6"),
        white: s("7"),
    }
}

fn theme() -> ThemeColors {
    ThemeColors {
        foreground: "f".to_string(),
        background: "b".to_string(),
        cursor: "c".to_string(),
        normal: row("n"),
        bright: row("h"),
    }
}

const TEAL: Rgb = Rgb { r: 0, g: 0x9a, b: 0xff };

#[test]
fn colours_are_written_in_lower_case_hex() {
    assert_eq!(hex(TEAL), "#009aff");
    for v in 0..=255u8 {
        assert_eq!(hex(Rgb { r: v, g: 255 - v, b: 7 }), format!("#{:02x}{:02x}07", v, 255 - v));
    }
}

#[test]
fn a_program_sets_named_and_palette_colours() {
    let mut t = theme();
    t.apply_color_set(ColorSet::Dynamic { which: DynamicColor::Cursor, rgb: TEAL });
    t.apply_color_set(ColorSet::Indexed { index: 4, rgb: TEAL });
    t.apply_color_set(ColorSet::Indexed { index: 15, rgb: TEAL });
    t.apply_color_set(ColorSet::Indexed { index: 16, rgb: TEAL });
    let mut want = theme();
    want.cursor = "#009aff".to_string();
    want.normal.blue = "#009aff".to_string();
    want.bright.white = "#009aff".to_string();
    assert_eq!(t, want);
    assert!(!t.apply_color_sets(&Vec::new()));
    assert!(t.apply_color_sets(&vec![
        ColorSet::Dynamic { which: DynamicColor::Foreground, rgb: TEAL },
        ColorSet::Dynamic { which: DynamicColor::Background, rgb: TEAL },
    ]));
    assert_eq!((t.foreground.as_str(), t.background.as_str()), ("#009aff", "#009aff"));
}

#[test]
fn unreadable_colours_have_a_default() {
    assert_eq!(term_default_fg(Some(TEAL)), TEAL);
    assert_eq!(term_default_fg(None), Rgb { r: 232, g: 230, b: 240 });
    assert_eq!(cursor_color(None), Rgb { r: 0, g: 255, b: 144 });
}
