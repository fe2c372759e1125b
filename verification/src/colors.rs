//! The colours of the running theme, and what a program may change of them.

use crate::scrollbar::Rgb;
use vstd::prelude::*;

verus! {

/// One of the colours a program can set by name.
#[derive(Clone, Copy, Debug, PartialEq, Eq, Structural)]
pub enum DynamicColor {
    Foreground,
    Background,
    Cursor,
}

/// A colour a program asks to set.
#[derive(Clone, Copy, Debug, PartialEq, Eq, Structural)]
pub enum ColorSet {
    /// One of the named colours.
    Dynamic { which: DynamicColor, rgb: Rgb },
    /// A colour of the palette.
    Indexed { index: u8, rgb: Rgb },
}

/// Eight colours of the palette, each as `#rrggbb`.
#[derive(Debug, PartialEq, Eq)]
pub struct AnsiRow {
    pub black: String,
    pub red: String,
    pub green: String,
    pub yellow: String,
    pub blue: String,
    pub magenta: String,
    pub cyan: String,
    pub white: String,
}

impl View for AnsiRow {
    type V = Seq<Seq<char>>;

    open spec fn view(&self) -> Seq<Seq<char>> {
        seq![
            self.black@,
            self.red@,
            self.green@,
            self.yellow@,
            self.blue@,
            self.magenta@,
            self.cyan@,
            self.white@,
        ]
    }
}

/// The colours a program can change, each as `#rrggbb`.
#[derive(Debug, PartialEq, Eq)]
pub struct ThemeColors {
    pub foreground: String,
    pub background: String,
    pub cursor: String,
    pub normal: AnsiRow,
    pub bright: AnsiRow,
}

/// The view of the colours.
pub struct ColorsView {
    pub foreground: Seq<char>,
    pub background: Seq<char>,
    pub cursor: Seq<char>,
    pub normal: Seq<Seq<char>>,
    pub bright: Seq<Seq<char>>,
}

impl View for ThemeColors {
    type V = ColorsView;

    open spec fn view(&self) -> ColorsView {
        ColorsView {
            foreground: self.foreground@,
            background: self.background@,
            cursor: self.cursor@,
            normal: self.normal@,
            bright: self.bright@,
        }
    }
}

/// A hexadecimal digit, in lower case.
pub open spec fn hex_digit(d: u8) -> char {
    if d < 10 {
        (48 + d) as char
    } else {
        (87 + d) as char
    }
}

/// A colour as `#rrggbb`.
pub open spec fn hex_text(c: Rgb) -> Seq<char> {
    seq![
        '#',
        hex_digit((c.r / 16) as u8),
        hex_digit((c.r % 16) as u8),
        hex_digit((c.g / 16) as u8),
        hex_digit((c.g % 16) as u8),
        hex_digit((c.b / 16) as u8),
        hex_digit((c.b % 16) as u8),
    ]
}

/// Write a hexadecimal digit.
fn push_hex(out: &mut String, d: u8)
    requires
        d < 16,
    ensures
        final(out)@ == old(out)@.push(hex_digit(d)),
{
    if d < 10 {
        out.push((48 + d) as char);
    } else {
        out.push((87 + d) as char);
    }
}

/// A colour as `#rrggbb`.
pub fn hex(c: Rgb) -> (r: String)
    ensures
        r@ == hex_text(c),
{
    let mut out = String::new();
    out.push('#');
    push_hex(&mut out, c.r / 16);
    push_hex(&mut out, c.r % 16);
    push_hex(&mut out, c.g / 16);
    push_hex(&mut out, c.g % 16);
    push_hex(&mut out, c.b / 16);
    push_hex(&mut out, c.b % 16);
    assert(out@ =~= hex_text(c));
    out
}

/// Two digits that read the same are the same.
proof fn lemma_hex_digit(a: u8, b: u8)
    requires
        a < 16,
        b < 16,
        hex_digit(a) == hex_digit(b),
    ensures
        a == b,
{
    assert(hex_digit(a) as u32 == (if a < 10 {
        48 + a
    } else {
        87 + a
    }));
    assert(hex_digit(b) as u32 == (if b < 10 {
        48 + b
    } else {
        87 + b
    }));
}

/// A written colour can be read back: two colours that are written the same are
/// the same.
pub proof fn written_colours_differ(a: Rgb, b: Rgb)
    requires
        hex_text(a) == hex_text(b),
    ensures
        a == b,
{
    let x = hex_text(a);
    let y = hex_text(b);
    assert(x[1] == y[1] && x[2] == y[2] && x[3] == y[3] && x[4] == y[4] && x[5] == y[5] && x[6]
        == y[6]);
    lemma_hex_digit((a.r / 16) as u8, (b.r / 16) as u8);
    lemma_hex_digit((a.r % 16) as u8, (b.r % 16) as u8);
    lemma_hex_digit((a.g / 16) as u8, (b.g / 16) as u8);
    lemma_hex_digit((a.g % 16) as u8, (b.g % 16) as u8);
    lemma_hex_digit((a.b / 16) as u8, (b.b / 16) as u8);
    lemma_hex_digit((a.b % 16) as u8, (b.b % 16) as u8);
}

/// The colours after a program set one: a named one, or one of the first
/// sixteen of the palette; others are not the theme's to change.
pub open spec fn colours_set(v: ColorsView, set: ColorSet) -> ColorsView {
    match set {
        ColorSet::Dynamic { which: DynamicColor::Foreground, rgb } => ColorsView {
            foreground: hex_text(rgb),
            ..v
        },
        ColorSet::Dynamic { which: DynamicColor::Background, rgb } => ColorsView {
            background: hex_text(rgb),
            ..v
        },
        ColorSet::Dynamic { which: DynamicColor::Cursor, rgb } => ColorsView {
            cursor: hex_text(rgb),
            ..v
        },
        ColorSet::Indexed { index, rgb } => if index < 8 {
            ColorsView { normal: v.normal.update(index as int, hex_text(rgb)), ..v }
        } else if index < 16 {
            ColorsView { bright: v.bright.update(index - 8, hex_text(rgb)), ..v }
        } else {
            v
        },
    }
}

impl AnsiRow {
    /// Set one of the eight colours.
    pub fn set(&mut self, slot: u8, color: String)
        requires
            slot < 8,
        ensures
            final(self)@ == old(self)@.update(slot as int, color@),
    {
        match slot {
            0 => self.black = color,
            1 => self.red = color,
            2 => self.green = color,
            3 => self.yellow = color,
            4 => self.blue = color,
            5 => self.magenta = color,
            6 => self.cyan = color,
            _ => self.white = color,
        }
        assert(self@ =~= old(self)@.update(slot as int, color@));
    }
}

impl ThemeColors {
    /// Take over a colour a program set.
    pub fn apply_color_set(&mut self, set: ColorSet)
        ensures
            final(self)@ == colours_set(old(self)@, set),
    {
        match set {
            ColorSet::Dynamic { which, rgb } => {
                let c = hex(rgb);
                match which {
                    DynamicColor::Foreground => self.foreground = c,
                    DynamicColor::Background => self.background = c,
                    DynamicColor::Cursor => self.cursor = c,
                }
            },
            ColorSet::Indexed { index, rgb } => {
                if index < 8 {
                    self.normal.set(index, hex(rgb));
                } else if index < 16 {
                    self.bright.set(index % 8, hex(rgb));
                }
            },
        }
    }

    /// Take over the colours programs set, in order. Tells whether there were
    /// any, so that the terminals must be told.
    pub fn apply_color_sets(&mut self, sets: &Vec<ColorSet>) -> (r: bool)
        ensures
            r == (sets@.len() > 0),
            final(self)@ == all_set(old(self)@, sets@),
    {
        let mut i: usize = 0;
        assert(sets@.take(0) =~= Seq::empty());
        while i < sets.len()
            invariant
                i <= sets.len(),
                self@ == all_set(old(self)@, sets@.take(i as int)),
            decreases sets.len() - i,
        {
            assert(sets@.take(i + 1).drop_last() =~= sets@.take(i as int));
            self.apply_color_set(sets[i]);
            i += 1;
        }
        assert(sets@.take(sets@.len() as int) =~= sets@);
        sets.len() > 0
    }
}

/// The colours after programs set some, one after the other.
pub open spec fn all_set(v: ColorsView, sets: Seq<ColorSet>) -> ColorsView
    decreases sets.len(),
{
    if sets.len() == 0 {
        v
    } else {
        colours_set(all_set(v, sets.drop_last()), sets.last())
    }
}

/// The colour of text where the theme names none that can be read.
pub fn term_default_fg(parsed: Option<Rgb>) -> (r: Rgb)
    ensures
        r == (match parsed {
            Some(c) => c,
            None => Rgb { r: 232, g: 230, b: 240 },
        }),
{
    match parsed {
        Some(c) => c,
        None => Rgb { r: 232, g: 230, b: 240 },
    }
}

/// The colour of the caret where the theme names none that can be read.
pub fn cursor_color(parsed: Option<Rgb>) -> (r: Rgb)
    ensures
        r == (match parsed {
            Some(c) => c,
            None => Rgb { r: 0, g: 255, b: 144 },
        }),
{
    match parsed {
        Some(c) => c,
        None => Rgb { r: 0, g: 255, b: 144 },
    }
}

/// The value of a hexadecimal digit in lower case.
pub open spec fn digit_value(c: char) -> int {
    if '0' <= c <= '9' {
        c as int - '0' as int
    } else if 'a' <= c <= 'f' {
        c as int - 'a' as int + 10
    } else {
        -1
    }
}

/// A written colour is a mark and six hexadecimal digits, two each for red, green
/// and blue, the higher one first, and they read back as the colour.
pub proof fn a_written_colour_reads_back(c: Rgb)
    ensures
        hex_text(c).len() == 7,
        hex_text(c)[0] == '#',
        16 * digit_value(hex_text(c)[1]) + digit_value(hex_text(c)[2]) == c.r,
        16 * digit_value(hex_text(c)[3]) + digit_value(hex_text(c)[4]) == c.g,
        16 * digit_value(hex_text(c)[5]) + digit_value(hex_text(c)[6]) == c.b,
        forall|i: int| 1 <= i < 7 ==> 0 <= #[trigger] digit_value(hex_text(c)[i]) < 16,
{
    lemma_digit_value((c.r / 16) as u8);
    lemma_digit_value((c.r % 16) as u8);
    lemma_digit_value((c.g / 16) as u8);
    lemma_digit_value((c.g % 16) as u8);
    lemma_digit_value((c.b / 16) as u8);
    lemma_digit_value((c.b % 16) as u8);
}

proof fn lemma_digit_value(d: u8)
    requires
        d < 16,
    ensures
        digit_value(hex_digit(d)) == d,
{
    assert(hex_digit(d) as u32 == (if d < 10 {
        48 + d
    } else {
        87 + d
    }));
}

/// A program sets the colour it names and no other: text, background or caret,
/// or one of the sixteen of the palette, of which the first eight are the normal
/// ones and the others the bright ones.
pub proof fn a_colour_is_set_where_it_is_named(v: ColorsView, rgb: Rgb, index: u8)
    ensures
        colours_set(v, ColorSet::Dynamic { which: DynamicColor::Foreground, rgb }) == (ColorsView {
            foreground: hex_text(rgb),
            ..v
        }),
        colours_set(v, ColorSet::Dynamic { which: DynamicColor::Background, rgb }) == (ColorsView {
            background: hex_text(rgb),
            ..v
        }),
        colours_set(v, ColorSet::Dynamic { which: DynamicColor::Cursor, rgb }) == (ColorsView {
            cursor: hex_text(rgb),
            ..v
        }),
        v.normal.len() == 8 && v.bright.len() == 8 ==> ({
            let w = colours_set(v, ColorSet::Indexed { index, rgb });
            &&& w.foreground == v.foreground && w.background == v.background && w.cursor
                == v.cursor
            &&& w.normal.len() == 8 && w.bright.len() == 8
            &&& forall|i: int|
                0 <= i < 8 ==> #[trigger] w.normal[i] == (if i == index {
                    hex_text(rgb)
                } else {
                    v.normal[i]
                })
            &&& forall|i: int|
                0 <= i < 8 ==> #[trigger] w.bright[i] == (if i + 8 == index {
                    hex_text(rgb)
                } else {
                    v.bright[i]
                })
        }),
{
}

/// Of the colours that are set the last one for a name counts: they are set one
/// after the other.
pub proof fn colours_are_set_in_turn(v: ColorsView, a: Seq<ColorSet>, b: Seq<ColorSet>, c: ColorSet)
    ensures
        all_set(v, Seq::empty()) == v,
        all_set(v, a.push(c)) == colours_set(all_set(v, a), c),
        all_set(v, a + b) == all_set(all_set(v, a), b),
    decreases b.len(),
{
    assert(a.push(c).drop_last() =~= a);
    if b.len() == 0 {
        assert(a + b =~= a);
    } else {
        colours_are_set_in_turn(v, a, b.drop_last(), c);
        assert((a + b).drop_last() =~= a + b.drop_last());
        assert((a + b).last() == b.last());
    }
}

/// A colour the theme names is used; where it names none that can be read, text
/// and caret have colours of their own.
pub proof fn named_colours_are_used(
    c: Rgb,
    text: Rgb,
    caret: Rgb,
    default_text: Rgb,
    default_caret: Rgb,
)
    requires
        call_ensures(term_default_fg, (Some(c),), text),
        call_ensures(cursor_color, (Some(c),), caret),
        call_ensures(term_default_fg, (None::<Rgb>,), default_text),
        call_ensures(cursor_color, (None::<Rgb>,), default_caret),
    ensures
        text == c && caret == c,
        default_text == (Rgb { r: 232, g: 230, b: 240 }),
        default_caret == (Rgb { r: 0, g: 255, b: 144 }),
{
}

} // verus!
