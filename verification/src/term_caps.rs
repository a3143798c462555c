//! Terminal capability tiers and color degradation.
//!
//! The interface is drawn for a truecolor terminal; a limited terminal
//! (chiefly the Linux console) gets colors quantized to a palette it can
//! show and glyphs its console font has.

use vstd::prelude::*;

use crate::text::{contains_str, has_substring, same_text};

verus! {

/// How many colors the terminal shows.
#[derive(Debug, Clone, Copy, PartialEq, Eq, Structural)]
pub enum ColorSupport {
    /// 24-bit RGB passes through unchanged.
    TrueColor,
    /// RGB is quantized to the xterm 256-color palette.
    Ansi256,
    /// Everything is quantized to the 16 ANSI colors.
    Ansi16,
}

/// A terminal color: a named ANSI color, an xterm-256 palette index, or
/// 24-bit RGB.
#[derive(Debug, Clone, Copy, PartialEq, Eq, Structural)]
pub enum Color {
    Reset,
    Black,
    Red,
    Green,
    Yellow,
    Blue,
    Magenta,
    Cyan,
    Gray,
    DarkGray,
    LightRed,
    LightGreen,
    LightYellow,
    LightBlue,
    LightMagenta,
    LightCyan,
    White,
    Rgb(u8, u8, u8),
    Indexed(u8),
}

/// How a box border is drawn.
#[derive(Debug, Clone, Copy, PartialEq, Eq, Structural)]
pub enum BorderType {
    Plain,
    Rounded,
    Double,
    Thick,
}

/// What the terminal can show.
#[derive(Debug, Clone, Copy, PartialEq, Eq, Structural)]
pub struct TermCaps {
    pub color: ColorSupport,
    /// Whether the font has glyphs beyond the console repertoire (heavy
    /// box drawing, check marks).
    pub rich_glyphs: bool,
}

/// `s` advertises 24-bit color.
pub open spec fn advertises_truecolor(s: Seq<char>) -> bool {
    has_substring(s, "truecolor"@) || has_substring(s, "24bit"@)
}

/// The capabilities read from `TERM` and `COLORTERM`: the Linux console
/// is the bottom tier whatever `COLORTERM` says; otherwise `COLORTERM`
/// advertising truecolor gives full support and anything else the
/// 256-color middle tier.
pub open spec fn caps_from_env(term: Option<Seq<char>>, colorterm: Option<Seq<char>>) -> TermCaps {
    if term == Some("linux"@) {
        TermCaps { color: ColorSupport::Ansi16, rich_glyphs: false }
    } else if colorterm is Some && advertises_truecolor(colorterm->0) {
        TermCaps { color: ColorSupport::TrueColor, rich_glyphs: true }
    } else {
        TermCaps { color: ColorSupport::Ansi256, rich_glyphs: true }
    }
}

/// The view of an optional string.
pub open spec fn opt_view(s: Option<&str>) -> Option<Seq<char>> {
    match s {
        Some(t) => Some(t@),
        None => None,
    }
}

impl TermCaps {
    /// A modern emulator: truecolor, full glyph repertoire.
    pub fn full() -> (c: Self)
        ensures
            c == (TermCaps { color: ColorSupport::TrueColor, rich_glyphs: true }),
    {
        TermCaps { color: ColorSupport::TrueColor, rich_glyphs: true }
    }

    /// The Linux console: 16 colors, console-font glyphs only.
    pub fn linux_tty() -> (c: Self)
        ensures
            c == (TermCaps { color: ColorSupport::Ansi16, rich_glyphs: false }),
    {
        TermCaps { color: ColorSupport::Ansi16, rich_glyphs: false }
    }

    /// The capabilities the values of `TERM` and `COLORTERM` select (see
    /// [`caps_from_env`]).
    pub fn from_env(term: Option<&str>, colorterm: Option<&str>) -> (c: Self)
        ensures
            c == caps_from_env(opt_view(term), opt_view(colorterm)),
    {
        proof {
            reveal_strlit("linux");
        }
        if let Some(t) = term {
            if same_text(t, "linux") {
                return TermCaps::linux_tty();
            }
        }
        let truecolor = match colorterm {
            Some(c) => contains_str(c, "truecolor") || contains_str(c, "24bit"),
            None => false,
        };
        TermCaps { color: if truecolor { ColorSupport::TrueColor } else { ColorSupport::Ansi256 }, rich_glyphs: true }
    }

    /// Background of the selected card: pinned to dark gray on the
    /// 16-color tier, where a subtle RGB tone would quantize to the plain
    /// black background.
    pub fn selection_bg(&self) -> (c: Color)
        ensures
            c == if self.color == ColorSupport::Ansi16 { Color::DarkGray } else { Color::Rgb(40, 40, 55) },
    {
        match self.color {
            ColorSupport::Ansi16 => Color::DarkGray,
            _ => Color::Rgb(40, 40, 55),
        }
    }

    /// Border of the selected card: heavy lines where the font has them,
    /// double lines (in every VGA font) otherwise.
    pub fn selected_border_type(&self) -> (t: BorderType)
        ensures
            t == if self.rich_glyphs { BorderType::Thick } else { BorderType::Double },
    {
        if self.rich_glyphs {
            BorderType::Thick
        } else {
            BorderType::Double
        }
    }

    /// The checklist "done" marker.
    pub fn check_mark(&self) -> (s: &'static str)
        ensures
            s@ == if self.rich_glyphs { "✓"@ } else { "x"@ },
    {
        if self.rich_glyphs {
            "✓"
        } else {
            "x"
        }
    }

    /// `color` reduced to what the terminal shows: unchanged on the
    /// truecolor tier; RGB to the nearest palette index on the 256-color
    /// tier; RGB and palette indices to the nearest of the 16 ANSI colors
    /// on the bottom tier. Named colors are never changed.
    pub fn adapt_color(&self, color: Color) -> (c: Color)
        ensures
            c == adapted(self.color, color),
    {
        match (self.color, color) {
            (ColorSupport::TrueColor, c) => c,
            (ColorSupport::Ansi256, Color::Rgb(r, g, b)) => Color::Indexed(nearest_indexed(r, g, b)),
            (ColorSupport::Ansi256, c) => c,
            (ColorSupport::Ansi16, Color::Rgb(r, g, b)) => nearest_ansi16(r, g, b),
            (ColorSupport::Ansi16, Color::Indexed(i)) => {
                let (r, g, b) = indexed_to_rgb(i);
                nearest_ansi16(r, g, b)
            },
            (ColorSupport::Ansi16, c) => c,
        }
    }
}

/// The 16 ANSI colors in palette order.
pub open spec fn ansi16_color(i: int) -> Color {
    if i == 0 { Color::Black }
    else if i == 1 { Color::Red }
    else if i == 2 { Color::Green }
    else if i == 3 { Color::Yellow }
    else if i == 4 { Color::Blue }
    else if i == 5 { Color::Magenta }
    else if i == 6 { Color::Cyan }
    else if i == 7 { Color::Gray }
    else if i == 8 { Color::DarkGray }
    else if i == 9 { Color::LightRed }
    else if i == 10 { Color::LightGreen }
    else if i == 11 { Color::LightYellow }
    else if i == 12 { Color::LightBlue }
    else if i == 13 { Color::LightMagenta }
    else if i == 14 { Color::LightCyan }
    else { Color::White }
}

/// Their conventional VGA palette values.
pub open spec fn ansi16_rgb(i: int) -> (u8, u8, u8) {
    if i == 0 { (0, 0, 0) }
    else if i == 1 { (170, 0, 0) }
    else if i == 2 { (0, 170, 0) }
    else if i == 3 { (170, 85, 0) }
    else if i == 4 { (0, 0, 170) }
    else if i == 5 { (170, 0, 170) }
    else if i == 6 { (0, 170, 170) }
    else if i == 7 { (170, 170, 170) }
    else if i == 8 { (85, 85, 85) }
    else if i == 9 { (255, 85, 85) }
    else if i == 10 { (85, 255, 85) }
    else if i == 11 { (255, 255, 85) }
    else if i == 12 { (85, 85, 255) }
    else if i == 13 { (255, 85, 255) }
    else if i == 14 { (85, 255, 255) }
    else { (255, 255, 255) }
}

/// Squared euclidean distance of two RGB colors.
pub open spec fn dist2_of(a: (u8, u8, u8), b: (u8, u8, u8)) -> int {
    let dr = a.0 - b.0;
    let dg = a.1 - b.1;
    let db = a.2 - b.2;
    dr * dr + dg * dg + db * db
}

/// `i` is the first index in `0..n` at which `f` is smallest.
pub open spec fn first_min(f: spec_fn(int) -> int, n: int, i: int) -> bool {
    &&& 0 <= i < n
    &&& forall|j: int| 0 <= j < n ==> f(i) <= #[trigger] f(j)
    &&& forall|j: int| 0 <= j < i ==> f(i) < #[trigger] f(j)
}

/// Levels of the xterm 6×6×6 color cube.
pub open spec fn cube_level(i: int) -> u8 {
    if i == 0 { 0 }
    else if i == 1 { 95 }
    else if i == 2 { 135 }
    else if i == 3 { 175 }
    else if i == 4 { 215 }
    else { 255 }
}

/// Distance of `v` to cube level `i`.
pub open spec fn level_gap(v: u8) -> spec_fn(int) -> int {
    |i: int| {
        let d = v - cube_level(i);
        if d < 0 { -d } else { d }
    }
}

/// Distance of `(r, g, b)` to ANSI color `i`.
pub open spec fn ansi16_gap(r: u8, g: u8, b: u8) -> spec_fn(int) -> int {
    |i: int| dist2_of((r, g, b), ansi16_rgb(i))
}

/// Step of the grayscale ramp nearest to the mean of the channels.
pub open spec fn gray_step(r: u8, g: u8, b: u8) -> int {
    let gray = (r + g + b) / 3;
    let c = if gray - 8 < 0 { 0 } else if gray - 8 > 230 { 230 } else { gray - 8 };
    let s = (c + 5) / 10;
    if s > 23 { 23 } else { s }
}

/// The palette index `nearest_indexed` picks, given the cube levels it
/// found for each channel: the gray ramp entry when strictly nearer than
/// the cube color, the cube entry otherwise.
pub open spec fn indexed_choice(r: u8, g: u8, b: u8, qr: int, qg: int, qb: int) -> u8 {
    let s = gray_step(r, g, b);
    let v = (8 + 10 * s) as u8;
    let cube = (cube_level(qr), cube_level(qg), cube_level(qb));
    if dist2_of((r, g, b), (v, v, v)) < dist2_of((r, g, b), cube) {
        (232 + s) as u8
    } else {
        (16 + 36 * qr + 6 * qg + qb) as u8
    }
}

/// RGB value of an xterm-256 palette index.
pub open spec fn indexed_rgb(i: u8) -> (u8, u8, u8) {
    if i < 16 {
        ansi16_rgb(i as int)
    } else if i < 232 {
        let c = i - 16;
        (cube_level(c / 36), cube_level(c / 6 % 6), cube_level(c % 6))
    } else {
        let v = (8 + 10 * (i - 232)) as u8;
        (v, v, v)
    }
}

/// The nearest ANSI color to `(r, g, b)`: the first of the palette at the
/// smallest distance.
pub open spec fn nearest16(r: u8, g: u8, b: u8) -> Color {
    ansi16_color(choose|i: int| first_min(ansi16_gap(r, g, b), 16, i))
}

/// The nearest cube level of each channel.
pub open spec fn nearest_level(v: u8) -> int {
    choose|i: int| first_min(level_gap(v), 6, i)
}

/// What `adapt_color` makes of `color` on a terminal of tier `support`.
pub open spec fn adapted(support: ColorSupport, color: Color) -> Color {
    match (support, color) {
        (ColorSupport::Ansi256, Color::Rgb(r, g, b)) => Color::Indexed(
            indexed_choice(r, g, b, nearest_level(r), nearest_level(g), nearest_level(b)),
        ),
        (ColorSupport::Ansi16, Color::Rgb(r, g, b)) => nearest16(r, g, b),
        (ColorSupport::Ansi16, Color::Indexed(i)) => {
            let rgb = indexed_rgb(i);
            nearest16(rgb.0, rgb.1, rgb.2)
        },
        _ => color,
    }
}

proof fn lemma_first_min_unique(f: spec_fn(int) -> int, n: int, i: int, j: int)
    requires
        first_min(f, n, i),
        first_min(f, n, j),
    ensures
        i == j,
{
    assert(f(i) <= f(j) && f(j) <= f(i));
}

/// Squared distance of two RGB colors.
pub fn dist2(a: (u8, u8, u8), b: (u8, u8, u8)) -> (d: u32)
    ensures
        d == dist2_of(a, b),
{
    let dr: i32 = a.0 as i32 - b.0 as i32;
    let dg: i32 = a.1 as i32 - b.1 as i32;
    let db: i32 = a.2 as i32 - b.2 as i32;
    assert(0 <= dr * dr <= 65025) by (nonlinear_arith)
        requires
            -255 <= dr <= 255,
    ;
    assert(0 <= dg * dg <= 65025) by (nonlinear_arith)
        requires
            -255 <= dg <= 255,
    ;
    assert(0 <= db * db <= 65025) by (nonlinear_arith)
        requires
            -255 <= db <= 255,
    ;
    (dr * dr + dg * dg + db * db) as u32
}

fn ansi16_entry(i: usize) -> (e: (Color, (u8, u8, u8)))
    requires
        i < 16,
    ensures
        e == (ansi16_color(i as int), ansi16_rgb(i as int)),
{
    match i {
        0 => (Color::Black, (0, 0, 0)),
        1 => (Color::Red, (170, 0, 0)),
        2 => (Color::Green, (0, 170, 0)),
        3 => (Color::Yellow, (170, 85, 0)),
        4 => (Color::Blue, (0, 0, 170)),
        5 => (Color::Magenta, (170, 0, 170)),
        6 => (Color::Cyan, (0, 170, 170)),
        7 => (Color::Gray, (170, 170, 170)),
        8 => (Color::DarkGray, (85, 85, 85)),
        9 => (Color::LightRed, (255, 85, 85)),
        10 => (Color::LightGreen, (85, 255, 85)),
        11 => (Color::LightYellow, (255, 255, 85)),
        12 => (Color::LightBlue, (85, 85, 255)),
        13 => (Color::LightMagenta, (255, 85, 255)),
        14 => (Color::LightCyan, (85, 255, 255)),
        _ => (Color::White, (255, 255, 255)),
    }
}

/// The nearest of the 16 ANSI colors (the first of the palette at the
/// smallest distance).
pub fn nearest_ansi16(r: u8, g: u8, b: u8) -> (c: Color)
    ensures
        c == nearest16(r, g, b),
{
    let ghost f = ansi16_gap(r, g, b);
    let mut best: usize = 0;
    let mut best_d = dist2((r, g, b), ansi16_entry(0).1);
    let mut i: usize = 1;
    while i < 16
        invariant
            f == ansi16_gap(r, g, b),
            1 <= i <= 16,
            best < i,
            best_d == f(best as int),
            forall|j: int| 0 <= j < i ==> f(best as int) <= #[trigger] f(j),
            forall|j: int| 0 <= j < best ==> f(best as int) < #[trigger] f(j),
        decreases 16 - i,
    {
        let d = dist2((r, g, b), ansi16_entry(i).1);
        if d < best_d {
            best = i;
            best_d = d;
        }
        i += 1;
    }
    proof {
        let k = choose|k: int| first_min(f, 16, k);
        assert(first_min(f, 16, best as int));
        lemma_first_min_unique(f, 16, k, best as int);
    }
    ansi16_entry(best).0
}

fn cube_level_at(i: usize) -> (l: u8)
    requires
        i < 6,
    ensures
        l == cube_level(i as int),
{
    match i {
        0 => 0,
        1 => 95,
        2 => 135,
        3 => 175,
        4 => 215,
        _ => 255,
    }
}

/// Index of the cube level nearest to `v` (the first at the smallest
/// distance).
pub fn nearest_cube_level(v: u8) -> (i: usize)
    ensures
        i == nearest_level(v),
        i < 6,
{
    let ghost f = level_gap(v);
    let gap0: i32 = v as i32 - cube_level_at(0) as i32;
    let mut best: usize = 0;
    let mut best_d: i32 = if gap0 < 0 { -gap0 } else { gap0 };
    let mut i: usize = 1;
    while i < 6
        invariant
            f == level_gap(v),
            1 <= i <= 6,
            best < i,
            best_d == f(best as int),
            forall|j: int| 0 <= j < i ==> f(best as int) <= #[trigger] f(j),
            forall|j: int| 0 <= j < best ==> f(best as int) < #[trigger] f(j),
        decreases 6 - i,
    {
        let gap: i32 = v as i32 - cube_level_at(i) as i32;
        let d: i32 = if gap < 0 { -gap } else { gap };
        if d < best_d {
            best = i;
            best_d = d;
        }
        i += 1;
    }
    proof {
        let k = choose|k: int| first_min(f, 6, k);
        assert(first_min(f, 6, best as int));
        lemma_first_min_unique(f, 6, k, best as int);
    }
    best
}

/// The xterm-256 index nearest to `(r, g, b)`: the best of the 6×6×6 cube
/// and the grayscale ramp (see [`indexed_choice`]).
pub fn nearest_indexed(r: u8, g: u8, b: u8) -> (i: u8)
    ensures
        i == indexed_choice(r, g, b, nearest_level(r), nearest_level(g), nearest_level(b)),
{
    let qr = nearest_cube_level(r);
    let qg = nearest_cube_level(g);
    let qb = nearest_cube_level(b);
    let cube_idx = (16 + 36 * qr + 6 * qg + qb) as u8;
    let cube_rgb = (cube_level_at(qr), cube_level_at(qg), cube_level_at(qb));
    let gray: u32 = (r as u32 + g as u32 + b as u32) / 3;
    let shifted: i32 = gray as i32 - 8;
    let clamped: i32 = if shifted < 0 { 0 } else if shifted > 230 { 230 } else { shifted };
    let step0: i32 = (clamped + 5) / 10;
    let step: i32 = if step0 > 23 { 23 } else { step0 };
    let gray_idx = (232 + step) as u8;
    let gray_v = (8 + 10 * step) as u8;
    if dist2((r, g, b), (gray_v, gray_v, gray_v)) < dist2((r, g, b), cube_rgb) {
        gray_idx
    } else {
        cube_idx
    }
}

/// RGB value of an xterm-256 palette index.
pub fn indexed_to_rgb(i: u8) -> (rgb: (u8, u8, u8))
    ensures
        rgb == indexed_rgb(i),
{
    if i < 16 {
        ansi16_entry(i as usize).1
    } else if i < 232 {
        let c = (i - 16) as usize;
        (cube_level_at(c / 36), cube_level_at(c / 6 % 6), cube_level_at(c % 6))
    } else {
        let v = 8 + 10 * (i - 232);
        (v, v, v)
    }
}

/// The conventional VGA value of each named console color, keyed by the
/// color's name; `None` for colors outside the 16-color palette.
pub open spec fn vga_value(c: Color) -> Option<(u8, u8, u8)> {
    match c {
        Color::Black => Some((0u8, 0u8, 0u8)),
        Color::Red => Some((170u8, 0u8, 0u8)),
        Color::Green => Some((0u8, 170u8, 0u8)),
        Color::Yellow => Some((170u8, 85u8, 0u8)),
        Color::Blue => Some((0u8, 0u8, 170u8)),
        Color::Magenta => Some((170u8, 0u8, 170u8)),
        Color::Cyan => Some((0u8, 170u8, 170u8)),
        Color::Gray => Some((170u8, 170u8, 170u8)),
        Color::DarkGray => Some((85u8, 85u8, 85u8)),
        Color::LightRed => Some((255u8, 85u8, 85u8)),
        Color::LightGreen => Some((85u8, 255u8, 85u8)),
        Color::LightYellow => Some((255u8, 255u8, 85u8)),
        Color::LightBlue => Some((85u8, 85u8, 255u8)),
        Color::LightMagenta => Some((255u8, 85u8, 255u8)),
        Color::LightCyan => Some((85u8, 255u8, 255u8)),
        Color::White => Some((255u8, 255u8, 255u8)),
        _ => None,
    }
}

/// Each entry of the 16-color table pairs a color with that color's own
/// VGA value.
pub proof fn lemma_palette_by_name()
    ensures
        forall|i: int| 0 <= i < 16 ==> vga_value(#[trigger] ansi16_color(i)) == Some(ansi16_rgb(i)),
{
}

/// A squared distance is never negative, and zero only between equal
/// colors.
proof fn lemma_dist2_zero(a: (u8, u8, u8), b: (u8, u8, u8))
    ensures
        dist2_of(a, b) >= 0,
        dist2_of(a, b) == 0 <==> a == b,
{
    let dr = a.0 - b.0;
    let dg = a.1 - b.1;
    let db = a.2 - b.2;
    assert(dr * dr >= 0 && (dr != 0 ==> dr * dr > 0)) by (nonlinear_arith);
    assert(dg * dg >= 0 && (dg != 0 ==> dg * dg > 0)) by (nonlinear_arith);
    assert(db * db >= 0 && (db != 0 ==> db * db > 0)) by (nonlinear_arith);
}

/// Some index of `0..n` is the first at which `f` is smallest.
proof fn lemma_first_min_exists(f: spec_fn(int) -> int, n: int)
    requires
        n >= 1,
    ensures
        exists|i: int| #[trigger] first_min(f, n, i),
    decreases n,
{
    if n == 1 {
        assert(first_min(f, 1, 0));
    } else {
        lemma_first_min_exists(f, n - 1);
        let i = choose|i: int| #[trigger] first_min(f, n - 1, i);
        if f(n - 1) < f(i) {
            assert(first_min(f, n, n - 1));
        } else {
            assert(first_min(f, n, i));
        }
    }
}

/// The palette index of a named console color.
proof fn lemma_named_index(c: Color) -> (i: int)
    requires
        vga_value(c) is Some,
    ensures
        0 <= i < 16,
        ansi16_color(i) == c,
{
    match c {
        Color::Black => 0,
        Color::Red => 1,
        Color::Green => 2,
        Color::Yellow => 3,
        Color::Blue => 4,
        Color::Magenta => 5,
        Color::Cyan => 6,
        Color::Gray => 7,
        Color::DarkGray => 8,
        Color::LightRed => 9,
        Color::LightGreen => 10,
        Color::LightYellow => 11,
        Color::LightBlue => 12,
        Color::LightMagenta => 13,
        Color::LightCyan => 14,
        _ => 15,
    }
}

/// The nearest ANSI color is a named console color whose VGA value is at
/// least as near as that of every other named console color; a VGA value
/// itself gets its own color back.
pub proof fn lemma_nearest_by_vga(r: u8, g: u8, b: u8)
    ensures
        vga_value(nearest16(r, g, b)) is Some,
        forall|c: Color|
            #[trigger] vga_value(c) is Some ==> dist2_of((r, g, b), vga_value(nearest16(r, g, b))->0) <= dist2_of(
                (r, g, b),
                vga_value(c)->0,
            ),
        forall|c: Color| #[trigger] vga_value(c) == Some((r, g, b)) ==> nearest16(r, g, b) == c,
{
    let f = ansi16_gap(r, g, b);
    lemma_first_min_exists(f, 16);
    let i = choose|i: int| #[trigger] first_min(f, 16, i);
    lemma_palette_by_name();
    assert(vga_value(ansi16_color(i)) == Some(ansi16_rgb(i)));
    assert forall|c: Color| #[trigger] vga_value(c) is Some implies dist2_of((r, g, b), vga_value(nearest16(r, g, b))->0)
        <= dist2_of((r, g, b), vga_value(c)->0) by {
        let j = lemma_named_index(c);
        assert(vga_value(ansi16_color(j)) == Some(ansi16_rgb(j)));
        assert(f(i) <= f(j));
    }
    assert forall|c: Color| #[trigger] vga_value(c) == Some((r, g, b)) implies nearest16(r, g, b) == c by {
        let j = lemma_named_index(c);
        assert(vga_value(ansi16_color(j)) == Some(ansi16_rgb(j)));
        lemma_dist2_zero((r, g, b), ansi16_rgb(j));
        lemma_dist2_zero((r, g, b), ansi16_rgb(i));
        assert(f(j) == 0);
        assert(f(i) <= f(j));
        assert(f(i) == 0);
        assert(ansi16_rgb(i) == ansi16_rgb(j));
        assert(vga_value(ansi16_color(i)) == vga_value(c));
        // Distinct named colors have distinct VGA values.
        assert(ansi16_color(i) == c);
    }
}

} // verus!
