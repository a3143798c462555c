//! Board labels and their colors.

use vstd::prelude::*;

use crate::model::ids::{new_id, ShortId};

verus! {

/// A named, colored tag defined on a board and attached to cards by id.
#[derive(Debug, Clone)]
pub struct Label {
    pub id: ShortId,
    pub name: String,
    pub color: LabelColor,
}

/// The palette of label (and board accent) colors.
#[derive(Debug, Clone, Copy, PartialEq, Eq, Structural)]
pub enum LabelColor {
    Red,
    Orange,
    Yellow,
    Green,
    Blue,
    Purple,
    Pink,
    Cyan,
    Custom { r: u8, g: u8, b: u8 },
}

impl Default for LabelColor {
    fn default() -> (c: Self)
        ensures
            c == LabelColor::Cyan,
    {
        LabelColor::Cyan
    }
}

impl Label {
    /// A label with a fresh random id.
    pub fn new(name: String, color: LabelColor) -> (l: Self)
        ensures
            l.name == name,
            l.color == color,
            l.id@.len() == 8,
    {
        Label { id: new_id(), name, color }
    }

    /// A field-by-field copy.
    pub fn duplicate(&self) -> (l: Self)
        ensures
            l == *self,
    {
        Label { id: self.id.clone(), name: self.name.clone(), color: self.color }
    }
}

/// The RGB triple shown for a color: fixed pastels for the named colors.
pub open spec fn rgb_of(c: LabelColor) -> (u8, u8, u8) {
    match c {
        LabelColor::Red => (255, 179, 186),
        LabelColor::Orange => (255, 209, 170),
        LabelColor::Yellow => (255, 250, 170),
        LabelColor::Green => (186, 255, 186),
        LabelColor::Blue => (170, 200, 255),
        LabelColor::Purple => (215, 180, 255),
        LabelColor::Pink => (255, 200, 220),
        LabelColor::Cyan => (170, 240, 240),
        LabelColor::Custom { r, g, b } => (r, g, b),
    }
}

/// The named-color cycle: red, orange, yellow, green, blue, purple, pink,
/// cyan, and back to red.
pub open spec fn next_named(c: LabelColor) -> Option<LabelColor> {
    match c {
        LabelColor::Red => Some(LabelColor::Orange),
        LabelColor::Orange => Some(LabelColor::Yellow),
        LabelColor::Yellow => Some(LabelColor::Green),
        LabelColor::Green => Some(LabelColor::Blue),
        LabelColor::Blue => Some(LabelColor::Purple),
        LabelColor::Purple => Some(LabelColor::Pink),
        LabelColor::Pink => Some(LabelColor::Cyan),
        LabelColor::Cyan => Some(LabelColor::Red),
        LabelColor::Custom { .. } => None,
    }
}

/// Lowercase hex digit of a nibble.
pub open spec fn hex_digit(n: u8) -> char {
    if n < 10 {
        (('0' as u8) + n) as char
    } else {
        (('a' as u8) + (n - 10)) as char
    }
}

/// Two lowercase hex digits of a byte.
pub open spec fn hex2(v: u8) -> Seq<char> {
    seq![hex_digit(v / 16), hex_digit(v % 16)]
}

/// The name used in status messages: the color's word, or `#rrggbb`.
pub open spec fn display_name_of(c: LabelColor) -> Seq<char> {
    match c {
        LabelColor::Red => "red"@,
        LabelColor::Orange => "orange"@,
        LabelColor::Yellow => "yellow"@,
        LabelColor::Green => "green"@,
        LabelColor::Blue => "blue"@,
        LabelColor::Purple => "purple"@,
        LabelColor::Pink => "pink"@,
        LabelColor::Cyan => "cyan"@,
        LabelColor::Custom { r, g, b } => seq!['#'] + hex2(r) + hex2(g) + hex2(b),
    }
}

/// The word the CLI prints for a color (`custom` for any custom color).
pub open spec fn cli_name_of(c: LabelColor) -> Seq<char> {
    match c {
        LabelColor::Custom { .. } => "custom"@,
        _ => display_name_of(c),
    }
}

fn hex_char(n: u8) -> (c: char)
    requires
        n < 16,
    ensures
        c == hex_digit(n),
{
    if n < 10 {
        (('0' as u8) + n) as char
    } else {
        (('a' as u8) + (n - 10)) as char
    }
}

fn push_hex2(s: &mut String, v: u8)
    ensures
        final(s)@ == old(s)@ + hex2(v),
{
    crate::text::push_char(s, hex_char(v / 16));
    crate::text::push_char(s, hex_char(v % 16));
    assert(final(s)@ =~= old(s)@ + hex2(v));
}

impl LabelColor {
    /// Human-readable name for status messages, e.g. "green" or "#aabbcc".
    pub fn display_name(self) -> (s: String)
        ensures
            s@ == display_name_of(self),
    {
        proof {
            reveal_strlit("red");
            reveal_strlit("orange");
            reveal_strlit("yellow");
            reveal_strlit("green");
            reveal_strlit("blue");
            reveal_strlit("purple");
            reveal_strlit("pink");
            reveal_strlit("cyan");
        }
        match self {
            LabelColor::Red => crate::text::owned("red"),
            LabelColor::Orange => crate::text::owned("orange"),
            LabelColor::Yellow => crate::text::owned("yellow"),
            LabelColor::Green => crate::text::owned("green"),
            LabelColor::Blue => crate::text::owned("blue"),
            LabelColor::Purple => crate::text::owned("purple"),
            LabelColor::Pink => crate::text::owned("pink"),
            LabelColor::Cyan => crate::text::owned("cyan"),
            LabelColor::Custom { r, g, b } => {
                let mut s = String::new();
                crate::text::push_char(&mut s, '#');
                push_hex2(&mut s, r);
                push_hex2(&mut s, g);
                push_hex2(&mut s, b);
                assert(s@ =~= seq!['#'] + hex2(r) + hex2(g) + hex2(b));
                s
            },
        }
    }

    /// The RGB triple this color is drawn with.
    pub fn to_rgb(self) -> (rgb: (u8, u8, u8))
        ensures
            rgb == rgb_of(self),
    {
        match self {
            LabelColor::Red => (255, 179, 186),
            LabelColor::Orange => (255, 209, 170),
            LabelColor::Yellow => (255, 250, 170),
            LabelColor::Green => (186, 255, 186),
            LabelColor::Blue => (170, 200, 255),
            LabelColor::Purple => (215, 180, 255),
            LabelColor::Pink => (255, 200, 220),
            LabelColor::Cyan => (170, 240, 240),
            LabelColor::Custom { r, g, b } => (r, g, b),
        }
    }

    /// The next color in the named cycle. A custom color has no named
    /// successor: its hue is rotated in floating point by the caller, so
    /// the result is `None` for it.
    pub fn next(self) -> (n: Option<LabelColor>)
        ensures
            n == next_named(self),
    {
        match self {
            LabelColor::Red => Some(LabelColor::Orange),
            LabelColor::Orange => Some(LabelColor::Yellow),
            LabelColor::Yellow => Some(LabelColor::Green),
            LabelColor::Green => Some(LabelColor::Blue),
            LabelColor::Blue => Some(LabelColor::Purple),
            LabelColor::Purple => Some(LabelColor::Pink),
            LabelColor::Pink => Some(LabelColor::Cyan),
            LabelColor::Cyan => Some(LabelColor::Red),
            LabelColor::Custom { .. } => None,
        }
    }

    /// The word the CLI prints for the color (`custom` for custom colors).
    pub fn cli_name(self) -> (s: String)
        ensures
            s@ == cli_name_of(self),
    {
        proof {
            reveal_strlit("custom");
        }
        match self {
            LabelColor::Custom { .. } => crate::text::owned("custom"),
            _ => self.display_name(),
        }
    }
}

/// Cycling through the named colors eight times returns to the start, and
/// no named color is its own successor.
pub proof fn lemma_named_cycle(c: LabelColor)
    requires
        !(c is Custom),
    ensures
        next_named(c) is Some,
        next_named(c)->0 != c,
        !(next_named(c)->0 is Custom),
        ({
            let step = |x: LabelColor| next_named(x)->0;
            step(step(step(step(step(step(step(step(c)))))))) == c
        }),
{
}

} // verus!
