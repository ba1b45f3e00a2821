//! Core primitive types for plotkit rendering: colors, paints, stroke and text
//! style selectors, and raster images.
//!
//! The geometric primitives (points, rectangles, paths, strokes, text styles)
//! are made of floating-point coordinates and live beside the renderers; the
//! types here are the exact, integer-valued part of the drawing vocabulary.

use vstd::prelude::*;

verus! {

// ---------------------------------------------------------------------------
// Color
// ---------------------------------------------------------------------------

/// An RGBA color with 8 bits per channel.
#[derive(Debug, Clone, Copy, PartialEq, Eq, Structural, Hash)]
pub struct Color {
    /// Red channel (0–255).
    pub r: u8,
    /// Green channel (0–255).
    pub g: u8,
    /// Blue channel (0–255).
    pub b: u8,
    /// Alpha channel (0 = fully transparent, 255 = fully opaque).
    pub a: u8,
}

/// The fully opaque color with the given red, green and blue channels.
pub open spec fn opaque(r: u8, g: u8, b: u8) -> Color {
    Color { r, g, b, a: 255 }
}

/// The Tableau-10 categorical palette, in canonical order.
pub open spec fn tableau_10() -> Seq<Color> {
    seq![
        opaque(0x4E, 0x79, 0xA7),
        opaque(0xF2, 0x8E, 0x2B),
        opaque(0x59, 0xA1, 0x4F),
        opaque(0xE1, 0x57, 0x59),
        opaque(0xB0, 0x7A, 0xA1),
        opaque(0x9C, 0x75, 0x5F),
        opaque(0xFF, 0x9D, 0xA7),
        opaque(0xBA, 0xB0, 0xAC),
        opaque(0xED, 0xC9, 0x48),
        opaque(0x76, 0xB7, 0xB2),
    ]
}

/// The value of a hexadecimal digit (`0-9`, `a-f`, `A-F`), if `c` is one.
pub open spec fn hex_digit_value(c: char) -> Option<u8> {
    if '0' <= c <= '9' {
        Some((c as u32 - '0' as u32) as u8)
    } else if 'a' <= c <= 'f' {
        Some((c as u32 - 'a' as u32 + 10) as u8)
    } else if 'A' <= c <= 'F' {
        Some((c as u32 - 'A' as u32 + 10) as u8)
    } else {
        None
    }
}

/// The byte that two hex digits denote, high digit first; `None` unless
/// both are hex digits.
pub open spec fn hex_byte(hi: char, lo: char) -> Option<u8> {
    match (hex_digit_value(hi), hex_digit_value(lo)) {
        (Some(h), Some(l)) => Some((h * 16 + l) as u8),
        _ => None,
    }
}

/// `s` without one leading `#`, if it has one.
pub open spec fn strip_hash(s: Seq<char>) -> Seq<char> {
    if s.len() > 0 && s[0] == '#' {
        s.skip(1)
    } else {
        s
    }
}

/// The color that a hex color string denotes: an optional `#` followed by
/// exactly six hex digits, two per channel (red, green, blue); `None` for
/// anything else.
pub open spec fn color_from_hex(s: Seq<char>) -> Option<Color> {
    let h = strip_hash(s);
    if !vstd::utf8::is_ascii_chars(h) || h.len() != 6 {
        None
    } else {
        match (hex_byte(h[0], h[1]), hex_byte(h[2], h[3]), hex_byte(h[4], h[5])) {
            (Some(r), Some(g), Some(b)) => Some(opaque(r, g, b)),
            _ => None,
        }
    }
}

/// The upper-case hex digit character of `d` (below 16).
pub open spec fn upper_hex_char(d: u8) -> char {
    if d < 10 {
        (48 + d) as char
    } else {
        (55 + d) as char
    }
}

/// The lower-case hex digit character of `d` (below 16).
pub open spec fn lower_hex_char(d: u8) -> char {
    if d < 10 {
        (48 + d) as char
    } else {
        (87 + d) as char
    }
}

/// Every value below 16 has an upper- and a lower-case hex digit character
/// (`0`-`9`, then `A`-`F` or `a`-`f`), and each reads back as that value.
pub proof fn lemma_hex_digits(d: u8)
    requires
        d < 16,
    ensures
        hex_digit_value(upper_hex_char(d)) == Some(d),
        hex_digit_value(lower_hex_char(d)) == Some(d),
{
}

/// A byte written as two hex digits reads back as that byte.
pub proof fn lemma_hex_byte_round_trip(v: u8, upper: bool)
    ensures
        ({
            let hi = if upper { upper_hex_char(v / 16) } else { lower_hex_char(v / 16) };
            let lo = if upper { upper_hex_char(v % 16) } else { lower_hex_char(v % 16) };
            hex_byte(hi, lo) == Some(v)
        }),
{
    lemma_hex_digits(v / 16);
    lemma_hex_digits(v % 16);
    assert(((v / 16) * 16 + v % 16) as u8 == v);
}

/// `#` followed by the two-digit hex of `r`, `g` and `b` (upper or lower
/// case) parses back to the opaque color `(r, g, b)`.
pub proof fn lemma_color_hex_round_trip(r: u8, g: u8, b: u8, upper: bool)
    ensures
        ({
            let dig = |d: u8| if upper { upper_hex_char(d) } else { lower_hex_char(d) };
            color_from_hex(
                seq!['#', dig(r / 16), dig(r % 16), dig(g / 16), dig(g % 16), dig(b / 16), dig(b % 16)],
            ) == Some(opaque(r, g, b))
        }),
{
    lemma_hex_byte_round_trip(r, upper);
    lemma_hex_byte_round_trip(g, upper);
    lemma_hex_byte_round_trip(b, upper);
    let dig = |d: u8| if upper { upper_hex_char(d) } else { lower_hex_char(d) };
    let s = seq!['#', dig(r / 16), dig(r % 16), dig(g / 16), dig(g % 16), dig(b / 16), dig(b % 16)];
    let h = strip_hash(s);
    assert(h =~= s.skip(1));
    assert(h =~= seq![dig(r / 16), dig(r % 16), dig(g / 16), dig(g % 16), dig(b / 16), dig(b % 16)]);
    assert forall|i: int| 0 <= i < h.len() implies (h[i] as u32) < 128 by {
        lemma_hex_digits(if i < 2 { r } else if i < 4 { g } else { b } / 16);
    }
    assert(vstd::utf8::is_ascii_chars(h));
}

/// Returns the value of the hex digit `c`, if it is one.
fn hex_digit(c: char) -> (v: Option<u8>)
    ensures
        v == hex_digit_value(c),
{
    if '0' <= c && c <= '9' {
        Some((c as u32 - '0' as u32) as u8)
    } else if 'a' <= c && c <= 'f' {
        Some((c as u32 - 'a' as u32 + 10) as u8)
    } else if 'A' <= c && c <= 'F' {
        Some((c as u32 - 'A' as u32 + 10) as u8)
    } else {
        None
    }
}

/// Parses two hex digits into a byte.
fn parse_hex_byte(hi: char, lo: char) -> (v: Option<u8>)
    ensures
        v == hex_byte(hi, lo),
{
    match (hex_digit(hi), hex_digit(lo)) {
        (Some(h), Some(l)) => Some(h * 16 + l),
        _ => None,
    }
}

impl Color {
    /// Creates a new color from individual RGBA components.
    pub fn new(r: u8, g: u8, b: u8, a: u8) -> (c: Self)
        ensures
            c == (Color { r, g, b, a }),
    {
        Color { r, g, b, a }
    }

    /// Creates a fully opaque color from RGB components (alpha = 255).
    pub fn rgb(r: u8, g: u8, b: u8) -> (c: Self)
        ensures
            c == opaque(r, g, b),
    {
        Color { r, g, b, a: 255 }
    }

    /// Returns a copy of this color with the alpha channel set to `a`.
    pub fn with_alpha(self, a: u8) -> (c: Self)
        ensures
            c == (Color { a, ..self }),
    {
        Color { a, ..self }
    }

    /// Parses a hex color string such as `"#4E79A7"` or `"4E79A7"`.
    ///
    /// Returns `None` if the string is not a valid 6-digit hex color.
    pub fn from_hex(hex: &str) -> (c: Option<Self>)
        ensures
            c == color_from_hex(hex@),
    {
        let n = hex.unicode_len();
        let start: usize = if n > 0 && hex.get_char(0) == '#' { 1 } else { 0 };
        let ghost h = strip_hash(hex@);
        if n - start != 6 {
            return None;
        }
        let mut digits: Vec<char> = Vec::new();
        let mut i: usize = start;
        while i < n
            invariant
                n == hex@.len(),
                start <= i <= n,
                n - start == 6,
                h == hex@.skip(start as int),
                digits@ == h.take(i - start),
                vstd::utf8::is_ascii_chars(digits@),
            decreases n - i,
        {
            let c = hex.get_char(i);
            if c > '\u{7f}' {
                assert(h[i - start] == c);
                return None;
            }
            digits.push(c);
            proof {
                assert(h.take(i + 1 - start) =~= h.take(i - start).push(c));
            }
            i = i + 1;
        }
        assert(digits@ =~= h);
        match (
            parse_hex_byte(digits[0], digits[1]),
            parse_hex_byte(digits[2], digits[3]),
            parse_hex_byte(digits[4], digits[5]),
        ) {
            (Some(r), Some(g), Some(b)) => Some(Color::rgb(r, g, b)),
            _ => None,
        }
    }

    /// Tableau-10 blue (`#4E79A7`).
    #[allow(non_snake_case)]
    pub fn TAB_BLUE() -> (c: Color)
        ensures
            c == opaque(0x4E, 0x79, 0xA7),
    {
        Color::rgb(0x4E, 0x79, 0xA7)
    }

    /// Tableau-10 orange (`#F28E2B`).
    #[allow(non_snake_case)]
    pub fn TAB_ORANGE() -> (c: Color)
        ensures
            c == opaque(0xF2, 0x8E, 0x2B),
    {
        Color::rgb(0xF2, 0x8E, 0x2B)
    }

    /// Tableau-10 green (`#59A14F`).
    #[allow(non_snake_case)]
    pub fn TAB_GREEN() -> (c: Color)
        ensures
            c == opaque(0x59, 0xA1, 0x4F),
    {
        Color::rgb(0x59, 0xA1, 0x4F)
    }

    /// Tableau-10 red (`#E15759`).
    #[allow(non_snake_case)]
    pub fn TAB_RED() -> (c: Color)
        ensures
            c == opaque(0xE1, 0x57, 0x59),
    {
        Color::rgb(0xE1, 0x57, 0x59)
    }

    /// Tableau-10 purple (`#B07AA1`).
    #[allow(non_snake_case)]
    pub fn TAB_PURPLE() -> (c: Color)
        ensures
            c == opaque(0xB0, 0x7A, 0xA1),
    {
        Color::rgb(0xB0, 0x7A, 0xA1)
    }

    /// Tableau-10 brown (`#9C755F`).
    #[allow(non_snake_case)]
    pub fn TAB_BROWN() -> (c: Color)
        ensures
            c == opaque(0x9C, 0x75, 0x5F),
    {
        Color::rgb(0x9C, 0x75, 0x5F)
    }

    /// Tableau-10 pink (`#FF9DA7`).
    #[allow(non_snake_case)]
    pub fn TAB_PINK() -> (c: Color)
        ensures
            c == opaque(0xFF, 0x9D, 0xA7),
    {
        Color::rgb(0xFF, 0x9D, 0xA7)
    }

    /// Tableau-10 grey (`#BAB0AC`).
    #[allow(non_snake_case)]
    pub fn TAB_GREY() -> (c: Color)
        ensures
            c == opaque(0xBA, 0xB0, 0xAC),
    {
        Color::rgb(0xBA, 0xB0, 0xAC)
    }

    /// Tableau-10 olive / yellow (`#EDC948`).
    #[allow(non_snake_case)]
    pub fn TAB_OLIVE() -> (c: Color)
        ensures
            c == opaque(0xED, 0xC9, 0x48),
    {
        Color::rgb(0xED, 0xC9, 0x48)
    }

    /// Tableau-10 cyan / teal (`#76B7B2`).
    #[allow(non_snake_case)]
    pub fn TAB_CYAN() -> (c: Color)
        ensures
            c == opaque(0x76, 0xB7, 0xB2),
    {
        Color::rgb(0x76, 0xB7, 0xB2)
    }

    /// Pure white (`#FFFFFF`).
    #[allow(non_snake_case)]
    pub fn WHITE() -> (c: Color)
        ensures
            c == opaque(255, 255, 255),
    {
        Color::rgb(255, 255, 255)
    }

    /// Pure black (`#000000`).
    #[allow(non_snake_case)]
    pub fn BLACK() -> (c: Color)
        ensures
            c == opaque(0, 0, 0),
    {
        Color::rgb(0, 0, 0)
    }

    /// Fully transparent black.
    #[allow(non_snake_case)]
    pub fn TRANSPARENT() -> (c: Color)
        ensures
            c == (Color { r: 0, g: 0, b: 0, a: 0 }),
    {
        Color::new(0, 0, 0, 0)
    }

    /// The complete Tableau-10 categorical palette, in canonical order.
    #[allow(non_snake_case)]
    pub fn TABLEAU_10() -> (p: [Color; 10])
        ensures
            p@ == tableau_10(),
    {
        let p = [
            Color::TAB_BLUE(),
            Color::TAB_ORANGE(),
            Color::TAB_GREEN(),
            Color::TAB_RED(),
            Color::TAB_PURPLE(),
            Color::TAB_BROWN(),
            Color::TAB_PINK(),
            Color::TAB_GREY(),
            Color::TAB_OLIVE(),
            Color::TAB_CYAN(),
        ];
        assert(p@ =~= tableau_10());
        p
    }
}

// ---------------------------------------------------------------------------
// Paint
// ---------------------------------------------------------------------------

/// Describes how a filled region should be painted.
#[derive(Debug, Clone)]
pub struct Paint {
    /// The fill color.
    pub color: Color,
    /// Whether anti-aliasing is enabled for this fill.
    pub anti_alias: bool,
}

impl Paint {
    /// Creates a new paint with the given color and anti-aliasing enabled.
    pub fn new(color: Color) -> (p: Self)
        ensures
            p.color == color,
            p.anti_alias,
    {
        Paint { color, anti_alias: true }
    }
}

// ---------------------------------------------------------------------------
// Stroke and text selectors
// ---------------------------------------------------------------------------

/// The shape applied at the endpoints of an open sub-path.
#[derive(Debug, Clone, Copy, PartialEq, Eq, Structural)]
pub enum StrokeCap {
    /// The stroke ends exactly at the endpoint with no extension.
    Butt,
    /// The stroke is extended by a half-circle at each endpoint.
    Round,
    /// The stroke is extended by a half-square at each endpoint.
    Square,
}

/// The shape applied at the join between two path segments.
#[derive(Debug, Clone, Copy, PartialEq, Eq, Structural)]
pub enum StrokeJoin {
    /// A sharp corner is drawn (subject to the miter limit).
    Miter,
    /// A circular arc is drawn at the join.
    Round,
    /// A flat diagonal is drawn across the join.
    Bevel,
}

/// Font weight selector.
#[derive(Debug, Clone, Copy, PartialEq, Eq, Structural)]
pub enum FontWeight {
    /// Normal (regular) weight.
    Normal,
    /// Bold weight.
    Bold,
}

/// Horizontal text alignment.
#[derive(Debug, Clone, Copy, PartialEq, Eq, Structural)]
pub enum HAlign {
    /// Align the left edge of the text to the anchor point.
    Left,
    /// Center the text horizontally on the anchor point.
    Center,
    /// Align the right edge of the text to the anchor point.
    Right,
}

/// Vertical text alignment.
#[derive(Debug, Clone, Copy, PartialEq, Eq, Structural)]
pub enum VAlign {
    /// Align the top of the text bounding box to the anchor point.
    Top,
    /// Center the text vertically on the anchor point.
    Middle,
    /// Align the bottom of the text bounding box to the anchor point.
    Bottom,
    /// Align the text baseline to the anchor point.
    Baseline,
}

// ---------------------------------------------------------------------------
// Image
// ---------------------------------------------------------------------------

/// A raster image stored as raw RGBA pixel data.
#[derive(Debug, Clone)]
pub struct Image {
    /// Raw pixel data in RGBA order, row-major, with `4 * width * height`
    /// bytes.
    pub data: Vec<u8>,
    /// Width of the image in pixels.
    pub width: u32,
    /// Height of the image in pixels.
    pub height: u32,
}

impl Image {
    /// The image holds exactly four bytes per pixel.
    pub open spec fn well_formed(&self) -> bool {
        self.data@.len() == 4 * (self.width as int) * (self.height as int)
    }
}

} // verus!
