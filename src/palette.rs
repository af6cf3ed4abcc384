//! The six teletext colours and the 2x2 mosaic glyph table.
use vstd::prelude::*;

verus! {

/// One of the fixed teletext colours.
#[derive(Clone, Copy, Debug, PartialEq, Eq, Structural)]
pub enum Color {
    Blue,
    Green,
    Cyan,
    Yellow,
    White,
    Black,
}

pub const CEEFAX_BLUE: Color = Color::Blue;
pub const CEEFAX_GREEN: Color = Color::Green;
pub const CEEFAX_CYAN: Color = Color::Cyan;
pub const CEEFAX_YELLOW: Color = Color::Yellow;
pub const CEEFAX_WHITE: Color = Color::White;
pub const CEEFAX_BLACK: Color = Color::Black;

/// Red, green and blue components of each colour.
pub open spec fn rgb_of(c: Color) -> (u8, u8, u8) {
    match c {
        Color::Blue => (0, 0, 170),
        Color::Green => (0, 204, 0),
        Color::Cyan => (0, 204, 204),
        Color::Yellow => (204, 204, 0),
        Color::White => (255, 255, 255),
        Color::Black => (0, 0, 0),
    }
}

impl Color {
    /// The colour as red, green and blue components.
    pub fn rgb(self) -> (r: (u8, u8, u8))
        ensures
            r == rgb_of(self),
    {
        match self {
            Color::Blue => (0, 0, 170),
            Color::Green => (0, 204, 0),
            Color::Cyan => (0, 204, 204),
            Color::Yellow => (204, 204, 0),
            Color::White => (255, 255, 255),
            Color::Black => (0, 0, 0),
        }
    }
}

/// The mosaic glyphs, indexed by a 4-bit mask: 1 = top left, 2 = top right,
/// 4 = bottom left, 8 = bottom right.
pub open spec fn glyph_table() -> Seq<char> {
    seq![
        ' ', '▘', '▝', '▀', '▖', '▌', '▞', '▛', '▗', '▚', '▐', '▜', '▄', '▙', '▟', '█',
    ]
}

/// The mosaic glyph whose lit quadrants are the set bits of `mask`.
pub fn teletext_char(mask: u8) -> (c: char)
    requires
        mask < 16,
    ensures
        c == glyph_table()[mask as int],
{
    let table: [char; 16] = [
        ' ', '▘', '▝', '▀', '▖', '▌', '▞', '▛', '▗', '▚', '▐', '▜', '▄', '▙', '▟', '█',
    ];
    proof {
        assert(table@ == glyph_table());
    }
    table[mask as usize]
}

/// The colour band of a whole Celsius temperature.
pub open spec fn temp_color_spec(t: int) -> Color {
    if t < 10 {
        Color::Green
    } else if t < 15 {
        Color::Cyan
    } else {
        Color::Yellow
    }
}

/// Tints a temperature: green below 10, cyan from 10 up to 15, yellow from 15 on.
pub fn get_temp_color(temp: i32) -> (c: Color)
    ensures
        c == temp_color_spec(temp as int),
{
    if temp < 10 {
        Color::Green
    } else if temp < 15 {
        Color::Cyan
    } else {
        Color::Yellow
    }
}

/// Position of a temperature colour in the order of the bands: green, cyan,
/// yellow.
pub open spec fn band_rank(c: Color) -> int {
    match c {
        Color::Green => 0,
        Color::Cyan => 1,
        Color::Yellow => 2,
        _ => 3,
    }
}

/// The temperature colours rise with the temperature: a warmer temperature
/// never has a cooler band, and each band is exactly its range.
pub proof fn lemma_temp_color_bands(t1: int, t2: int)
    requires
        t1 <= t2,
    ensures
        band_rank(temp_color_spec(t1)) <= band_rank(temp_color_spec(t2)),
        temp_color_spec(t1) == Color::Green <==> t1 < 10,
        temp_color_spec(t1) == Color::Cyan <==> 10 <= t1 < 15,
        temp_color_spec(t1) == Color::Yellow <==> t1 >= 15,
{
}

} // verus!
