//! The six face colors of the cube, arranged as three opposite pairs.

use vstd::prelude::*;

verus! {

/// One of the six sticker colors. The colors partition into three opposite
/// pairs: white/yellow, red/orange, blue/green.
#[derive(Debug, Copy, Clone, PartialEq, Eq, Structural)]
pub enum Color {
    White,
    Yellow,
    Red,
    Orange,
    Blue,
    Green,
}

impl Color {
    /// Compact numeric code of a color: white 0, yellow 1, red 2, orange 3,
    /// blue 4, green 5.
    pub open spec fn spec_to_num(self) -> u8 {
        match self {
            Color::White => 0,
            Color::Yellow => 1,
            Color::Red => 2,
            Color::Orange => 3,
            Color::Blue => 4,
            Color::Green => 5,
        }
    }

    /// The color with numeric code `x`.
    pub open spec fn spec_from_num(x: u8) -> Color
        recommends
            x < 6,
    {
        if x == 0 {
            Color::White
        } else if x == 1 {
            Color::Yellow
        } else if x == 2 {
            Color::Red
        } else if x == 3 {
            Color::Orange
        } else if x == 4 {
            Color::Blue
        } else {
            Color::Green
        }
    }

    /// The color on the face opposite to `self`.
    pub open spec fn spec_opposite(self) -> Color {
        match self {
            Color::White => Color::Yellow,
            Color::Yellow => Color::White,
            Color::Red => Color::Orange,
            Color::Orange => Color::Red,
            Color::Blue => Color::Green,
            Color::Green => Color::Blue,
        }
    }

    pub fn to_num(&self) -> (n: u8)
        ensures
            n == self.spec_to_num(),
            n < 6,
    {
        match self {
            Color::White => 0,
            Color::Yellow => 1,
            Color::Red => 2,
            Color::Orange => 3,
            Color::Blue => 4,
            Color::Green => 5,
        }
    }

    /// The color encoded by `x`; codes 6 and above encode no color.
    pub fn from_num(x: u8) -> (c: Color)
        requires
            x < 6,
        ensures
            c == Color::spec_from_num(x),
    {
        match x {
            0 => Color::White,
            1 => Color::Yellow,
            2 => Color::Red,
            3 => Color::Orange,
            4 => Color::Blue,
            _ => Color::Green,
        }
    }

    pub fn opposite(&self) -> (c: Color)
        ensures
            c == self.spec_opposite(),
    {
        match self {
            Color::White => Color::Yellow,
            Color::Yellow => Color::White,
            Color::Red => Color::Orange,
            Color::Orange => Color::Red,
            Color::Blue => Color::Green,
            Color::Green => Color::Blue,
        }
    }
}

/// The opposite pairing is an involution with no fixed point.
pub proof fn lemma_opposite_involution(c: Color)
    ensures
        c.spec_opposite().spec_opposite() == c,
        c.spec_opposite() != c,
{
}

/// The numeric codes round-trip through `to_num` and `from_num`.
pub proof fn lemma_color_num_round_trip(c: Color, x: u8)
    requires
        x < 6,
    ensures
        Color::spec_from_num(c.spec_to_num()) == c,
        Color::spec_from_num(x).spec_to_num() == x,
{
}

} // verus!
