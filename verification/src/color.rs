//! Display colors for nodes and edges, and the cyclic palette used to paint
//! strongly connected components.

use vstd::prelude::*;

verus! {

/// An opaque RGB display color.
#[derive(Clone, Copy, PartialEq, Eq, Structural, Debug)]
pub struct Color {
    pub r: u8,
    pub g: u8,
    pub b: u8,
}

pub open spec fn white() -> Color {
    Color { r: 255, g: 255, b: 255 }
}

pub open spec fn black() -> Color {
    Color { r: 0, g: 0, b: 0 }
}

pub open spec fn green() -> Color {
    Color { r: 0, g: 255, b: 0 }
}

/// The gray shown while a node sits on the frontier.
pub open spec fn queued_gray() -> Color {
    Color { r: 200, g: 200, b: 200 }
}

/// The fixed cyclic palette for component painting; indices wrap modulo ten.
pub open spec fn palette_spec(k: int) -> Color {
    let i = k % 10;
    if i == 0 {
        Color { r: 255, g: 95, b: 93 }
    } else if i == 1 {
        Color { r: 0, g: 204, b: 191 }
    } else if i == 2 {
        Color { r: 114, g: 242, b: 235 }
    } else if i == 3 {
        Color { r: 116, g: 126, b: 126 }
    } else if i == 4 {
        Color { r: 63, g: 124, b: 133 }
    } else if i == 5 {
        Color { r: 239, g: 96, b: 36 }
    } else if i == 6 {
        Color { r: 240, g: 148, b: 31 }
    } else if i == 7 {
        Color { r: 144, g: 161, b: 157 }
    } else if i == 8 {
        Color { r: 25, g: 103, b: 116 }
    } else {
        Color { r: 54, g: 52, b: 50 }
    }
}

impl Color {
    pub fn white() -> (c: Color)
        ensures
            c == white(),
    {
        Color { r: 255, g: 255, b: 255 }
    }

    pub fn black() -> (c: Color)
        ensures
            c == black(),
    {
        Color { r: 0, g: 0, b: 0 }
    }

    pub fn green() -> (c: Color)
        ensures
            c == green(),
    {
        Color { r: 0, g: 255, b: 0 }
    }

    pub fn queued_gray() -> (c: Color)
        ensures
            c == queued_gray(),
    {
        Color { r: 200, g: 200, b: 200 }
    }
}

/// The palette color for the `k`-th discovered component.
pub fn palette(k: usize) -> (c: Color)
    ensures
        c == palette_spec(k as int),
{
    let i = k % 10;
    if i == 0 {
        Color { r: 255, g: 95, b: 93 }
    } else if i == 1 {
        Color { r: 0, g: 204, b: 191 }
    } else if i == 2 {
        Color { r: 114, g: 242, b: 235 }
    } else if i == 3 {
        Color { r: 116, g: 126, b: 126 }
    } else if i == 4 {
        Color { r: 63, g: 124, b: 133 }
    } else if i == 5 {
        Color { r: 239, g: 96, b: 36 }
    } else if i == 6 {
        Color { r: 240, g: 148, b: 31 }
    } else if i == 7 {
        Color { r: 144, g: 161, b: 157 }
    } else if i == 8 {
        Color { r: 25, g: 103, b: 116 }
    } else {
        Color { r: 54, g: 52, b: 50 }
    }
}

} // verus!
