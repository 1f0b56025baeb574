use vstd::prelude::*;

verus! {

/// An 8-bit-per-channel RGBA color.
#[derive(Clone, Copy, PartialEq, Eq, Debug, Structural)]
pub struct Rgba {
    pub r: u8,
    pub g: u8,
    pub b: u8,
    pub a: u8,
}

impl Rgba {
    pub open spec fn spec_new(r: u8, g: u8, b: u8, a: u8) -> Rgba {
        Rgba { r, g, b, a }
    }

    #[verifier::when_used_as_spec(spec_new)]
    pub fn new(r: u8, g: u8, b: u8, a: u8) -> (c: Rgba)
        ensures
            c == Rgba::spec_new(r, g, b, a),
    {
        Rgba { r, g, b, a }
    }
}

/// The fixed ten-entry markup palette; entries outside it are white.
/// The alpha channel is always the given one.
pub open spec fn palette_color(digit: u8, alpha: u8) -> Rgba {
    if digit == 0 {
        Rgba::spec_new(0, 0, 0, alpha)
    } else if digit == 1 {
        Rgba::spec_new(255, 0, 0, alpha)
    } else if digit == 2 {
        Rgba::spec_new(0, 255, 0, alpha)
    } else if digit == 3 {
        Rgba::spec_new(0, 0, 255, alpha)
    } else if digit == 4 {
        Rgba::spec_new(255, 255, 0, alpha)
    } else if digit == 5 || digit == 6 {
        Rgba::spec_new(127, 127, 127, alpha)
    } else if digit == 8 {
        Rgba::spec_new(191, 191, 191, alpha)
    } else if digit == 9 {
        Rgba::spec_new(76, 76, 76, alpha)
    } else {
        Rgba::spec_new(255, 255, 255, alpha)
    }
}

/// Palette entry for a markup digit: black, red, green, blue, yellow, gray,
/// gray, white, light gray, dark gray.
pub fn pob_digit_color(digit: u8, alpha: u8) -> (c: Rgba)
    ensures
        c == palette_color(digit, alpha),
{
    match digit {
        0 => Rgba::new(0, 0, 0, alpha),
        1 => Rgba::new(255, 0, 0, alpha),
        2 => Rgba::new(0, 255, 0, alpha),
        3 => Rgba::new(0, 0, 255, alpha),
        4 => Rgba::new(255, 255, 0, alpha),
        5 | 6 => Rgba::new(127, 127, 127, alpha),
        8 => Rgba::new(191, 191, 191, alpha),
        9 => Rgba::new(76, 76, 76, alpha),
        _ => Rgba::new(255, 255, 255, alpha),
    }
}

} // verus!
