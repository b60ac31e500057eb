//! Paint definitions: solid colors, linear gradients and image
//! references, together with the raw gradient-stop record the host
//! hands across the boundary.
//!
//! A shape owns an ordered list of fills; the order is paint order,
//! later entries composite over earlier ones.  Gradient stops are never
//! addressed by index: they are always appended to the most recently
//! added fill, which must be a linear gradient.

use vstd::prelude::*;

use crate::ident::Identifier;
use crate::math::Scalar;

verus! {

/// A color, packed as `0xAARRGGBB`.  Equality is structural.
#[derive(Clone, Copy, Debug, PartialEq, Eq, Structural)]
pub struct Color {
    pub argb: u32,
}

/// The packed `0xAARRGGBB` word for four channel bytes.
pub open spec fn argb_word(a: u8, r: u8, g: u8, b: u8) -> u32 {
    ((a as u32) * 0x100_0000 + (r as u32) * 0x1_0000 + (g as u32) * 0x100 + (b as u32)) as u32
}

impl Color {
    /// A color from an already packed `0xAARRGGBB` word.
    pub fn new(argb: u32) -> (c: Color)
        ensures
            c.argb == argb,
    {
        Color { argb }
    }

    /// A color from its four channel bytes.
    pub fn from_argb(a: u8, r: u8, g: u8, b: u8) -> (c: Color)
        ensures
            c.argb == argb_word(a, r, g, b),
    {
        let argb: u32 = (a as u32) * 0x100_0000 + (r as u32) * 0x1_0000 + (g as u32) * 0x100 + (b as u32);
        Color { argb }
    }
}

/// One gradient stop: a color at an offset.  The offset is kept as the
/// host supplies it, an integer number of hundredths in `0 ..= 100`;
/// it denotes the fraction `offset / 100` of the gradient axis.
#[derive(Clone, Copy, Debug, PartialEq, Eq, Structural)]
pub struct GradientStop {
    pub color: Color,
    pub offset: u8,
}

/// A linear gradient: an axis from a start to an end point, an overall
/// opacity, and an ordered list of stops.
#[derive(Debug, PartialEq)]
pub struct LinearGradient {
    pub start_x: Scalar,
    pub start_y: Scalar,
    pub end_x: Scalar,
    pub end_y: Scalar,
    pub opacity: Scalar,
    pub stops: Vec<GradientStop>,
}

impl LinearGradient {
    /// A gradient along the given axis with no stops yet.
    pub fn new(start: (Scalar, Scalar), end: (Scalar, Scalar), opacity: Scalar) -> (g: Self)
        ensures
            g.start_x == start.0,
            g.start_y == start.1,
            g.end_x == end.0,
            g.end_y == end.1,
            g.opacity == opacity,
            g.stops@ == Seq::<GradientStop>::empty(),
    {
        LinearGradient {
            start_x: start.0,
            start_y: start.1,
            end_x: end.0,
            end_y: end.1,
            opacity,
            stops: Vec::new(),
        }
    }

    /// Appends one stop; stops stay in call order.  The offset is
    /// stored as supplied, in hundredths.
    pub fn add_stop(&mut self, color: Color, offset: u8)
        ensures
            *final(self) == (LinearGradient { stops: final(self).stops, ..*old(self) }),
            final(self).stops@ == old(self).stops@.push(GradientStop { color, offset }),
    {
        self.stops.push(GradientStop { color, offset });
    }
}

/// A reference to a cached image, painted with an alpha byte into a
/// width-by-height box.
#[derive(Clone, Copy, Debug, PartialEq, Eq, Structural)]
pub struct ImageFill {
    pub id: Identifier,
    pub alpha: u8,
    pub height: Scalar,
    pub width: Scalar,
}

/// One paint definition.
#[derive(Debug, PartialEq)]
pub enum Fill {
    Solid(Color),
    LinearGradient(LinearGradient),
    Image(ImageFill),
}

impl Fill {
    /// A linear gradient fill along the given axis with no stops yet.
    pub fn new_linear_gradient(
        start: (Scalar, Scalar),
        end: (Scalar, Scalar),
        opacity: Scalar,
    ) -> (f: Fill)
        ensures
            f matches Fill::LinearGradient(g) && {
                &&& g.start_x == start.0
                &&& g.start_y == start.1
                &&& g.end_x == end.0
                &&& g.end_y == end.1
                &&& g.opacity == opacity
                &&& g.stops@ == Seq::<GradientStop>::empty()
            },
    {
        Fill::LinearGradient(LinearGradient::new(start, end, opacity))
    }

    /// An image fill referring to the cached image named by `id`.
    pub fn new_image_fill(id: Identifier, alpha: u8, height: Scalar, width: Scalar) -> (f: Fill)
        ensures
            f == Fill::Image(ImageFill { id, alpha, height, width }),
    {
        Fill::Image(ImageFill { id, alpha, height, width })
    }
}

/// Why a gradient stop could not be appended.
#[derive(Clone, Copy, Debug, PartialEq, Eq, Structural)]
pub enum FillError {
    /// The shape has no fills at all.
    NoFills,
    /// The shape's last fill is not a linear gradient.
    NotAGradient,
}

/// One gradient-stop record as the host writes it into a boundary
/// buffer: four color channel bytes in red, green, blue, alpha order
/// and an offset in hundredths.
#[derive(Clone, Copy, Debug, PartialEq, Eq, Structural)]
pub struct RawStopData {
    pub r: u8,
    pub g: u8,
    pub b: u8,
    pub a: u8,
    pub offset: u8,
}

/// The gradient stop a raw boundary record denotes.
pub open spec fn stop_of_raw(s: RawStopData) -> GradientStop {
    GradientStop { color: Color { argb: argb_word(s.a, s.r, s.g, s.b) }, offset: s.offset }
}

} // verus!
