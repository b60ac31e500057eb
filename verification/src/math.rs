//! Scalars, rectangles and affine transforms.
//!
//! The host transports every real-valued quantity as a 32-bit IEEE-754
//! value.  The engine never does arithmetic on those quantities: it
//! stores them and hands them back to the drawing backend.  They are
//! therefore carried verbatim as their 32-bit bit patterns, for which
//! equality is structural.

use vstd::prelude::*;

verus! {

/// A host-supplied 32-bit scalar, carried as its IEEE-754 bit pattern.
pub type Scalar = u32;

/// Bit pattern of the scalar zero.
pub const SCALAR_ZERO: Scalar = 0;

/// Bit pattern of the scalar one.
pub const SCALAR_ONE: Scalar = 0x3F80_0000;

/// An axis-aligned rectangle: the untransformed bounding box of a shape.
///
/// No ordering between the edges is enforced: the host may set
/// degenerate rectangles and the engine stores them as given.
#[derive(Clone, Copy, Debug, PartialEq, Eq, Structural)]
pub struct Rect {
    pub left: Scalar,
    pub top: Scalar,
    pub right: Scalar,
    pub bottom: Scalar,
}

impl Rect {
    /// The empty rectangle: every edge at scalar zero.
    pub fn new_empty() -> (r: Rect)
        ensures
            r == (Rect {
                left: SCALAR_ZERO,
                top: SCALAR_ZERO,
                right: SCALAR_ZERO,
                bottom: SCALAR_ZERO,
            }),
    {
        Rect { left: SCALAR_ZERO, top: SCALAR_ZERO, right: SCALAR_ZERO, bottom: SCALAR_ZERO }
    }

    /// Overwrites all four edges.
    pub fn set_ltrb(&mut self, left: Scalar, top: Scalar, right: Scalar, bottom: Scalar)
        ensures
            *final(self) == (Rect { left, top, right, bottom }),
    {
        self.left = left;
        self.top = top;
        self.right = right;
        self.bottom = bottom;
    }
}

/// A 2D affine map `[x', y'] = [[a, c, e], [b, d, f]] . [x, y, 1]`,
/// stored as its six coefficients.
///
/// The transform is the single source of truth: translation, scale and
/// skew are read-only projections of it, never stored separately.
#[derive(Clone, Copy, Debug, PartialEq, Eq, Structural)]
pub struct Matrix {
    pub a: Scalar,
    pub b: Scalar,
    pub c: Scalar,
    pub d: Scalar,
    pub e: Scalar,
    pub f: Scalar,
}

/// The identity transform `(1, 0, 0, 1, 0, 0)`, as bit patterns.
pub open spec fn identity_matrix() -> Matrix {
    Matrix {
        a: SCALAR_ONE,
        b: SCALAR_ZERO,
        c: SCALAR_ZERO,
        d: SCALAR_ONE,
        e: SCALAR_ZERO,
        f: SCALAR_ZERO,
    }
}

impl Matrix {
    /// The identity transform `(1, 0, 0, 1, 0, 0)`.
    pub fn identity() -> (r: Self)
        ensures
            r == identity_matrix(),
    {
        Self {
            a: SCALAR_ONE,
            b: SCALAR_ZERO,
            c: SCALAR_ZERO,
            d: SCALAR_ONE,
            e: SCALAR_ZERO,
            f: SCALAR_ZERO,
        }
    }
}

} // verus!
