//! The view transform: zoom plus pan.
//!
//! Values are overwritten as given, with no clamping: a zero or
//! negative zoom is accepted and is the caller's responsibility to
//! avoid.

use vstd::prelude::*;

use crate::math::{Scalar, SCALAR_ONE, SCALAR_ZERO};

verus! {

/// The view parameters: a zoom factor and a pan offset.
#[derive(Clone, Copy, Debug, PartialEq, Eq, Structural)]
pub struct Viewbox {
    pub zoom: Scalar,
    pub pan_x: Scalar,
    pub pan_y: Scalar,
}

/// The identity view: zoom one, no pan.
pub open spec fn initial_viewbox() -> Viewbox {
    Viewbox { zoom: SCALAR_ONE, pan_x: SCALAR_ZERO, pan_y: SCALAR_ZERO }
}

impl Viewbox {
    /// The identity view: zoom one, no pan.
    pub fn new() -> (v: Viewbox)
        ensures
            v == initial_viewbox(),
    {
        Viewbox { zoom: SCALAR_ONE, pan_x: SCALAR_ZERO, pan_y: SCALAR_ZERO }
    }

    /// Overwrites the zoom factor.
    pub fn set_zoom(&mut self, zoom: Scalar)
        ensures
            *final(self) == (Viewbox { zoom, ..*old(self) }),
    {
        self.zoom = zoom;
    }

    /// Overwrites the pan offset.
    pub fn set_pan_xy(&mut self, x: Scalar, y: Scalar)
        ensures
            *final(self) == (Viewbox { pan_x: x, pan_y: y, ..*old(self) }),
    {
        self.pan_x = x;
        self.pan_y = y;
    }

    /// Overwrites all three view parameters at once.
    pub fn set_all(&mut self, zoom: Scalar, x: Scalar, y: Scalar)
        ensures
            *final(self) == (Viewbox { zoom, pan_x: x, pan_y: y }),
    {
        self.zoom = zoom;
        self.pan_x = x;
        self.pan_y = y;
    }
}

} // verus!
