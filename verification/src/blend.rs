//! Blend modes and the total mapping from host-supplied integer codes.
//!
//! The host names a blend mode by an integer code.  The mapping is
//! total: every code maps to some mode, and unrecognized codes fail
//! closed to the default, `Normal`.  No code can fault.

use vstd::prelude::*;

verus! {

/// How a shape composites over what is already painted.
#[derive(Clone, Copy, Debug, PartialEq, Eq, Structural)]
pub enum BlendMode {
    Normal,
    Darken,
    Multiply,
    ColorBurn,
    Lighten,
    Screen,
    ColorDodge,
    Overlay,
    SoftLight,
    HardLight,
    Difference,
    Exclusion,
    Hue,
    Saturation,
    Color,
    Luminosity,
}

/// The blend mode a host code denotes; `Normal` for every
/// unrecognized code.
pub open spec fn mode_of_code(code: i32) -> BlendMode {
    if code == 1 {
        BlendMode::Darken
    } else if code == 2 {
        BlendMode::Multiply
    } else if code == 3 {
        BlendMode::ColorBurn
    } else if code == 4 {
        BlendMode::Lighten
    } else if code == 5 {
        BlendMode::Screen
    } else if code == 6 {
        BlendMode::ColorDodge
    } else if code == 7 {
        BlendMode::Overlay
    } else if code == 8 {
        BlendMode::SoftLight
    } else if code == 9 {
        BlendMode::HardLight
    } else if code == 10 {
        BlendMode::Difference
    } else if code == 11 {
        BlendMode::Exclusion
    } else if code == 12 {
        BlendMode::Hue
    } else if code == 13 {
        BlendMode::Saturation
    } else if code == 14 {
        BlendMode::Color
    } else if code == 15 {
        BlendMode::Luminosity
    } else {
        BlendMode::Normal
    }
}

impl BlendMode {
    /// Maps a host code to a blend mode.  Total: defined for every
    /// `i32`, with `Normal` as the fail-closed default.
    pub fn from_code(code: i32) -> (m: BlendMode)
        ensures
            m == mode_of_code(code),
    {
        match code {
            1 => BlendMode::Darken,
            2 => BlendMode::Multiply,
            3 => BlendMode::ColorBurn,
            4 => BlendMode::Lighten,
            5 => BlendMode::Screen,
            6 => BlendMode::ColorDodge,
            7 => BlendMode::Overlay,
            8 => BlendMode::SoftLight,
            9 => BlendMode::HardLight,
            10 => BlendMode::Difference,
            11 => BlendMode::Exclusion,
            12 => BlendMode::Hue,
            13 => BlendMode::Saturation,
            14 => BlendMode::Color,
            15 => BlendMode::Luminosity,
            _ => BlendMode::Normal,
        }
    }
}

impl Default for BlendMode {
    /// The default blend mode is `Normal`.
    fn default() -> (m: Self)
        ensures
            m == BlendMode::Normal,
    {
        BlendMode::Normal
    }
}

} // verus!
