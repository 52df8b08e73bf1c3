//! The enums that cross into Ink: colour spaces and formats, input tools,
//! and the stock brushes.

use vstd::prelude::*;

verus! {

/// The colour space a colour's components are expressed in.
#[derive(Debug, Clone, Copy, PartialEq, Eq, Hash, Structural)]
pub enum ColorSpace {
    Srgb,
    DisplayP3,
}

impl Default for ColorSpace {
    fn default() -> (s: Self)
        ensures
            s == ColorSpace::Srgb,
    {
        ColorSpace::Srgb
    }
}

/// How a colour's components are encoded.
#[derive(Debug, Clone, Copy, PartialEq, Eq, Hash, Structural)]
pub enum ColorFormat {
    /// Components are linear light.
    Linear,
    /// Components carry the colour space's transfer function. This is what
    /// hex colours and most colour pickers give you.
    GammaEncoded,
    /// Components are linear and already multiplied by alpha.
    PremultipliedAlpha,
}

impl Default for ColorFormat {
    fn default() -> (f: Self)
        ensures
            f == ColorFormat::GammaEncoded,
    {
        ColorFormat::GammaEncoded
    }
}

/// What produced an input event.
#[derive(Debug, Clone, Copy, PartialEq, Eq, Hash, Structural)]
pub enum ToolType {
    Unknown,
    Mouse,
    Touch,
    Stylus,
}

impl Default for ToolType {
    fn default() -> (t: Self)
        ensures
            t == ToolType::Unknown,
    {
        ToolType::Unknown
    }
}

/// One of Ink's built-in brush families.
///
/// Stock brushes are versioned so that strokes stored as input points plus
/// a brush spec still look the way they did when drawn, even after Ink is
/// upgraded. Version `0` means the latest.
#[derive(Debug, Clone, Copy, PartialEq, Eq, Hash, Structural)]
#[non_exhaustive]
pub enum StockBrush {
    /// A simple circular fixed-width brush.
    Marker,
    /// Pressure- and speed-sensitive, tuned for handwriting with a stylus.
    PressurePen,
    /// A chisel tip, meant to be used with a translucent colour.
    Highlighter,
    /// Rounded rectangles with gaps between them, for decoration or for
    /// showing a lasso selection.
    DashedLine,
}

impl StockBrush {
    /// The version number handed to Ink for a requested version: the same
    /// number where it fits Ink's signed version, else `0`, the latest.
    pub fn pinned_version(version: u32) -> (v: i32)
        ensures
            v == (if version <= i32::MAX {
                version as i32
            } else {
                0i32
            }),
    {
        if version <= 2147483647 {
            version as i32
        } else {
            0
        }
    }
}

} // verus!
