//! The direction a container lays its children out in.

use vstd::prelude::*;

verus! {

/// The direction a container lays its children out in.
#[derive(Clone, Copy, Debug, PartialEq, Eq, Hash, Structural)]
pub enum Axis {
    Horizontal,
    Vertical,
}

impl Axis {
    /// The other axis.
    pub fn cross(self) -> (a: Axis)
        ensures
            a == (if self == Axis::Horizontal {
                Axis::Vertical
            } else {
                Axis::Horizontal
            }),
    {
        match self {
            Axis::Horizontal => Axis::Vertical,
            Axis::Vertical => Axis::Horizontal,
        }
    }
}

} // verus!
