//! The shapes a particle can take.

use vstd::prelude::*;

verus! {

/// The shape of a particle, and how its size is drawn at random.
#[derive(Clone, Copy, Debug, PartialEq, Eq, Structural, Default)]
pub enum ParticleKind {
    /// Long on the X axis, thin on the Y axis.
    #[default]
    HorizontalStreak,
    /// Long on the Y axis, thin on the X axis.
    VerticalStreak,
    /// A single pixel.
    Pixel,
    /// As wide as high, the two drawn together.
    Square,
    /// Width and height drawn each in its own range.
    Rectangle,
}

} // verus!
