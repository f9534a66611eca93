use vstd::prelude::*;

verus! {

/// Why a construction or a computation was refused.
#[derive(Clone, Copy, Debug, PartialEq, Eq, Structural)]
pub enum SimError {
    /// A mass was zero or negative.
    InvalidMass,
    /// A physical radius was zero or negative.
    InvalidRadius,
    /// A system constant (a ratio's numerator or denominator, the minimum
    /// distance, the length of a pixel) was zero.
    InvalidConstant,
    /// A value left the finite range.
    NonFinite,
}

} // verus!
