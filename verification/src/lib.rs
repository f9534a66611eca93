//! A deterministic two-body gravity simulation on whole numbers.
//!
//! A primary and its satellite attract each other by Newton's law. Every
//! quantity is a whole number of the caller's simulation units: a length, a
//! mass and a time unit chosen so that the constants and the motion are well
//! resolved. A run is then reproducible bit for bit, and the contracts state
//! each result exactly, roundings included.
//!
//! A coordinate is finite when its magnitude does not exceed
//! [`vector::LIMIT`]. No body ever holds a coordinate that is not finite: a
//! construction or a step that would produce one is refused with
//! [`error::SimError::NonFinite`] and changes nothing.
//!
//! - [`vector`], [`ratio`], [`numeric`]: finite vectors, positive rationals
//!   and the integer square root.
//! - [`body`], [`physical`]: a point mass and its kinematics; its mass and
//!   true radius.
//! - [`law`], [`gravity`]: the law of gravitation over the mathematical
//!   integers with what holds of it, and its computation.
//! - [`system`], [`momentum`]: the two bodies stepped together, and how far
//!   their total momentum can drift.
//! - [`units`]: the one scale between simulation units and pixels.

pub mod body;
pub mod error;
pub mod gravity;
pub mod law;
pub mod momentum;
pub mod numeric;
pub mod physical;
pub mod ratio;
pub mod system;
pub mod units;
pub mod vector;
