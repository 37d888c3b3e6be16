//! The four IEEE-754 binary interchange formats as bit patterns: what a
//! pattern denotes, how two values compare, and how a rounding direction is
//! named to a SoftFloat kernel.
//!
//! A value is its pattern and nothing else, so it can be handed to and
//! taken from a kernel that computes on patterns. What needs rounding
//! (arithmetic, and conversion to a narrower format or an integer) is the
//! kernel's work and not part of this crate; comparison needs none and is
//! done here, against the order of the numbers that the patterns denote.

pub mod double;
pub mod half;
pub mod ieee;
pub mod quad;
pub mod rounding;
pub mod single;

pub use double::F64;
pub use half::F16;
pub use ieee::Datum;
pub use quad::F128;
pub use rounding::RoundingMode;
pub use single::F32;
