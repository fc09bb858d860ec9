//! A verified proportional-integral-derivative (PID) controller.
//!
//! The controller keeps three gains and a short history (previous error,
//! accumulated integral, last output) and, once per control cycle, turns a
//! target value, a measurement and an elapsed time into a corrective output.
//! It is generic over any signed scalar type that implements [`Numeric`],
//! so the same verified algorithm serves different integer widths.

pub mod controller;
pub mod numeric;

pub use controller::PID;
pub use numeric::Numeric;
