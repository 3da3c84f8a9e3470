//! Integers constrained to a closed inclusive range.
//!
//! A constrained container holds a primitive integer whose value always lies
//! within a range `[min, max]` fixed when the container's bounds are built.
//! Construction is validated, and every arithmetic operation re-establishes
//! the range invariant: checked and fallible operations report a violation,
//! saturating operations clamp at the violated bound, and wrapping
//! (modular) operations wrap around the declared range as if it were
//! circular.  The wrapping engine is exact even when the underlying
//! primitive arithmetic itself overflows mid-computation.

pub mod wrap_math;

pub mod uint8;

pub mod int8;

pub mod arith;

pub use arith::Saturating;
pub use arith::Wrapping;
