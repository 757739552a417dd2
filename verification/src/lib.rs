//! A single lane of a hardware fused-multiply-add unit.
//!
//! Three 32-bit operands, read as IEEE-754 single-precision bit patterns,
//! are decoded into a fixed-point internal form, multiplied and accumulated
//! with a single rounding point, and packed back into a 32-bit pattern.
//! The datapath deliberately diverges from full IEEE-754: subnormal inputs
//! flush to zero, underflow flushes to zero, and overflow saturates to the
//! largest finite magnitude instead of infinity.

pub mod float;
pub mod laws;
pub mod unit;
