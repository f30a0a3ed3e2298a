//! Descriptive statistics over 64-bit IEEE-754 values, verified on their bit
//! patterns.
//!
//! The engine receives each input value as the raw bit pattern of a 64-bit
//! float (`f64::to_bits` on the caller's side). On those bit patterns it
//! validates the input (non-empty, every element finite), sorts by the total
//! order that agrees with the numeric order of finite floats, and selects the
//! positional statistics: minimum, maximum, upper median, and the first and
//! third positional quartiles. The moment statistics (mean, standard
//! deviation, coefficient of variation) are floating-point arithmetic and are
//! left to the caller; the crate also renders the canonical JSON result shape
//! once the caller has formatted the eight numbers.

pub mod engine;
pub mod float_bits;
pub mod render;
