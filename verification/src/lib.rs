//! Fast `floor(log10(x))` for unsigned 32-bit and 64-bit integers.
//!
//! Several competing bit-trick strategies compute a digit-count guess from a
//! value's bit length; a single comparison against a precomputed threshold
//! table corrects the guess to the exact result. Every variant is proved to
//! return exactly `floor(log10(x))` over its whole input domain.

pub mod bitops;
pub mod guess;
pub mod ilog32;
pub mod ilog64;
pub mod logmath;
pub mod tables;
pub mod validate;
