//! CSS length values with exact arithmetic.
//!
//! Lengths, percentages and `calc()` sums are read from a token sequence,
//! combined by unit-aware addition and scalar multiplication, and written
//! back as minimal CSS text. Magnitudes are fixed-point decimals, so every
//! operation is exact up to a stated rounding and every contract is proved.

pub mod binary32;
pub mod calc;
pub mod laws;
pub mod length;
pub mod length_percentage;
pub mod number;
pub mod percentage;
pub mod text;
pub mod token;
pub mod units;
