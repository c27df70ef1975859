//! Faucet configuration values, and the exact conversion of a claim amount
//! written in KAS into the integer count of sompi that the faucet pays out.
//!
//! One KAS is 100 000 000 sompi. An amount may be configured as an integer
//! (already sompi), as a floating-point number (KAS) or as text. Text with a
//! decimal point is KAS; text made of digits alone is sompi. So `"100"` and
//! `"100.0"` do not mean the same amount: the first is 100 sompi, the second
//! 10 000 000 000 sompi.

pub mod amount;
pub mod config;
pub mod digits;
pub mod error;
pub mod field;
pub mod text;
