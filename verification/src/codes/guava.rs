//! Codes of the GUAVA database.

pub mod guava_12_11;
pub mod guava_16_7;
pub mod guava_17_12;
