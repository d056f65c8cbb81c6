//! Binary linear codes with syndrome decoding, and the reductions of
//! Learning Parity with Noise instances that are built on them.
//!
//! - [`gf2`] is the mathematics: vectors and matrices over the
//!   two-element field as sequences of bits, and the laws of their
//!   products.
//! - [`bits`] relates a vector of fewer than 64 bits to the machine word
//!   that it is packed into.
//! - [`binary_vector`] and [`binary_matrix`] are the vectors and
//!   matrices that run.
//! - [`codes`] holds what a binary code offers, the code that decodes by
//!   a syndrome table with the laws of such decoding, codes of the GUAVA
//!   database, and the code made of several codes.
//! - [`oracle`] holds the samples and the problem instance.
//! - [`covering_codes`] holds the reduction to a sparse secret and the
//!   reduction by a covering code.

pub mod binary_matrix;
pub mod binary_vector;
pub mod bits;
pub mod codes;
pub mod covering_codes;
pub mod error;
pub mod gf2;
pub mod oracle;

pub use crate::binary_matrix::BinMatrix;
pub use crate::binary_vector::BinVector;
pub use crate::codes::concatenated::ConcatenatedCode;
pub use crate::codes::guava::guava_12_11::GuavaCode12_11;
pub use crate::codes::guava::guava_16_7::GuavaCode16_7;
pub use crate::codes::guava::guava_17_12::GuavaCode17_12;
pub use crate::codes::linear_code::LinearCode;
pub use crate::codes::syndrome_map::SyndromeMap;
pub use crate::codes::BinaryCode;
pub use crate::covering_codes::{
    change_of_basis, draw_queries, judge_draw, reduce_covering_codes, reduce_sparse_secret,
    DrawVerdict,
};
pub use crate::error::{CodeError, ReductionError};
pub use crate::oracle::{LpnOracle, Sample};
