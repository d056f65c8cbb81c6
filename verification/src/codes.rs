//! Binary linear codes.

pub mod concatenated;
pub mod guava;
pub mod linear_code;
pub mod model;
pub mod packed;
pub mod syndrome_map;

use crate::binary_vector::BinVector;
use crate::error::CodeError;
use crate::oracle::{Sample, SampleModel};
use vstd::prelude::*;

verus! {

/// What every binary code offers: its length and dimension, encoding,
/// and decoding to a codeword or to a message.
pub trait BinaryCode {
    /// The number of bits of a codeword.
    spec fn spec_length(&self) -> nat;

    /// The number of bits of a message.
    spec fn spec_dimension(&self) -> nat;

    /// The codeword of a message of `spec_dimension()` bits.
    spec fn spec_encode(&self, message: Seq<bool>) -> Seq<bool>;

    /// The codeword that a received word of `spec_length()` bits is
    /// decoded to.
    spec fn spec_decode(&self, received: Seq<bool>) -> Seq<bool>;

    /// The message that a received word of `spec_length()` bits is
    /// decoded to.
    spec fn spec_message(&self, received: Seq<bool>) -> Seq<bool>;

    /// A name for the code.
    fn name(&self) -> (name: String);

    /// The number of bits of a codeword.
    fn length(&self) -> (n: usize)
        ensures
            n == self.spec_length(),
    ;

    /// The number of bits of a message, which is at most the length.
    fn dimension(&self) -> (k: usize)
        ensures
            k == self.spec_dimension(),
            k <= self.spec_length(),
    ;

    /// The codeword of a message. Fails with `LengthMismatch` exactly
    /// where the message has not `dimension()` bits.
    fn encode(&self, message: &BinVector) -> (r: Result<BinVector, CodeError>)
        ensures
            match r {
                Ok(codeword) => message@.len() == self.spec_dimension() && codeword@
                    == self.spec_encode(message@) && codeword@.len() == self.spec_length(),
                Err(e) => message@.len() != self.spec_dimension() && e
                    == CodeError::LengthMismatch,
            },
    ;

    /// The codeword that a received word is decoded to. Fails with
    /// `LengthMismatch` exactly where the word has not `length()` bits.
    fn decode_to_code(&self, received: &BinVector) -> (r: Result<BinVector, CodeError>)
        ensures
            match r {
                Ok(codeword) => received@.len() == self.spec_length() && codeword@
                    == self.spec_decode(received@) && codeword@.len() == self.spec_length(),
                Err(e) => received@.len() != self.spec_length() && e == CodeError::LengthMismatch,
            },
    ;

    /// The message that a received word is decoded to. Fails as
    /// `decode_to_code` does.
    fn decode_to_message(&self, received: &BinVector) -> (r: Result<BinVector, CodeError>)
        ensures
            match r {
                Ok(message) => received@.len() == self.spec_length() && message@
                    == self.spec_message(received@) && message@.len() == self.spec_dimension(),
                Err(e) => received@.len() != self.spec_length() && e == CodeError::LengthMismatch,
            },
    ;

    /// Replaces the vector of a sample by the message that it is decoded
    /// to, and leaves the sample's product and noise bit as they are.
    /// Fails as `decode_to_code` does, and then changes nothing.
    fn decode_sample(&self, sample: &mut Sample) -> (r: Result<(), CodeError>)
        ensures
            match r {
                Ok(()) => old(sample)@.a.len() == self.spec_length() && final(sample)@ == (
                SampleModel {
                    a: self.spec_message(old(sample)@.a),
                    s: old(sample)@.s,
                    e: old(sample)@.e,
                }) && final(sample)@.a.len() == self.spec_dimension(),
                Err(e) => old(sample)@.a.len() != self.spec_length() && e
                    == CodeError::LengthMismatch && *final(sample) == *old(sample),
            },
    ;
}

} // verus!
