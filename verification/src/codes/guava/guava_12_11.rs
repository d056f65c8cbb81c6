//! The `[12, 11]` code of the GUAVA database, with its syndrome table.

use crate::binary_matrix::BinMatrix;
use crate::binary_vector::BinVector;
use crate::bits::{fits, parity_below, span, unpack, word_bit};
use crate::codes::linear_code::LinearCode;
use crate::codes::model::CodeModel;
use crate::codes::packed::{packed_model, packed_wf};
use crate::codes::syndrome_map::SyndromeMap;
use crate::codes::BinaryCode;
use crate::error::CodeError;
use crate::gf2::zeros;
use crate::oracle::Sample;
use vstd::prelude::*;

verus! {

/// ``[12, 11]`` Guava code
///
/// Best code found from the GUAVA database version 3.15
///
/// Decodes using Syndrome decoding
#[derive(Clone, Copy, Debug)]
pub struct GuavaCode12_11;

/// The number of bits of a codeword.
pub const LENGTH: usize = 12;

/// The number of bits of a message.
pub const DIMENSION: usize = 11;

/// The number of syndromes.
pub const SYNDROMES: u64 = 2;

/// Row `i` of the generator matrix, packed: bit `j` is column `j`.
pub open spec fn generator_word(i: u64) -> u64 {
    if i == 0 {
        2049
    } else if i == 1 {
        2050
    } else if i == 2 {
        2052
    } else if i == 3 {
        2056
    } else if i == 4 {
        2064
    } else if i == 5 {
        2080
    } else if i == 6 {
        2112
    } else if i == 7 {
        2176
    } else if i == 8 {
        2304
    } else if i == 9 {
        2560
    } else if i == 10 {
        3072
    } else {
        0
    }
}

/// Row `j` of the parity-check matrix, packed.
pub open spec fn parity_word(j: u64) -> u64 {
    if j == 0 {
        4095
    } else {
        0
    }
}

/// The error pattern of least weight that has the syndrome `s`, packed.
pub open spec fn leader(s: u64) -> u64 {
    if s == 0 {
        0
    } else if s == 1 {
        1
    } else {
        0
    }
}

/// The rows of the generator matrix.
pub open spec fn generator_words() -> Seq<u64> {
    Seq::new(DIMENSION as nat, |i: int| generator_word(i as u64))
}

/// The rows of the parity-check matrix.
pub open spec fn parity_words() -> Seq<u64> {
    Seq::new((LENGTH - DIMENSION) as nat, |j: int| parity_word(j as u64))
}

/// The syndrome table.
pub open spec fn leaders() -> Map<u64, u64> {
    Map::new(|s: u64| s < SYNDROMES, |s: u64| leader(s))
}

/// The code.
pub open spec fn model() -> CodeModel {
    packed_model(LENGTH as nat, DIMENSION as nat, generator_words(), parity_words(), leaders())
}

/// The words of the code are those of a well-formed code: the table has
/// an entry of `LENGTH` bits for each syndrome, each entry has the
/// syndrome that it stands under, the rows of the generator matrix have
/// the zero syndrome, and the generator matrix starts with the identity.
pub proof fn lemma_words()
    ensures
        packed_wf(LENGTH as nat, DIMENSION as nat, generator_words(), parity_words(), leaders()),
{
    let r = (LENGTH - DIMENSION) as nat;
    assert(span(r) == SYNDROMES) by {
        assert(1u64 << 1u64 == 2u64) by (bit_vector);
    }
    assert(forall|s: u64, j: u64|
        s < 2 && j < 1 ==> parity_below(#[trigger] leader(s) & #[trigger] parity_word(j), 12)
            == word_bit(s, j)) by (bit_vector);
    assert(forall|s: u64| s < 2 ==> #[trigger] leader(s) >> 12u64 == 0) by (bit_vector);
    assert(forall|i: u64, j: u64|
        i < 11 && j < 1 ==> !parity_below(
            #[trigger] generator_word(i) & #[trigger] parity_word(j),
            12,
        )) by (bit_vector);
    assert(forall|i: u64, c: u64|
        i < 11 && c < 11 ==> #[trigger] word_bit(generator_word(i), c) == (i == c))
        by (bit_vector);
    assert forall|s: u64| s < span(r) implies fits(#[trigger] leaders()[s], LENGTH as nat) by {
        assert(leader(s) >> 12u64 == 0);
    }
    assert forall|s: u64, j: int| s < span(r) && 0 <= j < r implies #[trigger] parity_below(
        leaders()[s] & parity_words()[j],
        LENGTH as nat,
    ) == word_bit(s, j as u64) by {
        assert(parity_below(leader(s) & parity_word(j as u64), 12) == word_bit(s, j as u64));
    }
    assert forall|i: int, j: int| 0 <= i < DIMENSION && 0 <= j < r implies !#[trigger] parity_below(
        generator_words()[i] & parity_words()[j],
        LENGTH as nat,
    ) by {
        assert(!parity_below(generator_word(i as u64) & parity_word(j as u64), 12));
    }
    assert forall|i: int, c: int| 0 <= i < DIMENSION && 0 <= c < DIMENSION implies #[trigger] word_bit(
        generator_words()[i],
        c as u64,
    ) == (i == c) by {
        assert(word_bit(generator_word(i as u64), c as u64) == (i as u64 == c as u64));
    }
}

/// The code is well formed, so that the laws of syndrome decoding hold
/// of it.
pub proof fn lemma_well_formed()
    ensures
        model().wf(),
{
    lemma_words();
    crate::codes::packed::lemma_packed_model_wf(
        LENGTH as nat,
        DIMENSION as nat,
        generator_words(),
        parity_words(),
        leaders(),
    );
}

fn generator_word_of(i: u64) -> (w: u64)
    ensures
        w == generator_word(i),
{
    match i {
        0 => 2049,
        1 => 2050,
        2 => 2052,
        3 => 2056,
        4 => 2064,
        5 => 2080,
        6 => 2112,
        7 => 2176,
        8 => 2304,
        9 => 2560,
        10 => 3072,
        _ => 0,
    }
}

fn parity_word_of(j: u64) -> (w: u64)
    ensures
        w == parity_word(j),
{
    match j {
        0 => 4095,
        _ => 0,
    }
}

fn leader_of(s: u64) -> (w: u64)
    ensures
        w == leader(s),
{
    match s {
        0 => 0,
        1 => 1,
        _ => 0,
    }
}

impl GuavaCode12_11 {
    /// Builds the matrices and the syndrome table of the code. Every
    /// other operation of this type builds them anew: where many words
    /// are decoded, build them once and decode with the code that this
    /// returns.
    pub fn tables(&self) -> (code: LinearCode)
        ensures
            code@ == model(),
    {
        let mut generator_rows: Vec<u64> = Vec::with_capacity(DIMENSION);
        let mut i: u64 = 0;
        while i < DIMENSION as u64
            invariant
                i <= DIMENSION,
                generator_rows@ == Seq::new(i as nat, |r: int| generator_word(r as u64)),
            decreases DIMENSION - i,
        {
            generator_rows.push(generator_word_of(i));
            i += 1;
            assert(generator_rows@ =~= Seq::new(i as nat, |r: int| generator_word(r as u64)));
        }
        let mut parity_rows: Vec<u64> = Vec::with_capacity(LENGTH - DIMENSION);
        let mut j: u64 = 0;
        while j < (LENGTH - DIMENSION) as u64
            invariant
                j <= LENGTH - DIMENSION,
                parity_rows@ == Seq::new(j as nat, |r: int| parity_word(r as u64)),
            decreases LENGTH - DIMENSION - j,
        {
            parity_rows.push(parity_word_of(j));
            j += 1;
            assert(parity_rows@ =~= Seq::new(j as nat, |r: int| parity_word(r as u64)));
        }
        let mut table = SyndromeMap::with_capacity(SYNDROMES as usize);
        let mut s: u64 = 0;
        while s < SYNDROMES
            invariant
                s <= SYNDROMES,
                table@ == Map::new(|t: u64| t < s, |t: u64| leader(t)),
            decreases SYNDROMES - s,
        {
            table.insert(s, leader_of(s));
            s += 1;
            assert(table@ =~= Map::new(|t: u64| t < s, |t: u64| leader(t)));
        }
        proof {
            lemma_words();
        }
        LinearCode::from_words(
            LENGTH,
            DIMENSION,
            generator_rows.as_slice(),
            parity_rows.as_slice(),
            table,
        )
    }

    /// The generator matrix: `DIMENSION` rows of `LENGTH` bits.
    pub fn generator_matrix(&self) -> (m: BinMatrix)
        ensures
            m@ == model().generator,
            m.spec_ncols() == LENGTH,
    {
        self.tables().generator_matrix()
    }

    /// The parity-check matrix: `LENGTH - DIMENSION` rows of `LENGTH`
    /// bits.
    pub fn parity_check_matrix(&self) -> (m: BinMatrix)
        ensures
            m@ == model().parity_check,
            m.spec_ncols() == LENGTH,
    {
        self.tables().parity_check_matrix()
    }

    /// Decodes in place a word of `LENGTH` bits that is packed into the
    /// first word of `words`: the error pattern is added to it, and the
    /// other words stay as they are. No bit may be set at position
    /// `LENGTH` or beyond.
    pub fn decode_slice(&self, words: &mut [u64])
        requires
            old(words)@.len() >= 1,
            fits(old(words)@[0], LENGTH as nat),
        ensures
            final(words)@.len() == old(words)@.len(),
            unpack(final(words)@[0], LENGTH as nat) == model().decode(
                unpack(old(words)@[0], LENGTH as nat),
            ),
            fits(final(words)@[0], LENGTH as nat),
            forall|i: int| 1 <= i < old(words)@.len() ==> final(words)@[i] == old(words)@[i],
    {
        self.tables().decode_slice(words);
    }
}

impl BinaryCode for GuavaCode12_11 {
    open spec fn spec_length(&self) -> nat {
        LENGTH as nat
    }

    open spec fn spec_dimension(&self) -> nat {
        DIMENSION as nat
    }

    open spec fn spec_encode(&self, message: Seq<bool>) -> Seq<bool> {
        model().encode(message)
    }

    open spec fn spec_decode(&self, received: Seq<bool>) -> Seq<bool> {
        model().decode(received)
    }

    open spec fn spec_message(&self, received: Seq<bool>) -> Seq<bool> {
        model().message(received)
    }

    fn name(&self) -> (name: String)
        ensures
            name@ == "[12, 11] Guava code"@,
    {
        "[12, 11] Guava code".to_string()
    }

    fn length(&self) -> (n: usize) {
        LENGTH
    }

    fn dimension(&self) -> (k: usize) {
        DIMENSION
    }

    fn encode(&self, message: &BinVector) -> (r: Result<BinVector, CodeError>) {
        self.tables().encode(message)
    }

    fn decode_to_code(&self, received: &BinVector) -> (r: Result<BinVector, CodeError>)
        ensures
            r matches Ok(codeword) ==> model().syndrome(codeword@) == zeros(model().redundancy()),
    {
        self.tables().decode_to_code(received)
    }

    fn decode_to_message(&self, received: &BinVector) -> (r: Result<BinVector, CodeError>) {
        self.tables().decode_to_message(received)
    }

    fn decode_sample(&self, sample: &mut Sample) -> (r: Result<(), CodeError>) {
        self.tables().decode_sample(sample)
    }
}

} // verus!
