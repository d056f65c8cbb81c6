//! A binary linear code that decodes by looking up syndromes in a table.

use crate::binary_matrix::BinMatrix;
use crate::binary_vector::BinVector;
use crate::bits::{
    fits, lemma_parity_is_dot, lemma_unpack_xor, lemma_xor_fits, pack, pack_below, parity_below,
    span, unpack, word_bit,
};
use crate::codes::model::{
    lemma_decoded_syndrome_is_zero, lemma_error_has_same_syndrome, lemma_syndrome_entry,
    lemma_table_total, lemma_words_below, CodeModel,
};
use crate::codes::packed::{
    lemma_packed_model_wf, packed_generator, packed_model, packed_shape, packed_table, packed_wf,
};
use crate::codes::syndrome_map::SyndromeMap;
use crate::codes::BinaryCode;
use crate::error::CodeError;
use crate::gf2::{transpose, zeros};
use crate::oracle::Sample;
use vstd::prelude::*;

verus! {

/// A binary linear code with its generator matrix, its parity-check
/// matrix and its syndrome table. Its view is the code as a
/// [`CodeModel`], which is well formed for every value of this type.
pub struct LinearCode {
    length: usize,
    dimension: usize,
    generator: BinMatrix,
    parity_check: BinMatrix,
    parity_check_t: BinMatrix,
    parity_words: Vec<u64>,
    leaders: SyndromeMap,
}

impl View for LinearCode {
    type V = CodeModel;

    closed spec fn view(&self) -> CodeModel {
        CodeModel {
            length: self.length as nat,
            dimension: self.dimension as nat,
            generator: self.generator@,
            parity_check: self.parity_check@,
            leaders: self.leaders@,
        }
    }
}

/// The parity of the lowest `n` bits of `w`.
fn parity_of(w: u64, n: usize) -> (p: bool)
    requires
        n <= 64,
    ensures
        p == parity_below(w, n as nat),
{
    let mut p: bool = false;
    let mut i: usize = 0;
    while i < n
        invariant
            i <= n <= 64,
            p == parity_below(w, i as nat),
        decreases n - i,
    {
        let shift: u64 = i as u64;
        p = p != ((w >> shift) & 1 == 1);
        i += 1;
    }
    p
}

/// Whether every row of the generator matrix passes every parity check
/// and the generator matrix starts with the identity matrix.
fn check_generator(
    length: usize,
    dimension: usize,
    generator_rows: &[u64],
    parity_rows: &[u64],
) -> (ok: bool)
    requires
        packed_shape(length as nat, dimension as nat, generator_rows@, parity_rows@),
    ensures
        ok == packed_generator(length as nat, dimension as nat, generator_rows@, parity_rows@),
{
    let redundancy: usize = length - dimension;
    let mut i: usize = 0;
    while i < dimension
        invariant
            i <= dimension,
            redundancy == length - dimension,
            packed_shape(length as nat, dimension as nat, generator_rows@, parity_rows@),
            forall|a: int, j: int|
                0 <= a < i && 0 <= j < redundancy ==> !#[trigger] parity_below(
                    generator_rows@[a] & parity_rows@[j],
                    length as nat,
                ),
            forall|a: int, c: int|
                0 <= a < i && 0 <= c < dimension ==> #[trigger] word_bit(
                    generator_rows@[a],
                    c as u64,
                ) == (a == c),
        decreases dimension - i,
    {
        let row: u64 = generator_rows[i];
        let mut j: usize = 0;
        while j < redundancy
            invariant
                j <= redundancy,
                i < dimension,
                redundancy == length - dimension,
                row == generator_rows@[i as int],
                packed_shape(length as nat, dimension as nat, generator_rows@, parity_rows@),
                forall|b: int|
                    0 <= b < j ==> !#[trigger] parity_below(row & parity_rows@[b], length as nat),
            decreases redundancy - j,
        {
            if parity_of(row & parity_rows[j], length) {
                assert(parity_below(
                    generator_rows@[i as int] & parity_rows@[j as int],
                    length as nat,
                ));
                return false;
            }
            j += 1;
        }
        let mut c: usize = 0;
        while c < dimension
            invariant
                c <= dimension <= 64,
                i < dimension,
                row == generator_rows@[i as int],
                forall|b: int| 0 <= b < c ==> #[trigger] word_bit(row, b as u64) == (i == b),
            decreases dimension - c,
        {
            let shift: u64 = c as u64;
            if ((row >> shift) & 1 == 1) != (i == c) {
                assert(word_bit(generator_rows@[i as int], c as u64) != (i as int == c as int));
                return false;
            }
            c += 1;
        }
        i += 1;
    }
    true
}

/// Whether the table has an entry of `length` bits for exactly the
/// syndromes, each with the syndrome that it stands under, and zero for
/// the zero syndrome.
fn check_table(length: usize, dimension: usize, parity_rows: &[u64], leaders: &SyndromeMap) -> (ok:
    bool)
    requires
        dimension <= length <= 64,
        length - dimension < 64,
        parity_rows@.len() == length - dimension,
    ensures
        ok == packed_table(length as nat, dimension as nat, parity_rows@, leaders@),
{
    let redundancy: usize = length - dimension;
    let shift: u64 = redundancy as u64;
    let bound: u64 = 1u64 << shift;
    assert(bound >= 1) by (bit_vector)
        requires
            shift < 64,
            bound == 1u64 << shift,
    ;
    assert(bound == span(redundancy as nat));
    let count: usize = leaders.len();
    proof {
        lemma_words_below(bound);
    }
    if count as u64 != bound {
        proof {
            if packed_table(length as nat, dimension as nat, parity_rows@, leaders@) {
                assert(leaders@.dom() =~= Set::new(|s: u64| s < bound));
            }
        }
        return false;
    }
    let mut s: u64 = 0;
    while s < bound
        invariant
            s <= bound,
            bound == span(redundancy as nat),
            redundancy == length - dimension,
            dimension <= length <= 64,
            redundancy < 64,
            parity_rows@.len() == redundancy,
            forall|t: u64| t < s ==> #[trigger] leaders@.contains_key(t),
            forall|t: u64| t < s ==> fits(#[trigger] leaders@[t], length as nat),
            forall|t: u64, j: int|
                t < s && 0 <= j < redundancy ==> #[trigger] parity_below(
                    leaders@[t] & parity_rows@[j],
                    length as nat,
                ) == word_bit(t, j as u64),
        decreases bound - s,
    {
        let entry: u64 = match leaders.get(s) {
            Some(entry) => entry,
            None => {
                return false;
            },
        };
        if length < 64 {
            let high: u64 = length as u64;
            if entry >> high != 0 {
                assert(!fits(leaders@[s], length as nat));
                return false;
            }
        }
        let mut j: usize = 0;
        while j < redundancy
            invariant
                j <= redundancy < 64,
                dimension <= length <= 64,
                redundancy == length - dimension,
                parity_rows@.len() == redundancy,
                s < bound,
                bound == span(redundancy as nat),
                leaders@.contains_key(s),
                entry == leaders@[s],
                forall|b: int|
                    0 <= b < j ==> #[trigger] parity_below(
                        entry & parity_rows@[b],
                        length as nat,
                    ) == word_bit(s, b as u64),
            decreases redundancy - j,
        {
            let at: u64 = j as u64;
            if parity_of(entry & parity_rows[j], length) != ((s >> at) & 1 == 1) {
                assert(parity_below(leaders@[s] & parity_rows@[j as int], length as nat)
                    != word_bit(s, j as u64));
                return false;
            }
            j += 1;
        }
        s += 1;
    }
    proof {
        let all = Set::new(|t: u64| t < bound);
        assert(all.subset_of(leaders@.dom()));
        vstd::set_lib::lemma_subset_equality(all, leaders@.dom());
    }
    match leaders.get(0) {
        Some(entry) => entry == 0,
        None => false,
    }
}

impl LinearCode {
    #[verifier::type_invariant]
    spec fn inv(self) -> bool {
        &&& self@.wf()
        &&& self.generator.spec_ncols() == self.length
        &&& self.parity_check.spec_ncols() == self.length
        &&& self.parity_check_t@ == transpose(self.parity_check@, self.length as nat)
        &&& self.parity_check_t.spec_ncols() == self.length - self.dimension
        &&& self.parity_words@.len() == self.length - self.dimension
        &&& forall|j: int|
            0 <= j < self.parity_words@.len() ==> unpack(
                #[trigger] self.parity_words@[j],
                self.length as nat,
            ) == self.parity_check@[j]
    }

    /// The code of the given length and dimension whose generator and
    /// parity-check matrices have the given words as rows, bit `j` of a
    /// word standing for column `j`, with the given syndrome table.
    ///
    /// Fails with `ShapeMismatch` where length and dimension do not fit
    /// a machine word, where the number of rows is not what they ask
    /// for, where a row of the generator matrix fails a parity check, or
    /// where the generator matrix does not start with the identity
    /// matrix. Fails with `TableCoverageViolation` where all that is in
    /// order and the table lacks the entry of a syndrome, has an entry
    /// too many, or has an entry that is no pattern of `length` bits
    /// with the syndrome that it stands under, or that is not zero for
    /// the zero syndrome.
    pub fn new(
        length: usize,
        dimension: usize,
        generator_rows: &[u64],
        parity_rows: &[u64],
        leaders: SyndromeMap,
    ) -> (r: Result<LinearCode, CodeError>)
        ensures
            match r {
                Ok(code) => {
                    &&& packed_wf(
                        length as nat,
                        dimension as nat,
                        generator_rows@,
                        parity_rows@,
                        leaders@,
                    )
                    &&& code@ == packed_model(
                        length as nat,
                        dimension as nat,
                        generator_rows@,
                        parity_rows@,
                        leaders@,
                    )
                },
                Err(e) => {
                    let fitting = packed_shape(
                        length as nat,
                        dimension as nat,
                        generator_rows@,
                        parity_rows@,
                    ) && packed_generator(
                        length as nat,
                        dimension as nat,
                        generator_rows@,
                        parity_rows@,
                    );
                    &&& !fitting ==> e == CodeError::ShapeMismatch
                    &&& fitting ==> e == CodeError::TableCoverageViolation && !packed_table(
                        length as nat,
                        dimension as nat,
                        parity_rows@,
                        leaders@,
                    )
                },
            },
    {
        if dimension > length || length > 64 || length - dimension >= 64 {
            return Err(CodeError::ShapeMismatch);
        }
        if generator_rows.len() != dimension || parity_rows.len() != length - dimension {
            return Err(CodeError::ShapeMismatch);
        }
        if !check_generator(length, dimension, generator_rows, parity_rows) {
            return Err(CodeError::ShapeMismatch);
        }
        if !check_table(length, dimension, parity_rows, &leaders) {
            return Err(CodeError::TableCoverageViolation);
        }
        Ok(LinearCode::from_words(length, dimension, generator_rows, parity_rows, leaders))
    }

    /// The code of the given length and dimension whose generator and
    /// parity-check matrices have the given words as rows, with the
    /// given syndrome table, for words that are known to be those of a
    /// well-formed code.
    pub(crate) fn from_words(
        length: usize,
        dimension: usize,
        generator_rows: &[u64],
        parity_rows: &[u64],
        leaders: SyndromeMap,
    ) -> (code: LinearCode)
        requires
            packed_wf(
                length as nat,
                dimension as nat,
                generator_rows@,
                parity_rows@,
                leaders@,
            ),
        ensures
            code@ == packed_model(
                length as nat,
                dimension as nat,
                generator_rows@,
                parity_rows@,
                leaders@,
            ),
    {
        proof {
            lemma_packed_model_wf(
                length as nat,
                dimension as nat,
                generator_rows@,
                parity_rows@,
                leaders@,
            );
        }
        let generator = BinMatrix::from_words(generator_rows, length);
        let parity_check = BinMatrix::from_words(parity_rows, length);
        let parity_check_t = parity_check.transposed();
        let mut parity_words: Vec<u64> = Vec::with_capacity(parity_rows.len());
        let mut j: usize = 0;
        while j < parity_rows.len()
            invariant
                j <= parity_rows.len(),
                parity_words@ == parity_rows@.take(j as int),
            decreases parity_rows.len() - j,
        {
            parity_words.push(parity_rows[j]);
            j += 1;
            assert(parity_words@ =~= parity_rows@.take(j as int));
        }
        assert(parity_rows@.take(parity_rows.len() as int) =~= parity_rows@);
        LinearCode {
            length,
            dimension,
            generator,
            parity_check,
            parity_check_t,
            parity_words,
            leaders,
        }
    }

    /// The number of entries of the syndrome table: one for each
    /// syndrome of `length() - dimension()` bits.
    pub fn syndromes(&self) -> (n: usize)
        ensures
            n == self@.leaders.len(),
            n == span(self@.redundancy()),
    {
        proof {
            use_type_invariant(self);
            lemma_table_total(self@);
        }
        self.leaders.len()
    }

    /// A copy of the generator matrix: `dimension()` rows of `length()`
    /// bits.
    pub fn generator_matrix(&self) -> (m: BinMatrix)
        ensures
            m@ == self@.generator,
            m.spec_ncols() == self@.length,
    {
        proof {
            use_type_invariant(self);
        }
        self.generator.copy()
    }

    /// A copy of the parity-check matrix: `length() - dimension()` rows
    /// of `length()` bits.
    pub fn parity_check_matrix(&self) -> (m: BinMatrix)
        ensures
            m@ == self@.parity_check,
            m.spec_ncols() == self@.length,
    {
        proof {
            use_type_invariant(self);
        }
        self.parity_check.copy()
    }

    /// The syndrome of the lowest `length()` bits of `word`, packed.
    fn syndrome_word(&self, word: u64) -> (s: u64)
        ensures
            s == pack(self@.syndrome(unpack(word, self@.length))),
    {
        proof {
            use_type_invariant(self);
        }
        let r: usize = self.length - self.dimension;
        let ghost v = unpack(word, self@.length);
        let ghost syn = self@.syndrome(v);
        let mut acc: u64 = 0;
        let mut j: usize = 0;
        while j < r
            invariant
                j <= r < 64,
                r == self.length - self.dimension,
                self.inv(),
                v == unpack(word, self@.length),
                syn == self@.syndrome(v),
                acc == pack_below(syn, j as nat),
            decreases r - j,
        {
            let bit = parity_of(word & self.parity_words[j], self.length);
            proof {
                lemma_parity_is_dot(word, self.parity_words@[j as int], self@.length);
                lemma_syndrome_entry(self@, v, j as int);
            }
            if bit {
                let shift: u64 = j as u64;
                acc = acc | (1u64 << shift);
            }
            j += 1;
        }
        acc
    }

    /// Decodes a word of `length()` bits that is packed into a machine
    /// word, bit `i` standing for position `i`.
    pub fn decode_word(&self, word: u64) -> (codeword: u64)
        requires
            fits(word, self@.length),
        ensures
            unpack(codeword, self@.length) == self@.decode(unpack(word, self@.length)),
            fits(codeword, self@.length),
    {
        proof {
            use_type_invariant(self);
            lemma_error_has_same_syndrome(self@, unpack(word, self@.length));
        }
        let s = self.syndrome_word(word);
        let error: u64 = match self.leaders.get(s) {
            Some(e) => e,
            None => 0,
        };
        proof {
            lemma_unpack_xor(word, error, self@.length);
            lemma_xor_fits(word, error, self@.length);
        }
        word ^ error
    }

    /// Decodes in place a word of `length()` bits that is packed into
    /// the first word of `words`: the error pattern is added to it, and
    /// the other words stay as they are. No bit may be set at position
    /// `length()` or beyond.
    pub fn decode_slice(&self, words: &mut [u64])
        requires
            old(words)@.len() >= 1,
            fits(old(words)@[0], self@.length),
        ensures
            final(words)@.len() == old(words)@.len(),
            unpack(final(words)@[0], self@.length) == self@.decode(
                unpack(old(words)@[0], self@.length),
            ),
            fits(final(words)@[0], self@.length),
            forall|i: int| 1 <= i < old(words)@.len() ==> final(words)@[i] == old(words)@[i],
    {
        let decoded = self.decode_word(words[0]);
        words[0] = decoded;
    }
}

impl BinaryCode for LinearCode {
    open spec fn spec_length(&self) -> nat {
        self@.length
    }

    open spec fn spec_dimension(&self) -> nat {
        self@.dimension
    }

    open spec fn spec_encode(&self, message: Seq<bool>) -> Seq<bool> {
        self@.encode(message)
    }

    open spec fn spec_decode(&self, received: Seq<bool>) -> Seq<bool> {
        self@.decode(received)
    }

    open spec fn spec_message(&self, received: Seq<bool>) -> Seq<bool> {
        self@.message(received)
    }

    fn name(&self) -> (name: String)
        ensures
            name@ == "binary linear code"@,
    {
        "binary linear code".to_string()
    }

    fn length(&self) -> (n: usize)
        ensures
            self@.wf(),
    {
        proof {
            use_type_invariant(self);
        }
        self.length
    }

    fn dimension(&self) -> (k: usize) {
        proof {
            use_type_invariant(self);
        }
        self.dimension
    }

    fn encode(&self, message: &BinVector) -> (r: Result<BinVector, CodeError>) {
        proof {
            use_type_invariant(self);
        }
        if message.len() != self.dimension {
            return Err(CodeError::LengthMismatch);
        }
        Ok(message.times(&self.generator))
    }

    fn decode_to_code(&self, received: &BinVector) -> (r: Result<BinVector, CodeError>)
        ensures
            r matches Ok(codeword) ==> self@.syndrome(codeword@) == zeros(self@.redundancy()),
    {
        proof {
            use_type_invariant(self);
        }
        if received.len() != self.length {
            return Err(CodeError::LengthMismatch);
        }
        proof {
            lemma_error_has_same_syndrome(self@, received@);
            lemma_decoded_syndrome_is_zero(self@, received@);
        }
        let he = received.times(&self.parity_check_t);
        let error = match self.leaders.get(he.as_u64()) {
            Some(e) => BinVector::from_word(e, self.length),
            None => BinVector::from_elem(self.length, false),
        };
        Ok(received.sum(&error))
    }

    fn decode_to_message(&self, received: &BinVector) -> (r: Result<BinVector, CodeError>) {
        proof {
            use_type_invariant(self);
        }
        match self.decode_to_code(received) {
            Ok(codeword) => {
                let mut codeword = codeword;
                codeword.truncate(self.dimension);
                Ok(codeword)
            },
            Err(e) => Err(e),
        }
    }

    fn decode_sample(&self, sample: &mut Sample) -> (r: Result<(), CodeError>) {
        match self.decode_to_message(&sample.a) {
            Ok(message) => {
                sample.a = message;
                Ok(())
            },
            Err(e) => Err(e),
        }
    }
}

} // verus!
