//! What a binary linear code with a syndrome table is, and the laws of
//! syndrome decoding.

use crate::bits::{
    fits, lemma_fits_is_bound, lemma_unpack_pack, lemma_unpack_zero, pack, pack_below, span,
    unpack,
};
use crate::gf2::{
    dot, is_matrix, lemma_sum_congruent, lemma_sum_pick, lemma_vec_mat_add, lemma_vec_mat_assoc,
    lemma_vec_mat_zero_matrix, mat_mul, prefix, transpose, vec_add, vec_mat, zeros,
};
use vstd::prelude::*;

verus! {

/// A binary linear code of length `length` and dimension `dimension`:
/// its generator matrix, its parity-check matrix, and the table that
/// gives for each syndrome, packed into a word, the packed error pattern
/// that decoding removes.
pub struct CodeModel {
    pub length: nat,
    pub dimension: nat,
    pub generator: Seq<Seq<bool>>,
    pub parity_check: Seq<Seq<bool>>,
    pub leaders: Map<u64, u64>,
}

impl CodeModel {
    /// The number of parity checks, which is the length of a syndrome.
    pub open spec fn redundancy(self) -> nat {
        (self.length - self.dimension) as nat
    }

    /// The syndrome of a received word: its product with the transposed
    /// parity-check matrix.
    pub open spec fn syndrome(self, received: Seq<bool>) -> Seq<bool> {
        vec_mat(received, transpose(self.parity_check, self.length), self.redundancy())
    }

    /// The error pattern that the table gives for a received word.
    pub open spec fn error_of(self, received: Seq<bool>) -> Seq<bool> {
        unpack(self.leaders[pack(self.syndrome(received))], self.length)
    }

    /// The codeword that a received word is decoded to.
    pub open spec fn decode(self, received: Seq<bool>) -> Seq<bool> {
        vec_add(received, self.error_of(received))
    }

    /// The message that a received word is decoded to: the first
    /// `dimension` bits of its codeword.
    pub open spec fn message(self, received: Seq<bool>) -> Seq<bool> {
        prefix(self.decode(received), self.dimension)
    }

    /// The codeword of a message: its product with the generator matrix.
    pub open spec fn encode(self, message: Seq<bool>) -> Seq<bool> {
        vec_mat(message, self.generator, self.length)
    }

    /// The matrices have the shape that length and dimension ask for, and
    /// words and syndromes fit a machine word.
    pub open spec fn shaped(self) -> bool {
        &&& self.dimension <= self.length <= 64
        &&& self.length - self.dimension < 64
        &&& self.generator.len() == self.dimension
        &&& is_matrix(self.generator, self.length)
        &&& self.parity_check.len() == self.redundancy()
        &&& is_matrix(self.parity_check, self.length)
    }

    /// The table has an entry for exactly the syndromes of `redundancy()`
    /// bits, and each entry is a pattern of `length` bits.
    pub open spec fn total(self) -> bool {
        &&& forall|s: u64| #[trigger] self.leaders.contains_key(s) <==> s < span(self.redundancy())
        &&& forall|s: u64|
            s < span(self.redundancy()) ==> fits(#[trigger] self.leaders[s], self.length)
    }

    /// Each entry of the table has the syndrome that it stands under, and
    /// the entry of the zero syndrome is the zero pattern.
    pub open spec fn leaders_sound(self) -> bool {
        &&& forall|s: u64|
            s < span(self.redundancy()) ==> pack(
                self.syndrome(unpack(#[trigger] self.leaders[s], self.length)),
            ) == s
        &&& self.leaders[0] == 0
    }

    /// Every row of the generator matrix has the zero syndrome, and the
    /// generator matrix starts with the identity matrix.
    pub open spec fn generator_sound(self) -> bool {
        &&& forall|i: int|
            0 <= i < self.dimension ==> self.syndrome(#[trigger] self.generator[i]) == zeros(
                self.redundancy(),
            )
        &&& forall|i: int, j: int|
            0 <= i < self.dimension && 0 <= j < self.dimension ==> #[trigger] self.generator[i][j]
                == (i == j)
    }

    /// Everything that decoding relies on.
    pub open spec fn wf(self) -> bool {
        &&& self.shaped()
        &&& self.total()
        &&& self.leaders_sound()
        &&& self.generator_sound()
    }
}

/// Entry `j` of a syndrome is the inner product with row `j` of the
/// parity-check matrix.
pub proof fn lemma_syndrome_entry(code: CodeModel, received: Seq<bool>, j: int)
    requires
        code.shaped(),
        received.len() == code.length,
        0 <= j < code.redundancy(),
    ensures
        code.syndrome(received)[j] == dot(received, code.parity_check[j]),
{
    let ht = transpose(code.parity_check, code.length);
    lemma_sum_congruent(
        |i: int| received[i] && ht[i][j],
        |i: int| received[i] && code.parity_check[j][i],
        code.length,
    );
}

/// The word of the zero vector is zero.
pub proof fn lemma_pack_zeros(n: nat, m: nat)
    requires
        m <= n,
    ensures
        pack_below(zeros(n), m) == 0,
    decreases m,
{
    if m > 0 {
        lemma_pack_zeros(n, (m - 1) as nat);
        assert(!zeros(n)[m - 1]);
    }
}

/// The syndrome of a received word is the key of a table entry, and the
/// error pattern of that entry has the same syndrome.
pub proof fn lemma_error_has_same_syndrome(code: CodeModel, received: Seq<bool>)
    requires
        code.wf(),
        received.len() == code.length,
    ensures
        code.leaders.contains_key(pack(code.syndrome(received))),
        fits(code.leaders[pack(code.syndrome(received))], code.length),
        code.error_of(received).len() == code.length,
        code.syndrome(code.error_of(received)) == code.syndrome(received),
{
    let r = code.redundancy();
    let syn = code.syndrome(received);
    let s = pack(syn);
    lemma_unpack_pack(syn);
    lemma_fits_is_bound(s, r);
    let e = code.error_of(received);
    assert(e == unpack(code.leaders[s], code.length));
    let esyn = code.syndrome(e);
    assert(pack(esyn) == s);
    lemma_unpack_pack(esyn);
}

/// Syndrome-zero postcondition: whatever is received, the word that it
/// is decoded to has the zero syndrome.
pub proof fn lemma_decoded_syndrome_is_zero(code: CodeModel, received: Seq<bool>)
    requires
        code.wf(),
        received.len() == code.length,
    ensures
        code.decode(received).len() == code.length,
        code.syndrome(code.decode(received)) == zeros(code.redundancy()),
{
    let r = code.redundancy();
    let e = code.error_of(received);
    lemma_error_has_same_syndrome(code, received);
    lemma_vec_mat_add(received, e, transpose(code.parity_check, code.length), r);
    let syn = code.syndrome(received);
    assert(vec_add(syn, syn) =~= zeros(r));
}

/// The codeword of every message has the zero syndrome.
pub proof fn lemma_codeword_syndrome_is_zero(code: CodeModel, message: Seq<bool>)
    requires
        code.wf(),
        message.len() == code.dimension,
    ensures
        code.encode(message).len() == code.length,
        code.syndrome(code.encode(message)) == zeros(code.redundancy()),
{
    let r = code.redundancy();
    let ht = transpose(code.parity_check, code.length);
    lemma_vec_mat_assoc(message, code.generator, code.length, ht, r);
    let product = mat_mul(code.generator, ht, r);
    assert forall|i: int| 0 <= i < message.len() implies #[trigger] product[i] == zeros(r) by {
        assert(product[i] == code.syndrome(code.generator[i]));
    }
    lemma_vec_mat_zero_matrix(message, product, r);
}

/// Decode idempotence on codewords: the codeword of every message is
/// decoded to itself.
pub proof fn lemma_decode_fixes_codewords(code: CodeModel, message: Seq<bool>)
    requires
        code.wf(),
        message.len() == code.dimension,
    ensures
        code.decode(code.encode(message)) == code.encode(message),
{
    let c = code.encode(message);
    lemma_codeword_syndrome_is_zero(code, message);
    lemma_pack_zeros(code.redundancy(), code.redundancy());
    lemma_unpack_zero(code.length);
    assert(code.error_of(c) == zeros(code.length));
    assert(code.decode(c) =~= c);
}

/// Message round-trip: the codeword of every message is decoded to that
/// message.
pub proof fn lemma_message_round_trip(code: CodeModel, message: Seq<bool>)
    requires
        code.wf(),
        message.len() == code.dimension,
    ensures
        code.message(code.encode(message)) == message,
{
    lemma_decode_fixes_codewords(code, message);
    let c = code.encode(message);
    assert forall|j: int| 0 <= j < code.dimension implies c[j] == message[j] by {
        let f = |i: int| message[i] && code.generator[i][j];
        assert forall|i: int| 0 <= i < code.dimension && i != j implies !#[trigger] f(i) by {
            assert(code.generator[i][j] == (i == j));
        }
        lemma_sum_pick(f, j, code.dimension);
        assert(code.generator[j][j]);
    }
    assert(code.message(c) =~= message);
}

/// The words below `bound` are finitely many, and there are `bound` of
/// them.
pub proof fn lemma_words_below(bound: u64)
    ensures
        Set::new(|s: u64| s < bound).finite(),
        Set::new(|s: u64| s < bound).len() == bound,
    decreases bound,
{
    let set = Set::new(|s: u64| s < bound);
    if bound == 0 {
        assert(set =~= Set::empty());
    } else {
        let p = (bound - 1) as u64;
        lemma_words_below(p);
        assert(set =~= Set::new(|s: u64| s < p).insert(p));
    }
}

/// Table totality: the table has exactly one entry for each of the
/// `2^redundancy()` syndromes, each entry is a pattern of `length` bits,
/// and the syndrome of every received word has an entry.
pub proof fn lemma_table_total(code: CodeModel)
    requires
        code.wf(),
    ensures
        code.leaders.dom() == Set::new(|s: u64| s < span(code.redundancy())),
        code.leaders.dom().finite(),
        code.leaders.dom().len() == span(code.redundancy()),
        forall|s: u64| code.leaders.contains_key(s) ==> fits(#[trigger] code.leaders[s], code.length),
        forall|received: Seq<bool>|
            received.len() == code.length ==> code.leaders.contains_key(
                pack(#[trigger] code.syndrome(received)),
            ),
{
    let bound = span(code.redundancy());
    lemma_words_below(bound);
    assert(code.leaders.dom() =~= Set::new(|s: u64| s < bound));
    assert forall|received: Seq<bool>| received.len() == code.length implies code.leaders.contains_key(
        pack(#[trigger] code.syndrome(received)),
    ) by {
        lemma_error_has_same_syndrome(code, received);
    }
}

} // verus!
