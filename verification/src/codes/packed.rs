//! Codes whose matrices and syndrome table are given as packed words.

use crate::bits::{
    fits, lemma_fits_is_bound, lemma_pack_unpack, lemma_parity_is_dot, pack, parity_below, span,
    unpack, word_bit,
};
use crate::codes::model::{lemma_syndrome_entry, CodeModel};
use crate::gf2::zeros;
use vstd::prelude::*;

verus! {

/// The code of length `length` and dimension `dimension` whose generator
/// and parity-check matrices have the given words as rows, with the
/// given syndrome table.
pub open spec fn packed_model(
    length: nat,
    dimension: nat,
    generator_rows: Seq<u64>,
    parity_rows: Seq<u64>,
    leaders: Map<u64, u64>,
) -> CodeModel {
    CodeModel {
        length,
        dimension,
        generator: Seq::new(generator_rows.len(), |i: int| unpack(generator_rows[i], length)),
        parity_check: Seq::new(parity_rows.len(), |i: int| unpack(parity_rows[i], length)),
        leaders,
    }
}

/// Length and dimension fit a machine word, and there are as many rows
/// as they ask for.
pub open spec fn packed_shape(
    length: nat,
    dimension: nat,
    generator_rows: Seq<u64>,
    parity_rows: Seq<u64>,
) -> bool {
    &&& dimension <= length <= 64
    &&& length - dimension < 64
    &&& generator_rows.len() == dimension
    &&& parity_rows.len() == length - dimension
}

/// Every row of the generator matrix passes every parity check, and the
/// generator matrix starts with the identity matrix.
pub open spec fn packed_generator(
    length: nat,
    dimension: nat,
    generator_rows: Seq<u64>,
    parity_rows: Seq<u64>,
) -> bool {
    &&& forall|i: int, j: int|
        0 <= i < dimension && 0 <= j < length - dimension ==> !#[trigger] parity_below(
            generator_rows[i] & parity_rows[j],
            length,
        )
    &&& forall|i: int, c: int|
        0 <= i < dimension && 0 <= c < dimension ==> #[trigger] word_bit(
            generator_rows[i],
            c as u64,
        ) == (i == c)
}

/// The table has an entry of `length` bits for exactly the syndromes of
/// `length - dimension` bits, each entry has the syndrome that it stands
/// under, and the entry of the zero syndrome is zero.
pub open spec fn packed_table(
    length: nat,
    dimension: nat,
    parity_rows: Seq<u64>,
    leaders: Map<u64, u64>,
) -> bool {
    let redundancy = (length - dimension) as nat;
    &&& forall|s: u64| #[trigger] leaders.contains_key(s) <==> s < span(redundancy)
    &&& forall|s: u64| s < span(redundancy) ==> fits(#[trigger] leaders[s], length)
    &&& forall|s: u64, j: int|
        s < span(redundancy) && 0 <= j < redundancy ==> #[trigger] parity_below(
            leaders[s] & parity_rows[j],
            length,
        ) == word_bit(s, j as u64)
    &&& leaders[0] == 0
}

/// What has to hold of the words of a code for the code to be well
/// formed, stated on the words themselves.
pub open spec fn packed_wf(
    length: nat,
    dimension: nat,
    generator_rows: Seq<u64>,
    parity_rows: Seq<u64>,
    leaders: Map<u64, u64>,
) -> bool {
    &&& packed_shape(length, dimension, generator_rows, parity_rows)
    &&& packed_generator(length, dimension, generator_rows, parity_rows)
    &&& packed_table(length, dimension, parity_rows, leaders)
}

/// A code whose words are as [`packed_wf`] asks is well formed.
pub proof fn lemma_packed_model_wf(
    length: nat,
    dimension: nat,
    generator_rows: Seq<u64>,
    parity_rows: Seq<u64>,
    leaders: Map<u64, u64>,
)
    requires
        packed_wf(length, dimension, generator_rows, parity_rows, leaders),
    ensures
        packed_model(length, dimension, generator_rows, parity_rows, leaders).wf(),
{
    let code = packed_model(length, dimension, generator_rows, parity_rows, leaders);
    let r = code.redundancy();
    assert(code.shaped());
    assert(code.total());
    assert forall|s: u64| s < span(r) implies pack(
        code.syndrome(unpack(#[trigger] code.leaders[s], length)),
    ) == s by {
        let e = leaders[s];
        let v = unpack(e, length);
        let syn = code.syndrome(v);
        assert forall|j: int| 0 <= j < r implies syn[j] == unpack(s, r)[j] by {
            lemma_syndrome_entry(code, v, j);
            lemma_parity_is_dot(e, parity_rows[j], length);
            assert(parity_below(leaders[s] & parity_rows[j], length) == word_bit(s, j as u64));
        }
        assert(syn =~= unpack(s, r));
        lemma_fits_is_bound(s, r);
        lemma_pack_unpack(s, r);
    }
    assert forall|i: int| 0 <= i < dimension implies code.syndrome(#[trigger] code.generator[i])
        == zeros(r) by {
        let v = code.generator[i];
        let syn = code.syndrome(v);
        assert forall|j: int| 0 <= j < r implies !syn[j] by {
            lemma_syndrome_entry(code, v, j);
            lemma_parity_is_dot(generator_rows[i], parity_rows[j], length);
            assert(!parity_below(generator_rows[i] & parity_rows[j], length));
        }
        assert(syn =~= zeros(r));
    }
    assert forall|i: int, j: int|
        0 <= i < dimension && 0 <= j < dimension implies #[trigger] code.generator[i][j] == (i
        == j) by {
        assert(word_bit(generator_rows[i], j as u64) == (i == j));
    }
}

} // verus!
