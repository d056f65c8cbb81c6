//! Bit vectors of fewer than 64 bits packed into one machine word.
//!
//! Bit `i` of a word stands for position `i` of the vector. The functions
//! here relate a word to the `Seq<bool>` it stands for.

use crate::gf2::{dot, sum_below, vec_add, zeros};
use vstd::prelude::*;

verus! {

/// Bit `i` of `w`, for `i < 64`.
pub open spec fn word_bit(w: u64, i: u64) -> bool {
    (w >> i) & 1 == 1
}

/// The vector of the lowest `n` bits of `w`.
pub open spec fn unpack(w: u64, n: nat) -> Seq<bool> {
    Seq::new(n, |i: int| word_bit(w, i as u64))
}

/// The word that has exactly the bits `i < n` with `v[i]` set.
pub open spec fn pack_below(v: Seq<bool>, n: nat) -> u64
    decreases n,
{
    if n == 0 {
        0
    } else {
        with_bit(pack_below(v, (n - 1) as nat), (n - 1) as u64, v[n - 1])
    }
}

/// The word that stands for `v`, a vector of fewer than 64 bits.
pub open spec fn pack(v: Seq<bool>) -> u64 {
    pack_below(v, v.len())
}

/// `w` with bit `i` set if `b` holds.
pub open spec fn with_bit(w: u64, i: u64, b: bool) -> u64 {
    if b {
        w | (1u64 << i)
    } else {
        w
    }
}

/// Whether `w` has no bit set at position `n` or above, for `n <= 64`.
pub open spec fn fits(w: u64, n: nat) -> bool {
    n < 64 ==> w >> (n as u64) == 0
}

/// The number of values that `n` bits can take, for `n < 64`.
pub open spec fn span(n: nat) -> u64 {
    1u64 << (n as u64)
}

/// The parity of the lowest `n` bits of `w`.
pub open spec fn parity_below(w: u64, n: nat) -> bool
    decreases n,
{
    if n == 0 {
        false
    } else {
        parity_below(w, (n - 1) as nat) != word_bit(w, (n - 1) as u64)
    }
}

/// The bits of an exclusive-or are the sums of the bits.
pub proof fn lemma_bit_of_xor(a: u64, b: u64, i: u64)
    requires
        i < 64,
    ensures
        word_bit(a ^ b, i) == (word_bit(a, i) != word_bit(b, i)),
{
    assert(word_bit(a ^ b, i) == (word_bit(a, i) != word_bit(b, i))) by (bit_vector)
        requires
            i < 64,
    ;
}

/// The bits of a conjunction are the products of the bits.
pub proof fn lemma_bit_of_and(a: u64, b: u64, i: u64)
    requires
        i < 64,
    ensures
        word_bit(a & b, i) == (word_bit(a, i) && word_bit(b, i)),
{
    assert(word_bit(a & b, i) == (word_bit(a, i) && word_bit(b, i))) by (bit_vector)
        requires
            i < 64,
    ;
}

/// What setting one bit does to every bit and to the size of a word.
pub proof fn lemma_with_bit(w: u64, i: u64, b: bool, j: u64)
    requires
        i < 63,
        j < 64,
        w >> i == 0,
    ensures
        word_bit(with_bit(w, i, b), j) == (if j == i {
            b
        } else {
            word_bit(w, j)
        }),
        with_bit(w, i, b) >> ((i + 1) as u64) == 0,
{
    assert(word_bit(w | (1u64 << i), j) == (if j == i {
        true
    } else {
        word_bit(w, j)
    }) && (w | (1u64 << i)) >> ((i + 1) as u64) == 0 && w >> ((i + 1) as u64) == 0 && !word_bit(
        w,
        i,
    )) by (bit_vector)
        requires
            i < 63,
            j < 64,
            w >> i == 0,
    ;
}

/// A word without bits at `n` or above is below `span(n)`, and conversely.
pub proof fn lemma_fits_is_bound(w: u64, n: nat)
    requires
        n < 64,
    ensures
        fits(w, n) <==> w < span(n),
{
    let m = n as u64;
    assert((w >> m == 0) <==> w < (1u64 << m)) by (bit_vector)
        requires
            m < 64,
    ;
}

/// The word of a vector has the vector's bits, and none beyond them.
pub proof fn lemma_pack_below(v: Seq<bool>, n: nat)
    requires
        n < 64,
    ensures
        fits(pack_below(v, n), n),
        forall|j: u64| j < 64 ==> #[trigger] word_bit(pack_below(v, n), j) == (j < n && v[j as int]),
    decreases n,
{
    if n == 0 {
        assert(forall|j: u64| j < 64 ==> !#[trigger] word_bit(0u64, j)) by (bit_vector);
        assert(0u64 >> 0u64 == 0) by (bit_vector);
    } else {
        let p = (n - 1) as nat;
        lemma_pack_below(v, p);
        let w = pack_below(v, p);
        assert forall|j: u64| j < 64 implies #[trigger] word_bit(pack_below(v, n), j) == (j < n
            && v[j as int]) by {
            lemma_with_bit(w, p as u64, v[n - 1], j);
        }
        lemma_with_bit(w, p as u64, v[n - 1], 0);
    }
}

/// Unpacking the word of a vector gives the vector back.
pub proof fn lemma_unpack_pack(v: Seq<bool>)
    requires
        v.len() < 64,
    ensures
        unpack(pack(v), v.len()) == v,
        fits(pack(v), v.len()),
{
    lemma_pack_below(v, v.len());
    assert(unpack(pack(v), v.len()) =~= v);
}

/// The lowest `m` bits of a word, packed again, are the word without
/// its bits at `m` and above.
pub proof fn lemma_pack_below_unpack(w: u64, n: nat, m: nat)
    requires
        m <= n < 64,
    ensures
        pack_below(unpack(w, n), m) == w & ((span(m) - 1) as u64),
    decreases m,
{
    if m == 0 {
        assert(w & ((1u64 << 0u64) - 1) as u64 == 0) by (bit_vector);
    } else {
        let i = (m - 1) as u64;
        lemma_pack_below_unpack(w, n, (m - 1) as nat);
        let low = w & ((1u64 << i) - 1) as u64;
        assert(unpack(w, n)[m - 1] == word_bit(w, i));
        assert(with_bit(low, i, word_bit(w, i)) == w & ((1u64 << ((i + 1) as u64)) - 1) as u64)
            by (bit_vector)
            requires
                i < 63,
                low == w & ((1u64 << i) - 1) as u64,
        ;
    }
}

/// Packing the unpacked bits of a word that fits gives the word back.
pub proof fn lemma_pack_unpack(w: u64, n: nat)
    requires
        n < 64,
        fits(w, n),
    ensures
        pack(unpack(w, n)) == w,
{
    lemma_pack_below_unpack(w, n, n);
    let m = n as u64;
    assert(w & ((1u64 << m) - 1) as u64 == w) by (bit_vector)
        requires
            m < 64,
            w >> m == 0,
    ;
}

/// The bits of a sum of two words packed are the sums of the bits.
pub proof fn lemma_unpack_xor(a: u64, b: u64, n: nat)
    requires
        n <= 64,
    ensures
        unpack(a ^ b, n) == vec_add(unpack(a, n), unpack(b, n)),
{
    assert forall|i: int| 0 <= i < n implies unpack(a ^ b, n)[i] == (unpack(a, n)[i] != unpack(
        b,
        n,
    )[i]) by {
        lemma_bit_of_xor(a, b, i as u64);
    }
    assert(unpack(a ^ b, n) =~= vec_add(unpack(a, n), unpack(b, n)));
}

/// The sum of two words that fit fits.
pub proof fn lemma_xor_fits(a: u64, b: u64, n: nat)
    requires
        fits(a, n),
        fits(b, n),
    ensures
        fits(a ^ b, n),
{
    if n < 64 {
        let m = n as u64;
        assert((a ^ b) >> m == 0) by (bit_vector)
            requires
                a >> m == 0,
                b >> m == 0,
                m < 64,
        ;
    }
}

/// The zero word stands for the zero vector.
pub proof fn lemma_unpack_zero(n: nat)
    requires
        n <= 64,
    ensures
        unpack(0, n) == zeros(n),
        fits(0, n),
{
    assert(forall|j: u64| j < 64 ==> !#[trigger] word_bit(0u64, j)) by (bit_vector);
    assert(unpack(0, n) =~= zeros(n));
    if n < 64 {
        let m = n as u64;
        assert(0u64 >> m == 0) by (bit_vector);
    }
}

/// The parity of a conjunction of two words is the inner product of
/// the vectors that they stand for.
pub proof fn lemma_parity_is_dot(a: u64, b: u64, n: nat)
    requires
        n <= 64,
    ensures
        parity_below(a & b, n) == dot(unpack(a, n), unpack(b, n)),
{
    let f = |i: int| unpack(a, n)[i] && unpack(b, n)[i];
    assert forall|i: int| 0 <= i < n implies word_bit(a & b, i as u64) == #[trigger] f(i) by {
        lemma_bit_of_and(a, b, i as u64);
    }
    lemma_parity_is_sum(a & b, n, n, f);
}

/// The parity of the lowest `m` bits is the sum of any summand that
/// agrees with them.
pub proof fn lemma_parity_is_sum(w: u64, m: nat, n: nat, f: spec_fn(int) -> bool)
    requires
        m <= n <= 64,
        forall|i: int| 0 <= i < n ==> word_bit(w, i as u64) == #[trigger] f(i),
    ensures
        parity_below(w, m) == sum_below(f, m),
    decreases m,
{
    if m > 0 {
        lemma_parity_is_sum(w, (m - 1) as nat, n, f);
        assert(f(m - 1) == word_bit(w, (m - 1) as u64));
    }
}

} // verus!
