//! Vectors over the two-element field.

use crate::binary_matrix::BinMatrix;
use crate::bits::{pack, pack_below, unpack};
use crate::gf2::{dot, prefix, sum_below, vec_add, vec_mat, zeros};
use vstd::prelude::*;

verus! {

/// A vector of bits. Its view is the sequence of its bits.
#[derive(Clone, Debug, PartialEq, Eq, Hash)]
pub struct BinVector {
    bits: Vec<bool>,
}

impl View for BinVector {
    type V = Seq<bool>;

    closed spec fn view(&self) -> Seq<bool> {
        self.bits@
    }
}

impl BinVector {
    /// The empty vector.
    pub fn new() -> (r: BinVector)
        ensures
            r@ == Seq::<bool>::empty(),
    {
        BinVector { bits: Vec::new() }
    }

    /// The empty vector, with room for `len` bits.
    pub fn with_capacity(len: usize) -> (r: BinVector)
        ensures
            r@ == Seq::<bool>::empty(),
    {
        BinVector { bits: Vec::with_capacity(len) }
    }

    /// The vector with the given bits.
    pub fn from_bools(bools: &[bool]) -> (r: BinVector)
        ensures
            r@ == bools@,
    {
        let mut bits: Vec<bool> = Vec::with_capacity(bools.len());
        let mut i: usize = 0;
        while i < bools.len()
            invariant
                i <= bools.len(),
                bits@ == bools@.take(i as int),
            decreases bools.len() - i,
        {
            bits.push(bools[i]);
            i += 1;
            assert(bits@ =~= bools@.take(i as int));
        }
        assert(bools@.take(bools.len() as int) =~= bools@);
        BinVector { bits }
    }

    /// The vector of `len` bits that all equal `elem`.
    pub fn from_elem(len: usize, elem: bool) -> (r: BinVector)
        ensures
            r@ == Seq::new(len as nat, |i: int| elem),
    {
        let mut bits: Vec<bool> = Vec::with_capacity(len);
        let mut i: usize = 0;
        while i < len
            invariant
                i <= len,
                bits@ == Seq::new(i as nat, |j: int| elem),
            decreases len - i,
        {
            bits.push(elem);
            i += 1;
            assert(bits@ =~= Seq::new(i as nat, |j: int| elem));
        }
        BinVector { bits }
    }

    /// The vector of the lowest `len` bits of `word`.
    pub fn from_word(word: u64, len: usize) -> (r: BinVector)
        requires
            len <= 64,
        ensures
            r@ == unpack(word, len as nat),
    {
        let mut bits: Vec<bool> = Vec::with_capacity(len);
        let mut i: usize = 0;
        while i < len
            invariant
                i <= len <= 64,
                bits@ == unpack(word, i as nat),
            decreases len - i,
        {
            let shift: u64 = i as u64;
            bits.push((word >> shift) & 1 == 1);
            i += 1;
            assert(bits@ =~= unpack(word, i as nat));
        }
        BinVector { bits }
    }

    /// The number of bits.
    pub fn len(&self) -> (n: usize)
        ensures
            n == self@.len(),
    {
        self.bits.len()
    }

    /// The bit at position `i`, if there is one.
    pub fn get(&self, i: usize) -> (r: Option<bool>)
        ensures
            r == (if i < self@.len() {
                Some(self@[i as int])
            } else {
                None
            }),
    {
        if i < self.bits.len() {
            Some(self.bits[i])
        } else {
            None
        }
    }

    /// Appends one bit.
    pub fn push(&mut self, bit: bool)
        ensures
            final(self)@ == old(self)@.push(bit),
    {
        self.bits.push(bit);
    }

    /// Keeps the first `len` bits; a vector that is no longer is left as it is.
    pub fn truncate(&mut self, len: usize)
        ensures
            final(self)@ == (if len <= old(self)@.len() {
                prefix(old(self)@, len as nat)
            } else {
                old(self)@
            }),
    {
        if len <= self.bits.len() {
            self.bits.truncate(len);
            assert(self.bits@ =~= prefix(old(self)@, len as nat));
        }
    }

    /// The bits from position `start` up to position `end`.
    pub fn slice(&self, start: usize, end: usize) -> (r: BinVector)
        requires
            start <= end <= self@.len(),
        ensures
            r@ == self@.subrange(start as int, end as int),
    {
        let mut bits: Vec<bool> = Vec::with_capacity(end - start);
        let mut i: usize = start;
        while i < end
            invariant
                start <= i <= end <= self.bits.len(),
                bits@ == self.bits@.subrange(start as int, i as int),
            decreases end - i,
        {
            bits.push(self.bits[i]);
            i += 1;
            assert(bits@ =~= self.bits@.subrange(start as int, i as int));
        }
        BinVector { bits }
    }

    /// Appends the bits of `other`.
    pub fn append(&mut self, other: &BinVector)
        ensures
            final(self)@ == old(self)@ + other@,
    {
        let mut i: usize = 0;
        while i < other.bits.len()
            invariant
                i <= other.bits.len(),
                self.bits@ == old(self).bits@ + other.bits@.take(i as int),
            decreases other.bits.len() - i,
        {
            self.bits.push(other.bits[i]);
            i += 1;
            assert(self.bits@ =~= old(self).bits@ + other.bits@.take(i as int));
        }
        assert(other.bits@.take(other.bits.len() as int) =~= other.bits@);
    }

    /// A copy of this vector.
    pub fn copy(&self) -> (r: BinVector)
        ensures
            r@ == self@,
    {
        let mut bits: Vec<bool> = Vec::with_capacity(self.bits.len());
        let mut i: usize = 0;
        while i < self.bits.len()
            invariant
                i <= self.bits.len(),
                bits@ == self.bits@.take(i as int),
            decreases self.bits.len() - i,
        {
            bits.push(self.bits[i]);
            i += 1;
            assert(bits@ =~= self.bits@.take(i as int));
        }
        assert(self.bits@.take(self.bits.len() as int) =~= self.bits@);
        BinVector { bits }
    }

    /// Whether the two vectors have the same bits.
    pub fn equals(&self, other: &BinVector) -> (r: bool)
        ensures
            r == (self@ == other@),
    {
        if self.bits.len() != other.bits.len() {
            return false;
        }
        let mut i: usize = 0;
        while i < self.bits.len()
            invariant
                i <= self.bits.len(),
                self.bits.len() == other.bits.len(),
                forall|j: int| 0 <= j < i ==> self.bits@[j] == other.bits@[j],
            decreases self.bits.len() - i,
        {
            if self.bits[i] != other.bits[i] {
                return false;
            }
            i += 1;
        }
        assert(self@ =~= other@);
        true
    }

    /// Whether every bit is zero.
    pub fn is_zero(&self) -> (r: bool)
        ensures
            r == (self@ == zeros(self@.len())),
    {
        let mut i: usize = 0;
        while i < self.bits.len()
            invariant
                i <= self.bits.len(),
                forall|j: int| 0 <= j < i ==> !self.bits@[j],
            decreases self.bits.len() - i,
        {
            if self.bits[i] {
                assert(zeros(self@.len())[i as int] != self@[i as int]);
                return false;
            }
            i += 1;
        }
        assert(self@ =~= zeros(self@.len()));
        true
    }

    /// The sum of two vectors of one length.
    pub fn sum(&self, other: &BinVector) -> (r: BinVector)
        requires
            self@.len() == other@.len(),
        ensures
            r@ == vec_add(self@, other@),
    {
        let n: usize = self.bits.len();
        let mut bits: Vec<bool> = Vec::with_capacity(n);
        let mut i: usize = 0;
        while i < n
            invariant
                i <= n,
                n == self.bits.len(),
                n == other.bits.len(),
                bits@ == prefix(vec_add(self@, other@), i as nat),
            decreases n - i,
        {
            bits.push(self.bits[i] != other.bits[i]);
            i += 1;
            assert(bits@ =~= prefix(vec_add(self@, other@), i as nat));
        }
        assert(bits@ =~= vec_add(self@, other@));
        BinVector { bits }
    }

    /// The inner product of two vectors of one length.
    pub fn dot(&self, other: &BinVector) -> (r: bool)
        requires
            self@.len() == other@.len(),
        ensures
            r == dot(self@, other@),
    {
        let n: usize = self.bits.len();
        let ghost f = |i: int| self@[i] && other@[i];
        let mut acc: bool = false;
        let mut i: usize = 0;
        while i < n
            invariant
                i <= n,
                n == self.bits.len(),
                n == other.bits.len(),
                f == |i: int| self@[i] && other@[i],
                acc == sum_below(f, i as nat),
            decreases n - i,
        {
            acc = acc != (self.bits[i] && other.bits[i]);
            i += 1;
        }
        acc
    }

    /// The product of this row vector with a matrix of as many rows.
    pub fn times(&self, matrix: &BinMatrix) -> (r: BinVector)
        requires
            self@.len() == matrix@.len(),
        ensures
            r@ == vec_mat(self@, matrix@, matrix.spec_ncols()),
    {
        let n: usize = self.bits.len();
        let cols: usize = matrix.ncols();
        let mut bits: Vec<bool> = Vec::with_capacity(cols);
        let mut j: usize = 0;
        while j < cols
            invariant
                j <= cols,
                cols == matrix.spec_ncols(),
                n == self.bits.len(),
                n == matrix@.len(),
                bits@ == prefix(vec_mat(self@, matrix@, cols as nat), j as nat),
            decreases cols - j,
        {
            let ghost f = |i: int| self@[i] && matrix@[i][j as int];
            let mut acc: bool = false;
            let mut i: usize = 0;
            while i < n
                invariant
                    i <= n,
                    j < cols,
                    cols == matrix.spec_ncols(),
                    n == self.bits.len(),
                    n == matrix@.len(),
                    f == |i: int| self@[i] && matrix@[i][j as int],
                    acc == sum_below(f, i as nat),
                decreases n - i,
            {
                acc = acc != (self.bits[i] && matrix.bit(i, j));
                i += 1;
            }
            bits.push(acc);
            j += 1;
            assert(bits@ =~= prefix(vec_mat(self@, matrix@, cols as nat), j as nat));
        }
        assert(bits@ =~= vec_mat(self@, matrix@, cols as nat));
        BinVector { bits }
    }

    /// The word that stands for this vector of fewer than 64 bits:
    /// bit `i` of it is the bit at position `i`.
    pub fn as_u64(&self) -> (w: u64)
        requires
            self@.len() < 64,
        ensures
            w == pack(self@),
    {
        let n: usize = self.bits.len();
        let mut acc: u64 = 0;
        let mut i: usize = 0;
        while i < n
            invariant
                i <= n < 64,
                n == self.bits.len(),
                acc == pack_below(self@, i as nat),
            decreases n - i,
        {
            if self.bits[i] {
                let shift: u64 = i as u64;
                acc = acc | (1u64 << shift);
            }
            i += 1;
        }
        acc
    }
}

} // verus!
