//! Matrices over the two-element field.

use crate::binary_vector::BinVector;
use crate::bits::unpack;
use crate::gf2::{identity, is_matrix, mat_mul, transpose, vec_mat};
use vstd::prelude::*;

verus! {

/// A matrix of bits, kept row by row. Its view is the sequence of its
/// rows; every row has `spec_ncols()` bits.
#[derive(Debug, PartialEq, Eq)]
pub struct BinMatrix {
    rows: Vec<BinVector>,
    ncols: usize,
}

impl View for BinMatrix {
    type V = Seq<Seq<bool>>;

    closed spec fn view(&self) -> Seq<Seq<bool>> {
        Seq::new(self.rows@.len(), |i: int| self.rows@[i]@)
    }
}

impl BinMatrix {
    #[verifier::type_invariant]
    spec fn rectangular(self) -> bool {
        forall|i: int| 0 <= i < self.rows@.len() ==> (#[trigger] self.rows@[i])@.len() == self.ncols
    }

    /// The number of columns.
    pub closed spec fn spec_ncols(&self) -> nat {
        self.ncols as nat
    }

    /// The matrix with the given rows, or `None` where a row has not
    /// `ncols` bits.
    pub fn from_rows(rows: Vec<BinVector>, ncols: usize) -> (r: Option<BinMatrix>)
        ensures
            match r {
                Some(m) => m@ == Seq::new(rows@.len(), |i: int| rows@[i]@) && m.spec_ncols()
                    == ncols,
                None => !is_matrix(Seq::new(rows@.len(), |i: int| rows@[i]@), ncols as nat),
            },
            r is Some <==> is_matrix(Seq::new(rows@.len(), |i: int| rows@[i]@), ncols as nat),
    {
        let ghost model = Seq::new(rows@.len(), |i: int| rows@[i]@);
        let mut i: usize = 0;
        while i < rows.len()
            invariant
                i <= rows.len(),
                model == Seq::new(rows@.len(), |i: int| rows@[i]@),
                forall|j: int| 0 <= j < i ==> (#[trigger] rows@[j])@.len() == ncols,
            decreases rows.len() - i,
        {
            if rows[i].len() != ncols {
                assert(model[i as int].len() != ncols);
                return None;
            }
            i += 1;
        }
        assert forall|j: int| 0 <= j < model.len() implies (#[trigger] model[j]).len() == ncols by {
            assert(rows@[j]@.len() == ncols);
        }
        Some(BinMatrix { rows, ncols })
    }

    /// The matrix whose row `i` is the lowest `rowlen` bits of `words[i]`.
    pub fn from_words(words: &[u64], rowlen: usize) -> (m: BinMatrix)
        requires
            rowlen <= 64,
        ensures
            m@ == Seq::new(words@.len(), |i: int| unpack(words@[i], rowlen as nat)),
            m.spec_ncols() == rowlen,
    {
        let mut rows: Vec<BinVector> = Vec::with_capacity(words.len());
        let mut i: usize = 0;
        while i < words.len()
            invariant
                i <= words.len(),
                rowlen <= 64,
                rows@.len() == i,
                forall|j: int| 0 <= j < i ==> (#[trigger] rows@[j])@ == unpack(words@[j], rowlen as nat),
            decreases words.len() - i,
        {
            rows.push(BinVector::from_word(words[i], rowlen));
            i += 1;
        }
        let m = BinMatrix { rows, ncols: rowlen };
        assert(m@ =~= Seq::new(words@.len(), |i: int| unpack(words@[i], rowlen as nat)));
        m
    }

    /// The identity matrix of size `n`.
    pub fn identity(n: usize) -> (m: BinMatrix)
        ensures
            m@ == identity(n as nat),
            m.spec_ncols() == n,
    {
        let mut rows: Vec<BinVector> = Vec::with_capacity(n);
        let mut i: usize = 0;
        while i < n
            invariant
                i <= n,
                rows@.len() == i,
                forall|r: int| 0 <= r < i ==> (#[trigger] rows@[r])@ == identity(n as nat)[r],
            decreases n - i,
        {
            let mut row = BinVector::with_capacity(n);
            let mut j: usize = 0;
            while j < n
                invariant
                    j <= n,
                    i < n,
                    row@ == Seq::new(j as nat, |c: int| i as int == c),
                decreases n - j,
            {
                row.push(i == j);
                j += 1;
                assert(row@ =~= Seq::new(j as nat, |c: int| i as int == c));
            }
            assert(row@ =~= identity(n as nat)[i as int]);
            rows.push(row);
            i += 1;
        }
        let m = BinMatrix { rows, ncols: n };
        assert(m@ =~= identity(n as nat));
        m
    }

    /// The number of rows.
    pub fn nrows(&self) -> (n: usize)
        ensures
            n == self@.len(),
    {
        self.rows.len()
    }

    /// The number of columns, which is the length of every row.
    pub fn ncols(&self) -> (n: usize)
        ensures
            n == self.spec_ncols(),
            is_matrix(self@, self.spec_ncols()),
    {
        proof {
            use_type_invariant(self);
        }
        self.ncols
    }

    /// The bit in row `row` and column `col`.
    pub fn bit(&self, row: usize, col: usize) -> (b: bool)
        requires
            row < self@.len(),
            col < self.spec_ncols(),
        ensures
            b == self@[row as int][col as int],
    {
        proof {
            use_type_invariant(self);
        }
        match self.rows[row].get(col) {
            Some(b) => b,
            None => false,
        }
    }

    /// A copy of row `row`.
    pub fn row(&self, row: usize) -> (r: BinVector)
        requires
            row < self@.len(),
        ensures
            r@ == self@[row as int],
            r@.len() == self.spec_ncols(),
    {
        proof {
            use_type_invariant(self);
        }
        self.rows[row].copy()
    }

    /// The transpose of this matrix.
    pub fn transposed(&self) -> (t: BinMatrix)
        ensures
            t@ == transpose(self@, self.spec_ncols()),
            t.spec_ncols() == self@.len(),
    {
        let n: usize = self.rows.len();
        let cols: usize = self.ncols;
        let mut rows: Vec<BinVector> = Vec::with_capacity(cols);
        let mut j: usize = 0;
        while j < cols
            invariant
                j <= cols,
                cols == self.spec_ncols(),
                n == self@.len(),
                rows@.len() == j,
                forall|c: int| 0 <= c < j ==> (#[trigger] rows@[c])@ == transpose(self@, cols as nat)[c],
            decreases cols - j,
        {
            let mut column = BinVector::with_capacity(n);
            let mut i: usize = 0;
            while i < n
                invariant
                    i <= n,
                    j < cols,
                    cols == self.spec_ncols(),
                    n == self@.len(),
                    column@ == Seq::new(i as nat, |r: int| self@[r][j as int]),
                decreases n - i,
            {
                column.push(self.bit(i, j));
                i += 1;
                assert(column@ =~= Seq::new(i as nat, |r: int| self@[r][j as int]));
            }
            assert(column@ =~= transpose(self@, cols as nat)[j as int]);
            rows.push(column);
            j += 1;
        }
        let t = BinMatrix { rows, ncols: n };
        assert(t@ =~= transpose(self@, cols as nat));
        t
    }

    /// The product of this matrix with one of as many rows as this has
    /// columns.
    pub fn times(&self, other: &BinMatrix) -> (p: BinMatrix)
        requires
            self.spec_ncols() == other@.len(),
        ensures
            p@ == mat_mul(self@, other@, other.spec_ncols()),
            p.spec_ncols() == other.spec_ncols(),
    {
        proof {
            use_type_invariant(self);
        }
        let n: usize = self.rows.len();
        let mut rows: Vec<BinVector> = Vec::with_capacity(n);
        let mut i: usize = 0;
        while i < n
            invariant
                i <= n,
                n == self.rows@.len(),
                self.spec_ncols() == other@.len(),
                forall|r: int| 0 <= r < n ==> (#[trigger] self.rows@[r])@.len() == self.ncols,
                rows@.len() == i,
                forall|r: int|
                    0 <= r < i ==> (#[trigger] rows@[r])@ == vec_mat(
                        self@[r],
                        other@,
                        other.spec_ncols(),
                    ),
            decreases n - i,
        {
            let row = self.rows[i].times(other);
            rows.push(row);
            i += 1;
        }
        let p = BinMatrix { rows, ncols: other.ncols() };
        assert(p@ =~= mat_mul(self@, other@, other.spec_ncols()));
        p
    }

    /// Whether the two matrices have the same shape and the same bits.
    pub fn equals(&self, other: &BinMatrix) -> (r: bool)
        ensures
            r == (self@ == other@ && self.spec_ncols() == other.spec_ncols()),
    {
        if self.ncols != other.ncols {
            return false;
        }
        if self.rows.len() != other.rows.len() {
            assert(self@.len() != other@.len());
            return false;
        }
        let mut i: usize = 0;
        while i < self.rows.len()
            invariant
                i <= self.rows.len(),
                self.rows.len() == other.rows.len(),
                forall|j: int| 0 <= j < i ==> self@[j] == other@[j],
            decreases self.rows.len() - i,
        {
            if !self.rows[i].equals(&other.rows[i]) {
                assert(self@[i as int] != other@[i as int]);
                return false;
            }
            i += 1;
        }
        assert(self@ =~= other@);
        true
    }

    /// The part of this matrix from row `start_row` up to `high_row` and
    /// from column `start_col` up to `high_col`, as a matrix of its own.
    pub fn get_window(
        &self,
        start_row: usize,
        start_col: usize,
        high_row: usize,
        high_col: usize,
    ) -> (w: BinMatrix)
        requires
            start_row <= high_row <= self@.len(),
            start_col <= high_col <= self.spec_ncols(),
        ensures
            w@ == Seq::new(
                (high_row - start_row) as nat,
                |i: int|
                    Seq::new(
                        (high_col - start_col) as nat,
                        |j: int| self@[start_row + i][start_col + j],
                    ),
            ),
            w.spec_ncols() == high_col - start_col,
    {
        let ghost model = Seq::new(
            (high_row - start_row) as nat,
            |i: int|
                Seq::new(
                    (high_col - start_col) as nat,
                    |j: int| self@[start_row + i][start_col + j],
                ),
        );
        let mut rows: Vec<BinVector> = Vec::with_capacity(high_row - start_row);
        let mut i: usize = start_row;
        while i < high_row
            invariant
                start_row <= i <= high_row <= self@.len(),
                start_col <= high_col <= self.spec_ncols(),
                rows@.len() == i - start_row,
                model == Seq::new(
                    (high_row - start_row) as nat,
                    |i: int|
                        Seq::new(
                            (high_col - start_col) as nat,
                            |j: int| self@[start_row + i][start_col + j],
                        ),
                ),
                forall|r: int| 0 <= r < i - start_row ==> (#[trigger] rows@[r])@ == model[r],
            decreases high_row - i,
        {
            let mut row = BinVector::with_capacity(high_col - start_col);
            let mut j: usize = start_col;
            while j < high_col
                invariant
                    start_row <= i < high_row <= self@.len(),
                    start_col <= j <= high_col <= self.spec_ncols(),
                    row@ == Seq::new((j - start_col) as nat, |c: int| self@[i as int][start_col + c]),
                decreases high_col - j,
            {
                row.push(self.bit(i, j));
                j += 1;
                assert(row@ =~= Seq::new(
                    (j - start_col) as nat,
                    |c: int| self@[i as int][start_col + c],
                ));
            }
            assert(row@ =~= model[i - start_row]);
            rows.push(row);
            i += 1;
        }
        let w = BinMatrix { rows, ncols: high_col - start_col };
        assert(w@ =~= model);
        w
    }

    /// A copy of this matrix.
    pub fn copy(&self) -> (m: BinMatrix)
        ensures
            m@ == self@,
            m.spec_ncols() == self.spec_ncols(),
    {
        proof {
            use_type_invariant(self);
        }
        let mut rows: Vec<BinVector> = Vec::with_capacity(self.rows.len());
        let mut i: usize = 0;
        while i < self.rows.len()
            invariant
                i <= self.rows.len(),
                rows@.len() == i,
                forall|r: int| 0 <= r < i ==> (#[trigger] rows@[r])@ == self.rows@[r]@,
                forall|r: int|
                    0 <= r < self.rows@.len() ==> (#[trigger] self.rows@[r])@.len() == self.ncols,
            decreases self.rows.len() - i,
        {
            rows.push(self.rows[i].copy());
            i += 1;
        }
        let m = BinMatrix { rows, ncols: self.ncols };
        assert(m@ =~= self@);
        m
    }

    /// The only row of a matrix of one row, as a vector.
    pub fn as_vector(&self) -> (v: BinVector)
        requires
            self@.len() == 1,
        ensures
            v@ == self@[0],
    {
        self.rows[0].copy()
    }
}

} // verus!
