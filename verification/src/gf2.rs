//! Linear algebra over the two-element field, as a mathematical model.
//!
//! A vector is a `Seq<bool>`, a matrix is a sequence of rows together with
//! its number of columns. Addition is exclusive-or and multiplication is
//! conjunction. Every sum is written with [`sum_below`], so that the laws
//! of this module all reduce to a handful of facts about it.

use vstd::prelude::*;

verus! {

/// The sum (exclusive-or) of `f(0)`, ..., `f(n - 1)`.
pub open spec fn sum_below(f: spec_fn(int) -> bool, n: nat) -> bool
    decreases n,
{
    if n == 0 {
        false
    } else {
        sum_below(f, (n - 1) as nat) != f(n - 1)
    }
}

/// The inner product of `a` and `b`, taken over the positions of `a`.
pub open spec fn dot(a: Seq<bool>, b: Seq<bool>) -> bool {
    sum_below(|i: int| a[i] && b[i], a.len())
}

/// The position-wise sum of `a` and `b`.
pub open spec fn vec_add(a: Seq<bool>, b: Seq<bool>) -> Seq<bool> {
    Seq::new(a.len(), |i: int| a[i] != b[i])
}

/// The all-zero vector of length `n`.
pub open spec fn zeros(n: nat) -> Seq<bool> {
    Seq::new(n, |i: int| false)
}

/// Whether `m` is a matrix with `cols` columns: every row has that length.
pub open spec fn is_matrix(m: Seq<Seq<bool>>, cols: nat) -> bool {
    forall|i: int| 0 <= i < m.len() ==> (#[trigger] m[i]).len() == cols
}

/// Column `j` of `m`.
pub open spec fn column(m: Seq<Seq<bool>>, j: int) -> Seq<bool> {
    Seq::new(m.len(), |i: int| m[i][j])
}

/// The transpose of a matrix with `cols` columns.
pub open spec fn transpose(m: Seq<Seq<bool>>, cols: nat) -> Seq<Seq<bool>> {
    Seq::new(cols, |j: int| column(m, j))
}

/// The row vector `v` times the matrix `m` with `cols` columns.
pub open spec fn vec_mat(v: Seq<bool>, m: Seq<Seq<bool>>, cols: nat) -> Seq<bool> {
    Seq::new(cols, |j: int| sum_below(|i: int| v[i] && m[i][j], v.len()))
}

/// The product of `a` with the matrix `b` of `cols` columns.
pub open spec fn mat_mul(a: Seq<Seq<bool>>, b: Seq<Seq<bool>>, cols: nat) -> Seq<Seq<bool>> {
    Seq::new(a.len(), |i: int| vec_mat(a[i], b, cols))
}

/// The identity matrix of size `n`.
pub open spec fn identity(n: nat) -> Seq<Seq<bool>> {
    Seq::new(n, |i: int| Seq::new(n, |j: int| i == j))
}

/// The first `n` entries of `v`.
pub open spec fn prefix(v: Seq<bool>, n: nat) -> Seq<bool> {
    Seq::new(n, |i: int| v[i])
}

/// Two summands that agree below `n` have the same sum.
pub proof fn lemma_sum_congruent(f: spec_fn(int) -> bool, g: spec_fn(int) -> bool, n: nat)
    requires
        forall|i: int| 0 <= i < n ==> #[trigger] f(i) == g(i),
    ensures
        sum_below(f, n) == sum_below(g, n),
    decreases n,
{
    if n > 0 {
        lemma_sum_congruent(f, g, (n - 1) as nat);
    }
}

/// A sum of zeros is zero.
pub proof fn lemma_sum_zero(f: spec_fn(int) -> bool, n: nat)
    requires
        forall|i: int| 0 <= i < n ==> !#[trigger] f(i),
    ensures
        !sum_below(f, n),
    decreases n,
{
    if n > 0 {
        lemma_sum_zero(f, (n - 1) as nat);
    }
}

/// The sum of position-wise sums is the sum of the sums.
pub proof fn lemma_sum_add(f: spec_fn(int) -> bool, g: spec_fn(int) -> bool, n: nat)
    ensures
        sum_below(|i: int| f(i) != g(i), n) == (sum_below(f, n) != sum_below(g, n)),
    decreases n,
{
    if n > 0 {
        lemma_sum_add(f, g, (n - 1) as nat);
    }
}

/// A constant factor can be taken out of a sum.
pub proof fn lemma_sum_scale(c: bool, f: spec_fn(int) -> bool, n: nat)
    ensures
        sum_below(|i: int| c && f(i), n) == (c && sum_below(f, n)),
    decreases n,
{
    if n > 0 {
        lemma_sum_scale(c, f, (n - 1) as nat);
    }
}

/// A sum whose only possible nonzero summand stands at `k` is that summand.
pub proof fn lemma_sum_pick(f: spec_fn(int) -> bool, k: int, n: nat)
    requires
        forall|i: int| 0 <= i < n && i != k ==> !#[trigger] f(i),
    ensures
        sum_below(f, n) == (0 <= k < n && f(k)),
    decreases n,
{
    if n > 0 {
        lemma_sum_pick(f, k, (n - 1) as nat);
    }
}

/// The order of two nested sums can be exchanged.
pub proof fn lemma_sum_swap(g: spec_fn(int, int) -> bool, n: nat, m: nat)
    ensures
        sum_below(|i: int| sum_below(|j: int| g(i, j), m), n) == sum_below(
            |j: int| sum_below(|i: int| g(i, j), n),
            m,
        ),
    decreases n,
{
    let inner = |i: int| sum_below(|j: int| g(i, j), m);
    let outer = |j: int| sum_below(|i: int| g(i, j), n);
    if n == 0 {
        lemma_sum_zero(outer, m);
    } else {
        let p = (n - 1) as nat;
        lemma_sum_swap(g, p, m);
        let outer_p = |j: int| sum_below(|i: int| g(i, j), p);
        let last = |j: int| g(n - 1, j);
        lemma_sum_add(outer_p, last, m);
        assert forall|j: int| 0 <= j < m implies #[trigger] outer(j) == (outer_p(j)
            != last(j)) by {}
        lemma_sum_congruent(outer, |j: int| outer_p(j) != last(j), m);
        assert(inner(n - 1) == sum_below(last, m)) by {
            lemma_sum_congruent(|j: int| g(n - 1, j), last, m);
        }
        assert(sum_below(inner, p) == sum_below(outer_p, m)) by {
            lemma_sum_congruent(inner, |i: int| sum_below(|j: int| g(i, j), m), p);
        }
    }
}

/// The inner product is symmetric on vectors of one length.
pub proof fn lemma_dot_symmetric(a: Seq<bool>, b: Seq<bool>)
    requires
        a.len() == b.len(),
    ensures
        dot(a, b) == dot(b, a),
{
    lemma_sum_congruent(|i: int| a[i] && b[i], |i: int| b[i] && a[i], a.len());
}

/// The inner product is additive in its first argument.
pub proof fn lemma_dot_add(a: Seq<bool>, b: Seq<bool>, c: Seq<bool>)
    requires
        a.len() == b.len(),
    ensures
        dot(vec_add(a, b), c) == (dot(a, c) != dot(b, c)),
{
    let n = a.len();
    let fa = |i: int| a[i] && c[i];
    let fb = |i: int| b[i] && c[i];
    lemma_sum_add(fa, fb, n);
    lemma_sum_congruent(|i: int| vec_add(a, b)[i] && c[i], |i: int| fa(i) != fb(i), n);
    lemma_sum_congruent(|i: int| b[i] && c[i], fb, n);
}

/// Multiplication by a matrix is additive in the vector.
pub proof fn lemma_vec_mat_add(a: Seq<bool>, b: Seq<bool>, m: Seq<Seq<bool>>, cols: nat)
    requires
        a.len() == b.len(),
    ensures
        vec_mat(vec_add(a, b), m, cols) == vec_add(vec_mat(a, m, cols), vec_mat(b, m, cols)),
{
    let n = a.len();
    assert forall|j: int| 0 <= j < cols implies vec_mat(vec_add(a, b), m, cols)[j] == (vec_mat(
        a,
        m,
        cols,
    )[j] != vec_mat(b, m, cols)[j]) by {
        let fa = |i: int| a[i] && m[i][j];
        let fb = |i: int| b[i] && m[i][j];
        lemma_sum_add(fa, fb, n);
        lemma_sum_congruent(
            |i: int| vec_add(a, b)[i] && m[i][j],
            |i: int| fa(i) != fb(i),
            n,
        );
        lemma_sum_congruent(|i: int| b[i] && m[i][j], fb, n);
    }
    assert(vec_mat(vec_add(a, b), m, cols) =~= vec_add(vec_mat(a, m, cols), vec_mat(b, m, cols)));
}

/// A vector times a matrix whose rows are all zero is the zero vector.
pub proof fn lemma_vec_mat_zero_matrix(v: Seq<bool>, m: Seq<Seq<bool>>, cols: nat)
    requires
        forall|i: int| 0 <= i < v.len() ==> #[trigger] m[i] == zeros(cols),
    ensures
        vec_mat(v, m, cols) == zeros(cols),
{
    assert forall|j: int| 0 <= j < cols implies !vec_mat(v, m, cols)[j] by {
        assert forall|i: int| 0 <= i < v.len() implies !(v[i] && m[i][j]) by {
            assert(m[i] == zeros(cols));
        }
        lemma_sum_zero(|i: int| v[i] && m[i][j], v.len());
    }
    assert(vec_mat(v, m, cols) =~= zeros(cols));
}

/// A vector times the identity matrix is the vector itself.
pub proof fn lemma_vec_mat_identity(v: Seq<bool>)
    ensures
        vec_mat(v, identity(v.len()), v.len()) == v,
{
    let n = v.len();
    assert forall|j: int| 0 <= j < n implies vec_mat(v, identity(n), n)[j] == v[j] by {
        lemma_sum_pick(|i: int| v[i] && identity(n)[i][j], j, n);
    }
    assert(vec_mat(v, identity(n), n) =~= v);
}

/// Multiplying by two matrices in turn is multiplying by their product.
pub proof fn lemma_vec_mat_assoc(
    v: Seq<bool>,
    a: Seq<Seq<bool>>,
    mid: nat,
    b: Seq<Seq<bool>>,
    cols: nat,
)
    requires
        v.len() == a.len(),
        is_matrix(a, mid),
    ensures
        vec_mat(vec_mat(v, a, mid), b, cols) == vec_mat(v, mat_mul(a, b, cols), cols),
{
    let n = v.len();
    assert forall|j: int| 0 <= j < cols implies vec_mat(vec_mat(v, a, mid), b, cols)[j] == vec_mat(
        v,
        mat_mul(a, b, cols),
        cols,
    )[j] by {
        let g = |i: int, l: int| v[i] && a[i][l] && b[l][j];
        lemma_sum_swap(g, n, mid);
        // the left side, summed over the middle index first
        let left = |l: int| vec_mat(v, a, mid)[l] && b[l][j];
        let left_g = |l: int| sum_below(|i: int| g(i, l), n);
        assert forall|l: int| 0 <= l < mid implies #[trigger] left(l) == left_g(l) by {
            let f = |i: int| v[i] && a[i][l];
            lemma_sum_scale(b[l][j], f, n);
            lemma_sum_congruent(|i: int| b[l][j] && f(i), |i: int| g(i, l), n);
        }
        lemma_sum_congruent(left, left_g, mid);
        // the right side, summed over the rows of `a` first
        let right = |i: int| v[i] && mat_mul(a, b, cols)[i][j];
        let right_g = |i: int| sum_below(|l: int| g(i, l), mid);
        assert forall|i: int| 0 <= i < n implies #[trigger] right(i) == right_g(i) by {
            assert(a[i].len() == mid);
            let f = |l: int| a[i][l] && b[l][j];
            lemma_sum_scale(v[i], f, mid);
            lemma_sum_congruent(|l: int| v[i] && f(l), |l: int| g(i, l), mid);
        }
        lemma_sum_congruent(right, right_g, n);
    }
    assert(vec_mat(vec_mat(v, a, mid), b, cols) =~= vec_mat(v, mat_mul(a, b, cols), cols));
}

/// A matrix moves across the inner product as its transpose:
/// `(x * m) . y == x . (y * m^T)`.
pub proof fn lemma_dot_adjoint(x: Seq<bool>, m: Seq<Seq<bool>>, cols: nat, y: Seq<bool>)
    requires
        x.len() == m.len(),
        y.len() == cols,
        is_matrix(m, cols),
    ensures
        dot(vec_mat(x, m, cols), y) == dot(x, vec_mat(y, transpose(m, cols), x.len())),
{
    let n = x.len();
    let g = |i: int, j: int| x[i] && m[i][j] && y[j];
    lemma_sum_swap(g, n, cols);
    let left = |j: int| vec_mat(x, m, cols)[j] && y[j];
    let left_g = |j: int| sum_below(|i: int| g(i, j), n);
    assert forall|j: int| 0 <= j < cols implies #[trigger] left(j) == left_g(j) by {
        let f = |i: int| x[i] && m[i][j];
        lemma_sum_scale(y[j], f, n);
        lemma_sum_congruent(|i: int| y[j] && f(i), |i: int| g(i, j), n);
    }
    lemma_sum_congruent(left, left_g, cols);
    let t = transpose(m, cols);
    let right = |i: int| x[i] && vec_mat(y, t, n)[i];
    let right_g = |i: int| sum_below(|j: int| g(i, j), cols);
    assert forall|i: int| 0 <= i < n implies #[trigger] right(i) == right_g(i) by {
        let f = |j: int| y[j] && t[j][i];
        lemma_sum_scale(x[i], f, cols);
        lemma_sum_congruent(|j: int| x[i] && f(j), |j: int| g(i, j), cols);
    }
    lemma_sum_congruent(right, right_g, n);
}

} // verus!
