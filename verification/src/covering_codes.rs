//! The two reductions of a problem instance: to a sparse secret, and to
//! a smaller dimension by a covering code.

use crate::binary_matrix::BinMatrix;
use crate::binary_vector::BinVector;
use crate::codes::BinaryCode;
use crate::error::ReductionError;
use crate::gf2::{
    dot, identity, is_matrix, lemma_dot_add, lemma_dot_adjoint, lemma_dot_symmetric,
    lemma_vec_mat_assoc, lemma_vec_mat_identity, mat_mul, prefix, transpose, vec_add, vec_mat,
};
use crate::oracle::{LpnOracle, OracleModel, Sample, SampleModel};
use vstd::prelude::*;

verus! {

/// Whether `picked` names `k` different samples of the instance.
pub open spec fn valid_draw(oracle: OracleModel, picked: Seq<usize>) -> bool {
    &&& picked.len() == oracle.k
    &&& forall|c: int| 0 <= c < picked.len() ==> #[trigger] picked[c] < oracle.queries.len()
    &&& forall|c: int, d: int| 0 <= c < d < picked.len() ==> picked[c] != picked[d]
}

/// The vectors of the drawn samples, as the rows of a matrix.
pub open spec fn drawn_vectors(oracle: OracleModel, picked: Seq<usize>) -> Seq<Seq<bool>> {
    Seq::new(picked.len(), |c: int| oracle.queries[picked[c] as int].a)
}

/// The products of the drawn samples, as a vector.
pub open spec fn drawn_products(oracle: OracleModel, picked: Seq<usize>) -> Seq<bool> {
    Seq::new(picked.len(), |c: int| oracle.queries[picked[c] as int].s)
}

/// The matrix of the change of basis: its columns are the vectors of
/// the drawn samples.
pub open spec fn basis(oracle: OracleModel, picked: Seq<usize>) -> Seq<Seq<bool>> {
    transpose(drawn_vectors(oracle, picked), oracle.k)
}

/// Whether `inverse`, a matrix of `cols` columns, is the inverse of the
/// transposed matrix of the change of basis, which is the matrix whose
/// rows are the vectors of the drawn samples.
pub open spec fn inverts(
    oracle: OracleModel,
    picked: Seq<usize>,
    inverse: Seq<Seq<bool>>,
    cols: nat,
) -> bool {
    &&& inverse.len() == oracle.k
    &&& cols == oracle.k
    &&& is_matrix(inverse, oracle.k)
    &&& mat_mul(inverse, drawn_vectors(oracle, picked), oracle.k) == identity(oracle.k)
}

/// The secret after the change of basis: the secret times the matrix,
/// plus the products of the drawn samples.
pub open spec fn sparse_secret(oracle: OracleModel, picked: Seq<usize>) -> Seq<bool> {
    vec_add(
        vec_mat(oracle.secret, basis(oracle, picked), oracle.k),
        drawn_products(oracle, picked),
    )
}

/// A sample after the change of basis: its vector times the inverse,
/// and its product plus the inner product of the new vector with the
/// products of the drawn samples. The noise bit stays.
pub open spec fn rebased(
    sample: SampleModel,
    inverse: Seq<Seq<bool>>,
    products: Seq<bool>,
) -> SampleModel {
    let a = vec_mat(sample.a, inverse, products.len());
    SampleModel { a, s: sample.s != dot(a, products), e: sample.e }
}

/// The first `n` samples without the drawn ones, each after the change
/// of basis, in their order.
pub open spec fn rebased_rest(
    oracle: OracleModel,
    picked: Seq<usize>,
    inverse: Seq<Seq<bool>>,
    n: nat,
) -> Seq<SampleModel>
    decreases n,
{
    if n == 0 {
        Seq::empty()
    } else {
        let rest = rebased_rest(oracle, picked, inverse, (n - 1) as nat);
        if picked.contains((n - 1) as usize) {
            rest
        } else {
            rest.push(rebased(oracle.queries[n - 1], inverse, drawn_products(oracle, picked)))
        }
    }
}

/// The instance after the reduction to a sparse secret.
pub open spec fn sparsified(
    oracle: OracleModel,
    picked: Seq<usize>,
    inverse: Seq<Seq<bool>>,
) -> OracleModel {
    OracleModel {
        queries: rebased_rest(oracle, picked, inverse, oracle.queries.len()),
        k: oracle.k,
        secret: sparse_secret(oracle, picked),
    }
}

/// The instance after the reduction by a covering code: every vector
/// and the secret are replaced by the messages that they decode to.
pub open spec fn covered<T: BinaryCode>(oracle: OracleModel, code: T) -> OracleModel {
    OracleModel {
        queries: Seq::new(
            oracle.queries.len(),
            |i: int|
                SampleModel {
                    a: code.spec_message(oracle.queries[i].a),
                    s: oracle.queries[i].s,
                    e: oracle.queries[i].e,
                },
        ),
        k: code.spec_dimension(),
        secret: code.spec_message(oracle.secret),
    }
}

/// A sample that agrees with the secret agrees, after the change of
/// basis, with the new secret, with the noise bit that it had.
pub proof fn lemma_rebased_agrees(
    oracle: OracleModel,
    picked: Seq<usize>,
    inverse: Seq<Seq<bool>>,
    sample: SampleModel,
)
    requires
        oracle.shaped(),
        valid_draw(oracle, picked),
        inverts(oracle, picked, inverse, oracle.k),
        sample.a.len() == oracle.k,
        sample.agrees_with(oracle.secret),
    ensures
        rebased(sample, inverse, drawn_products(oracle, picked)).agrees_with(
            sparse_secret(oracle, picked),
        ),
        rebased(sample, inverse, drawn_products(oracle, picked)).a.len() == oracle.k,
        rebased(sample, inverse, drawn_products(oracle, picked)).e == sample.e,
{
    let k = oracle.k;
    let rows = drawn_vectors(oracle, picked);
    let m = basis(oracle, picked);
    let c = drawn_products(oracle, picked);
    let a = sample.a;
    let b = vec_mat(a, inverse, k);
    let moved = vec_mat(oracle.secret, m, k);
    assert(is_matrix(rows, k));
    assert(is_matrix(m, k));
    // (secret * m + c) . b == (secret * m) . b + c . b
    lemma_dot_add(moved, c, b);
    // (secret * m) . b == secret . (b * m^T), and m^T is the matrix of rows
    lemma_dot_adjoint(oracle.secret, m, k, b);
    assert(transpose(m, k) =~~= rows);
    // b * rows == a * (inverse * rows) == a
    lemma_vec_mat_assoc(a, inverse, k, rows, k);
    lemma_vec_mat_identity(a);
    lemma_dot_symmetric(b, c);
}

/// Sample invariant preservation, for the reduction to a sparse secret:
/// where every sample agrees with the secret, every sample that is left
/// agrees with the new secret.
pub proof fn lemma_sparsified_consistent(
    oracle: OracleModel,
    picked: Seq<usize>,
    inverse: Seq<Seq<bool>>,
)
    requires
        oracle.shaped(),
        oracle.consistent(),
        valid_draw(oracle, picked),
        inverts(oracle, picked, inverse, oracle.k),
    ensures
        sparsified(oracle, picked, inverse).shaped(),
        sparsified(oracle, picked, inverse).consistent(),
{
    lemma_rebased_rest(oracle, picked, inverse, oracle.queries.len());
}

/// The samples that are left have vectors of `k` bits.
pub proof fn lemma_sparsified_shaped(
    oracle: OracleModel,
    picked: Seq<usize>,
    inverse: Seq<Seq<bool>>,
)
    requires
        oracle.shaped(),
        valid_draw(oracle, picked),
    ensures
        sparsified(oracle, picked, inverse).shaped(),
{
    lemma_rest_shaped(oracle, picked, inverse, oracle.queries.len());
}

proof fn lemma_rest_shaped(
    oracle: OracleModel,
    picked: Seq<usize>,
    inverse: Seq<Seq<bool>>,
    n: nat,
)
    requires
        valid_draw(oracle, picked),
        n <= oracle.queries.len(),
    ensures
        forall|i: int|
            0 <= i < rebased_rest(oracle, picked, inverse, n).len() ==> (#[trigger] rebased_rest(
                oracle,
                picked,
                inverse,
                n,
            )[i]).a.len() == oracle.k,
    decreases n,
{
    if n > 0 {
        lemma_rest_shaped(oracle, picked, inverse, (n - 1) as nat);
        let rest = rebased_rest(oracle, picked, inverse, (n - 1) as nat);
        let all = rebased_rest(oracle, picked, inverse, n);
        assert forall|i: int| 0 <= i < all.len() implies (#[trigger] all[i]).a.len()
            == oracle.k by {
            if i < rest.len() {
                assert(all[i] == rest[i]);
            }
        }
    }
}

proof fn lemma_rebased_rest(
    oracle: OracleModel,
    picked: Seq<usize>,
    inverse: Seq<Seq<bool>>,
    n: nat,
)
    requires
        oracle.shaped(),
        oracle.consistent(),
        valid_draw(oracle, picked),
        inverts(oracle, picked, inverse, oracle.k),
        n <= oracle.queries.len(),
    ensures
        forall|i: int|
            0 <= i < rebased_rest(oracle, picked, inverse, n).len() ==> {
                let q = #[trigger] rebased_rest(oracle, picked, inverse, n)[i];
                q.a.len() == oracle.k && q.agrees_with(sparse_secret(oracle, picked))
            },
    decreases n,
{
    if n > 0 {
        lemma_rebased_rest(oracle, picked, inverse, (n - 1) as nat);
        let last = oracle.queries[n - 1];
        assert(last.a.len() == oracle.k && last.agrees_with(oracle.secret));
        lemma_rebased_agrees(oracle, picked, inverse, last);
        let rest = rebased_rest(oracle, picked, inverse, (n - 1) as nat);
        let all = rebased_rest(oracle, picked, inverse, n);
        assert forall|i: int| 0 <= i < all.len() implies (#[trigger] all[i]).a.len() == oracle.k
            && all[i].agrees_with(sparse_secret(oracle, picked)) by {
            if i < rest.len() {
                assert(all[i] == rest[i]);
            }
        }
    }
}

/// The number of indices below `n` that `picked` names.
pub open spec fn hits(picked: Seq<usize>, n: nat) -> nat
    decreases n,
{
    if n == 0 {
        0
    } else {
        hits(picked, (n - 1) as nat) + (if picked.contains((n - 1) as usize) {
            1nat
        } else {
            0nat
        })
    }
}

proof fn lemma_hits_count(picked: Seq<usize>, n: nat)
    requires
        n <= usize::MAX + 1,
    ensures
        Set::new(|x: usize| picked.contains(x) && x < n).finite(),
        Set::new(|x: usize| picked.contains(x) && x < n).len() == hits(picked, n),
    decreases n,
{
    let now = Set::new(|x: usize| picked.contains(x) && x < n);
    if n == 0 {
        assert(now =~= Set::empty());
    } else {
        let p = (n - 1) as nat;
        lemma_hits_count(picked, p);
        let before = Set::new(|x: usize| picked.contains(x) && x < p);
        if picked.contains(p as usize) {
            assert(now =~= before.insert(p as usize));
        } else {
            assert(now =~= before);
        }
    }
}

proof fn lemma_rest_len(
    oracle: OracleModel,
    picked: Seq<usize>,
    inverse: Seq<Seq<bool>>,
    n: nat,
)
    ensures
        rebased_rest(oracle, picked, inverse, n).len() + hits(picked, n) == n,
    decreases n,
{
    if n > 0 {
        lemma_rest_len(oracle, picked, inverse, (n - 1) as nat);
    }
}

/// The reduction to a sparse secret takes exactly the `k` drawn samples
/// out of the instance.
pub proof fn lemma_sparsified_count(
    oracle: OracleModel,
    picked: Seq<usize>,
    inverse: Seq<Seq<bool>>,
)
    requires
        valid_draw(oracle, picked),
        oracle.queries.len() <= usize::MAX,
    ensures
        sparsified(oracle, picked, inverse).queries.len() + oracle.k == oracle.queries.len(),
{
    let n = oracle.queries.len();
    lemma_rest_len(oracle, picked, inverse, n);
    lemma_hits_count(picked, n);
    assert(Set::new(|x: usize| picked.contains(x) && x < n) =~= picked.to_set());
    assert(picked.no_duplicates());
    picked.unique_seq_to_set();
}

/// Reduces the instance by the covering code `code`: every vector and
/// the secret are replaced by the messages that they decode to, and `k`
/// becomes the dimension of the code, which is then the length of the
/// secret and of every vector. Products and noise bits stay as they
/// are, so that a sample need not agree with the new secret.
///
/// Fails with `DimensionMismatch`, and changes nothing, exactly where
/// `k` is not the length of the code.
pub fn reduce_covering_codes<T: BinaryCode>(oracle: &mut LpnOracle, code: &T) -> (r: Result<
    (),
    ReductionError,
>)
    requires
        old(oracle)@.shaped(),
    ensures
        match r {
            Ok(()) => {
                &&& old(oracle)@.k == code.spec_length()
                &&& final(oracle)@ == covered(old(oracle)@, *code)
                &&& final(oracle)@.shaped()
            },
            Err(e) => {
                &&& e == ReductionError::DimensionMismatch
                &&& old(oracle)@.k != code.spec_length()
                &&& *final(oracle) == *old(oracle)
            },
        },
{
    if oracle.k as usize != code.length() {
        return Err(ReductionError::DimensionMismatch);
    }
    let dimension: usize = code.dimension();
    let n: usize = oracle.queries.len();
    let ghost before = oracle@;
    let mut decoded: Vec<Sample> = Vec::with_capacity(n);
    let mut i: usize = 0;
    while i < n
        invariant
            i <= n,
            n == oracle.queries.len(),
            before == oracle@,
            before.shaped(),
            before.k == code.spec_length(),
            *oracle == *old(oracle),
            decoded@.len() == i,
            forall|j: int|
                0 <= j < i ==> (#[trigger] decoded@[j])@ == covered(before, *code).queries[j]
                    && decoded@[j]@.a.len() == code.spec_dimension(),
        decreases n - i,
    {
        assert(before.queries[i as int].a.len() == before.k);
        match code.decode_to_message(&oracle.queries[i].a) {
            Ok(message) => {
                decoded.push(Sample { a: message, s: oracle.queries[i].s, e: oracle.queries[i].e });
            },
            Err(_) => {
                return Err(ReductionError::DimensionMismatch);
            },
        }
        i += 1;
    }
    match code.decode_to_message(&oracle.secret) {
        Ok(secret) => {
            oracle.queries = decoded;
            oracle.secret = secret;
            oracle.k = dimension as u32;
            assert(oracle@.queries =~= covered(before, *code).queries);
            assert forall|j: int| 0 <= j < oracle@.queries.len() implies (
            #[trigger] oracle@.queries[j]).a.len() == oracle@.k by {
                assert(decoded@[j]@.a.len() == code.spec_dimension());
            }
            Ok(())
        },
        Err(_) => Err(ReductionError::DimensionMismatch),
    }
}

/// Reduces the instance to a sparse secret with the drawn samples
/// `picked` and the matrix `inverse`.
///
/// The matrix of the change of basis has the vectors of the drawn
/// samples as its columns; `inverse` has to be the inverse of its
/// transpose. The secret becomes the secret times the matrix plus the
/// products of the drawn samples; the drawn samples leave the instance,
/// and every other sample is taken to the new basis. Samples that
/// agreed with the secret then agree with the new one.
///
/// Fails with `ReductionFailed`, and changes nothing, exactly where
/// `picked` does not name `k` different samples or `inverse` is not that
/// inverse.
pub fn reduce_sparse_secret(oracle: &mut LpnOracle, picked: &Vec<usize>, inverse: &BinMatrix) -> (r:
    Result<(), ReductionError>)
    requires
        old(oracle)@.shaped(),
    ensures
        match r {
            Ok(()) => {
                &&& valid_draw(old(oracle)@, picked@)
                &&& inverts(old(oracle)@, picked@, inverse@, inverse.spec_ncols())
                &&& final(oracle)@ == sparsified(old(oracle)@, picked@, inverse@)
                &&& final(oracle)@.shaped()
                &&& final(oracle)@.queries.len() + old(oracle)@.k == old(oracle)@.queries.len()
            },
            Err(e) => {
                &&& e == ReductionError::ReductionFailed
                &&& !(valid_draw(old(oracle)@, picked@) && inverts(
                    old(oracle)@,
                    picked@,
                    inverse@,
                    inverse.spec_ncols(),
                ))
                &&& *final(oracle) == *old(oracle)
            },
        },
        old(oracle)@.consistent() && r is Ok ==> final(oracle)@.consistent(),
{
    let ghost before = oracle@;
    let k: usize = oracle.k as usize;
    let n: usize = oracle.queries.len();
    let marks = match mark_drawn(n, k, picked) {
        Some(marks) => marks,
        None => {
            return Err(ReductionError::ReductionFailed);
        },
    };
    let (rows, products) = drawn_parts(oracle, picked);
    let inverse_cols: usize = inverse.ncols();
    if inverse.nrows() != k || inverse_cols != k {
        return Err(ReductionError::ReductionFailed);
    }
    if !inverse.times(&rows).equals(&BinMatrix::identity(k)) {
        return Err(ReductionError::ReductionFailed);
    }
    let matrix = rows.transposed();
    let secret = oracle.secret.times(&matrix).sum(&products);
    let mut rest: Vec<Sample> = Vec::new();
    let mut i: usize = 0;
    while i < n
        invariant
            i <= n,
            n == oracle.queries.len(),
            before == oracle@,
            before.shaped(),
            *oracle == *old(oracle),
            valid_draw(before, picked@),
            inverse@.len() == before.k,
            inverse.spec_ncols() == before.k,
            products@ == drawn_products(before, picked@),
            marks@.len() == n,
            forall|j: int| 0 <= j < n ==> #[trigger] marks@[j] == picked@.contains(j as usize),
            Seq::new(rest@.len(), |j: int| rest@[j]@) == rebased_rest(
                before,
                picked@,
                inverse@,
                i as nat,
            ),
        decreases n - i,
    {
        let ghost model = Seq::new(rest@.len(), |j: int| rest@[j]@);
        if !marks[i] {
            assert(before.queries[i as int].a.len() == before.k);
            let a = oracle.queries[i].a.times(inverse);
            let s = oracle.queries[i].s != a.dot(&products);
            rest.push(Sample { a, s, e: oracle.queries[i].e });
            assert(Seq::new(rest@.len(), |j: int| rest@[j]@) =~= model.push(
                rebased(before.queries[i as int], inverse@, drawn_products(before, picked@)),
            ));
        } else {
            assert(Seq::new(rest@.len(), |j: int| rest@[j]@) =~= model);
        }
        i += 1;
    }
    oracle.queries = rest;
    oracle.secret = secret;
    proof {
        assert(oracle@.queries =~= sparsified(before, picked@, inverse@).queries);
        lemma_sparsified_shaped(before, picked@, inverse@);
        lemma_sparsified_count(before, picked@, inverse@);
        if before.consistent() {
            lemma_sparsified_consistent(before, picked@, inverse@);
        }
    }
    Ok(())
}

/// Marks the drawn samples among `n` samples: entry `i` of the result
/// says whether `picked` names sample `i`. `None` where `picked` does
/// not name `k` different samples below `n`.
fn mark_drawn(n: usize, k: usize, picked: &Vec<usize>) -> (r: Option<Vec<bool>>)
    ensures
        match r {
            Some(marks) => {
                &&& picked@.len() == k
                &&& forall|c: int| 0 <= c < picked@.len() ==> #[trigger] picked@[c] < n
                &&& forall|c: int, d: int| 0 <= c < d < picked@.len() ==> picked@[c] != picked@[d]
                &&& marks@.len() == n
                &&& forall|j: int|
                    0 <= j < n ==> #[trigger] marks@[j] == picked@.contains(j as usize)
            },
            None => !(picked@.len() == k && (forall|c: int|
                0 <= c < picked@.len() ==> #[trigger] picked@[c] < n) && (forall|c: int, d: int|
                0 <= c < d < picked@.len() ==> picked@[c] != picked@[d])),
        },
{
    if picked.len() != k {
        return None;
    }
    let mut marks: Vec<bool> = Vec::with_capacity(n);
    let mut j: usize = 0;
    while j < n
        invariant
            j <= n,
            marks@.len() == j,
            forall|i: int| 0 <= i < j ==> !#[trigger] marks@[i],
        decreases n - j,
    {
        marks.push(false);
        j += 1;
    }
    let mut c: usize = 0;
    while c < k
        invariant
            c <= k,
            k == picked@.len(),
            marks@.len() == n,
            forall|b: int| 0 <= b < c ==> #[trigger] picked@[b] < n,
            forall|b: int, d: int| 0 <= b < d < c ==> picked@[b] != picked@[d],
            forall|i: int|
                0 <= i < n ==> #[trigger] marks@[i] == picked@.take(c as int).contains(i as usize),
        decreases k - c,
    {
        let index: usize = picked[c];
        if index >= n {
            return None;
        }
        if marks[index] {
            proof {
                let b = choose|b: int| 0 <= b < c && picked@.take(c as int)[b] == index;
                assert(picked@[b] == picked@[c as int]);
            }
            return None;
        }
        marks.set(index, true);
        proof {
            let before = picked@.take(c as int);
            let after = picked@.take(c + 1);
            assert(after =~= before.push(index));
            assert forall|i: int| 0 <= i < n implies #[trigger] marks@[i] == after.contains(
                i as usize,
            ) by {
                if before.contains(i as usize) {
                    let b = choose|b: int| 0 <= b < before.len() && before[b] == i as usize;
                    assert(after[b] == i as usize);
                }
                if i == index {
                    assert(after[c as int] == index);
                }
            }
            assert forall|b: int, d: int| 0 <= b < d < c + 1 implies picked@[b] != picked@[d] by {
                if d == c && picked@[b] == index {
                    assert(before[b] == index);
                }
            }
        }
        c += 1;
    }
    assert(picked@.take(k as int) =~= picked@);
    Some(marks)
}

/// The matrix whose rows are the vectors of the drawn samples, and the
/// vector of their products.
fn drawn_parts(oracle: &LpnOracle, picked: &Vec<usize>) -> (r: (BinMatrix, BinVector))
    requires
        oracle@.shaped(),
        valid_draw(oracle@, picked@),
    ensures
        r.0@ == drawn_vectors(oracle@, picked@),
        r.0.spec_ncols() == oracle@.k,
        r.1@ == drawn_products(oracle@, picked@),
{
    let k: usize = picked.len();
    let mut rows: Vec<BinVector> = Vec::with_capacity(k);
    let mut products = BinVector::with_capacity(k);
    let mut c: usize = 0;
    while c < k
        invariant
            c <= k,
            k == picked@.len(),
            oracle@.shaped(),
            valid_draw(oracle@, picked@),
            rows@.len() == c,
            forall|b: int| 0 <= b < c ==> (#[trigger] rows@[b])@ == drawn_vectors(oracle@, picked@)[b],
            products@ == prefix(drawn_products(oracle@, picked@), c as nat),
        decreases k - c,
    {
        let index: usize = picked[c];
        assert(oracle@.queries[index as int].a.len() == oracle@.k);
        rows.push(oracle.queries[index].a.copy());
        products.push(oracle.queries[index].s);
        c += 1;
        assert(products@ =~= prefix(drawn_products(oracle@, picked@), c as nat));
    }
    assert(products@ =~= drawn_products(oracle@, picked@));
    let ghost model = Seq::new(rows@.len(), |i: int| rows@[i]@);
    assert(model =~= drawn_vectors(oracle@, picked@));
    assert(is_matrix(model, k as nat));
    match BinMatrix::from_rows(rows, k) {
        Some(matrix) => (matrix, products),
        None => (BinMatrix::identity(k), products),
    }
}

/// Whether the entries of `picked` are different indices below `length`.
pub open spec fn distinct_below(picked: Seq<usize>, length: nat) -> bool {
    &&& forall|c: int| 0 <= c < picked.len() ==> #[trigger] picked[c] < length
    &&& forall|c: int, d: int| 0 <= c < d < picked.len() ==> picked[c] != picked[d]
}

/// `rand::seq::index::sample` with the generator of the thread: it
/// returns `amount` different indices below `length`, in an order and a
/// choice that differ from call to call.
#[verifier::external_body]
fn sample_indices(length: usize, amount: usize) -> (picked: Vec<usize>)
    requires
        amount <= length,
    ensures
        picked@.len() == amount,
        distinct_below(picked@, length as nat),
{
    rand::seq::index::sample(&mut rand::thread_rng(), length, amount).into_vec()
}

/// Draws `k` different samples of the instance at random. `None`
/// exactly where the instance has fewer than `k` samples.
pub fn draw_queries(oracle: &LpnOracle) -> (r: Option<Vec<usize>>)
    ensures
        match r {
            Some(picked) => valid_draw(oracle@, picked@),
            None => oracle@.queries.len() < oracle@.k,
        },
{
    let k: usize = oracle.k as usize;
    if oracle.queries.len() < k {
        return None;
    }
    Some(sample_indices(oracle.queries.len(), k))
}

/// The matrix of the change of basis that the drawn samples give, whose
/// columns are their vectors, and the vector of their products. `None`
/// exactly where `picked` does not name `k` different samples.
pub fn change_of_basis(oracle: &LpnOracle, picked: &Vec<usize>) -> (r: Option<
    (BinMatrix, BinVector),
>)
    requires
        oracle@.shaped(),
    ensures
        match r {
            Some((matrix, products)) => {
                &&& valid_draw(oracle@, picked@)
                &&& matrix@ == basis(oracle@, picked@)
                &&& matrix.spec_ncols() == oracle@.k
                &&& products@ == drawn_products(oracle@, picked@)
            },
            None => !valid_draw(oracle@, picked@),
        },
{
    match mark_drawn(oracle.queries.len(), oracle.k as usize, picked) {
        Some(_) => {
            let (rows, products) = drawn_parts(oracle, picked);
            Some((rows.transposed(), products))
        },
        None => None,
    }
}

/// What to do with a draw once the rank of its matrix is known.
#[derive(Clone, Copy, Debug, PartialEq, Eq, Structural)]
pub enum DrawVerdict {
    /// The matrix is invertible: reduce with this draw.
    Accept,
    /// The matrix is not invertible: draw again.
    Retry,
    /// The matrix is not invertible and no draw is left: the reduction
    /// has failed.
    GiveUp,
}

/// Judges a draw whose matrix of `k` rows and columns has the rank
/// `rank`, with `draws_left` further draws allowed: a matrix of full
/// rank is accepted, any other is drawn again as long as a draw is
/// left.
pub fn judge_draw(rank: usize, k: usize, draws_left: usize) -> (verdict: DrawVerdict)
    ensures
        verdict == (if rank == k {
            DrawVerdict::Accept
        } else if draws_left > 0 {
            DrawVerdict::Retry
        } else {
            DrawVerdict::GiveUp
        }),
{
    if rank == k {
        DrawVerdict::Accept
    } else if draws_left > 0 {
        DrawVerdict::Retry
    } else {
        DrawVerdict::GiveUp
    }
}

} // verus!
