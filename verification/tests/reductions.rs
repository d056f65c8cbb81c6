use lpn::{
    change_of_basis, draw_queries, judge_draw, reduce_covering_codes, reduce_sparse_secret,
    BinMatrix, BinVector, BinaryCode, DrawVerdict, GuavaCode12_11, GuavaCode17_12, LinearCode,
    LpnOracle, ReductionError, Sample, SyndromeMap,
};
use rand::Rng;

fn bits(text: &str) -> BinVector {
    let bools: Vec<bool> = text.chars().map(|c| c == '1').collect();
    BinVector::from_bools(&bools)
}

fn random_bits(len: usize) -> BinVector {
    let mut rng = rand::thread_rng();
    let bools: Vec<bool> = (0..len).map(|_| rng.gen()).collect();
    BinVector::from_bools(&bools)
}

/// The sample with vector `a` and noise bit `e` under the secret.
fn sample(secret: &BinVector, a: &str, e: bool) -> Sample {
    let a = bits(a);
    let s = secret.dot(&a) != e;
    Sample { a, s, e }
}

fn random_oracle(k: usize, samples: usize) -> LpnOracle {
    let mut rng = rand::thread_rng();
    let secret = random_bits(k);
    let queries = (0..samples)
        .map(|_| {
            let a = random_bits(k);
            let e: bool = rng.gen_bool(0.125);
            let s = secret.dot(&a) != e;
            Sample { a, s, e }
        })
        .collect();
    LpnOracle::new(secret, queries).unwrap()
}

/// The inverse of a square matrix, by elimination, if it has one.
fn inverse_of(matrix: &BinMatrix) -> Option<BinMatrix> {
    let n = matrix.nrows();
    let mut rows: Vec<Vec<bool>> = (0..n)
        .map(|r| (0..2 * n).map(|c| if c < n { matrix.bit(r, c) } else { c - n == r }).collect())
        .collect();
    for col in 0..n {
        let pivot = (col..n).find(|&r| rows[r][col])?;
        rows.swap(col, pivot);
        for r in 0..n {
            if r != col && rows[r][col] {
                for c in 0..2 * n {
                    let bit = rows[col][c];
                    rows[r][c] ^= bit;
                }
            }
        }
    }
    BinMatrix::from_rows(rows.iter().map(|row| BinVector::from_bools(&row[n..])).collect(), n)
}

#[test]
fn sparse_secret_scenario() {
    let secret = bits("1011");
    let queries = vec![
        sample(&secret, "1100", true),
        sample(&secret, "0110", false),
        sample(&secret, "0011", false),
        sample(&secret, "0001", true),
    ];
    let mut oracle = LpnOracle::new(secret, queries).unwrap();
    assert_eq!(oracle.k, 4);
    assert!(oracle.is_shaped());
    assert!(oracle.is_consistent());
    let picked = vec![0, 1, 2, 3];
    let (matrix, products) = change_of_basis(&oracle, &picked).unwrap();
    // the columns of the matrix are the vectors of the samples
    assert_eq!(matrix.transposed().row(0), bits("1100"));
    assert_eq!(matrix.transposed().row(3), bits("0001"));
    assert_eq!(products, bits("0100"));
    let inverse = inverse_of(&matrix.transposed()).unwrap();
    assert_eq!(inverse.row(0), bits("1111"));
    assert_eq!(reduce_sparse_secret(&mut oracle, &picked, &inverse), Ok(()));
    assert_eq!(oracle.queries.len(), 0);
    assert_eq!(oracle.k, 4);
    // the new secret is made of the noise bits of the drawn samples
    assert_eq!(oracle.secret, bits("1001"));
    assert!(oracle.is_consistent());
}

#[test]
fn sparse_secret_keeps_the_other_samples_consistent() {
    let secret = bits("1011");
    let queries = vec![
        sample(&secret, "1110", false),
        sample(&secret, "1100", true),
        sample(&secret, "0110", false),
        sample(&secret, "0101", true),
        sample(&secret, "0011", false),
        sample(&secret, "0001", true),
        sample(&secret, "1111", false),
    ];
    let mut oracle = LpnOracle::new(secret.copy(), queries).unwrap();
    let picked = vec![5, 1, 4, 2];
    let (matrix, products) = change_of_basis(&oracle, &picked).unwrap();
    let inverse = inverse_of(&matrix.transposed()).unwrap();
    assert_eq!(reduce_sparse_secret(&mut oracle, &picked, &inverse), Ok(()));
    assert_eq!(oracle.secret, secret.times(&matrix).sum(&products));
    assert_eq!(oracle.secret, bits("1100"));
    assert_eq!(oracle.queries.len(), 3);
    // the samples that are left, in their order, with their noise bits
    let a = bits("1110").times(&inverse);
    assert_eq!(oracle.queries[0].a, a);
    assert_eq!(oracle.queries[0].s, secret.dot(&bits("1110")) != a.dot(&products));
    assert_eq!(oracle.queries[0].e, false);
    assert_eq!(oracle.queries[1].a, bits("0101").times(&inverse));
    assert_eq!(oracle.queries[1].e, true);
    assert_eq!(oracle.queries[2].a, bits("1111").times(&inverse));
    assert!(oracle.is_shaped());
    assert!(oracle.is_consistent());
}

#[test]
fn sparse_secret_on_random_instances() {
    let mut reduced = 0;
    for _ in 0..200 {
        let mut oracle = random_oracle(10, 60);
        let before = oracle.clone();
        let picked = draw_queries(&oracle).unwrap();
        let (matrix, _) = change_of_basis(&oracle, &picked).unwrap();
        match inverse_of(&matrix.transposed()) {
            Some(inverse) => {
                assert_eq!(reduce_sparse_secret(&mut oracle, &picked, &inverse), Ok(()));
                assert_eq!(oracle.queries.len(), 50);
                assert_eq!(oracle.k, 10);
                assert!(oracle.is_shaped());
                assert!(oracle.is_consistent());
                // the new secret is sparse: it is the noise of the drawn samples
                for (c, index) in picked.iter().enumerate() {
                    assert_eq!(oracle.secret.get(c), Some(before.queries[*index].e));
                }
                reduced += 1;
            }
            None => {
                let wrong = BinMatrix::identity(10);
                assert_eq!(
                    reduce_sparse_secret(&mut oracle, &picked, &wrong),
                    Err(ReductionError::ReductionFailed)
                );
                assert_eq!(oracle, before);
            }
        }
    }
    assert!(reduced > 0);
}

#[test]
fn sparse_secret_refuses_what_is_no_inverse() {
    let secret = bits("1011");
    let queries = vec![
        sample(&secret, "1100", true),
        sample(&secret, "0110", false),
        sample(&secret, "0011", false),
        sample(&secret, "0001", true),
        sample(&secret, "1010", true),
    ];
    let oracle = LpnOracle::new(secret, queries).unwrap();
    let inverse =
        BinMatrix::from_rows(vec![bits("1111"), bits("0111"), bits("0011"), bits("0001")], 4)
            .unwrap();
    let failed = Err(ReductionError::ReductionFailed);
    let attempt = |picked: Vec<usize>, inverse: &BinMatrix| {
        let mut changed = oracle.clone();
        let result = reduce_sparse_secret(&mut changed, &picked, inverse);
        if result.is_err() {
            assert_eq!(changed, oracle);
        }
        result
    };
    assert_eq!(attempt(vec![0, 1, 2, 3], &inverse), Ok(()));
    // not the inverse
    assert_eq!(attempt(vec![0, 1, 2, 3], &BinMatrix::identity(4)), failed);
    // the inverse of another draw
    assert_eq!(attempt(vec![1, 0, 2, 3], &inverse), failed);
    // vectors that depend on each other: 1100 + 0110 = 1010
    assert_eq!(attempt(vec![0, 1, 4, 3], &inverse), failed);
    // a matrix of another size
    assert_eq!(attempt(vec![0, 1, 2, 3], &BinMatrix::identity(3)), failed);
    assert_eq!(attempt(vec![0, 1, 2, 3], &BinMatrix::identity(5)), failed);
    // too few, too many, twice the same, out of range
    assert_eq!(attempt(vec![0, 1, 2], &inverse), failed);
    assert_eq!(attempt(vec![0, 1, 2, 3, 4], &inverse), failed);
    assert_eq!(attempt(vec![0, 1, 2, 2], &inverse), failed);
    assert_eq!(attempt(vec![0, 1, 2, 5], &inverse), failed);
    assert_eq!(attempt(vec![], &inverse), failed);
}

#[test]
fn change_of_basis_needs_a_valid_draw() {
    let oracle = random_oracle(3, 5);
    assert!(change_of_basis(&oracle, &vec![0, 1, 2]).is_some());
    assert!(change_of_basis(&oracle, &vec![4, 2, 0]).is_some());
    assert!(change_of_basis(&oracle, &vec![0, 1]).is_none());
    assert!(change_of_basis(&oracle, &vec![0, 1, 1]).is_none());
    assert!(change_of_basis(&oracle, &vec![0, 1, 5]).is_none());
    let (matrix, products) = change_of_basis(&oracle, &vec![4, 2, 0]).unwrap();
    assert_eq!((matrix.nrows(), matrix.ncols()), (3, 3));
    let rows = matrix.transposed();
    assert_eq!(rows.row(0), oracle.queries[4].a);
    assert_eq!(rows.row(1), oracle.queries[2].a);
    assert_eq!(rows.row(2), oracle.queries[0].a);
    assert_eq!(products.get(0), Some(oracle.queries[4].s));
    assert_eq!(products.get(2), Some(oracle.queries[0].s));
}

#[test]
fn draws_are_different_samples() {
    let oracle = random_oracle(8, 20);
    let mut seen_other_than_first = false;
    for _ in 0..100 {
        let picked = draw_queries(&oracle).unwrap();
        assert_eq!(picked.len(), 8);
        for (c, index) in picked.iter().enumerate() {
            assert!(*index < 20);
            assert!(!picked[..c].contains(index));
        }
        if picked != vec![20, 8] && picked.iter().any(|&index| index >= 8) {
            seen_other_than_first = true;
        }
    }
    assert!(seen_other_than_first);
    // all of them, where there are just enough
    let mut all = draw_queries(&random_oracle(8, 8)).unwrap();
    all.sort();
    assert_eq!(all, vec![0, 1, 2, 3, 4, 5, 6, 7]);
    assert_eq!(draw_queries(&random_oracle(8, 7)), None);
    assert_eq!(draw_queries(&random_oracle(0, 0)), Some(vec![]));
}

#[test]
fn verdict_on_a_draw() {
    assert_eq!(judge_draw(4, 4, 0), DrawVerdict::Accept);
    assert_eq!(judge_draw(4, 4, 7), DrawVerdict::Accept);
    assert_eq!(judge_draw(3, 4, 7), DrawVerdict::Retry);
    assert_eq!(judge_draw(3, 4, 1), DrawVerdict::Retry);
    assert_eq!(judge_draw(3, 4, 0), DrawVerdict::GiveUp);
    assert_eq!(judge_draw(0, 4, 0), DrawVerdict::GiveUp);
}

#[test]
fn covering_code_rejection_scenario() {
    // a code of length 15 against an instance with k = 12
    let mut columns: Vec<u64> = (1..16u64).filter(|c| c.count_ones() > 1).collect();
    columns.extend([1u64, 2, 4, 8]);
    let parity: Vec<u64> = (0..4)
        .map(|j| (0..15).filter(|&i| (columns[i] >> j) & 1 == 1).map(|i| 1u64 << i).sum())
        .collect();
    let generator: Vec<u64> = (0..11)
        .map(|i| (1u64 << i) | (0..4).map(|j| ((columns[i] >> j) & 1) << (11 + j)).sum::<u64>())
        .collect();
    let mut table = SyndromeMap::with_capacity(16);
    table.insert(0, 0);
    for (i, column) in columns.iter().enumerate() {
        table.insert(*column, 1u64 << i);
    }
    let code = LinearCode::new(15, 11, &generator, &parity, table).unwrap();
    assert_eq!(code.length(), 15);
    let mut oracle = random_oracle(12, 30);
    let before = oracle.clone();
    assert_eq!(reduce_covering_codes(&mut oracle, &code), Err(ReductionError::DimensionMismatch));
    assert_eq!(oracle.queries, before.queries);
    assert_eq!(oracle, before);
    // and a code of the right length is taken
    let mut oracle = random_oracle(15, 30);
    assert_eq!(reduce_covering_codes(&mut oracle, &code), Ok(()));
    assert_eq!(oracle.k, 11);
}

#[test]
fn covering_code_reduction_decodes_everything() {
    let code = GuavaCode17_12;
    let mut oracle = random_oracle(17, 100);
    let before = oracle.clone();
    assert_eq!(reduce_covering_codes(&mut oracle, &code), Ok(()));
    assert_eq!(oracle.k, 12);
    assert_eq!(oracle.k as usize, code.dimension());
    assert_eq!(oracle.secret.len(), 12);
    assert_eq!(oracle.secret, code.decode_to_message(&before.secret).unwrap());
    assert_eq!(oracle.queries.len(), 100);
    for (now, old) in oracle.queries.iter().zip(before.queries.iter()) {
        assert_eq!(now.a.len(), 12);
        assert_eq!(now.a, code.decode_to_message(&old.a).unwrap());
        assert_eq!(now.s, old.s);
        assert_eq!(now.e, old.e);
    }
    assert!(oracle.is_shaped());
}

#[test]
fn covering_code_reduction_of_given_samples() {
    let secret = bits("000000000001");
    let queries = vec![sample(&secret, "010000000001", false), sample(&secret, "100101100100", true)];
    let mut oracle = LpnOracle::new(secret, queries).unwrap();
    assert_eq!(reduce_covering_codes(&mut oracle, &GuavaCode12_11), Ok(()));
    assert_eq!(oracle.k, 11);
    assert_eq!(oracle.secret, bits("10000000000"));
    assert_eq!(oracle.queries[0], Sample { a: bits("01000000000"), s: true, e: false });
    assert_eq!(oracle.queries[1], Sample { a: bits("00010110010"), s: true, e: true });
    // the products are not those of the new secret any more
    assert!(!oracle.is_consistent());
}

#[test]
fn reductions_one_after_the_other() {
    let mut oracle = random_oracle(12, 80);
    let mut done = false;
    for _ in 0..200 {
        let picked = draw_queries(&oracle).unwrap();
        let (matrix, _) = change_of_basis(&oracle, &picked).unwrap();
        if let Some(inverse) = inverse_of(&matrix.transposed()) {
            assert_eq!(reduce_sparse_secret(&mut oracle, &picked, &inverse), Ok(()));
            done = true;
            break;
        }
    }
    assert!(done);
    assert!(oracle.is_consistent());
    assert_eq!(oracle.queries.len(), 68);
    assert_eq!(reduce_covering_codes(&mut oracle, &GuavaCode12_11.tables()), Ok(()));
    assert_eq!(oracle.k, 11);
    assert_eq!(oracle.queries.len(), 68);
    assert!(oracle.is_shaped());
}

#[test]
fn shape_and_consistency_are_told_apart() {
    let secret = bits("101");
    let good = LpnOracle::new(secret.copy(), vec![sample(&secret, "110", false)]).unwrap();
    assert!(good.is_shaped());
    assert!(good.is_consistent());
    let mut noisy = good.clone();
    noisy.queries[0].s = !noisy.queries[0].s;
    assert!(noisy.is_shaped());
    assert!(!noisy.is_consistent());
    let mut short = good.clone();
    short.queries[0].a = bits("11");
    assert!(!short.is_shaped());
    let mut wrong_k = good.clone();
    wrong_k.k = 4;
    assert!(!wrong_k.is_shaped());
    let empty = LpnOracle::new(BinVector::new(), vec![]).unwrap();
    assert!(empty.is_shaped());
    assert!(empty.is_consistent());
}

#[test]
fn samples_from_vectors() {
    let s = Sample::from_binvector(&bits("1010"), true);
    assert_eq!(s.a, bits("1010"));
    assert!(s.get_product());
    assert!(!s.e);
    assert!(!Sample::from_binvector(&bits("1010"), false).get_product());
    assert_eq!(s.copy(), s);
}

#[test]
fn reduction_errors_describe_themselves() {
    assert_eq!(
        ReductionError::DimensionMismatch.describe(),
        "The length of the code does not match the problem size!"
    );
    assert_eq!(
        ReductionError::ReductionFailed.describe(),
        "the drawn samples are not independent"
    );
}
