use lpn::{
    BinMatrix, BinVector, BinaryCode, CodeError, ConcatenatedCode, GuavaCode12_11, GuavaCode16_7,
    GuavaCode17_12, LinearCode, Sample, SyndromeMap,
};
use rand::Rng;

fn bits(text: &str) -> BinVector {
    let bools: Vec<bool> = text.chars().map(|c| c == '1').collect();
    BinVector::from_bools(&bools)
}

fn random_bits(len: usize) -> BinVector {
    let mut rng = rand::thread_rng();
    let bools: Vec<bool> = (0..len).map(|_| rng.gen()).collect();
    BinVector::from_bools(&bools)
}

fn weight(v: &BinVector) -> usize {
    (0..v.len()).filter(|&i| v.get(i) == Some(true)).count()
}

fn syndrome_of(code: &LinearCode, word: &BinVector) -> BinVector {
    word.times(&code.parity_check_matrix().transposed())
}

/// The words of the Hamming code of length 15 and dimension 11.
fn hamming_15_11() -> (Vec<u64>, Vec<u64>, Vec<(u64, u64)>) {
    // the columns of the parity-check matrix: the eleven values of four
    // bits with more than one bit set, then the four with one bit set
    let mut columns: Vec<u64> = (1..16u64).filter(|c| c.count_ones() > 1).collect();
    columns.extend([1u64, 2, 4, 8]);
    let parity: Vec<u64> = (0..4)
        .map(|j| (0..15).filter(|&i| (columns[i] >> j) & 1 == 1).map(|i| 1u64 << i).sum())
        .collect();
    let generator: Vec<u64> =
        (0..11).map(|i| (1u64 << i) | (0..4).map(|j| ((columns[i] >> j) & 1) << (11 + j)).sum::<u64>()).collect();
    let mut table = vec![(0u64, 0u64)];
    for (i, column) in columns.iter().enumerate() {
        table.push((*column, 1u64 << i));
    }
    (generator, parity, table)
}

fn table_of(entries: &[(u64, u64)]) -> SyndromeMap {
    let mut table = SyndromeMap::with_capacity(entries.len());
    for (syndrome, pattern) in entries {
        table.insert(*syndrome, *pattern);
    }
    table
}

fn hamming_code() -> LinearCode {
    let (generator, parity, table) = hamming_15_11();
    LinearCode::new(15, 11, &generator, &parity, table_of(&table)).unwrap()
}

#[test]
fn length_12_scenario() {
    let code = GuavaCode12_11;
    assert_eq!(code.generator_matrix().row(0), bits("100000000001"));
    assert_eq!(code.decode_to_code(&bits("111101011001")), Ok(bits("111101011001")));
    assert_eq!(code.decode_to_code(&bits("100101100100")), Ok(bits("000101100100")));
}

#[test]
fn names_lengths_dimensions() {
    assert_eq!(GuavaCode12_11.name(), "[12, 11] Guava code");
    assert_eq!(GuavaCode16_7.name(), "[16, 7] Guava code");
    assert_eq!(GuavaCode17_12.name(), "[17, 12] Guava code");
    assert_eq!((GuavaCode12_11.length(), GuavaCode12_11.dimension()), (12, 11));
    assert_eq!((GuavaCode16_7.length(), GuavaCode16_7.dimension()), (16, 7));
    assert_eq!((GuavaCode17_12.length(), GuavaCode17_12.dimension()), (17, 12));
    let tables = GuavaCode16_7.tables();
    assert_eq!((tables.length(), tables.dimension()), (16, 7));
}

#[test]
fn matrices_have_the_shape_of_the_code() {
    let g = GuavaCode16_7.generator_matrix();
    assert_eq!((g.nrows(), g.ncols()), (7, 16));
    let h = GuavaCode16_7.parity_check_matrix();
    assert_eq!((h.nrows(), h.ncols()), (9, 16));
    assert_eq!(h.row(0), BinVector::from_word(61953, 16));
    let h = GuavaCode17_12.parity_check_matrix();
    assert_eq!((h.nrows(), h.ncols()), (5, 17));
    let h = GuavaCode12_11.parity_check_matrix();
    assert_eq!((h.nrows(), h.ncols()), (1, 12));
    assert_eq!(h.row(0), BinVector::from_elem(12, true));
}

#[test]
fn table_has_one_entry_for_each_syndrome() {
    assert_eq!(GuavaCode12_11.tables().syndromes(), 2);
    assert_eq!(GuavaCode16_7.tables().syndromes(), 512);
    assert_eq!(GuavaCode17_12.tables().syndromes(), 32);
    assert_eq!(hamming_code().syndromes(), 16);
}

#[test]
fn codewords_decode_to_themselves() {
    let code = GuavaCode12_11.tables();
    for word in 0..(1u64 << 11) {
        let message = BinVector::from_word(word, 11);
        let codeword = code.encode(&message).unwrap();
        assert_eq!(codeword.len(), 12);
        assert_eq!(code.decode_to_code(&codeword), Ok(codeword));
    }
    let code = GuavaCode16_7.tables();
    for word in 0..(1u64 << 7) {
        let codeword = code.encode(&BinVector::from_word(word, 7)).unwrap();
        assert_eq!(code.decode_to_code(&codeword), Ok(codeword));
    }
    let code = GuavaCode17_12.tables();
    for word in 0..(1u64 << 12) {
        let codeword = code.encode(&BinVector::from_word(word, 12)).unwrap();
        assert_eq!(code.decode_to_code(&codeword), Ok(codeword));
    }
}

#[test]
fn decoded_words_have_the_zero_syndrome() {
    let code = GuavaCode16_7.tables();
    for word in 0..(1u64 << 16) {
        let decoded = code.decode_to_code(&BinVector::from_word(word, 16)).unwrap();
        assert!(syndrome_of(&code, &decoded).is_zero());
        assert_eq!(weight(&syndrome_of(&code, &decoded)), 0);
    }
    let code = GuavaCode12_11.tables();
    for word in 0..(1u64 << 12) {
        let decoded = code.decode_to_code(&BinVector::from_word(word, 12)).unwrap();
        assert!(syndrome_of(&code, &decoded).is_zero());
    }
    let code = GuavaCode17_12.tables();
    for _ in 0..2000 {
        let decoded = code.decode_to_code(&random_bits(17)).unwrap();
        assert!(syndrome_of(&code, &decoded).is_zero());
    }
}

#[test]
fn messages_come_back() {
    let code = GuavaCode17_12.tables();
    for word in 0..(1u64 << 12) {
        let message = BinVector::from_word(word, 12);
        let codeword = code.encode(&message).unwrap();
        assert_eq!(code.decode_to_message(&codeword), Ok(message));
    }
    let code = GuavaCode16_7;
    for word in 0..(1u64 << 7) {
        let message = BinVector::from_word(word, 7);
        let codeword = code.encode(&message).unwrap();
        assert_eq!(code.decode_to_message(&codeword), Ok(message));
    }
}

#[test]
fn encode_multiplies_by_the_generator() {
    // rows 0 and 2 of the generator matrix, added
    let code = GuavaCode16_7;
    let expected = BinVector::from_word(30977 ^ 45828, 16);
    assert_eq!(code.encode(&bits("1010000")), Ok(expected));
    assert_eq!(code.encode(&bits("0000000")), Ok(BinVector::from_elem(16, false)));
}

#[test]
fn message_is_the_start_of_the_codeword() {
    let code = GuavaCode16_7.tables();
    for _ in 0..200 {
        let received = random_bits(16);
        let codeword = code.decode_to_code(&received).unwrap();
        assert_eq!(code.decode_to_message(&received), Ok(codeword.slice(0, 7)));
    }
}

#[test]
fn one_error_is_corrected() {
    // the code of length 17 corrects every single error
    let code = GuavaCode17_12.tables();
    for word in 0..(1u64 << 12) {
        let codeword = code.encode(&BinVector::from_word(word, 12)).unwrap();
        let at = (word % 17) as usize;
        let mut error = BinVector::from_elem(17, false);
        error = error.sum(&BinVector::from_word(1 << at, 17));
        assert_eq!(code.decode_to_code(&codeword.sum(&error)), Ok(codeword));
    }
}

#[test]
fn wrong_lengths_are_refused() {
    let code = GuavaCode12_11;
    assert_eq!(code.decode_to_code(&bits("1111")), Err(CodeError::LengthMismatch));
    assert_eq!(code.decode_to_code(&random_bits(13)), Err(CodeError::LengthMismatch));
    assert_eq!(code.decode_to_message(&random_bits(11)), Err(CodeError::LengthMismatch));
    assert_eq!(code.encode(&random_bits(12)), Err(CodeError::LengthMismatch));
    assert_eq!(code.decode_to_code(&BinVector::new()), Err(CodeError::LengthMismatch));
    let mut sample = Sample::from_binvector(&bits("101"), true);
    assert_eq!(code.decode_sample(&mut sample), Err(CodeError::LengthMismatch));
    assert_eq!(sample, Sample::from_binvector(&bits("101"), true));
}

#[test]
fn decode_sample_keeps_product_and_noise() {
    let code = GuavaCode17_12;
    let received = random_bits(17);
    let mut sample = Sample { a: received.copy(), s: true, e: true };
    assert_eq!(code.decode_sample(&mut sample), Ok(()));
    assert_eq!(sample.a, code.decode_to_message(&received).unwrap());
    assert_eq!(sample.a.len(), 12);
    assert!(sample.s);
    assert!(sample.e);
}

#[test]
fn packed_words_decode_as_vectors_do() {
    let code = GuavaCode16_7.tables();
    for word in 0..(1u64 << 16) {
        let expected = code.decode_to_code(&BinVector::from_word(word, 16)).unwrap();
        assert_eq!(code.decode_word(word), expected.as_u64());
    }
    // single bit flipped at position 0
    assert_eq!(GuavaCode12_11.tables().decode_word(0b001001101001), 0b001001101000);
}

#[test]
fn decode_slice_changes_the_first_word_only() {
    let mut words = [0b001001101001u64, 77, 0];
    GuavaCode12_11.decode_slice(&mut words);
    assert_eq!(words, [0b001001101000u64, 77, 0]);
    let mut words = [17443u64 ^ 30977];
    GuavaCode16_7.decode_slice(&mut words);
    assert_eq!(words, [30977u64]);
    let mut words = [61441u64 ^ 65536, 5];
    GuavaCode17_12.tables().decode_slice(&mut words);
    assert_eq!(words, [61441u64, 5]);
}

#[test]
fn syndrome_map_holds_what_was_entered() {
    let mut table = SyndromeMap::with_capacity(4);
    assert_eq!(table.len(), 0);
    assert_eq!(table.get(3), None);
    table.insert(3, 40);
    table.insert(5, 60);
    assert_eq!(table.len(), 2);
    assert_eq!(table.get(3), Some(40));
    assert_eq!(table.get(5), Some(60));
    assert_eq!(table.get(40), None);
    table.insert(3, 41);
    assert_eq!(table.len(), 2);
    assert_eq!(table.get(3), Some(41));
}

#[test]
fn a_code_from_words() {
    let code = hamming_code();
    assert_eq!((code.length(), code.dimension()), (15, 11));
    assert_eq!(code.name(), "binary linear code");
    for word in 0..(1u64 << 11) {
        let message = BinVector::from_word(word, 11);
        let codeword = code.encode(&message).unwrap();
        let mut received = codeword.copy();
        received = received.sum(&BinVector::from_word(1 << (word % 15), 15));
        assert_eq!(code.decode_to_code(&received), Ok(codeword));
        assert_eq!(code.decode_to_message(&received), Ok(message));
    }
}

#[test]
fn ill_shaped_codes_are_refused() {
    let (generator, parity, table) = hamming_15_11();
    // the dimension is larger than the length
    assert!(matches!(
        LinearCode::new(11, 15, &generator, &parity, table_of(&table)),
        Err(CodeError::ShapeMismatch)
    ));
    // a row of the generator matrix is missing
    assert!(matches!(
        LinearCode::new(15, 11, &generator[..10], &parity, table_of(&table)),
        Err(CodeError::ShapeMismatch)
    ));
    // a parity check is missing
    assert!(matches!(
        LinearCode::new(15, 11, &generator, &parity[..3], table_of(&table)),
        Err(CodeError::ShapeMismatch)
    ));
    // a row of the generator matrix fails a parity check
    let mut broken = generator.clone();
    broken[4] ^= 1 << 14;
    assert!(matches!(
        LinearCode::new(15, 11, &broken, &parity, table_of(&table)),
        Err(CodeError::ShapeMismatch)
    ));
    // the generator matrix does not start with the identity matrix
    let mut swapped = generator.clone();
    swapped.swap(0, 1);
    assert!(matches!(
        LinearCode::new(15, 11, &swapped, &parity, table_of(&table)),
        Err(CodeError::ShapeMismatch)
    ));
    // more than 64 bits
    assert!(matches!(
        LinearCode::new(65, 65, &[0; 65], &[], table_of(&[(0, 0)])),
        Err(CodeError::ShapeMismatch)
    ));
}

#[test]
fn incomplete_tables_are_refused() {
    let (generator, parity, table) = hamming_15_11();
    // an entry is missing
    assert!(matches!(
        LinearCode::new(15, 11, &generator, &parity, table_of(&table[..15])),
        Err(CodeError::TableCoverageViolation)
    ));
    // an entry too many
    let mut more = table.clone();
    more.push((16, 0));
    assert!(matches!(
        LinearCode::new(15, 11, &generator, &parity, table_of(&more)),
        Err(CodeError::TableCoverageViolation)
    ));
    // an entry with another syndrome than its own
    let mut wrong = table.clone();
    wrong[3].1 = table[4].1;
    assert!(matches!(
        LinearCode::new(15, 11, &generator, &parity, table_of(&wrong)),
        Err(CodeError::TableCoverageViolation)
    ));
    // an entry of more than 15 bits
    let mut long = table.clone();
    long[3].1 |= 1 << 15;
    assert!(matches!(
        LinearCode::new(15, 11, &generator, &parity, table_of(&long)),
        Err(CodeError::TableCoverageViolation)
    ));
    // the zero syndrome with a codeword that is not zero
    let mut shifted = table.clone();
    shifted[0].1 = generator[0];
    assert!(matches!(
        LinearCode::new(15, 11, &generator, &parity, table_of(&shifted)),
        Err(CodeError::TableCoverageViolation)
    ));
    assert!(LinearCode::new(15, 11, &generator, &parity, table_of(&table)).is_ok());
}

#[test]
fn the_code_without_checks() {
    // length and dimension 3: every word is a codeword
    let code = LinearCode::new(3, 3, &[1, 2, 4], &[], table_of(&[(0, 0)])).unwrap();
    assert_eq!(code.syndromes(), 1);
    assert_eq!(code.decode_to_code(&bits("101")), Ok(bits("101")));
    assert_eq!(code.decode_to_message(&bits("011")), Ok(bits("011")));
    assert_eq!(code.encode(&bits("110")), Ok(bits("110")));
}

#[test]
fn concatenated_code_decodes_block_by_block() {
    let first = GuavaCode12_11.tables();
    let second = GuavaCode17_12.tables();
    let code =
        ConcatenatedCode::new(vec![GuavaCode12_11.tables(), GuavaCode17_12.tables()], 29, 23)
            .unwrap();
    assert_eq!(code.parts(), 2);
    assert_eq!((code.length(), code.dimension()), (29, 23));
    assert_eq!(code.name(), "concatenated code");
    for _ in 0..200 {
        let received = random_bits(29);
        let mut codeword = first.decode_to_code(&received.slice(0, 12)).unwrap();
        codeword.append(&second.decode_to_code(&received.slice(12, 29)).unwrap());
        assert_eq!(code.decode_to_code(&received), Ok(codeword));
        let mut message = first.decode_to_message(&received.slice(0, 12)).unwrap();
        message.append(&second.decode_to_message(&received.slice(12, 29)).unwrap());
        assert_eq!(message.len(), 23);
        assert_eq!(code.decode_to_message(&received), Ok(message.copy()));
        let mut encoded = first.encode(&message.slice(0, 11)).unwrap();
        encoded.append(&second.encode(&message.slice(11, 23)).unwrap());
        assert_eq!(code.encode(&message), Ok(encoded));
        let mut sample = Sample { a: received, s: false, e: true };
        assert_eq!(code.decode_sample(&mut sample), Ok(()));
        assert_eq!(sample, Sample { a: message, s: false, e: true });
    }
    assert_eq!(code.decode_to_code(&random_bits(28)), Err(CodeError::LengthMismatch));
    assert_eq!(code.decode_to_message(&random_bits(30)), Err(CodeError::LengthMismatch));
    assert_eq!(code.encode(&random_bits(29)), Err(CodeError::LengthMismatch));
}

#[test]
fn concatenated_code_checks_its_sums() {
    assert!(matches!(
        ConcatenatedCode::new(vec![GuavaCode12_11.tables(), GuavaCode17_12.tables()], 30, 23),
        Err(CodeError::ShapeMismatch)
    ));
    assert!(matches!(
        ConcatenatedCode::new(vec![GuavaCode12_11.tables(), GuavaCode17_12.tables()], 29, 22),
        Err(CodeError::ShapeMismatch)
    ));
    assert!(matches!(
        ConcatenatedCode::new(vec![GuavaCode12_11.tables()], 11, 11),
        Err(CodeError::ShapeMismatch)
    ));
    assert!(matches!(ConcatenatedCode::new(vec![], 1, 0), Err(CodeError::ShapeMismatch)));
    let empty = ConcatenatedCode::new(vec![], 0, 0).unwrap();
    assert_eq!(empty.decode_to_code(&BinVector::new()), Ok(BinVector::new()));
    let _ = BinMatrix::identity(1);
}

#[test]
fn errors_describe_themselves() {
    assert_eq!(
        CodeError::LengthMismatch.describe(),
        "the length of the vector is not that of the code"
    );
    assert_eq!(CodeError::ShapeMismatch.describe(), "the parts of the code do not fit together");
    assert_eq!(
        CodeError::TableCoverageViolation.describe(),
        "the syndrome table is not complete"
    );
}

#[test]
fn error_patterns_have_the_least_weight() {
    // the pattern that is taken off a word is no heavier than the word,
    // which has the same syndrome
    let code = GuavaCode16_7.tables();
    for word in 0..(1u64 << 16) {
        let error = word ^ code.decode_word(word);
        assert!(error.count_ones() <= word.count_ones());
    }
    let code = GuavaCode17_12.tables();
    for word in 0..(1u64 << 17) {
        let error = word ^ code.decode_word(word);
        assert!(error.count_ones() <= word.count_ones());
        assert!(error.count_ones() <= 2);
    }
    let code = GuavaCode12_11.tables();
    for word in 0..(1u64 << 12) {
        let error = word ^ code.decode_word(word);
        assert!(error.count_ones() <= 1);
    }
}
