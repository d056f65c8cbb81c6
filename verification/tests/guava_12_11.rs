use lpn::binary_vector::BinVector;
use lpn::codes::guava::guava_12_11::GuavaCode12_11;
use lpn::codes::BinaryCode;
use lpn::oracle::Sample;
use rand::Rng;

fn random_vector(len: usize) -> BinVector {
    let mut rng = rand::thread_rng();
    let bits: Vec<bool> = (0..len).map(|_| rng.gen()).collect();
    BinVector::from_bools(&bits)
}

#[test]
fn guava_12_11_size() {
    let code = GuavaCode12_11.generator_matrix();
    assert_eq!(code.ncols(), 12);
    assert_eq!(code.nrows(), 11);
}

#[test]
fn guava_12_11_test_decode_sample() {
    let code = GuavaCode12_11;
    for _ in 0..1000 {
        // setup
        let vec = random_vector(code.length());
        let mut sample_a = Sample::from_binvector(&vec, false);
        let mut sample_b = Sample::from_binvector(&vec, true);
        
        let decoded_vec = code.decode_to_message(&vec).unwrap();
        println!("decoded_vec: {:?}", decoded_vec);

        // test vectors
        let decoded_vec_sample_a = Sample::from_binvector(&decoded_vec, false);
        let decoded_vec_sample_b = Sample::from_binvector(&decoded_vec, true);

        code.decode_sample(&mut sample_a).unwrap();
        code.decode_sample(&mut sample_b).unwrap();
        assert_eq!(sample_a.get_product(), false);
        assert_eq!(sample_b.get_product(), true);
        assert_eq!(sample_a, decoded_vec_sample_a);
        assert_eq!(sample_b, decoded_vec_sample_b);
    }
}

#[test]
fn guava_12_11_random_decode_tests() {

    {
        let code = GuavaCode12_11;
        let randvec = BinVector::from_bools(&[true, true, true, true, false, true, false, true, true, false, false, true]);
        let codeword = BinVector::from_bools(&[true, true, true, true, false, true, false, true, true, false, false, true]);
        assert_eq!(code.decode_to_code(&randvec), Ok(codeword));
    }
    
    {
        let code = GuavaCode12_11;
        let randvec = BinVector::from_bools(&[true, false, false, true, false, false, true, true, false, true, false, false]);
        let codeword = BinVector::from_bools(&[false, false, false, true, false, false, true, true, false, true, false, false]);
        assert_eq!(code.decode_to_code(&randvec), Ok(codeword));
    }
    
    {
        let code = GuavaCode12_11;
        let randvec = BinVector::from_bools(&[false, false, true, false, false, false, true, true, false, false, false, false]);
        let codeword = BinVector::from_bools(&[true, false, true, false, false, false, true, true, false, false, false, false]);
        assert_eq!(code.decode_to_code(&randvec), Ok(codeword));
    }
    
    {
        let code = GuavaCode12_11;
        let randvec = BinVector::from_bools(&[true, true, true, true, false, false, false, false, true, true, false, true]);
        let codeword = BinVector::from_bools(&[false, true, true, true, false, false, false, false, true, true, false, true]);
        assert_eq!(code.decode_to_code(&randvec), Ok(codeword));
    }
    
    {
        let code = GuavaCode12_11;
        let randvec = BinVector::from_bools(&[true, false, true, false, false, true, false, true, false, false, false, false]);
        let codeword = BinVector::from_bools(&[true, false, true, false, false, true, false, true, false, false, false, false]);
        assert_eq!(code.decode_to_code(&randvec), Ok(codeword));
    }
    
    {
        let code = GuavaCode12_11;
        let randvec = BinVector::from_bools(&[false, false, false, true, false, true, true, true, false, false, false, false]);
        let codeword = BinVector::from_bools(&[false, false, false, true, false, true, true, true, false, false, false, false]);
        assert_eq!(code.decode_to_code(&randvec), Ok(codeword));
    }
    
    {
        let code = GuavaCode12_11;
        let randvec = BinVector::from_bools(&[false, false, false, false, false, false, false, true, true, true, true, false]);
        let codeword = BinVector::from_bools(&[false, false, false, false, false, false, false, true, true, true, true, false]);
        assert_eq!(code.decode_to_code(&randvec), Ok(codeword));
    }
    
    {
        let code = GuavaCode12_11;
        let randvec = BinVector::from_bools(&[false, false, true, false, true, true, true, false, true, true, false, false]);
        let codeword = BinVector::from_bools(&[false, false, true, false, true, true, true, false, true, true, false, false]);
        assert_eq!(code.decode_to_code(&randvec), Ok(codeword));
    }
    
    {
        let code = GuavaCode12_11;
        let randvec = BinVector::from_bools(&[false, true, true, true, true, false, true, false, false, true, false, true]);
        let codeword = BinVector::from_bools(&[true, true, true, true, true, false, true, false, false, true, false, true]);
        assert_eq!(code.decode_to_code(&randvec), Ok(codeword));
    }
    
    {
        let code = GuavaCode12_11;
        let randvec = BinVector::from_bools(&[false, true, false, false, true, false, false, true, false, true, true, false]);
        let codeword = BinVector::from_bools(&[true, true, false, false, true, false, false, true, false, true, true, false]);
        assert_eq!(code.decode_to_code(&randvec), Ok(codeword));
    }
    
    {
        let code = GuavaCode12_11;
        let randvec = BinVector::from_bools(&[false, true, false, true, true, false, false, false, true, false, true, false]);
        let codeword = BinVector::from_bools(&[true, true, false, true, true, false, false, false, true, false, true, false]);
        assert_eq!(code.decode_to_code(&randvec), Ok(codeword));
    }
    
    {
        let code = GuavaCode12_11;
        let randvec = BinVector::from_bools(&[false, false, false, true, false, true, false, true, false, true, false, true]);
        let codeword = BinVector::from_bools(&[true, false, false, true, false, true, false, true, false, true, false, true]);
        assert_eq!(code.decode_to_code(&randvec), Ok(codeword));
    }
    
    {
        let code = GuavaCode12_11;
        let randvec = BinVector::from_bools(&[true, true, false, false, false, true, false, false, true, true, true, true]);
        let codeword = BinVector::from_bools(&[false, true, false, false, false, true, false, false, true, true, true, true]);
        assert_eq!(code.decode_to_code(&randvec), Ok(codeword));
    }
    
    {
        let code = GuavaCode12_11;
        let randvec = BinVector::from_bools(&[false, true, false, true, false, false, true, false, true, false, true, true]);
        let codeword = BinVector::from_bools(&[false, true, false, true, false, false, true, false, true, false, true, true]);
        assert_eq!(code.decode_to_code(&randvec), Ok(codeword));
    }
    
    {
        let code = GuavaCode12_11;
        let randvec = BinVector::from_bools(&[true, true, false, true, false, false, true, true, false, true, true, true]);
        let codeword = BinVector::from_bools(&[true, true, false, true, false, false, true, true, false, true, true, true]);
        assert_eq!(code.decode_to_code(&randvec), Ok(codeword));
    }
    
    {
        let code = GuavaCode12_11;
        let randvec = BinVector::from_bools(&[true, false, false, true, false, false, false, false, false, false, true, false]);
        let codeword = BinVector::from_bools(&[false, false, false, true, false, false, false, false, false, false, true, false]);
        assert_eq!(code.decode_to_code(&randvec), Ok(codeword));
    }
    
    {
        let code = GuavaCode12_11;
        let randvec = BinVector::from_bools(&[false, false, false, true, true, false, false, true, true, true, true, true]);
        let codeword = BinVector::from_bools(&[true, false, false, true, true, false, false, true, true, true, true, true]);
        assert_eq!(code.decode_to_code(&randvec), Ok(codeword));
    }
    
    {
        let code = GuavaCode12_11;
        let randvec = BinVector::from_bools(&[true, true, true, true, false, false, true, false, false, false, false, true]);
        let codeword = BinVector::from_bools(&[true, true, true, true, false, false, true, false, false, false, false, true]);
        assert_eq!(code.decode_to_code(&randvec), Ok(codeword));
    }
    
    {
        let code = GuavaCode12_11;
        let randvec = BinVector::from_bools(&[false, true, true, false, false, false, false, true, true, false, true, true]);
        let codeword = BinVector::from_bools(&[false, true, true, false, false, false, false, true, true, false, true, true]);
        assert_eq!(code.decode_to_code(&randvec), Ok(codeword));
    }
    
    {
        let code = GuavaCode12_11;
        let randvec = BinVector::from_bools(&[false, true, true, false, true, false, true, false, false, false, true, false]);
        let codeword = BinVector::from_bools(&[true, true, true, false, true, false, true, false, false, false, true, false]);
        assert_eq!(code.decode_to_code(&randvec), Ok(codeword));
    }
    
}

#[test]
fn guava_12_11_test_generator_representation() {
    let generator_matrix = GuavaCode12_11.generator_matrix();
    let first_row = generator_matrix.get_window(0, 0, 1, generator_matrix.ncols());
    let vector = BinVector::from_bools(&[ true, false, false, false, false, false, false, false, false, false, false, true ]);
    assert_eq!(vector, first_row.as_vector());
}
