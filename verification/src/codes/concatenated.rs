//! Several codes one after the other, as one code.

use crate::binary_vector::BinVector;
use crate::codes::linear_code::LinearCode;
use crate::codes::model::{lemma_decode_fixes_codewords, lemma_message_round_trip, CodeModel};
use crate::codes::BinaryCode;
use crate::error::CodeError;
use crate::oracle::Sample;
use vstd::prelude::*;

verus! {

/// The sum of the lengths of the first `j` codes.
pub open spec fn total_length(codes: Seq<CodeModel>, j: nat) -> nat
    decreases j,
{
    if j == 0 {
        0
    } else {
        total_length(codes, (j - 1) as nat) + codes[j - 1].length
    }
}

/// The sum of the dimensions of the first `j` codes.
pub open spec fn total_dimension(codes: Seq<CodeModel>, j: nat) -> nat
    decreases j,
{
    if j == 0 {
        0
    } else {
        total_dimension(codes, (j - 1) as nat) + codes[j - 1].dimension
    }
}

/// The codewords of the first `j` blocks of a message, one after the
/// other: block `i` has as many bits as code `i` has dimension.
pub open spec fn encode_blocks(codes: Seq<CodeModel>, message: Seq<bool>, j: nat) -> Seq<bool>
    decreases j,
{
    if j == 0 {
        Seq::empty()
    } else {
        encode_blocks(codes, message, (j - 1) as nat) + codes[j - 1].encode(
            message.subrange(
                total_dimension(codes, (j - 1) as nat) as int,
                total_dimension(codes, j) as int,
            ),
        )
    }
}

/// The codewords that the first `j` blocks of a received word are
/// decoded to, one after the other: block `i` has as many bits as code
/// `i` has length.
pub open spec fn decode_blocks(codes: Seq<CodeModel>, received: Seq<bool>, j: nat) -> Seq<bool>
    decreases j,
{
    if j == 0 {
        Seq::empty()
    } else {
        decode_blocks(codes, received, (j - 1) as nat) + codes[j - 1].decode(
            received.subrange(
                total_length(codes, (j - 1) as nat) as int,
                total_length(codes, j) as int,
            ),
        )
    }
}

/// The messages that the first `j` blocks of a received word are
/// decoded to, one after the other.
pub open spec fn message_blocks(codes: Seq<CodeModel>, received: Seq<bool>, j: nat) -> Seq<bool>
    decreases j,
{
    if j == 0 {
        Seq::empty()
    } else {
        message_blocks(codes, received, (j - 1) as nat) + codes[j - 1].message(
            received.subrange(
                total_length(codes, (j - 1) as nat) as int,
                total_length(codes, j) as int,
            ),
        )
    }
}

/// The sums of lengths and of dimensions grow with the number of codes,
/// and the dimensions stay below the lengths.
pub proof fn lemma_totals_grow(codes: Seq<CodeModel>, i: nat, j: nat)
    requires
        i <= j <= codes.len(),
        forall|c: int| 0 <= c < codes.len() ==> (#[trigger] codes[c]).wf(),
    ensures
        total_length(codes, i) <= total_length(codes, j),
        total_dimension(codes, i) <= total_dimension(codes, j),
        total_dimension(codes, j) <= total_length(codes, j),
    decreases j,
{
    if j > 0 {
        assert(codes[j - 1].wf());
        if i < j {
            lemma_totals_grow(codes, i, (j - 1) as nat);
        } else {
            lemma_totals_grow(codes, (j - 1) as nat, (j - 1) as nat);
        }
    }
}

/// A code that is made of several codes: a word is cut into blocks, one
/// for each code and as long as that code, and each block is handled by
/// its code.
pub struct ConcatenatedCode {
    components: Vec<LinearCode>,
    length: usize,
    dimension: usize,
}

impl ConcatenatedCode {
    /// The codes that this code is made of.
    pub closed spec fn models(&self) -> Seq<CodeModel> {
        Seq::new(self.components@.len(), |i: int| self.components@[i]@)
    }

    #[verifier::type_invariant]
    spec fn inv(self) -> bool {
        &&& forall|i: int| 0 <= i < self.models().len() ==> (#[trigger] self.models()[i]).wf()
        &&& self.length == total_length(self.models(), self.models().len())
        &&& self.dimension == total_dimension(self.models(), self.models().len())
    }

    /// The code that is made of `components`, in their order, and has
    /// the given length and dimension. Fails with `ShapeMismatch`
    /// exactly where `length` is not the sum of the lengths of the
    /// components, or `dimension` not the sum of their dimensions.
    pub fn new(components: Vec<LinearCode>, length: usize, dimension: usize) -> (r: Result<
        ConcatenatedCode,
        CodeError,
    >)
        ensures
            match r {
                Ok(code) => {
                    &&& code.models() == Seq::new(components@.len(), |i: int| components@[i]@)
                    &&& code.spec_length() == length
                    &&& code.spec_dimension() == dimension
                },
                Err(e) => {
                    let models = Seq::new(components@.len(), |i: int| components@[i]@);
                    &&& e == CodeError::ShapeMismatch
                    &&& !(length == total_length(models, models.len()) && dimension
                        == total_dimension(models, models.len()))
                },
            },
    {
        let ghost models = Seq::new(components@.len(), |i: int| components@[i]@);
        let count: usize = components.len();
        let mut n: usize = 0;
        let mut k: usize = 0;
        let mut j: usize = 0;
        while j < count
            invariant
                j <= count,
                count == components@.len(),
                models == Seq::new(components@.len(), |i: int| components@[i]@),
                forall|i: int| 0 <= i < j ==> (#[trigger] models[i]).wf(),
                n == total_length(models, j as nat),
                k == total_dimension(models, j as nat),
                n <= length,
                k <= dimension,
            decreases count - j,
        {
            let block: usize = components[j].length();
            let part: usize = components[j].dimension();
            assert(models[j as int].wf());
            if block > length - n || part > dimension - k {
                proof {
                    lemma_totals_grow_from(models, (j + 1) as nat, models.len());
                }
                return Err(CodeError::ShapeMismatch);
            }
            n += block;
            k += part;
            j += 1;
        }
        if n != length || k != dimension {
            return Err(CodeError::ShapeMismatch);
        }
        Ok(ConcatenatedCode { components, length, dimension })
    }

    /// The number of codes that this code is made of.
    pub fn parts(&self) -> (n: usize)
        ensures
            n == self.models().len(),
    {
        self.components.len()
    }
}

/// The sums of lengths and of dimensions grow with the number of codes,
/// whatever the codes are.
pub proof fn lemma_totals_grow_from(codes: Seq<CodeModel>, i: nat, j: nat)
    requires
        i <= j,
    ensures
        total_length(codes, i) <= total_length(codes, j),
        total_dimension(codes, i) <= total_dimension(codes, j),
    decreases j,
{
    if i < j {
        lemma_totals_grow_from(codes, i, (j - 1) as nat);
    }
}

/// The blocks that are decoded have together the length of the codes,
/// and their messages the dimension of the codes.
pub proof fn lemma_blocks_len(codes: Seq<CodeModel>, word: Seq<bool>, j: nat)
    requires
        j <= codes.len(),
        total_length(codes, j) <= word.len(),
    ensures
        decode_blocks(codes, word, j).len() == total_length(codes, j),
        message_blocks(codes, word, j).len() == total_dimension(codes, j),
    decreases j,
{
    if j > 0 {
        lemma_totals_grow_from(codes, (j - 1) as nat, j);
        lemma_blocks_len(codes, word, (j - 1) as nat);
    }
}

/// The blocks that are encoded have together the length of the codes.
pub proof fn lemma_encoded_len(codes: Seq<CodeModel>, message: Seq<bool>, j: nat)
    requires
        j <= codes.len(),
    ensures
        encode_blocks(codes, message, j).len() == total_length(codes, j),
    decreases j,
{
    if j > 0 {
        lemma_encoded_len(codes, message, (j - 1) as nat);
    }
}

proof fn lemma_blocks_of_codeword(
    codes: Seq<CodeModel>,
    message: Seq<bool>,
    word: Seq<bool>,
    j: nat,
)
    requires
        j <= codes.len(),
        forall|c: int| 0 <= c < codes.len() ==> (#[trigger] codes[c]).wf(),
        total_dimension(codes, j) <= message.len(),
        total_length(codes, j) <= word.len(),
        word.take(total_length(codes, j) as int) == encode_blocks(codes, message, j),
    ensures
        decode_blocks(codes, word, j) == encode_blocks(codes, message, j),
        message_blocks(codes, word, j) == message.take(total_dimension(codes, j) as int),
    decreases j,
{
    if j == 0 {
        assert(message.take(0) =~= Seq::empty());
    } else {
        let p = (j - 1) as nat;
        let code = codes[j - 1];
        assert(code.wf());
        let part = message.subrange(
            total_dimension(codes, p) as int,
            total_dimension(codes, j) as int,
        );
        let block = word.subrange(total_length(codes, p) as int, total_length(codes, j) as int);
        let encoded = encode_blocks(codes, message, p);
        lemma_encoded_len(codes, message, p);
        let all = word.take(total_length(codes, j) as int);
        assert(all == encoded + code.encode(part));
        assert(word.take(total_length(codes, p) as int) =~= encoded) by {
            assert forall|i: int| 0 <= i < total_length(codes, p) implies word[i] == encoded[i] by {
                assert(all[i] == word[i]);
            }
        }
        assert(block =~= code.encode(part)) by {
            assert forall|i: int| 0 <= i < code.length implies block[i] == code.encode(part)[i] by {
                assert(all[total_length(codes, p) + i] == word[total_length(codes, p) + i]);
            }
        }
        lemma_blocks_of_codeword(codes, message, word, p);
        lemma_decode_fixes_codewords(code, part);
        lemma_message_round_trip(code, part);
        assert(message.take(total_dimension(codes, p) as int) + part =~= message.take(
            total_dimension(codes, j) as int,
        ));
    }
}

/// Decode idempotence on codewords and message round-trip, for codes
/// one after the other: the codeword of every message is decoded to
/// itself, and to that message.
pub proof fn lemma_concatenated_round_trip(codes: Seq<CodeModel>, message: Seq<bool>)
    requires
        forall|c: int| 0 <= c < codes.len() ==> (#[trigger] codes[c]).wf(),
        message.len() == total_dimension(codes, codes.len()),
    ensures
        decode_blocks(codes, encode_blocks(codes, message, codes.len()), codes.len())
            == encode_blocks(codes, message, codes.len()),
        message_blocks(codes, encode_blocks(codes, message, codes.len()), codes.len())
            == message,
{
    let n = codes.len();
    let word = encode_blocks(codes, message, n);
    lemma_encoded_len(codes, message, n);
    assert(word.take(total_length(codes, n) as int) =~= word);
    lemma_blocks_of_codeword(codes, message, word, n);
    assert(message.take(total_dimension(codes, n) as int) =~= message);
}

impl BinaryCode for ConcatenatedCode {
    open spec fn spec_length(&self) -> nat {
        total_length(self.models(), self.models().len())
    }

    open spec fn spec_dimension(&self) -> nat {
        total_dimension(self.models(), self.models().len())
    }

    open spec fn spec_encode(&self, message: Seq<bool>) -> Seq<bool> {
        encode_blocks(self.models(), message, self.models().len())
    }

    open spec fn spec_decode(&self, received: Seq<bool>) -> Seq<bool> {
        decode_blocks(self.models(), received, self.models().len())
    }

    open spec fn spec_message(&self, received: Seq<bool>) -> Seq<bool> {
        message_blocks(self.models(), received, self.models().len())
    }

    fn name(&self) -> (name: String)
        ensures
            name@ == "concatenated code"@,
    {
        "concatenated code".to_string()
    }

    fn length(&self) -> (n: usize) {
        proof {
            use_type_invariant(self);
        }
        self.length
    }

    fn dimension(&self) -> (k: usize) {
        proof {
            use_type_invariant(self);
            lemma_totals_grow(self.models(), self.models().len(), self.models().len());
        }
        self.dimension
    }

    fn encode(&self, message: &BinVector) -> (r: Result<BinVector, CodeError>) {
        proof {
            use_type_invariant(self);
        }
        if message.len() != self.dimension {
            return Err(CodeError::LengthMismatch);
        }
        let ghost models = self.models();
        let count: usize = self.components.len();
        let mut out = BinVector::with_capacity(self.length);
        let mut offset: usize = 0;
        let mut j: usize = 0;
        while j < count
            invariant
                j <= count,
                count == self.components@.len(),
                models == self.models(),
                self.inv(),
                message@.len() == self.dimension,
                offset == total_dimension(models, j as nat),
                out@ == encode_blocks(models, message@, j as nat),
            decreases count - j,
        {
            let part: usize = self.components[j].dimension();
            proof {
                lemma_totals_grow_from(models, (j + 1) as nat, models.len());
            }
            let block = message.slice(offset, offset + part);
            match self.components[j].encode(&block) {
                Ok(codeword) => {
                    out.append(&codeword);
                },
                Err(_) => {},
            }
            offset += part;
            j += 1;
        }
        proof {
            lemma_encoded_len(models, message@, count as nat);
        }
        Ok(out)
    }

    fn decode_to_code(&self, received: &BinVector) -> (r: Result<BinVector, CodeError>) {
        proof {
            use_type_invariant(self);
        }
        if received.len() != self.length {
            return Err(CodeError::LengthMismatch);
        }
        let ghost models = self.models();
        let count: usize = self.components.len();
        let mut out = BinVector::with_capacity(self.length);
        let mut offset: usize = 0;
        let mut j: usize = 0;
        while j < count
            invariant
                j <= count,
                count == self.components@.len(),
                models == self.models(),
                self.inv(),
                received@.len() == self.length,
                offset == total_length(models, j as nat),
                out@ == decode_blocks(models, received@, j as nat),
            decreases count - j,
        {
            let size: usize = self.components[j].length();
            proof {
                lemma_totals_grow_from(models, (j + 1) as nat, models.len());
            }
            let block = received.slice(offset, offset + size);
            match self.components[j].decode_to_code(&block) {
                Ok(codeword) => {
                    out.append(&codeword);
                },
                Err(_) => {},
            }
            offset += size;
            j += 1;
        }
        proof {
            lemma_blocks_len(models, received@, count as nat);
        }
        Ok(out)
    }

    fn decode_to_message(&self, received: &BinVector) -> (r: Result<BinVector, CodeError>) {
        proof {
            use_type_invariant(self);
        }
        if received.len() != self.length {
            return Err(CodeError::LengthMismatch);
        }
        let ghost models = self.models();
        let count: usize = self.components.len();
        let mut out = BinVector::with_capacity(self.dimension);
        let mut offset: usize = 0;
        let mut j: usize = 0;
        while j < count
            invariant
                j <= count,
                count == self.components@.len(),
                models == self.models(),
                self.inv(),
                received@.len() == self.length,
                offset == total_length(models, j as nat),
                out@ == message_blocks(models, received@, j as nat),
            decreases count - j,
        {
            let size: usize = self.components[j].length();
            proof {
                lemma_totals_grow_from(models, (j + 1) as nat, models.len());
            }
            let block = received.slice(offset, offset + size);
            match self.components[j].decode_to_message(&block) {
                Ok(message) => {
                    out.append(&message);
                },
                Err(_) => {},
            }
            offset += size;
            j += 1;
        }
        proof {
            lemma_blocks_len(models, received@, count as nat);
        }
        Ok(out)
    }

    fn decode_sample(&self, sample: &mut Sample) -> (r: Result<(), CodeError>) {
        match self.decode_to_message(&sample.a) {
            Ok(message) => {
                sample.a = message;
                Ok(())
            },
            Err(e) => Err(e),
        }
    }
}

} // verus!
