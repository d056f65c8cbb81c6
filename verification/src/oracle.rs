//! Noisy linear samples and the problem instance that holds them.

use crate::binary_vector::BinVector;
use crate::gf2::dot;
use vstd::prelude::*;

verus! {

/// One sample: the public vector `a`, the noisy inner product `s` of
/// `a` with the secret, and the noise bit `e` that was added to it.
#[derive(Clone, Debug, PartialEq, Eq)]
pub struct Sample {
    pub a: BinVector,
    pub s: bool,
    pub e: bool,
}

/// A sample seen as plain values.
pub struct SampleModel {
    pub a: Seq<bool>,
    pub s: bool,
    pub e: bool,
}

impl SampleModel {
    /// The sample invariant: `s` is the inner product of the secret
    /// with `a`, plus the noise bit.
    pub open spec fn agrees_with(self, secret: Seq<bool>) -> bool {
        self.s == (dot(secret, self.a) != self.e)
    }
}

impl View for Sample {
    type V = SampleModel;

    open spec fn view(&self) -> SampleModel {
        SampleModel { a: self.a@, s: self.s, e: self.e }
    }
}

impl Sample {
    /// The sample with vector `a` and product `product`, free of noise.
    pub fn from_binvector(a: &BinVector, product: bool) -> (sample: Sample)
        ensures
            sample@ == (SampleModel { a: a@, s: product, e: false }),
    {
        Sample { a: a.copy(), s: product, e: false }
    }

    /// The noisy inner product of this sample.
    pub fn get_product(&self) -> (product: bool)
        ensures
            product == self.s,
    {
        self.s
    }

    /// A copy of this sample.
    pub fn copy(&self) -> (sample: Sample)
        ensures
            sample@ == self@,
    {
        Sample { a: self.a.copy(), s: self.s, e: self.e }
    }
}

/// A problem instance: the secret, its length `k`, and the samples.
#[derive(Clone, Debug, PartialEq, Eq)]
pub struct LpnOracle {
    pub queries: Vec<Sample>,
    pub k: u32,
    pub secret: BinVector,
}

/// A problem instance seen as plain values.
pub struct OracleModel {
    pub queries: Seq<SampleModel>,
    pub k: nat,
    pub secret: Seq<bool>,
}

impl OracleModel {
    /// The secret and the vector of every sample have `k` bits.
    pub open spec fn shaped(self) -> bool {
        &&& self.secret.len() == self.k
        &&& forall|i: int| 0 <= i < self.queries.len() ==> (#[trigger] self.queries[i]).a.len() == self.k
    }

    /// Every sample agrees with the secret.
    pub open spec fn consistent(self) -> bool {
        forall|i: int|
            0 <= i < self.queries.len() ==> (#[trigger] self.queries[i]).agrees_with(self.secret)
    }
}

impl View for LpnOracle {
    type V = OracleModel;

    open spec fn view(&self) -> OracleModel {
        OracleModel {
            queries: Seq::new(self.queries@.len(), |i: int| self.queries@[i]@),
            k: self.k as nat,
            secret: self.secret@,
        }
    }
}

impl LpnOracle {
    /// The problem instance with the given secret and samples, or `None`
    /// where the secret has more than `u32::MAX` bits.
    pub fn new(secret: BinVector, queries: Vec<Sample>) -> (r: Option<LpnOracle>)
        ensures
            match r {
                Some(oracle) => oracle.secret == secret && oracle.queries == queries && oracle.k
                    == secret@.len(),
                None => secret@.len() > u32::MAX,
            },
    {
        let n: usize = secret.len();
        if n > u32::MAX as usize {
            return None;
        }
        Some(LpnOracle { queries, k: n as u32, secret })
    }

    /// Whether the secret and the vector of every sample have `k` bits.
    pub fn is_shaped(&self) -> (r: bool)
        ensures
            r == self@.shaped(),
    {
        if self.secret.len() != self.k as usize {
            return false;
        }
        let mut i: usize = 0;
        while i < self.queries.len()
            invariant
                i <= self.queries.len(),
                forall|j: int| 0 <= j < i ==> (#[trigger] self@.queries[j]).a.len() == self.k,
            decreases self.queries.len() - i,
        {
            if self.queries[i].a.len() != self.k as usize {
                assert(self@.queries[i as int].a.len() != self.k);
                return false;
            }
            i += 1;
        }
        true
    }

    /// Whether every sample agrees with the secret.
    pub fn is_consistent(&self) -> (r: bool)
        requires
            self@.shaped(),
        ensures
            r == self@.consistent(),
    {
        let mut i: usize = 0;
        while i < self.queries.len()
            invariant
                i <= self.queries.len(),
                self@.shaped(),
                forall|j: int| 0 <= j < i ==> (#[trigger] self@.queries[j]).agrees_with(self@.secret),
            decreases self.queries.len() - i,
        {
            assert(self@.queries[i as int].a.len() == self.k);
            let product = self.secret.dot(&self.queries[i].a);
            if self.queries[i].s != (product != self.queries[i].e) {
                assert(!self@.queries[i as int].agrees_with(self@.secret));
                return false;
            }
            i += 1;
        }
        true
    }
}

} // verus!
