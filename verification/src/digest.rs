use vstd::prelude::*;
use crate::aws_lc;
use crate::error::Error;

verus! {

/// Supported hash algorithms.
#[derive(Debug, Clone, Copy, PartialEq, Eq, Structural)]
pub enum Algorithm {
    /// SHA3-224, as specified in FIPS 202.
    Sha3_224,
    /// SHA3-256, as specified in FIPS 202.
    Sha3_256,
    /// SHA3-384, as specified in FIPS 202.
    Sha3_384,
    /// SHA3-512, as specified in FIPS 202.
    Sha3_512,
    /// SHA-224, as specified in FIPS 180-4.
    Sha224,
    /// SHA-256, as specified in FIPS 180-4.
    Sha256,
    /// SHA-384, as specified in FIPS 180-4.
    Sha384,
    /// SHA-512, as specified in FIPS 180-4.
    Sha512,
}

impl Algorithm {
    /// The numeric identifier of the algorithm.
    pub open spec fn spec_code(self) -> u32 {
        match self {
            Algorithm::Sha3_224 => 1096,
            Algorithm::Sha3_256 => 1097,
            Algorithm::Sha3_384 => 1098,
            Algorithm::Sha3_512 => 1099,
            Algorithm::Sha224 => 675,
            Algorithm::Sha256 => 672,
            Algorithm::Sha384 => 673,
            Algorithm::Sha512 => 674,
        }
    }

    /// The length in bytes of a digest of the algorithm.
    pub open spec fn spec_output_len(&self) -> usize {
        match *self {
            Algorithm::Sha224 | Algorithm::Sha3_224 => 28,
            Algorithm::Sha256 | Algorithm::Sha3_256 => 32,
            Algorithm::Sha384 | Algorithm::Sha3_384 => 48,
            Algorithm::Sha512 | Algorithm::Sha3_512 => 64,
        }
    }

    /// Whether the backend implements the algorithm: all but SHA3-224.
    pub open spec fn spec_is_supported(self) -> bool {
        self != Algorithm::Sha3_224
    }

    /// The numeric identifier of the algorithm.
    #[verifier::when_used_as_spec(spec_code)]
    pub fn code(self) -> (r: u32)
        ensures
            r == self.spec_code(),
    {
        match self {
            Algorithm::Sha3_224 => 1096,
            Algorithm::Sha3_256 => 1097,
            Algorithm::Sha3_384 => 1098,
            Algorithm::Sha3_512 => 1099,
            Algorithm::Sha224 => 675,
            Algorithm::Sha256 => 672,
            Algorithm::Sha384 => 673,
            Algorithm::Sha512 => 674,
        }
    }

    /// The algorithm with the given numeric identifier.
    ///
    /// Succeeds exactly on the identifiers of the eight algorithms; any other
    /// value is an [`Error::UnsupportedAlgorithm`].
    pub fn try_from(value: u32) -> (r: Result<Algorithm, Error>)
        ensures
            match r {
                Ok(a) => a.spec_code() == value,
                Err(e) => e == Error::UnsupportedAlgorithm && forall|a: Algorithm|
                    a.spec_code() != value,
            },
    {
        match value {
            1096 => Ok(Algorithm::Sha3_224),
            1097 => Ok(Algorithm::Sha3_256),
            1098 => Ok(Algorithm::Sha3_384),
            1099 => Ok(Algorithm::Sha3_512),
            675 => Ok(Algorithm::Sha224),
            672 => Ok(Algorithm::Sha256),
            673 => Ok(Algorithm::Sha384),
            674 => Ok(Algorithm::Sha512),
            _ => Err(Error::UnsupportedAlgorithm),
        }
    }

    /// Returns output length of the hash function.
    #[verifier::when_used_as_spec(spec_output_len)]
    pub fn output_len(&self) -> (r: usize)
        ensures
            r == self.spec_output_len(),
    {
        match self {
            Algorithm::Sha224 | Algorithm::Sha3_224 => 28,
            Algorithm::Sha256 | Algorithm::Sha3_256 => 32,
            Algorithm::Sha384 | Algorithm::Sha3_384 => 48,
            Algorithm::Sha512 | Algorithm::Sha3_512 => 64,
        }
    }

    /// Whether the backend implements the algorithm.
    #[verifier::when_used_as_spec(spec_is_supported)]
    pub fn is_supported(self) -> (r: bool)
        ensures
            r == self.spec_is_supported(),
    {
        match self {
            Algorithm::Sha3_224 => false,
            _ => true,
        }
    }
}

/// The output (digest) of a hash function.
pub struct Digest {
    pub(crate) buf: Vec<u8>,
}

impl View for Digest {
    type V = Seq<u8>;

    closed spec fn view(&self) -> Seq<u8> {
        self.buf@
    }
}

impl Digest {
    /// Overwrites the digest with zeros and empties it.
    pub fn erase(&mut self)
        ensures
            final(self)@ == Seq::<u8>::empty(),
    {
        aws_lc::zeroize(&mut self.buf);
    }

    /// The bytes of the digest.
    pub fn as_ref(&self) -> (r: &[u8])
        ensures
            r@ == self@,
    {
        self.buf.as_slice()
    }
}

impl Drop for Digest {
    /// Overwrites the digest with zeros when it is dropped.
    fn drop(&mut self)
        opens_invariants none
        no_unwind
    {
        aws_lc::zeroize(&mut self.buf);
    }
}

/// A cryptographic hash function.
pub trait Hash {
    /// The algorithm that the function computes.
    spec fn spec_algorithm(&self) -> Algorithm;

    /// Starts an incremental hash computation.
    fn start(&self) -> (r: HashContext)
        ensures
            r.spec_algorithm() == self.spec_algorithm(),
            r@ == Seq::<u8>::empty(),
    ;

    /// Computes and returns the digest of the given data.
    fn hash(&self, data: &[u8]) -> (r: Digest)
        ensures
            r@ == aws_lc::digest_value(self.spec_algorithm(), data@),
            r@.len() == self.spec_algorithm().spec_output_len(),
    ;

    /// The algorithm that the function computes.
    fn algorithm(&self) -> (r: Algorithm)
        ensures
            r == self.spec_algorithm(),
    ;
}

/// Incremental hash computation context.
pub trait Context: Sized {
    /// The algorithm of the computation.
    spec fn spec_algorithm(&self) -> Algorithm;

    /// The data added so far.
    spec fn input(&self) -> Seq<u8>;

    /// Adds data to the current hash computation. All the data of one
    /// computation is no more than a `u64` counts.
    fn update(&mut self, data: &[u8])
        requires
            old(self).input().len() + data@.len() <= u64::MAX,
        ensures
            final(self).input() == old(self).input() + data@,
            final(self).spec_algorithm() == old(self).spec_algorithm(),
    ;

    /// Finalizes the computation and returns the resulting digest.
    fn finish(self) -> (r: Digest)
        ensures
            r@ == aws_lc::digest_value(self.spec_algorithm(), self.input()),
            r@.len() == self.spec_algorithm().spec_output_len(),
    ;

    /// Algorithm used in this hash computation.
    fn algorithm(&self) -> (r: Algorithm)
        ensures
            r == self.spec_algorithm(),
    ;
}

/// SHA256 secure-hashing algorithm.
pub fn sha256(data: &[u8]) -> (r: Vec<u8>)
    ensures
        r@ == aws_lc::digest_value(Algorithm::Sha256, data@),
        r@.len() == 32,
{
    match aws_lc::digest(Algorithm::Sha256, data) {
        Some(digest) => digest,
        None => Vec::new(),
    }
}

/// A hash function of the backend: one of the algorithms that the backend
/// implements.
#[derive(Debug, Clone, Copy)]
pub struct DigestFunction {
    algorithm: Algorithm,
}

impl DigestFunction {
    #[verifier::type_invariant]
    spec fn is_supported(self) -> bool {
        self.algorithm.spec_is_supported()
    }

    /// The hash function of the algorithm, or `None` where the backend does
    /// not implement the algorithm.
    pub fn new(algorithm: Algorithm) -> (r: Option<DigestFunction>)
        ensures
            r.is_some() == algorithm.spec_is_supported(),
            r matches Some(function) ==> function.spec_algorithm() == algorithm,
    {
        if algorithm.is_supported() {
            Some(DigestFunction { algorithm })
        } else {
            None
        }
    }
}

impl Hash for DigestFunction {
    closed spec fn spec_algorithm(&self) -> Algorithm {
        self.algorithm
    }

    fn start(&self) -> (r: HashContext) {
        proof {
            use_type_invariant(self);
        }
        HashContext {
            algorithm: self.algorithm,
            context: aws_lc::digest_start(self.algorithm).unwrap(),
        }
    }

    fn hash(&self, data: &[u8]) -> (r: Digest) {
        proof {
            use_type_invariant(self);
        }
        match aws_lc::digest(self.algorithm, data) {
            Some(buf) => Digest { buf },
            None => Digest { buf: Vec::new() },
        }
    }

    fn algorithm(&self) -> (r: Algorithm) {
        self.algorithm
    }
}

/// An incremental hash computation of the backend, with the algorithm
/// that it was started with.
pub struct HashContext {
    algorithm: Algorithm,
    context: aws_lc::DigestContext,
}

impl View for HashContext {
    type V = Seq<u8>;

    open spec fn view(&self) -> Seq<u8> {
        self.input()
    }
}

impl HashContext {
    #[verifier::type_invariant]
    spec fn is_of_its_algorithm(self) -> bool {
        aws_lc::context_algorithm(self.context) == self.algorithm
    }

    /// A computation over no data yet, or `None` where the backend does not
    /// implement the algorithm.
    pub fn new(algorithm: Algorithm) -> (r: Option<HashContext>)
        ensures
            r.is_some() == algorithm.spec_is_supported(),
            r matches Some(context) ==> context.spec_algorithm() == algorithm && context.input()
                == Seq::<u8>::empty(),
    {
        if !algorithm.is_supported() {
            return None;
        }
        match aws_lc::digest_start(algorithm) {
            Some(context) => Some(HashContext { algorithm, context }),
            None => None,
        }
    }
}

impl Context for HashContext {
    closed spec fn spec_algorithm(&self) -> Algorithm {
        self.algorithm
    }

    closed spec fn input(&self) -> Seq<u8> {
        aws_lc::context_input(self.context)
    }

    fn update(&mut self, data: &[u8]) {
        proof {
            use_type_invariant(&*self);
        }
        aws_lc::digest_update(&mut self.context, data);
    }

    fn finish(self) -> (r: Digest) {
        proof {
            use_type_invariant(&self);
        }
        Digest { buf: aws_lc::digest_finish(self.context) }
    }

    fn algorithm(&self) -> (r: Algorithm) {
        self.algorithm
    }
}

} // verus!
