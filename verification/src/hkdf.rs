use vstd::prelude::*;
use crate::aws_lc;
use crate::bytes;
use crate::digest;
use crate::error::Error;

verus! {

/// Supported HKDF algorithms.
#[derive(Debug, Clone, Copy, PartialEq, Eq, Structural)]
pub enum Algorithm {
    /// HKDF with HMAC-SHA-256.
    Sha256,
    /// HKDF with HMAC-SHA-384.
    Sha384,
    /// HKDF with HMAC-SHA-512.
    Sha512,
}

impl Algorithm {
    /// The numeric identifier of the algorithm.
    pub open spec fn spec_code(self) -> u32 {
        match self {
            Algorithm::Sha256 => 1496,
            Algorithm::Sha384 => 1497,
            Algorithm::Sha512 => 1498,
        }
    }

    /// The hash function under the HMAC of the algorithm.
    pub open spec fn spec_digest(self) -> digest::Algorithm {
        match self {
            Algorithm::Sha256 => digest::Algorithm::Sha256,
            Algorithm::Sha384 => digest::Algorithm::Sha384,
            Algorithm::Sha512 => digest::Algorithm::Sha512,
        }
    }

    /// `HashLen`: the output length of the underlying hash function.
    pub open spec fn spec_hash_len(self) -> usize {
        self.spec_digest().spec_output_len()
    }

    /// The longest output that HKDF-Expand gives: `255 * HashLen`.
    pub open spec fn spec_max_output_len(self) -> usize {
        match self {
            Algorithm::Sha256 => 8160,
            Algorithm::Sha384 => 12240,
            Algorithm::Sha512 => 16320,
        }
    }

    /// The numeric identifier of the algorithm.
    #[verifier::when_used_as_spec(spec_code)]
    pub fn code(self) -> (r: u32)
        ensures
            r == self.spec_code(),
    {
        match self {
            Algorithm::Sha256 => 1496,
            Algorithm::Sha384 => 1497,
            Algorithm::Sha512 => 1498,
        }
    }

    /// The algorithm with the given numeric identifier.
    ///
    /// Succeeds exactly on the identifiers of the three algorithms; any other
    /// value is an [`Error::UnsupportedAlgorithm`].
    pub fn try_from(value: u32) -> (r: Result<Algorithm, Error>)
        ensures
            match r {
                Ok(a) => a.spec_code() == value,
                Err(e) => e == Error::UnsupportedAlgorithm && forall|a: Algorithm|
                    a.spec_code() != value,
            },
    {
        match value {
            1496 => Ok(Algorithm::Sha256),
            1497 => Ok(Algorithm::Sha384),
            1498 => Ok(Algorithm::Sha512),
            _ => Err(Error::UnsupportedAlgorithm),
        }
    }

    /// The hash function under the HMAC of the algorithm.
    #[verifier::when_used_as_spec(spec_digest)]
    pub fn digest(self) -> (r: digest::Algorithm)
        ensures
            r == self.spec_digest(),
    {
        match self {
            Algorithm::Sha256 => digest::Algorithm::Sha256,
            Algorithm::Sha384 => digest::Algorithm::Sha384,
            Algorithm::Sha512 => digest::Algorithm::Sha512,
        }
    }

    /// The longest output that HKDF-Expand gives: `255 * HashLen`.
    #[verifier::when_used_as_spec(spec_max_output_len)]
    pub fn max_output_len(self) -> (r: usize)
        ensures
            r == self.spec_max_output_len(),
            r == 255 * self.spec_hash_len(),
    {
        match self {
            Algorithm::Sha256 => 8160,
            Algorithm::Sha384 => 12240,
            Algorithm::Sha512 => 16320,
        }
    }
}

/// Output keying material (OKM).
pub struct Okm {
    pub(crate) buf: Vec<u8>,
}

impl View for Okm {
    type V = Seq<u8>;

    closed spec fn view(&self) -> Seq<u8> {
        self.buf@
    }
}

impl Okm {
    /// Overwrites the keying material with zeros and empties it.
    pub fn erase(&mut self)
        ensures
            final(self)@ == Seq::<u8>::empty(),
    {
        aws_lc::zeroize(&mut self.buf);
    }

    /// The bytes of the keying material.
    pub fn as_ref(&self) -> (r: &[u8])
        ensures
            r@ == self@,
    {
        self.buf.as_slice()
    }

    /// Takes the bytes of the keying material.
    pub fn into_bytes(self) -> (r: Vec<u8>)
        ensures
            r@ == self@,
    {
        bytes::copy(self.buf.as_slice())
    }
}

impl Drop for Okm {
    /// Overwrites the keying material with zeros when it is dropped.
    fn drop(&mut self)
        opens_invariants none
        no_unwind
    {
        aws_lc::zeroize(&mut self.buf);
    }
}

/// What HKDF gives for the inputs: `len` bytes of keying material, or
/// [`Error::Unspecified`] where `len` is more than `255 * HashLen`.
pub open spec fn spec_derive(
    algorithm: Algorithm,
    salt: Seq<u8>,
    secret: Seq<u8>,
    info: Seq<u8>,
    len: usize,
) -> Result<Seq<u8>, Error> {
    if len <= algorithm.spec_max_output_len() {
        Ok(aws_lc::hkdf_value(algorithm, salt, secret, info, len))
    } else {
        Err(Error::Unspecified)
    }
}

/// The salt of an extraction: the salt that is given, or `HashLen` zero
/// bytes where none is.
pub open spec fn spec_salt_or_zeros(algorithm: Algorithm, salt: Option<&[u8]>) -> Seq<u8> {
    match salt {
        Some(salt) => salt@,
        None => bytes::zeros(algorithm.spec_hash_len() as nat),
    }
}

/// An HKDF implementation.
pub trait Hkdf {
    /// The algorithm that the implementation computes.
    spec fn spec_algorithm(&self) -> Algorithm;

    /// `HKDF-Extract(salt, secret)`
    ///
    /// A `salt` of `None` is the salt of `HashLen` zero bytes: whatever is
    /// derived with no salt is what is derived with that salt.
    ///
    /// Returns a [`Prk`] that can be used to derive keying material.
    fn extract(&self, salt: Option<&[u8]>, secret: &[u8]) -> (r: Prk)
        ensures
            r.spec_algorithm() == self.spec_algorithm(),
            r.spec_salt() == spec_salt_or_zeros(self.spec_algorithm(), salt),
            r.spec_secret() == secret@,
    ;
}

/// Implementation of `HKDF-Expand` using an internally stored pseudorandom
/// key (PRK).
pub trait Expander {
    /// The algorithm of the extraction.
    spec fn spec_algorithm(&self) -> Algorithm;

    /// The salt of the extraction.
    spec fn spec_salt(&self) -> Seq<u8>;

    /// The secret of the extraction.
    spec fn spec_secret(&self) -> Seq<u8>;

    /// `HKDF-Expand(PRK, info, L)`, the parts of `info` taken as one string.
    ///
    /// Returns [`Error::Unspecified`] if `len` is larger than `255*HashLen`.
    fn expand(&self, info: &[&[u8]], len: usize) -> (r: Result<Okm, Error>)
        ensures
            match r {
                Ok(okm) => Ok::<Seq<u8>, Error>(okm@),
                Err(e) => Err(e),
            } == spec_derive(
                self.spec_algorithm(),
                self.spec_salt(),
                self.spec_secret(),
                bytes::flatten(bytes::views(info@)),
                len,
            ),
            r matches Ok(okm) ==> okm@.len() == len,
    ;
}

/// The state between `HKDF-Extract` and `HKDF-Expand`: the algorithm with
/// the salt and the secret that were extracted from.
pub struct Prk {
    algorithm: Algorithm,
    salt: Vec<u8>,
    secret: Vec<u8>,
}

impl Drop for Prk {
    /// Overwrites the secret with zeros when it is dropped.
    fn drop(&mut self)
        opens_invariants none
        no_unwind
    {
        aws_lc::zeroize(&mut self.secret);
    }
}

impl Prk {
    /// `HKDF-Extract(salt, secret)` under `algorithm`.
    pub fn new(algorithm: Algorithm, salt: &[u8], secret: &[u8]) -> (r: Prk)
        ensures
            r.spec_algorithm() == algorithm,
            r.spec_salt() == salt@,
            r.spec_secret() == secret@,
    {
        Prk { algorithm, salt: bytes::copy(salt), secret: bytes::copy(secret) }
    }
}

impl Expander for Prk {
    closed spec fn spec_algorithm(&self) -> Algorithm {
        self.algorithm
    }

    closed spec fn spec_salt(&self) -> Seq<u8> {
        self.salt@
    }

    closed spec fn spec_secret(&self) -> Seq<u8> {
        self.secret@
    }

    fn expand(&self, info: &[&[u8]], len: usize) -> (r: Result<Okm, Error>) {
        let info = bytes::concat(info);
        match derive(self.algorithm, self.salt.as_slice(), self.secret.as_slice(), info.as_slice(), len) {
            Ok(buf) => Ok(Okm { buf }),
            Err(e) => Err(e),
        }
    }
}

/// HKDF in one step: extract from `salt` and `secret`, then expand with
/// `info` to `len` bytes.
pub fn derive(algorithm: Algorithm, salt: &[u8], secret: &[u8], info: &[u8], len: usize) -> (r:
    Result<Vec<u8>, Error>)
    ensures
        match r {
            Ok(okm) => Ok::<Seq<u8>, Error>(okm@),
            Err(e) => Err(e),
        } == spec_derive(algorithm, salt@, secret@, info@, len),
        r matches Ok(okm) ==> okm@.len() == len,
{
    if len > algorithm.max_output_len() {
        return Err(Error::Unspecified);
    }
    match aws_lc::hkdf(algorithm, salt, secret, info, len) {
        Some(okm) => Ok(okm),
        None => Err(Error::Unspecified),
    }
}

} // verus!
