use vstd::prelude::*;
use crate::digest::DigestFunction;
use crate::aws_lc::HkdfFunction;
use crate::digest;
use crate::ec::agreement;
use crate::hkdf;

verus! {

/// A provider that maps algorithms to their corresponding cryptographic
/// handlers.
///
/// Enables querying cryptographic functions by algorithm and exposes the
/// full list of supported algorithms in order of preference.
pub trait Provider<A, T> {
    /// Whether the provider has a handler for the algorithm.
    spec fn supports(&self, algorithm: A) -> bool;

    /// Returns the cryptographic handler for the specified algorithm.
    fn get(&self, algorithm: A) -> (r: Option<T>)
        ensures
            r.is_some() == self.supports(algorithm),
    ;

    /// Returns all supported algorithms, in order of preference.
    fn supported_algorithms(&self) -> (r: Vec<A>)
        ensures
            forall|a: A| r@.contains(a) == self.supports(a),
    ;

    /// Whether the given algorithm is supported.
    fn is_algorithm_supported(&self, algorithm: A) -> (r: bool)
        ensures
            r == self.supports(algorithm),
    ;
}

/// Provides hash functions required by e2ee.
pub trait HashProvider: Provider<digest::Algorithm, DigestFunction> {

}

/// Provides key derivation functions required by e2ee.
pub trait HkdfProvider: Provider<hkdf::Algorithm, HkdfFunction> {

}

/// Whether `algorithm` is one of `list`.
pub fn contains_curve(list: &[agreement::Algorithm], algorithm: agreement::Algorithm) -> (r: bool)
    ensures
        r == list@.contains(algorithm),
{
    let mut i: usize = 0;
    while i < list.len()
        invariant
            i <= list@.len(),
            forall|j: int| 0 <= j < i ==> list@[j] != algorithm,
        decreases list@.len() - i,
    {
        if list[i] == algorithm {
            return true;
        }
        i += 1;
    }
    false
}

/// Whether `algorithm` is one of `list`.
pub fn contains_hkdf(list: &[hkdf::Algorithm], algorithm: hkdf::Algorithm) -> (r: bool)
    ensures
        r == list@.contains(algorithm),
{
    let mut i: usize = 0;
    while i < list.len()
        invariant
            i <= list@.len(),
            forall|j: int| 0 <= j < i ==> list@[j] != algorithm,
        decreases list@.len() - i,
    {
        if list[i] == algorithm {
            return true;
        }
        i += 1;
    }
    false
}

/// Whether `algorithm` is one of `list`.
pub fn contains_hash(list: &[digest::Algorithm], algorithm: digest::Algorithm) -> (r: bool)
    ensures
        r == list@.contains(algorithm),
{
    let mut i: usize = 0;
    while i < list.len()
        invariant
            i <= list@.len(),
            forall|j: int| 0 <= j < i ==> list@[j] != algorithm,
        decreases list@.len() - i,
    {
        if list[i] == algorithm {
            return true;
        }
        i += 1;
    }
    false
}

/// The cryptographic functions that a peer may use: a set of capabilities
/// that is made once and handed down to every configuration.
#[derive(Debug, Clone)]
pub struct CryptoProvider {
    /// The key agreement algorithms, in order of preference.
    pub curve: Vec<agreement::Algorithm>,
    /// The key derivation functions, in order of preference.
    pub hkdf: Vec<hkdf::Algorithm>,
    /// The hash functions, in order of preference.
    pub hash: Vec<digest::Algorithm>,
}

impl CryptoProvider {
    /// Whether or not the curve algorithm is supported.
    pub fn is_curve_supported(&self, algorithm: agreement::Algorithm) -> (r: bool)
        ensures
            r == self.curve@.contains(algorithm),
    {
        contains_curve(self.curve.as_slice(), algorithm)
    }

    /// Whether or not the HKDF algorithm is supported.
    pub fn is_algorithm_supported(&self, algorithm: hkdf::Algorithm) -> (r: bool)
        ensures
            r == self.hkdf@.contains(algorithm),
    {
        contains_hkdf(self.hkdf.as_slice(), algorithm)
    }

    /// Whether the hash function is supported by the provider.
    pub fn is_function_supported(&self, algorithm: digest::Algorithm) -> (r: bool)
        ensures
            r == self.hash@.contains(algorithm),
    {
        contains_hash(self.hash.as_slice(), algorithm)
    }
}

} // verus!
