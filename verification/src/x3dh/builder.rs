use vstd::prelude::*;
use crate::digest;
use crate::ec::agreement;
use crate::hkdf;
use crate::provider::CryptoProvider;
use crate::x3dh::config::Config;

verus! {

/// The recommended curves, in order of preference.
pub open spec fn recommended_curves() -> Seq<agreement::Algorithm> {
    seq![
        agreement::Algorithm::EcdhP521,
        agreement::Algorithm::EcdhP384,
        agreement::Algorithm::EcdhP256,
    ]
}

/// The recommended key derivation functions, in order of preference.
pub open spec fn recommended_hkdfs() -> Seq<hkdf::Algorithm> {
    seq![hkdf::Algorithm::Sha256, hkdf::Algorithm::Sha512, hkdf::Algorithm::Sha384]
}

/// The recommended hash functions, in order of preference.
pub open spec fn recommended_hashes() -> Seq<digest::Algorithm> {
    seq![
        digest::Algorithm::Sha256,
        digest::Algorithm::Sha512,
        digest::Algorithm::Sha224,
        digest::Algorithm::Sha384,
        digest::Algorithm::Sha3_256,
        digest::Algorithm::Sha3_512,
        digest::Algorithm::Sha3_384,
    ]
}

/// Whether every algorithm of `list` is one of `supported`.
pub open spec fn all_supported<A>(list: Seq<A>, supported: Seq<A>) -> bool {
    forall|i: int| 0 <= i < list.len() ==> supported.contains(#[trigger] list[i])
}

/// A builder for [`Config`].
#[derive(Debug)]
pub struct ConfigBuilder {
    /// The curves that were chosen, if any were.
    pub curve: Option<Vec<agreement::Algorithm>>,
    /// The key derivation functions that were chosen, if any were.
    pub hkdf: Option<Vec<hkdf::Algorithm>>,
    /// The hash functions that were chosen, if any were.
    pub hash: Option<Vec<digest::Algorithm>>,
    /// The provider that the choices are checked against.
    pub provider: CryptoProvider,
}

impl ConfigBuilder {
    /// Specifies which curve algorithms are supported by the peer. The
    /// provider must support each of them.
    pub fn with_curve(self, curve: Vec<agreement::Algorithm>) -> (r: ConfigBuilder)
        requires
            all_supported(curve@, self.provider.curve@),
        ensures
            r.curve == Some(curve),
            r.hkdf == self.hkdf,
            r.hash == self.hash,
            r.provider == self.provider,
    {
        ConfigBuilder { curve: Some(curve), hkdf: self.hkdf, hash: self.hash, provider: self.provider }
    }

    /// Specifies which key derivation algorithms are supported by the
    /// peer. The provider must support each of them.
    pub fn with_hkdf(self, hkdf: Vec<hkdf::Algorithm>) -> (r: ConfigBuilder)
        requires
            all_supported(hkdf@, self.provider.hkdf@),
        ensures
            r.curve == self.curve,
            r.hkdf == Some(hkdf),
            r.hash == self.hash,
            r.provider == self.provider,
    {
        ConfigBuilder { curve: self.curve, hkdf: Some(hkdf), hash: self.hash, provider: self.provider }
    }

    /// Specifies which hash functions are supported by the peer. The
    /// provider must support each of them.
    pub fn with_hash(self, hash: Vec<digest::Algorithm>) -> (r: ConfigBuilder)
        requires
            all_supported(hash@, self.provider.hash@),
        ensures
            r.curve == self.curve,
            r.hkdf == self.hkdf,
            r.hash == Some(hash),
            r.provider == self.provider,
    {
        ConfigBuilder { curve: self.curve, hkdf: self.hkdf, hash: Some(hash), provider: self.provider }
    }

    /// Whether the provider supports every recommended algorithm.
    pub fn supports_recommended_algorithms(&self) -> (r: bool)
        ensures
            r == (all_supported(recommended_curves(), self.provider.curve@) && all_supported(
                recommended_hkdfs(),
                self.provider.hkdf@,
            ) && all_supported(recommended_hashes(), self.provider.hash@)),
    {
        let p = &self.provider;
        let curves = p.is_curve_supported(agreement::Algorithm::EcdhP521) && p.is_curve_supported(
            agreement::Algorithm::EcdhP384,
        ) && p.is_curve_supported(agreement::Algorithm::EcdhP256);
        let hkdfs = p.is_algorithm_supported(hkdf::Algorithm::Sha256) && p.is_algorithm_supported(
            hkdf::Algorithm::Sha512,
        ) && p.is_algorithm_supported(hkdf::Algorithm::Sha384);
        let hashes = p.is_function_supported(digest::Algorithm::Sha256) && p.is_function_supported(
            digest::Algorithm::Sha512,
        ) && p.is_function_supported(digest::Algorithm::Sha224) && p.is_function_supported(
            digest::Algorithm::Sha384,
        ) && p.is_function_supported(digest::Algorithm::Sha3_256) && p.is_function_supported(
            digest::Algorithm::Sha3_512,
        ) && p.is_function_supported(digest::Algorithm::Sha3_384);
        proof {
            let c = recommended_curves();
            let k = recommended_hkdfs();
            let h = recommended_hashes();
            assert(c[0] == agreement::Algorithm::EcdhP521 && c[1] == agreement::Algorithm::EcdhP384
                && c[2] == agreement::Algorithm::EcdhP256);
            assert(k[0] == hkdf::Algorithm::Sha256 && k[1] == hkdf::Algorithm::Sha512 && k[2]
                == hkdf::Algorithm::Sha384);
            assert(h[0] == digest::Algorithm::Sha256 && h[1] == digest::Algorithm::Sha512 && h[2]
                == digest::Algorithm::Sha224 && h[3] == digest::Algorithm::Sha384 && h[4]
                == digest::Algorithm::Sha3_256 && h[5] == digest::Algorithm::Sha3_512 && h[6]
                == digest::Algorithm::Sha3_384);
        }
        curves && hkdfs && hashes
    }

    /// Sets algorithms with safe defaults. The provider must support each
    /// of them.
    pub fn with_recommended_algorithms(self) -> (r: ConfigBuilder)
        requires
            all_supported(recommended_curves(), self.provider.curve@),
            all_supported(recommended_hkdfs(), self.provider.hkdf@),
            all_supported(recommended_hashes(), self.provider.hash@),
        ensures
            r.curve matches Some(curve) && curve@ == recommended_curves(),
            r.hkdf matches Some(hkdf) && hkdf@ == recommended_hkdfs(),
            r.hash matches Some(hash) && hash@ == recommended_hashes(),
            r.provider == self.provider,
    {
        let hkdf: Vec<hkdf::Algorithm> = vec![
            hkdf::Algorithm::Sha256,
            hkdf::Algorithm::Sha512,
            hkdf::Algorithm::Sha384,
        ];
        let curve: Vec<agreement::Algorithm> = vec![
            agreement::Algorithm::EcdhP521,
            agreement::Algorithm::EcdhP384,
            agreement::Algorithm::EcdhP256,
        ];
        let hash: Vec<digest::Algorithm> = vec![
            digest::Algorithm::Sha256,
            digest::Algorithm::Sha512,
            digest::Algorithm::Sha224,
            digest::Algorithm::Sha384,
            digest::Algorithm::Sha3_256,
            digest::Algorithm::Sha3_512,
            digest::Algorithm::Sha3_384,
        ];
        assert(hkdf@ =~= recommended_hkdfs());
        assert(curve@ =~= recommended_curves());
        assert(hash@ =~= recommended_hashes());
        self.with_hkdf(hkdf).with_curve(curve).with_hash(hash)
    }

    /// Finish builder to peer config. Curves, key derivation functions and
    /// hash functions must have been specified.
    pub fn build(self) -> (r: Config)
        requires
            self.curve.is_some(),
            self.hkdf.is_some(),
            self.hash.is_some(),
        ensures
            Some(r.curve) == self.curve,
            Some(r.hkdf) == self.hkdf,
            Some(r.hash) == self.hash,
            r.provider == self.provider,
    {
        Config {
            curve: self.curve.unwrap(),
            hkdf: self.hkdf.unwrap(),
            hash: self.hash.unwrap(),
            provider: self.provider,
        }
    }
}

} // verus!
