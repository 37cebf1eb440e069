use vstd::prelude::*;
use crate::bytes;
use crate::digest;
use crate::digest::DigestFunction;
use crate::ec::agreement;
use crate::hkdf;
use crate::hkdf::Hkdf;
use crate::hkdf::Prk;
use crate::provider::CryptoProvider;
use crate::provider::HashProvider;
use crate::provider::HkdfProvider;
use crate::provider::Provider;

verus! {

/// Unit type implementing cryptographic providers backed by aws-lc-rs.
#[derive(Debug, Clone, Copy)]
pub struct AwsLcRs;

/// A key derivation function of aws-lc-rs.
#[derive(Debug, Clone, Copy)]
pub struct HkdfFunction {
    algorithm: hkdf::Algorithm,
}

impl Hkdf for HkdfFunction {
    closed spec fn spec_algorithm(&self) -> hkdf::Algorithm {
        self.algorithm
    }

    fn extract(&self, salt: Option<&[u8]>, secret: &[u8]) -> (r: Prk) {
        match salt {
            Some(salt) => Prk::new(self.algorithm, salt, secret),
            None => {
                let zeros = bytes::zeroed(self.algorithm.digest().output_len());
                Prk::new(self.algorithm, zeros.as_slice(), secret)
            },
        }
    }
}

impl Provider<digest::Algorithm, DigestFunction> for AwsLcRs {
    open spec fn supports(&self, algorithm: digest::Algorithm) -> bool {
        algorithm.spec_is_supported()
    }

    fn get(&self, algorithm: digest::Algorithm) -> (r: Option<DigestFunction>)
        ensures
            r matches Some(f) ==> crate::digest::Hash::spec_algorithm(&f) == algorithm,
    {
        DigestFunction::new(algorithm)
    }

    fn supported_algorithms(&self) -> (r: Vec<digest::Algorithm>) {
        let r: Vec<digest::Algorithm> = vec![
            digest::Algorithm::Sha224,
            digest::Algorithm::Sha256,
            digest::Algorithm::Sha384,
            digest::Algorithm::Sha512,
            digest::Algorithm::Sha3_256,
            digest::Algorithm::Sha3_384,
            digest::Algorithm::Sha3_512,
        ];
        assert forall|a: digest::Algorithm| r@.contains(a) == self.supports(a) by {
            if self.supports(a) {
                assert(r@[0] == digest::Algorithm::Sha224);
                assert(r@[1] == digest::Algorithm::Sha256);
                assert(r@[2] == digest::Algorithm::Sha384);
                assert(r@[3] == digest::Algorithm::Sha512);
                assert(r@[4] == digest::Algorithm::Sha3_256);
                assert(r@[5] == digest::Algorithm::Sha3_384);
                assert(r@[6] == digest::Algorithm::Sha3_512);
            }
        }
        r
    }

    fn is_algorithm_supported(&self, algorithm: digest::Algorithm) -> (r: bool) {
        algorithm.is_supported()
    }
}

impl HashProvider for AwsLcRs {

}

impl Provider<hkdf::Algorithm, HkdfFunction> for AwsLcRs {
    open spec fn supports(&self, algorithm: hkdf::Algorithm) -> bool {
        true
    }

    fn get(&self, algorithm: hkdf::Algorithm) -> (r: Option<HkdfFunction>)
        ensures
            r matches Some(f) ==> f.spec_algorithm() == algorithm,
    {
        Some(HkdfFunction { algorithm })
    }

    fn supported_algorithms(&self) -> (r: Vec<hkdf::Algorithm>) {
        let r: Vec<hkdf::Algorithm> = vec![
            hkdf::Algorithm::Sha256,
            hkdf::Algorithm::Sha384,
            hkdf::Algorithm::Sha512,
        ];
        assert forall|a: hkdf::Algorithm| r@.contains(a) by {
            assert(r@[0] == hkdf::Algorithm::Sha256);
            assert(r@[1] == hkdf::Algorithm::Sha384);
            assert(r@[2] == hkdf::Algorithm::Sha512);
        }
        r
    }

    fn is_algorithm_supported(&self, algorithm: hkdf::Algorithm) -> (r: bool) {
        true
    }
}

impl HkdfProvider for AwsLcRs {

}

impl AwsLcRs {
    /// Whether or not the curve algorithm is supported: the provider offers
    /// ECDH over the three NIST curves.
    pub fn is_curve_supported(&self, algorithm: agreement::Algorithm) -> (r: bool)
        ensures
            r == algorithm.spec_is_nist(),
    {
        algorithm.is_nist()
    }
}

/// What [`default_provider`] offers.
pub open spec fn spec_default_provider() -> (
    Seq<agreement::Algorithm>,
    Seq<hkdf::Algorithm>,
    Seq<digest::Algorithm>,
) {
    (
        seq![
            agreement::Algorithm::EcdhP521,
            agreement::Algorithm::EcdhP384,
            agreement::Algorithm::EcdhP256,
        ],
        seq![hkdf::Algorithm::Sha256, hkdf::Algorithm::Sha512, hkdf::Algorithm::Sha384],
        seq![
            digest::Algorithm::Sha256,
            digest::Algorithm::Sha512,
            digest::Algorithm::Sha224,
            digest::Algorithm::Sha384,
            digest::Algorithm::Sha3_256,
            digest::Algorithm::Sha3_512,
            digest::Algorithm::Sha3_384,
        ],
    )
}

/// A `CryptoProvider` backed by aws-lc-rs: ECDH over the three NIST
/// curves, every key derivation, and every hash function that the backend
/// implements, and no other.
pub fn default_provider() -> (r: CryptoProvider)
    ensures
        (r.curve@, r.hkdf@, r.hash@) == spec_default_provider(),
        forall|a: agreement::Algorithm| r.curve@.contains(a) == a.spec_is_nist(),
        forall|a: hkdf::Algorithm| r.hkdf@.contains(a),
        forall|a: digest::Algorithm| r.hash@.contains(a) == a.spec_is_supported(),
{
    let curve: Vec<agreement::Algorithm> = vec![
        agreement::Algorithm::EcdhP521,
        agreement::Algorithm::EcdhP384,
        agreement::Algorithm::EcdhP256,
    ];
    let hkdf: Vec<hkdf::Algorithm> = vec![
        hkdf::Algorithm::Sha256,
        hkdf::Algorithm::Sha512,
        hkdf::Algorithm::Sha384,
    ];
    let hash: Vec<digest::Algorithm> = vec![
        digest::Algorithm::Sha256,
        digest::Algorithm::Sha512,
        digest::Algorithm::Sha224,
        digest::Algorithm::Sha384,
        digest::Algorithm::Sha3_256,
        digest::Algorithm::Sha3_512,
        digest::Algorithm::Sha3_384,
    ];
    assert(curve@ =~= spec_default_provider().0);
    assert(hkdf@ =~= spec_default_provider().1);
    assert(hash@ =~= spec_default_provider().2);
    assert forall|a: agreement::Algorithm| curve@.contains(a) == a.spec_is_nist() by {
        if a.spec_is_nist() {
            assert(curve@[0] == agreement::Algorithm::EcdhP521);
            assert(curve@[1] == agreement::Algorithm::EcdhP384);
            assert(curve@[2] == agreement::Algorithm::EcdhP256);
        }
    }
    assert forall|a: hkdf::Algorithm| hkdf@.contains(a) by {
        assert(hkdf@[0] == hkdf::Algorithm::Sha256);
        assert(hkdf@[1] == hkdf::Algorithm::Sha512);
        assert(hkdf@[2] == hkdf::Algorithm::Sha384);
    }
    assert forall|a: digest::Algorithm| hash@.contains(a) == a.spec_is_supported() by {
        if a.spec_is_supported() {
            assert(hash@[0] == digest::Algorithm::Sha256);
            assert(hash@[1] == digest::Algorithm::Sha512);
            assert(hash@[2] == digest::Algorithm::Sha224);
            assert(hash@[3] == digest::Algorithm::Sha384);
            assert(hash@[4] == digest::Algorithm::Sha3_256);
            assert(hash@[5] == digest::Algorithm::Sha3_512);
            assert(hash@[6] == digest::Algorithm::Sha3_384);
        }
    }
    CryptoProvider { curve, hkdf, hash }
}

} // verus!
