use vstd::prelude::*;
use crate::aws_lc;
use crate::aws_lc::keys::AnyPrivateKey;
use crate::aws_lc::keys::AnyPublicKey;
use crate::aws_lc::keys::AnySigningKey;
use crate::aws_lc::keys::AnyVerifyingKey;
use crate::aws_lc::keys::EphemeralKey;
use crate::aws_lc::provider::AwsLcRs;
use crate::bytes;
use crate::ec::agreement;
use crate::ec::agreement::PrivateKey;
use crate::ec::agreement::PublicKey;
use crate::ec::encoding::PrivateKeyBin;
use crate::ec::encoding::PrivateKeyDer;
use crate::ec::encoding::PublicKeyBin;
use crate::ec::encoding::PublicKeyDer;
use crate::ec::signature;
use crate::ec::signature::SigningKey;
use crate::ec::signature::VerifyingKey;
use crate::ec::spec_load_verifying_key;
use crate::ec::KeyProvider;
use crate::error::Error;

verus! {

/// Loads a verifying key from its bytes, in whatever format they are.
pub fn load_verifying_key(algorithm: signature::Algorithm, bytes: &[u8]) -> (r: Result<
    AnyVerifyingKey,
    Error,
>)
    ensures
        match r {
            Ok(key) => key.spec_algorithm() == algorithm && spec_load_verifying_key(
                algorithm,
                bytes@,
            ) == Ok::<Seq<u8>, Error>(key.spec_bytes()),
            Err(e) => spec_load_verifying_key(algorithm, bytes@) == Err::<Seq<u8>, Error>(e),
        },
{
    if !algorithm.is_supported() {
        return Err(Error::UnsupportedSignatureAlgorithm);
    }
    if !aws_lc::verifying_key_parses(algorithm, bytes) {
        return Err(Error::KeyRejected);
    }
    Ok(AnyVerifyingKey::new(algorithm, bytes::copy(bytes)))
}

impl KeyProvider for AwsLcRs {
    type PrivateKey = AnyPrivateKey;

    type PublicKey = AnyPublicKey;

    type EphemeralPrivateKey = EphemeralKey;

    type SigningKey = AnySigningKey;

    type VerifyingKey = AnyVerifyingKey;

    fn load_private_key_der(algorithm: agreement::Algorithm, der: &PrivateKeyDer) -> (r: Result<
        AnyPrivateKey,
        Error,
    >) {
        match agreement::private_key_from_der(algorithm, der.as_ref()) {
            Ok(key) => Ok(AnyPrivateKey::new(algorithm, key)),
            Err(e) => Err(e),
        }
    }

    fn load_private_key_bin(algorithm: agreement::Algorithm, bin: &PrivateKeyBin) -> (r: Result<
        AnyPrivateKey,
        Error,
    >) {
        let key = match algorithm {
            agreement::Algorithm::X448 => {
                return Err(Error::UnsupportedAgreementAlgorithm);
            },
            agreement::Algorithm::X25519 => match bin {
                PrivateKeyBin::EdEcSeed(key) => key,
                PrivateKeyBin::Ec(_) => { return Err(Error::UnsupportedEncoding); },
            },
            _ => match bin {
                PrivateKeyBin::Ec(key) => key,
                PrivateKeyBin::EdEcSeed(_) => { return Err(Error::UnsupportedEncoding); },
            },
        };
        match agreement::compute_public_key(algorithm, key.as_slice()) {
            Ok(_) => Ok(AnyPrivateKey::new(algorithm, bytes::copy(key.as_slice()))),
            Err(e) => Err(e),
        }
    }

    fn load_public_key_der(algorithm: agreement::Algorithm, der: &PublicKeyDer) -> (r: Result<
        AnyPublicKey,
        Error,
    >) {
        if !algorithm.is_supported() {
            return Err(Error::UnsupportedAgreementAlgorithm);
        }
        Ok(AnyPublicKey::new(algorithm, bytes::copy(der.as_ref())))
    }

    fn load_public_key_bin(algorithm: agreement::Algorithm, bin: &PublicKeyBin) -> (r: Result<
        AnyPublicKey,
        Error,
    >) {
        if !algorithm.is_supported() {
            return Err(Error::UnsupportedAgreementAlgorithm);
        }
        Ok(AnyPublicKey::new(algorithm, bytes::copy(bin.as_ref())))
    }

    fn generate_ephemeral_private_key(algorithm: agreement::Algorithm) -> (r: Result<
        EphemeralKey,
        Error,
    >)
        ensures
            algorithm.spec_is_supported() ==> (r matches Err(e) ==> e == Error::Unspecified),
    {
        EphemeralKey::generate(algorithm)
    }

    fn load_signing_key_der(algorithm: signature::Algorithm, der: &PrivateKeyDer) -> (r: Result<
        AnySigningKey,
        Error,
    >) {
        if !algorithm.is_supported() {
            return Err(Error::UnsupportedSignatureAlgorithm);
        }
        let pkcs8 = match der {
            PrivateKeyDer::Pkcs8V1Key(key) => {
                match signature::compute_public_key(algorithm, key.as_slice()) {
                    Ok(_) => bytes::copy(key.as_slice()),
                    Err(e) => { return Err(e); },
                }
            },
            PrivateKeyDer::EcPrivateKey(key) => {
                match algorithm {
                    signature::Algorithm::Ed25519 => { return Err(Error::UnsupportedEncoding); },
                    _ => match aws_lc::ecdsa_pkcs8_from_der(algorithm, key.as_slice()) {
                        Ok(pkcs8) => pkcs8,
                        Err(e) => { return Err(e); },
                    },
                }
            },
            PrivateKeyDer::Pkcs8V2Key(_) => { return Err(Error::UnsupportedEncoding); },
        };
        Ok(AnySigningKey::new(algorithm, pkcs8))
    }

    fn load_signing_key_bin(algorithm: signature::Algorithm, bin: &PrivateKeyBin) -> (r: Result<
        AnySigningKey,
        Error,
    >) {
        match algorithm {
            signature::Algorithm::Ed448 => Err(Error::UnsupportedSignatureAlgorithm),
            signature::Algorithm::Ed25519 => match bin {
                PrivateKeyBin::EdEcSeed(seed) => match aws_lc::ed25519_pkcs8_from_seed(
                    seed.as_slice(),
                ) {
                    Ok(pkcs8) => Ok(AnySigningKey::new(algorithm, pkcs8)),
                    Err(e) => Err(e),
                },
                PrivateKeyBin::Ec(_) => Err(Error::UnsupportedEncoding),
            },
            _ => Err(Error::UnsupportedEncoding),
        }
    }

    fn load_verifying_key_der(algorithm: signature::Algorithm, der: &PublicKeyDer) -> (r: Result<
        AnyVerifyingKey,
        Error,
    >) {
        load_verifying_key(algorithm, der.as_ref())
    }

    fn load_verifying_key_bin(algorithm: signature::Algorithm, bin: &PublicKeyBin) -> (r: Result<
        AnyVerifyingKey,
        Error,
    >) {
        load_verifying_key(algorithm, bin.as_ref())
    }
}

} // verus!
