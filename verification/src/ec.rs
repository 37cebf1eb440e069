use vstd::prelude::*;
use crate::aws_lc;
use crate::ec::agreement::EphemeralPrivateKey;
use crate::ec::agreement::PrivateKey;
use crate::ec::agreement::PublicKey;
use crate::ec::signature::SigningKey;
use crate::ec::signature::VerifyingKey;
use crate::ec::encoding::PrivateKeyBin;
use crate::ec::encoding::PrivateKeyDer;
use crate::ec::encoding::PublicKeyBin;
use crate::ec::encoding::PublicKeyDer;
use crate::error::Error;

/// Elliptic curve key agreement interface.
pub mod agreement;

/// Elliptic curve digital signature algorithms.
pub mod signature;

/// Public and private key encoding formats.
pub mod encoding;

verus! {

/// Supported elliptic curves.
#[derive(Debug, Clone, Copy, PartialEq, Eq, Structural)]
pub enum Curve {
    /// NIST P-256 curve (NSA Suite B).
    ///
    /// Also known as: prime256v1, secp256r1
    P256,
    /// NIST P-384 curve (NSA Suite B).
    ///
    /// Also known as: secp384r1, ansip384r1
    P384,
    /// NIST P-521 curve (NSA Suite B).
    ///
    /// Also known as: secp521r1, ansip521r1
    P521,
    /// Curve25519 as described by
    /// [RFC7748](https://datatracker.ietf.org/doc/html/rfc7748).
    Curve25519,
    /// Curve448 as described by
    /// [RFC7748](https://datatracker.ietf.org/doc/html/rfc7748).
    Curve448,
}

impl Curve {
    /// The numeric identifier of the curve.
    pub open spec fn spec_code(self) -> i32 {
        match self {
            Curve::P256 => 415,
            Curve::P384 => 715,
            Curve::P521 => 716,
            Curve::Curve25519 => 1034,
            Curve::Curve448 => 1035,
        }
    }

    /// The numeric identifier of the curve.
    #[verifier::when_used_as_spec(spec_code)]
    pub fn code(self) -> (r: i32)
        ensures
            r == self.spec_code(),
    {
        match self {
            Curve::P256 => 415,
            Curve::P384 => 715,
            Curve::P521 => 716,
            Curve::Curve25519 => 1034,
            Curve::Curve448 => 1035,
        }
    }

    /// The curve with the given numeric identifier.
    ///
    /// Succeeds exactly on the identifiers of the five curves; any other
    /// value is an [`Error::UnsupportedAlgorithm`].
    pub fn try_from(value: i32) -> (r: Result<Curve, Error>)
        ensures
            match r {
                Ok(c) => c.spec_code() == value,
                Err(e) => e == Error::UnsupportedAlgorithm && forall|c: Curve|
                    c.spec_code() != value,
            },
    {
        match value {
            415 => Ok(Curve::P256),
            715 => Ok(Curve::P384),
            716 => Ok(Curve::P521),
            1034 => Ok(Curve::Curve25519),
            1035 => Ok(Curve::Curve448),
            _ => Err(Error::UnsupportedAlgorithm),
        }
    }
}

/// The raw private key that a binary encoding holds, after it was
/// checked.
///
/// X25519 takes the seed and ECDH over a NIST curve the big-endian
/// integer; the other of the two is an [`Error::UnsupportedEncoding`]. A
/// key whose public key cannot be computed is rejected with the error of
/// that computation.
pub open spec fn spec_load_private_key_bin(algorithm: agreement::Algorithm, bin: PrivateKeyBin)
    -> Result<Seq<u8>, Error> {
    match algorithm {
        agreement::Algorithm::X448 => Err(Error::UnsupportedAgreementAlgorithm),
        agreement::Algorithm::X25519 => match bin {
            PrivateKeyBin::EdEcSeed(key) => match aws_lc::public_key_value(algorithm, key@) {
                Ok(_) => Ok(key@),
                Err(e) => Err(e),
            },
            PrivateKeyBin::Ec(_) => Err(Error::UnsupportedEncoding),
        },
        _ => match bin {
            PrivateKeyBin::Ec(key) => match aws_lc::public_key_value(algorithm, key@) {
                Ok(_) => Ok(key@),
                Err(e) => Err(e),
            },
            PrivateKeyBin::EdEcSeed(_) => Err(Error::UnsupportedEncoding),
        },
    }
}

/// The PKCS #8 document of the signing key that a DER encoding holds,
/// after it was checked.
///
/// Ed25519 takes PKCS #8 v1. ECDSA takes PKCS #8 v1 and the elliptic curve
/// private key structure, which is converted. Any other encoding is an
/// [`Error::UnsupportedEncoding`]. A document that does not parse is
/// rejected with the error of the parser.
pub open spec fn spec_load_signing_key_der(algorithm: signature::Algorithm, der: PrivateKeyDer)
    -> Result<Seq<u8>, Error> {
    match algorithm {
        signature::Algorithm::Ed448 => Err(Error::UnsupportedSignatureAlgorithm),
        signature::Algorithm::Ed25519 => match der {
            PrivateKeyDer::Pkcs8V1Key(key) => match aws_lc::ed25519_public_key_value(key@) {
                Ok(_) => Ok(key@),
                Err(e) => Err(e),
            },
            _ => Err(Error::UnsupportedEncoding),
        },
        _ => match der {
            PrivateKeyDer::Pkcs8V1Key(key) => match aws_lc::ecdsa_public_key_value(
                algorithm,
                key@,
            ) {
                Ok(_) => Ok(key@),
                Err(e) => Err(e),
            },
            PrivateKeyDer::EcPrivateKey(key) => aws_lc::ecdsa_pkcs8_value(algorithm, key@),
            PrivateKeyDer::Pkcs8V2Key(_) => Err(Error::UnsupportedEncoding),
        },
    }
}

/// The PKCS #8 document of the signing key that a binary encoding holds.
///
/// Ed25519 takes the seed, which is converted. Any other encoding, and any
/// binary encoding of an ECDSA key, is an [`Error::UnsupportedEncoding`].
pub open spec fn spec_load_signing_key_bin(algorithm: signature::Algorithm, bin: PrivateKeyBin)
    -> Result<Seq<u8>, Error> {
    match algorithm {
        signature::Algorithm::Ed448 => Err(Error::UnsupportedSignatureAlgorithm),
        signature::Algorithm::Ed25519 => match bin {
            PrivateKeyBin::EdEcSeed(seed) => aws_lc::ed25519_pkcs8_value(seed@),
            PrivateKeyBin::Ec(_) => Err(Error::UnsupportedEncoding),
        },
        _ => Err(Error::UnsupportedEncoding),
    }
}

/// The bytes of a verifying key, after they were checked: bytes that do
/// not parse as a public key of the algorithm are rejected with
/// [`Error::KeyRejected`].
pub open spec fn spec_load_verifying_key(algorithm: signature::Algorithm, bytes: Seq<u8>)
    -> Result<Seq<u8>, Error> {
    if !algorithm.spec_is_supported() {
        Err(Error::UnsupportedSignatureAlgorithm)
    } else if aws_lc::verifying_key_valid(algorithm, bytes) {
        Ok(bytes)
    } else {
        Err(Error::KeyRejected)
    }
}

/// Mechanism for loading or generating keys.
pub trait KeyProvider {
    /// The private keys for key agreement that the provider loads.
    type PrivateKey: agreement::PrivateKey;

    /// The public keys for key agreement that the provider loads.
    type PublicKey: agreement::PublicKey;

    /// The ephemeral private keys that the provider generates.
    type EphemeralPrivateKey: agreement::EphemeralPrivateKey;

    /// The signing keys that the provider loads.
    type SigningKey: signature::SigningKey;

    /// The verifying keys that the provider loads.
    type VerifyingKey: signature::VerifyingKey;

    /// Loads a private (agreement) key from DER: from a PKCS #8 document
    /// or the elliptic curve private key structure. X25519 has neither.
    fn load_private_key_der(algorithm: agreement::Algorithm, der: &PrivateKeyDer) -> (r: Result<
        Self::PrivateKey,
        Error,
    >)
        ensures
            match r {
                Ok(key) => key.spec_algorithm() == algorithm
                    && agreement::spec_private_key_from_der(algorithm, der.bytes()) == Ok::<
                    Seq<u8>,
                    Error,
                >(key.spec_bytes()),
                Err(e) => agreement::spec_private_key_from_der(algorithm, der.bytes()) == Err::<
                    Seq<u8>,
                    Error,
                >(e),
            },
            algorithm == agreement::Algorithm::X25519 ==> (r matches Err(e) && e
                == Error::KeyRejected),
            r matches Err(e) ==> e == Error::UnsupportedAgreementAlgorithm || e
                == Error::KeyRejected || e == Error::Unspecified,
    ;

    /// Loads a private (agreement) key from big-endian bytes.
    fn load_private_key_bin(algorithm: agreement::Algorithm, bin: &PrivateKeyBin) -> (r: Result<
        Self::PrivateKey,
        Error,
    >)
        ensures
            match r {
                Ok(key) => key.spec_algorithm() == algorithm && spec_load_private_key_bin(
                    algorithm,
                    *bin,
                ) == Ok::<Seq<u8>, Error>(key.spec_bytes()),
                Err(e) => spec_load_private_key_bin(algorithm, *bin) == Err::<Seq<u8>, Error>(e),
            },
            r matches Err(e) ==> e == Error::UnsupportedAgreementAlgorithm || e
                == Error::UnsupportedEncoding || e == Error::KeyRejected || e
                == Error::Unspecified,
    ;

    /// Loads a public (agreement) key from DER. The key is checked when it
    /// is used in an agreement.
    fn load_public_key_der(algorithm: agreement::Algorithm, der: &PublicKeyDer) -> (r: Result<
        Self::PublicKey,
        Error,
    >)
        ensures
            match r {
                Ok(key) => algorithm.spec_is_supported() && key.spec_algorithm() == algorithm
                    && key.spec_bytes() == der.bytes(),
                Err(e) => !algorithm.spec_is_supported() && e
                    == Error::UnsupportedAgreementAlgorithm,
            },
    ;

    /// Loads a public (agreement) key from big-endian bytes. The key is
    /// checked when it is used in an agreement.
    fn load_public_key_bin(algorithm: agreement::Algorithm, bin: &PublicKeyBin) -> (r: Result<
        Self::PublicKey,
        Error,
    >)
        ensures
            match r {
                Ok(key) => algorithm.spec_is_supported() && key.spec_algorithm() == algorithm
                    && key.spec_bytes() == bin.bytes(),
                Err(e) => !algorithm.spec_is_supported() && e
                    == Error::UnsupportedAgreementAlgorithm,
            },
    ;

    /// Generates a new ephemeral private key.
    ///
    /// The key is of the algorithm that was asked for. Fails with
    /// [`Error::UnsupportedAgreementAlgorithm`] exactly where the algorithm
    /// is not implemented; with an algorithm that is implemented, a failure
    /// is that of the random source.
    fn generate_ephemeral_private_key(algorithm: agreement::Algorithm) -> (r: Result<
        Self::EphemeralPrivateKey,
        Error,
    >)
        ensures
            r matches Ok(key) ==> key.spec_algorithm() == algorithm
                && algorithm.spec_is_supported(),
            !algorithm.spec_is_supported() ==> (r matches Err(e) && e
                == Error::UnsupportedAgreementAlgorithm),
            algorithm.spec_is_supported() ==> !(r matches Err(e) && e
                == Error::UnsupportedAgreementAlgorithm),
    ;

    /// Loads an elliptic curve signing key from DER.
    fn load_signing_key_der(algorithm: signature::Algorithm, der: &PrivateKeyDer) -> (r: Result<
        Self::SigningKey,
        Error,
    >)
        ensures
            match r {
                Ok(key) => key.spec_algorithm() == algorithm && spec_load_signing_key_der(
                    algorithm,
                    *der,
                ) == Ok::<Seq<u8>, Error>(key.spec_pkcs8()),
                Err(e) => spec_load_signing_key_der(algorithm, *der) == Err::<Seq<u8>, Error>(e),
            },
            r matches Err(e) ==> e == Error::UnsupportedSignatureAlgorithm || e
                == Error::UnsupportedEncoding || e == Error::KeyRejected || e
                == Error::Unspecified,
            algorithm.spec_is_supported() && *der is Pkcs8V1Key ==> (r matches Err(e) ==> e
                == Error::KeyRejected),
    ;

    /// Loads an elliptic curve signing key from raw bytes.
    fn load_signing_key_bin(algorithm: signature::Algorithm, bin: &PrivateKeyBin) -> (r: Result<
        Self::SigningKey,
        Error,
    >)
        ensures
            match r {
                Ok(key) => key.spec_algorithm() == algorithm && spec_load_signing_key_bin(
                    algorithm,
                    *bin,
                ) == Ok::<Seq<u8>, Error>(key.spec_pkcs8()),
                Err(e) => spec_load_signing_key_bin(algorithm, *bin) == Err::<Seq<u8>, Error>(e),
            },
            r matches Err(e) ==> e == Error::UnsupportedSignatureAlgorithm || e
                == Error::UnsupportedEncoding || e == Error::KeyRejected || e
                == Error::Unspecified,
    ;

    /// Loads an elliptic curve verifying key from DER.
    fn load_verifying_key_der(algorithm: signature::Algorithm, der: &PublicKeyDer) -> (r: Result<
        Self::VerifyingKey,
        Error,
    >)
        ensures
            match r {
                Ok(key) => key.spec_algorithm() == algorithm && spec_load_verifying_key(
                    algorithm,
                    der.bytes(),
                ) == Ok::<Seq<u8>, Error>(key.spec_bytes()),
                Err(e) => spec_load_verifying_key(algorithm, der.bytes()) == Err::<
                    Seq<u8>,
                    Error,
                >(e),
            },
    ;

    /// Loads an elliptic curve verifying key from raw bytes.
    fn load_verifying_key_bin(algorithm: signature::Algorithm, bin: &PublicKeyBin) -> (r: Result<
        Self::VerifyingKey,
        Error,
    >)
        ensures
            match r {
                Ok(key) => key.spec_algorithm() == algorithm && spec_load_verifying_key(
                    algorithm,
                    bin.bytes(),
                ) == Ok::<Seq<u8>, Error>(key.spec_bytes()),
                Err(e) => spec_load_verifying_key(algorithm, bin.bytes()) == Err::<
                    Seq<u8>,
                    Error,
                >(e),
            },
    ;
}

} // verus!
