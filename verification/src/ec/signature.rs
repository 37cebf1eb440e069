use vstd::prelude::*;
use crate::aws_lc;
use crate::ec::agreement::result_view;
use crate::ec::encoding::PrivateKeyBin;
use crate::ec::encoding::PrivateKeyDer;
use crate::ec::encoding::PublicKeyBin;
use crate::ec::encoding::PublicKeyDer;
use crate::ec::Curve;
use crate::error::Error;

verus! {

/// Supported signature algorithms.
#[derive(Debug, Clone, Copy, PartialEq, Eq, Structural)]
pub enum Algorithm {
    /// ASN.1 DER-encoded ECDSA signatures using the [`P256`] curve and
    /// SHA-256.
    ///
    /// [`P256`]: Curve::P256
    EcdsaP256Sha256Asn1,
    /// Fixed-length (PKCS#11 style) ECDSA signatures using the [`P256`] curve
    /// and SHA-256.
    ///
    /// [`P256`]: Curve::P256
    EcdsaP256Sha256Fixed,
    /// ASN.1 DER-encoded ECDSA signatures using the [`P384`] curve and
    /// SHA-384.
    ///
    /// [`P384`]: Curve::P384
    EcdsaP384Sha384Asn1,
    /// Fixed-length (PKCS#11 style) ECDSA signatures using the [`P384`] curve
    /// and SHA-384.
    ///
    /// [`P384`]: Curve::P384
    EcdsaP384Sha384Fixed,
    /// [`Curve25519`] signatures.
    ///
    /// [`Curve25519`]: Curve::Curve25519
    Ed25519,
    /// [`Curve448`] signatures.
    ///
    /// [`Curve448`]: Curve::Curve448
    Ed448,
}

impl Algorithm {
    /// The numeric identifier of the algorithm.
    pub open spec fn spec_code(self) -> i32 {
        match self {
            Algorithm::EcdsaP256Sha256Asn1 => 1113,
            Algorithm::EcdsaP256Sha256Fixed => -1113i32,
            Algorithm::EcdsaP384Sha384Asn1 => 1114,
            Algorithm::EcdsaP384Sha384Fixed => -1114i32,
            Algorithm::Ed25519 => 1087,
            Algorithm::Ed448 => 1088,
        }
    }

    /// Elliptic curve associated with the algorithm.
    pub open spec fn spec_curve(&self) -> Curve {
        match *self {
            Algorithm::EcdsaP256Sha256Asn1 | Algorithm::EcdsaP256Sha256Fixed => Curve::P256,
            Algorithm::EcdsaP384Sha384Asn1 | Algorithm::EcdsaP384Sha384Fixed => Curve::P384,
            Algorithm::Ed25519 => Curve::Curve25519,
            Algorithm::Ed448 => Curve::Curve448,
        }
    }

    /// Whether the backend implements the algorithm: all but Ed448.
    pub open spec fn spec_is_supported(self) -> bool {
        self != Algorithm::Ed448
    }

    /// Whether the algorithm is ECDSA.
    pub open spec fn spec_is_ecdsa(self) -> bool {
        self != Algorithm::Ed448 && self != Algorithm::Ed25519
    }

    /// The numeric identifier of the algorithm.
    #[verifier::when_used_as_spec(spec_code)]
    pub fn code(self) -> (r: i32)
        ensures
            r == self.spec_code(),
    {
        match self {
            Algorithm::EcdsaP256Sha256Asn1 => 1113,
            Algorithm::EcdsaP256Sha256Fixed => -1113i32,
            Algorithm::EcdsaP384Sha384Asn1 => 1114,
            Algorithm::EcdsaP384Sha384Fixed => -1114i32,
            Algorithm::Ed25519 => 1087,
            Algorithm::Ed448 => 1088,
        }
    }

    /// Elliptic curve associated with the algorithm.
    #[verifier::when_used_as_spec(spec_curve)]
    pub fn curve(&self) -> (r: Curve)
        ensures
            r == self.spec_curve(),
    {
        match self {
            Algorithm::EcdsaP256Sha256Asn1 | Algorithm::EcdsaP256Sha256Fixed => Curve::P256,
            Algorithm::EcdsaP384Sha384Asn1 | Algorithm::EcdsaP384Sha384Fixed => Curve::P384,
            Algorithm::Ed25519 => Curve::Curve25519,
            Algorithm::Ed448 => Curve::Curve448,
        }
    }

    /// The algorithm with the given numeric identifier.
    ///
    /// Succeeds exactly on the identifiers of the six algorithms; any other
    /// value is an [`Error::UnsupportedSignatureAlgorithm`].
    pub fn try_from(value: i32) -> (r: Result<Algorithm, Error>)
        ensures
            match r {
                Ok(a) => a.spec_code() == value,
                Err(e) => e == Error::UnsupportedSignatureAlgorithm && forall|a: Algorithm|
                    a.spec_code() != value,
            },
    {
        match value {
            1113 => Ok(Algorithm::EcdsaP256Sha256Asn1),
            -1113 => Ok(Algorithm::EcdsaP256Sha256Fixed),
            1114 => Ok(Algorithm::EcdsaP384Sha384Asn1),
            -1114 => Ok(Algorithm::EcdsaP384Sha384Fixed),
            1087 => Ok(Algorithm::Ed25519),
            1088 => Ok(Algorithm::Ed448),
            _ => Err(Error::UnsupportedSignatureAlgorithm),
        }
    }

    /// Whether the backend implements the algorithm.
    #[verifier::when_used_as_spec(spec_is_supported)]
    pub fn is_supported(self) -> (r: bool)
        ensures
            r == self.spec_is_supported(),
    {
        match self {
            Algorithm::Ed448 => false,
            _ => true,
        }
    }
}

/// Whether `signature` is a valid signature of `message` under the public
/// key, which is false for every input where the algorithm is not
/// implemented.
pub open spec fn spec_verify(
    algorithm: Algorithm,
    public_key: Seq<u8>,
    message: Seq<u8>,
    signature: Seq<u8>,
) -> bool {
    algorithm.spec_is_supported() && aws_lc::signature_valid(
        algorithm,
        public_key,
        message,
        signature,
    )
}

/// The public key of a signing key that is given as a PKCS #8 document:
/// the 32 bytes of an Ed25519 key, the uncompressed point of an ECDSA key.
pub open spec fn spec_public_key(algorithm: Algorithm, pkcs8: Seq<u8>) -> Result<Seq<u8>, Error> {
    match algorithm {
        Algorithm::Ed448 => Err(Error::UnsupportedSignatureAlgorithm),
        Algorithm::Ed25519 => aws_lc::ed25519_public_key_value(pkcs8),
        _ => aws_lc::ecdsa_public_key_value(algorithm, pkcs8),
    }
}

/// Verifies the signature of the given `message`.
pub fn verify(algorithm: Algorithm, public_key: &[u8], message: &[u8], signature: &[u8]) -> (r:
    bool)
    ensures
        r == spec_verify(algorithm, public_key@, message@, signature@),
{
    if !algorithm.is_supported() {
        return false;
    }
    aws_lc::verify(algorithm, public_key, message, signature)
}

/// Signs `message` with the signing key that the PKCS #8 document holds.
///
/// An Ed25519 signature is a function of key and message. An ECDSA signature
/// also depends on a random nonce, so nothing is stated of its bytes. With
/// an algorithm that the backend implements, a failure is
/// [`Error::KeyRejected`] for a document that does not parse and
/// [`Error::Unspecified`] for a failure to sign.
pub fn sign(algorithm: Algorithm, pkcs8: &[u8], message: &[u8]) -> (r: Result<Vec<u8>, Error>)
    ensures
        algorithm == Algorithm::Ed448 ==> r == Err::<Vec<u8>, Error>(
            Error::UnsupportedSignatureAlgorithm,
        ),
        algorithm == Algorithm::Ed25519 ==> result_view(r) == aws_lc::ed25519_signature_value(
            pkcs8@,
            message@,
        ),
        algorithm.spec_is_supported() ==> (r matches Err(e) ==> e == Error::KeyRejected || e
            == Error::Unspecified),
{
    match algorithm {
        Algorithm::Ed448 => Err(Error::UnsupportedSignatureAlgorithm),
        Algorithm::Ed25519 => aws_lc::ed25519_sign(pkcs8, message),
        _ => aws_lc::ecdsa_sign(algorithm, pkcs8, message),
    }
}

/// Generates a new signing key and returns it as a PKCS #8 v1 document.
///
/// The key comes from the system's random source, so nothing is known of
/// its value. Fails with [`Error::UnsupportedSignatureAlgorithm`] exactly
/// where the backend does not implement the algorithm; with an algorithm
/// that it implements, the one failure is that of the random source,
/// [`Error::Unspecified`].
pub fn generate_signing_key(algorithm: Algorithm) -> (r: Result<Vec<u8>, Error>)
    ensures
        !algorithm.spec_is_supported() ==> r == Err::<Vec<u8>, Error>(
            Error::UnsupportedSignatureAlgorithm,
        ),
        algorithm.spec_is_supported() ==> (r matches Err(e) ==> e == Error::Unspecified),
{
    let key = match algorithm {
        Algorithm::Ed448 => { return Err(Error::UnsupportedSignatureAlgorithm); },
        Algorithm::Ed25519 => aws_lc::ed25519_generate(),
        _ => aws_lc::ecdsa_generate(algorithm),
    };
    match key {
        Some(pkcs8) => Ok(pkcs8),
        None => Err(Error::Unspecified),
    }
}

/// Computes the public key of the signing key that the PKCS #8 document
/// holds.
///
/// Fails with [`Error::UnsupportedSignatureAlgorithm`] exactly where the
/// backend does not implement the algorithm; any other failure is that of
/// a document that the backend rejects.
pub fn compute_public_key(algorithm: Algorithm, pkcs8: &[u8]) -> (r: Result<Vec<u8>, Error>)
    ensures
        result_view(r) == spec_public_key(algorithm, pkcs8@),
        algorithm.spec_is_supported() ==> (r matches Err(e) ==> e == Error::KeyRejected),
{
    match algorithm {
        Algorithm::Ed448 => Err(Error::UnsupportedSignatureAlgorithm),
        Algorithm::Ed25519 => aws_lc::ed25519_public_key(pkcs8),
        _ => aws_lc::ecdsa_public_key(algorithm, pkcs8),
    }
}

} // verus!

verus! {

/// A private key used for digital signatures.
pub trait SigningKey {
    /// The algorithm of the key.
    spec fn spec_algorithm(&self) -> Algorithm;

    /// The key as a PKCS #8 document.
    spec fn spec_pkcs8(&self) -> Seq<u8>;

    /// Signs given `message`.
    ///
    /// An Ed25519 signature is a function of key and message; of an ECDSA
    /// signature, which depends on a random nonce, nothing is stated.
    fn sign(&self, message: &[u8]) -> (r: Result<Vec<u8>, Error>)
        ensures
            self.spec_algorithm() == Algorithm::Ed448 ==> r == Err::<Vec<u8>, Error>(
                Error::UnsupportedSignatureAlgorithm,
            ),
            self.spec_algorithm() == Algorithm::Ed25519 ==> result_view(r)
                == aws_lc::ed25519_signature_value(self.spec_pkcs8(), message@),
            self.spec_algorithm().spec_is_supported() ==> (r matches Err(e) ==> e
                == Error::KeyRejected || e == Error::Unspecified),
    ;

    /// Computes public key of the signing key.
    fn compute_public_key(&self) -> (r: Result<Vec<u8>, Error>)
        ensures
            result_view(r) == spec_public_key(self.spec_algorithm(), self.spec_pkcs8()),
    ;

    /// Kind of the private key we have.
    fn algorithm(&self) -> (r: Algorithm)
        ensures
            r == self.spec_algorithm(),
    ;
}

/// A public key for verifying digital signatures.
pub trait VerifyingKey {
    /// The algorithm of the key.
    spec fn spec_algorithm(&self) -> Algorithm;

    /// The raw bytes of the key.
    spec fn spec_bytes(&self) -> Seq<u8>;

    /// Verifies the signature of the given `message`.
    fn verify(&self, message: &[u8], signature: &[u8]) -> (r: bool)
        ensures
            r == spec_verify(self.spec_algorithm(), self.spec_bytes(), message@, signature@),
    ;

    /// Kind of the public key we have.
    fn algorithm(&self) -> (r: Algorithm)
        ensures
            r == self.spec_algorithm(),
    ;
}

/// The bytes of a signing key in one of its encodings, from the PKCS #8 v1
/// document that holds the key.
///
/// An Ed25519 key has PKCS #8 v1 and v2 and the seed; an ECDSA key has
/// PKCS #8 v1, the elliptic curve private key structure and the big-endian
/// integer. Any other pair is an [`Error::UnsupportedEncoding`].
pub open spec fn spec_encode_signing_key(algorithm: Algorithm, pkcs8: Seq<u8>, encoding: Encoding)
    -> Result<Seq<u8>, Error> {
    match algorithm {
        Algorithm::Ed448 => Err(Error::UnsupportedSignatureAlgorithm),
        Algorithm::Ed25519 => match encoding {
            Encoding::Pkcs8V1 => Ok(pkcs8),
            Encoding::Pkcs8V2 => aws_lc::ed25519_pkcs8v2_value(pkcs8),
            Encoding::Seed => aws_lc::ed25519_seed_value(pkcs8),
            _ => Err(Error::UnsupportedEncoding),
        },
        _ => match encoding {
            Encoding::Pkcs8V1 => Ok(pkcs8),
            Encoding::EcPrivateKey => aws_lc::ecdsa_rfc5915_value(algorithm, pkcs8),
            Encoding::Integer => aws_lc::ecdsa_scalar_value(algorithm, pkcs8),
            _ => Err(Error::UnsupportedEncoding),
        },
    }
}

/// The encodings of a signing key.
#[derive(Debug, Clone, Copy, PartialEq, Eq, Structural)]
pub enum Encoding {
    /// PKCS #8 v1 in DER.
    Pkcs8V1,
    /// PKCS #8 v2 in DER.
    Pkcs8V2,
    /// The elliptic curve private key structure in DER.
    EcPrivateKey,
    /// The seed of a twisted Edwards curve.
    Seed,
    /// The private key as a big-endian integer.
    Integer,
}

/// The bytes of a signing key in one of its encodings.
pub fn encode_signing_key(algorithm: Algorithm, pkcs8: &[u8], encoding: Encoding) -> (r: Result<
    Vec<u8>,
    Error,
>)
    ensures
        result_view(r) == spec_encode_signing_key(algorithm, pkcs8@, encoding),
        r matches Err(e) ==> e == Error::UnsupportedSignatureAlgorithm || e
            == Error::UnsupportedEncoding || e == Error::KeyRejected || e == Error::Unspecified,
{
    match algorithm {
        Algorithm::Ed448 => Err(Error::UnsupportedSignatureAlgorithm),
        Algorithm::Ed25519 => match encoding {
            Encoding::Pkcs8V1 => Ok(crate::bytes::copy(pkcs8)),
            Encoding::Pkcs8V2 => aws_lc::ed25519_pkcs8v2(pkcs8),
            Encoding::Seed => aws_lc::ed25519_seed(pkcs8),
            _ => Err(Error::UnsupportedEncoding),
        },
        _ => match encoding {
            Encoding::Pkcs8V1 => Ok(crate::bytes::copy(pkcs8)),
            Encoding::EcPrivateKey => aws_lc::ecdsa_rfc5915(algorithm, pkcs8),
            Encoding::Integer => aws_lc::ecdsa_scalar(algorithm, pkcs8),
            _ => Err(Error::UnsupportedEncoding),
        },
    }
}

/// The X.509 public key structure of a verifying key.
pub open spec fn spec_x509(algorithm: Algorithm, public_key: Seq<u8>) -> Result<Seq<u8>, Error> {
    if algorithm.spec_is_supported() {
        aws_lc::verifying_key_x509_value(algorithm, public_key)
    } else {
        Err(Error::UnsupportedSignatureAlgorithm)
    }
}

/// Methods for serializing private keys into DER or binary formats.
pub trait PrivateKeySerializer: SigningKey {
    /// Serializes the private key into PKCS#8 v1 DER format.
    fn to_pkcs8v1_der(&self) -> (r: Result<PrivateKeyDer, Error>)
        ensures
            match r {
                Ok(der) => der is Pkcs8V1Key && spec_encode_signing_key(
                    self.spec_algorithm(),
                    self.spec_pkcs8(),
                    Encoding::Pkcs8V1,
                ) == Ok::<Seq<u8>, Error>(der.bytes()),
                Err(e) => spec_encode_signing_key(
                    self.spec_algorithm(),
                    self.spec_pkcs8(),
                    Encoding::Pkcs8V1,
                ) == Err::<Seq<u8>, Error>(e),
            },
    ;

    /// Serializes the private key into PKCS#8 v2 DER format.
    fn to_pkcs8v2_der(&self) -> (r: Result<PrivateKeyDer, Error>)
        ensures
            match r {
                Ok(der) => der is Pkcs8V2Key && spec_encode_signing_key(
                    self.spec_algorithm(),
                    self.spec_pkcs8(),
                    Encoding::Pkcs8V2,
                ) == Ok::<Seq<u8>, Error>(der.bytes()),
                Err(e) => spec_encode_signing_key(
                    self.spec_algorithm(),
                    self.spec_pkcs8(),
                    Encoding::Pkcs8V2,
                ) == Err::<Seq<u8>, Error>(e),
            },
    ;

    /// Serializes the private key into elliptic curve private key
    /// structure, defined in
    /// [RFC 5915](https://datatracker.ietf.org/doc/html/rfc5915).
    fn to_rfc_5915_private_key_der(&self) -> (r: Result<PrivateKeyDer, Error>)
        ensures
            match r {
                Ok(der) => der is EcPrivateKey && spec_encode_signing_key(
                    self.spec_algorithm(),
                    self.spec_pkcs8(),
                    Encoding::EcPrivateKey,
                ) == Ok::<Seq<u8>, Error>(der.bytes()),
                Err(e) => spec_encode_signing_key(
                    self.spec_algorithm(),
                    self.spec_pkcs8(),
                    Encoding::EcPrivateKey,
                ) == Err::<Seq<u8>, Error>(e),
            },
    ;

    /// Exposes the seed encoded as a big-endian fixed-length integer.
    ///
    /// Only twisted Edwards curves are supported.
    fn to_ed_ec_be_bytes(&self) -> (r: Result<PrivateKeyBin, Error>)
        ensures
            match r {
                Ok(bin) => bin is EdEcSeed && spec_encode_signing_key(
                    self.spec_algorithm(),
                    self.spec_pkcs8(),
                    Encoding::Seed,
                ) == Ok::<Seq<u8>, Error>(bin.bytes()),
                Err(e) => spec_encode_signing_key(
                    self.spec_algorithm(),
                    self.spec_pkcs8(),
                    Encoding::Seed,
                ) == Err::<Seq<u8>, Error>(e),
            },
    ;

    /// Exposes the private key encoded as a big-endian fixed-length
    /// integer.
    ///
    /// Twisted Edwards curves are not supported.
    fn to_ec_be_bytes(&self) -> (r: Result<PrivateKeyBin, Error>)
        ensures
            match r {
                Ok(bin) => bin is Ec && spec_encode_signing_key(
                    self.spec_algorithm(),
                    self.spec_pkcs8(),
                    Encoding::Integer,
                ) == Ok::<Seq<u8>, Error>(bin.bytes()),
                Err(e) => spec_encode_signing_key(
                    self.spec_algorithm(),
                    self.spec_pkcs8(),
                    Encoding::Integer,
                ) == Err::<Seq<u8>, Error>(e),
            },
    ;
}

/// Methods for serializing public keys into DER or binary formats.
pub trait PublicKeySerializer: VerifyingKey {
    /// Serializes the key into Internet X.509 Public Key format.
    fn to_x509_der(&self) -> (r: Result<PublicKeyDer, Error>)
        ensures
            match r {
                Ok(der) => der is X509Key && spec_x509(self.spec_algorithm(), self.spec_bytes())
                    == Ok::<Seq<u8>, Error>(der.bytes()),
                Err(e) => spec_x509(self.spec_algorithm(), self.spec_bytes()) == Err::<
                    Seq<u8>,
                    Error,
                >(e),
            },
    ;

    /// Serializes the public key into elliptic curve public key structure,
    /// which no key of the backend has.
    fn to_rfc_5915_public_key_der(&self) -> (r: Result<PublicKeyDer, Error>)
        ensures
            r matches Err(e) && e == Error::UnsupportedEncoding,
    ;

    /// Serializes the key into a big-endian format: the bytes that the key
    /// was loaded from.
    fn to_be_bytes(&self) -> (r: Result<PublicKeyBin, Error>)
        ensures
            r matches Ok(bin) && bin is Uncompreessed && bin.bytes() == self.spec_bytes(),
    ;

    /// Serializes the key into a compressed big-endian format, which no key
    /// of the backend has.
    fn to_compressed_be_bytes(&self) -> (r: Result<PublicKeyBin, Error>)
        ensures
            r matches Err(e) && e == Error::UnsupportedEncoding,
    ;
}

/// The X.509 public key structure of a verifying key.
pub fn x509(algorithm: Algorithm, public_key: &[u8]) -> (r: Result<Vec<u8>, Error>)
    ensures
        result_view(r) == spec_x509(algorithm, public_key@),
{
    if !algorithm.is_supported() {
        return Err(Error::UnsupportedSignatureAlgorithm);
    }
    aws_lc::verifying_key_x509(algorithm, public_key)
}

} // verus!
