use vstd::prelude::*;
use crate::bytes;
use crate::ec::agreement;
use crate::ec::agreement::EphemeralPrivateKey;
use crate::ec::agreement::PrivateKey;
use crate::ec::agreement::PublicKey;
use crate::ec::agreement::SharedSecret;
use crate::ec::signature;
use crate::ec::encoding::PrivateKeyBin;
use crate::ec::encoding::PrivateKeyDer;
use crate::ec::encoding::PublicKeyBin;
use crate::ec::encoding::PublicKeyDer;
use crate::ec::signature::Encoding;
use crate::ec::signature::PrivateKeySerializer;
use crate::ec::signature::PublicKeySerializer;
use crate::ec::signature::SigningKey;
use crate::ec::signature::VerifyingKey;
use crate::error::Error;

verus! {

/// Key agreement using ECDH over a NIST curve: the private key as a
/// big-endian integer of the curve's length.
pub struct EcdhPrivateKey {
    algorithm: agreement::Algorithm,
    key: Vec<u8>,
}

/// A possibly malformed ECDH public key: the uncompressed point.
pub struct EcdhPublicKey {
    algorithm: agreement::Algorithm,
    bytes: Vec<u8>,
}

/// Key agreement using Curve25519: the 32 bytes of the private key.
pub struct X25519PrivateKey {
    key: Vec<u8>,
}

/// A possibly malformed Curve25519 public key: its 32 bytes.
pub struct X25519PublicKey {
    bytes: Vec<u8>,
}

impl EcdhPrivateKey {
    /// The key of the raw bytes, or `None` where the algorithm is not ECDH
    /// over a NIST curve.
    pub fn new(algorithm: agreement::Algorithm, key: Vec<u8>) -> (r: Option<EcdhPrivateKey>)
        ensures
            r.is_some() == (algorithm != agreement::Algorithm::X25519 && algorithm
                != agreement::Algorithm::X448),
            r matches Some(k) ==> k.spec_algorithm() == algorithm && k.spec_bytes() == key@,
    {
        match algorithm {
            agreement::Algorithm::X25519 => None,
            agreement::Algorithm::X448 => None,
            _ => Some(EcdhPrivateKey { algorithm, key }),
        }
    }
}

impl PrivateKey for EcdhPrivateKey {
    closed spec fn spec_algorithm(&self) -> agreement::Algorithm {
        self.algorithm
    }

    closed spec fn spec_bytes(&self) -> Seq<u8> {
        self.key@
    }

    fn agree<P: PublicKey>(&self, peer_public_key: &P) -> (r: Result<SharedSecret, Error>) {
        agreement::agree_with(self.algorithm, self.key.as_slice(), peer_public_key)
    }

    fn compute_public_key(&self) -> (r: Result<Vec<u8>, Error>) {
        agreement::compute_public_key(self.algorithm, self.key.as_slice())
    }

    fn as_der(&self) -> (r: Result<Vec<u8>, Error>) {
        agreement::private_key_to_der(self.algorithm, self.key.as_slice())
    }

    fn algorithm(&self) -> (r: agreement::Algorithm) {
        self.algorithm
    }
}

/// A private key for the agreements of one handshake, from the system's
/// random source.
pub struct EphemeralKey {
    algorithm: agreement::Algorithm,
    key: Vec<u8>,
}

impl EphemeralKey {
    /// The ephemeral key of the raw bytes.
    pub fn new(algorithm: agreement::Algorithm, key: Vec<u8>) -> (r: EphemeralKey)
        ensures
            r.spec_algorithm() == algorithm,
            r.spec_bytes() == key@,
    {
        EphemeralKey { algorithm, key }
    }

    /// The ephemeral key that comes of an attempt to generate a private
    /// key: the key of the bytes that were generated, or the error of the
    /// attempt.
    pub fn from_generated(algorithm: agreement::Algorithm, generated: Result<Vec<u8>, Error>) -> (r:
        Result<EphemeralKey, Error>)
        ensures
            match generated {
                Ok(key) => r matches Ok(k) && k.spec_algorithm() == algorithm && k.spec_bytes()
                    == key@,
                Err(e) => r matches Err(f) && f == e,
            },
    {
        match generated {
            Ok(key) => Ok(EphemeralKey::new(algorithm, key)),
            Err(e) => Err(e),
        }
    }

    /// Generates an ephemeral private key from the system's random source.
    ///
    /// The key is of the algorithm that was asked for; nothing is known of
    /// its bytes. Fails with [`Error::UnsupportedAgreementAlgorithm`]
    /// exactly where the backend does not implement the algorithm; with an
    /// algorithm that it implements, the one failure is that of the random
    /// source, [`Error::Unspecified`]. The outcome is what
    /// [`EphemeralKey::from_generated`] makes of the attempt.
    pub fn generate(algorithm: agreement::Algorithm) -> (r: Result<EphemeralKey, Error>)
        ensures
            r matches Ok(k) ==> k.spec_algorithm() == algorithm && algorithm.spec_is_supported(),
            !algorithm.spec_is_supported() ==> (r matches Err(e) && e
                == Error::UnsupportedAgreementAlgorithm),
            algorithm.spec_is_supported() ==> (r matches Err(e) ==> e == Error::Unspecified),
    {
        EphemeralKey::from_generated(algorithm, agreement::generate_private_key(algorithm))
    }
}

impl EphemeralPrivateKey for EphemeralKey {
    closed spec fn spec_algorithm(&self) -> agreement::Algorithm {
        self.algorithm
    }

    closed spec fn spec_bytes(&self) -> Seq<u8> {
        self.key@
    }

    fn agree_ephemeral<P: PublicKey>(&self, peer_public_key: &P) -> (r: Result<
        SharedSecret,
        Error,
    >) {
        agreement::agree_with(self.algorithm, self.key.as_slice(), peer_public_key)
    }

    fn erase(&mut self) {
        crate::aws_lc::zeroize(&mut self.key);
    }

    fn compute_public_key(&self) -> (r: Result<Vec<u8>, Error>) {
        agreement::compute_public_key(self.algorithm, self.key.as_slice())
    }

    fn algorithm(&self) -> (r: agreement::Algorithm) {
        self.algorithm
    }
}

impl EcdhPublicKey {
    /// The key of the raw bytes. Nothing is checked before an agreement.
    pub fn new(algorithm: agreement::Algorithm, bytes: Vec<u8>) -> (r: EcdhPublicKey)
        ensures
            r.spec_algorithm() == algorithm,
            r.spec_bytes() == bytes@,
    {
        EcdhPublicKey { algorithm, bytes }
    }
}

impl PublicKey for EcdhPublicKey {
    closed spec fn spec_algorithm(&self) -> agreement::Algorithm {
        self.algorithm
    }

    closed spec fn spec_bytes(&self) -> Seq<u8> {
        self.bytes@
    }

    fn algorithm(&self) -> (r: agreement::Algorithm) {
        self.algorithm
    }

    fn as_bytes(&self) -> (r: &[u8]) {
        self.bytes.as_slice()
    }
}

impl X25519PrivateKey {
    /// The key of the raw bytes.
    pub fn new(key: Vec<u8>) -> (r: X25519PrivateKey)
        ensures
            r.spec_algorithm() == agreement::Algorithm::X25519,
            r.spec_bytes() == key@,
    {
        X25519PrivateKey { key }
    }
}

impl PrivateKey for X25519PrivateKey {
    open spec fn spec_algorithm(&self) -> agreement::Algorithm {
        agreement::Algorithm::X25519
    }

    closed spec fn spec_bytes(&self) -> Seq<u8> {
        self.key@
    }

    fn agree<P: PublicKey>(&self, peer_public_key: &P) -> (r: Result<SharedSecret, Error>) {
        agreement::agree_with(agreement::Algorithm::X25519, self.key.as_slice(), peer_public_key)
    }

    fn compute_public_key(&self) -> (r: Result<Vec<u8>, Error>) {
        agreement::compute_public_key(agreement::Algorithm::X25519, self.key.as_slice())
    }

    fn as_der(&self) -> (r: Result<Vec<u8>, Error>) {
        agreement::private_key_to_der(agreement::Algorithm::X25519, self.key.as_slice())
    }

    fn algorithm(&self) -> (r: agreement::Algorithm) {
        agreement::Algorithm::X25519
    }
}

impl X25519PublicKey {
    /// The key of the raw bytes. Nothing is checked before an agreement.
    pub fn new(bytes: Vec<u8>) -> (r: X25519PublicKey)
        ensures
            r.spec_algorithm() == agreement::Algorithm::X25519,
            r.spec_bytes() == bytes@,
    {
        X25519PublicKey { bytes }
    }
}

impl PublicKey for X25519PublicKey {
    open spec fn spec_algorithm(&self) -> agreement::Algorithm {
        agreement::Algorithm::X25519
    }

    closed spec fn spec_bytes(&self) -> Seq<u8> {
        self.bytes@
    }

    fn algorithm(&self) -> (r: agreement::Algorithm) {
        agreement::Algorithm::X25519
    }

    fn as_bytes(&self) -> (r: &[u8]) {
        self.bytes.as_slice()
    }
}

/// Digital signature algorithm using NSA Suite B elliptic curves: the
/// signing key as a PKCS #8 document.
pub struct EcdsaSigningKey {
    algorithm: signature::Algorithm,
    pkcs8: Vec<u8>,
}

/// Digital signature verification for NSA Suite B elliptic curves: the
/// public key as an uncompressed point.
pub struct EcdsaVerifyingKey {
    algorithm: signature::Algorithm,
    bytes: Vec<u8>,
}

/// Signing key for the Ed25519 digital signature algorithm, as a PKCS #8
/// document.
pub struct Ed25519SigningKey {
    pkcs8: Vec<u8>,
}

/// Ed25519 digital signature algorithm verification key: its 32 bytes.
pub struct Ed25519VerifyingKey {
    bytes: Vec<u8>,
}

impl Drop for EcdhPrivateKey {
    /// Overwrites the key with zeros when it is dropped.
    fn drop(&mut self)
        opens_invariants none
        no_unwind
    {
        crate::aws_lc::zeroize(&mut self.key);
    }
}

impl Drop for X25519PrivateKey {
    /// Overwrites the key with zeros when it is dropped.
    fn drop(&mut self)
        opens_invariants none
        no_unwind
    {
        crate::aws_lc::zeroize(&mut self.key);
    }
}

impl Drop for EphemeralKey {
    /// Overwrites the key with zeros when it is dropped.
    fn drop(&mut self)
        opens_invariants none
        no_unwind
    {
        crate::aws_lc::zeroize(&mut self.key);
    }
}

impl Drop for EcdsaSigningKey {
    /// Overwrites the key with zeros when it is dropped.
    fn drop(&mut self)
        opens_invariants none
        no_unwind
    {
        crate::aws_lc::zeroize(&mut self.pkcs8);
    }
}

impl Drop for Ed25519SigningKey {
    /// Overwrites the key with zeros when it is dropped.
    fn drop(&mut self)
        opens_invariants none
        no_unwind
    {
        crate::aws_lc::zeroize(&mut self.pkcs8);
    }
}

impl EcdsaSigningKey {
    /// The key of the document, or `None` where the algorithm is not
    /// ECDSA.
    pub fn new(algorithm: signature::Algorithm, pkcs8: Vec<u8>) -> (r: Option<EcdsaSigningKey>)
        ensures
            r.is_some() == (algorithm != signature::Algorithm::Ed25519 && algorithm
                != signature::Algorithm::Ed448),
            r matches Some(k) ==> k.spec_algorithm() == algorithm && k.spec_pkcs8() == pkcs8@,
    {
        match algorithm {
            signature::Algorithm::Ed25519 => None,
            signature::Algorithm::Ed448 => None,
            _ => Some(EcdsaSigningKey { algorithm, pkcs8 }),
        }
    }
}

impl SigningKey for EcdsaSigningKey {
    closed spec fn spec_algorithm(&self) -> signature::Algorithm {
        self.algorithm
    }

    closed spec fn spec_pkcs8(&self) -> Seq<u8> {
        self.pkcs8@
    }

    fn sign(&self, message: &[u8]) -> (r: Result<Vec<u8>, Error>) {
        signature::sign(self.algorithm, self.pkcs8.as_slice(), message)
    }

    fn compute_public_key(&self) -> (r: Result<Vec<u8>, Error>) {
        signature::compute_public_key(self.algorithm, self.pkcs8.as_slice())
    }

    fn algorithm(&self) -> (r: signature::Algorithm) {
        self.algorithm
    }
}

impl EcdsaVerifyingKey {
    /// The key of the raw bytes. Nothing is checked before a verification.
    pub fn new(algorithm: signature::Algorithm, bytes: Vec<u8>) -> (r: EcdsaVerifyingKey)
        ensures
            r.spec_algorithm() == algorithm,
            r.spec_bytes() == bytes@,
    {
        EcdsaVerifyingKey { algorithm, bytes }
    }
}

impl VerifyingKey for EcdsaVerifyingKey {
    closed spec fn spec_algorithm(&self) -> signature::Algorithm {
        self.algorithm
    }

    closed spec fn spec_bytes(&self) -> Seq<u8> {
        self.bytes@
    }

    fn verify(&self, message: &[u8], signature: &[u8]) -> (r: bool) {
        signature::verify(self.algorithm, self.bytes.as_slice(), message, signature)
    }

    fn algorithm(&self) -> (r: signature::Algorithm) {
        self.algorithm
    }
}

impl Ed25519SigningKey {
    /// The key of the document.
    pub fn new(pkcs8: Vec<u8>) -> (r: Ed25519SigningKey)
        ensures
            r.spec_algorithm() == signature::Algorithm::Ed25519,
            r.spec_pkcs8() == pkcs8@,
    {
        Ed25519SigningKey { pkcs8 }
    }
}

impl SigningKey for Ed25519SigningKey {
    open spec fn spec_algorithm(&self) -> signature::Algorithm {
        signature::Algorithm::Ed25519
    }

    closed spec fn spec_pkcs8(&self) -> Seq<u8> {
        self.pkcs8@
    }

    fn sign(&self, message: &[u8]) -> (r: Result<Vec<u8>, Error>) {
        signature::sign(signature::Algorithm::Ed25519, self.pkcs8.as_slice(), message)
    }

    fn compute_public_key(&self) -> (r: Result<Vec<u8>, Error>) {
        signature::compute_public_key(signature::Algorithm::Ed25519, self.pkcs8.as_slice())
    }

    fn algorithm(&self) -> (r: signature::Algorithm) {
        signature::Algorithm::Ed25519
    }
}

impl Ed25519VerifyingKey {
    /// The key of the raw bytes. Nothing is checked before a verification.
    pub fn new(bytes: Vec<u8>) -> (r: Ed25519VerifyingKey)
        ensures
            r.spec_algorithm() == signature::Algorithm::Ed25519,
            r.spec_bytes() == bytes@,
    {
        Ed25519VerifyingKey { bytes }
    }
}

impl VerifyingKey for Ed25519VerifyingKey {
    open spec fn spec_algorithm(&self) -> signature::Algorithm {
        signature::Algorithm::Ed25519
    }

    closed spec fn spec_bytes(&self) -> Seq<u8> {
        self.bytes@
    }

    fn verify(&self, message: &[u8], signature: &[u8]) -> (r: bool) {
        signature::verify(signature::Algorithm::Ed25519, self.bytes.as_slice(), message, signature)
    }

    fn algorithm(&self) -> (r: signature::Algorithm) {
        signature::Algorithm::Ed25519
    }
}

/// A private key for key agreement of any algorithm that the backend
/// implements.
pub enum AnyPrivateKey {
    /// A key for ECDH over a NIST curve.
    Ecdh(EcdhPrivateKey),
    /// A key for X25519.
    X25519(X25519PrivateKey),
}

impl AnyPrivateKey {
    /// The private key of the raw bytes and the algorithm, which is one
    /// that the backend implements.
    pub fn new(algorithm: agreement::Algorithm, key: Vec<u8>) -> (r: AnyPrivateKey)
        requires
            algorithm.spec_is_supported(),
        ensures
            r.spec_algorithm() == algorithm,
            r.spec_bytes() == key@,
    {
        match algorithm {
            agreement::Algorithm::X25519 => AnyPrivateKey::X25519(X25519PrivateKey { key }),
            _ => AnyPrivateKey::Ecdh(EcdhPrivateKey { algorithm, key }),
        }
    }
}

impl PrivateKey for AnyPrivateKey {
    closed spec fn spec_algorithm(&self) -> agreement::Algorithm {
        match self {
            AnyPrivateKey::Ecdh(key) => key.algorithm,
            AnyPrivateKey::X25519(_) => agreement::Algorithm::X25519,
        }
    }

    closed spec fn spec_bytes(&self) -> Seq<u8> {
        match self {
            AnyPrivateKey::Ecdh(key) => key.key@,
            AnyPrivateKey::X25519(key) => key.key@,
        }
    }

    fn agree<P: PublicKey>(&self, peer_public_key: &P) -> (r: Result<SharedSecret, Error>) {
        match self {
            AnyPrivateKey::Ecdh(key) => key.agree(peer_public_key),
            AnyPrivateKey::X25519(key) => key.agree(peer_public_key),
        }
    }

    fn compute_public_key(&self) -> (r: Result<Vec<u8>, Error>) {
        match self {
            AnyPrivateKey::Ecdh(key) => key.compute_public_key(),
            AnyPrivateKey::X25519(key) => key.compute_public_key(),
        }
    }

    fn as_der(&self) -> (r: Result<Vec<u8>, Error>) {
        match self {
            AnyPrivateKey::Ecdh(key) => key.as_der(),
            AnyPrivateKey::X25519(key) => key.as_der(),
        }
    }

    fn algorithm(&self) -> (r: agreement::Algorithm) {
        match self {
            AnyPrivateKey::Ecdh(key) => key.algorithm,
            AnyPrivateKey::X25519(_) => agreement::Algorithm::X25519,
        }
    }
}

/// A public key for key agreement of any algorithm that the backend
/// implements.
pub enum AnyPublicKey {
    /// A key for ECDH over a NIST curve.
    Ecdh(EcdhPublicKey),
    /// A key for X25519.
    X25519(X25519PublicKey),
}

impl AnyPublicKey {
    /// The public key of the bytes and the algorithm, which is one that the
    /// backend implements.
    pub fn new(algorithm: agreement::Algorithm, bytes: Vec<u8>) -> (r: AnyPublicKey)
        requires
            algorithm.spec_is_supported(),
        ensures
            r.spec_algorithm() == algorithm,
            r.spec_bytes() == bytes@,
    {
        match algorithm {
            agreement::Algorithm::X25519 => AnyPublicKey::X25519(X25519PublicKey { bytes }),
            _ => AnyPublicKey::Ecdh(EcdhPublicKey { algorithm, bytes }),
        }
    }
}

impl PublicKey for AnyPublicKey {
    closed spec fn spec_algorithm(&self) -> agreement::Algorithm {
        match self {
            AnyPublicKey::Ecdh(key) => key.algorithm,
            AnyPublicKey::X25519(_) => agreement::Algorithm::X25519,
        }
    }

    closed spec fn spec_bytes(&self) -> Seq<u8> {
        match self {
            AnyPublicKey::Ecdh(key) => key.bytes@,
            AnyPublicKey::X25519(key) => key.bytes@,
        }
    }

    fn algorithm(&self) -> (r: agreement::Algorithm) {
        match self {
            AnyPublicKey::Ecdh(key) => key.algorithm,
            AnyPublicKey::X25519(_) => agreement::Algorithm::X25519,
        }
    }

    fn as_bytes(&self) -> (r: &[u8]) {
        match self {
            AnyPublicKey::Ecdh(key) => key.bytes.as_slice(),
            AnyPublicKey::X25519(key) => key.bytes.as_slice(),
        }
    }
}

/// A signing key of any algorithm that the backend implements.
pub enum AnySigningKey {
    /// A key for ECDSA.
    Ecdsa(EcdsaSigningKey),
    /// A key for Ed25519.
    Ed25519(Ed25519SigningKey),
}

impl AnySigningKey {
    /// The signing key of the PKCS #8 document and the algorithm, which is
    /// one that the backend implements.
    pub fn new(algorithm: signature::Algorithm, pkcs8: Vec<u8>) -> (r: AnySigningKey)
        requires
            algorithm.spec_is_supported(),
        ensures
            r.spec_algorithm() == algorithm,
            r.spec_pkcs8() == pkcs8@,
    {
        match algorithm {
            signature::Algorithm::Ed25519 => AnySigningKey::Ed25519(Ed25519SigningKey { pkcs8 }),
            _ => AnySigningKey::Ecdsa(EcdsaSigningKey { algorithm, pkcs8 }),
        }
    }
}

impl SigningKey for AnySigningKey {
    closed spec fn spec_algorithm(&self) -> signature::Algorithm {
        match self {
            AnySigningKey::Ecdsa(key) => key.algorithm,
            AnySigningKey::Ed25519(_) => signature::Algorithm::Ed25519,
        }
    }

    closed spec fn spec_pkcs8(&self) -> Seq<u8> {
        match self {
            AnySigningKey::Ecdsa(key) => key.pkcs8@,
            AnySigningKey::Ed25519(key) => key.pkcs8@,
        }
    }

    fn sign(&self, message: &[u8]) -> (r: Result<Vec<u8>, Error>) {
        match self {
            AnySigningKey::Ecdsa(key) => key.sign(message),
            AnySigningKey::Ed25519(key) => key.sign(message),
        }
    }

    fn compute_public_key(&self) -> (r: Result<Vec<u8>, Error>) {
        match self {
            AnySigningKey::Ecdsa(key) => key.compute_public_key(),
            AnySigningKey::Ed25519(key) => key.compute_public_key(),
        }
    }

    fn algorithm(&self) -> (r: signature::Algorithm) {
        match self {
            AnySigningKey::Ecdsa(key) => key.algorithm,
            AnySigningKey::Ed25519(_) => signature::Algorithm::Ed25519,
        }
    }
}

/// A verifying key of any algorithm that the backend implements.
pub enum AnyVerifyingKey {
    /// A key for ECDSA.
    Ecdsa(EcdsaVerifyingKey),
    /// A key for Ed25519.
    Ed25519(Ed25519VerifyingKey),
}

impl AnyVerifyingKey {
    /// The verifying key of the bytes and the algorithm, which is one that
    /// the backend implements.
    pub fn new(algorithm: signature::Algorithm, bytes: Vec<u8>) -> (r: AnyVerifyingKey)
        requires
            algorithm.spec_is_supported(),
        ensures
            r.spec_algorithm() == algorithm,
            r.spec_bytes() == bytes@,
    {
        match algorithm {
            signature::Algorithm::Ed25519 => AnyVerifyingKey::Ed25519(
                Ed25519VerifyingKey { bytes },
            ),
            _ => AnyVerifyingKey::Ecdsa(EcdsaVerifyingKey { algorithm, bytes }),
        }
    }
}

impl VerifyingKey for AnyVerifyingKey {
    closed spec fn spec_algorithm(&self) -> signature::Algorithm {
        match self {
            AnyVerifyingKey::Ecdsa(key) => key.algorithm,
            AnyVerifyingKey::Ed25519(_) => signature::Algorithm::Ed25519,
        }
    }

    closed spec fn spec_bytes(&self) -> Seq<u8> {
        match self {
            AnyVerifyingKey::Ecdsa(key) => key.bytes@,
            AnyVerifyingKey::Ed25519(key) => key.bytes@,
        }
    }

    fn verify(&self, message: &[u8], signature: &[u8]) -> (r: bool) {
        match self {
            AnyVerifyingKey::Ecdsa(key) => key.verify(message, signature),
            AnyVerifyingKey::Ed25519(key) => key.verify(message, signature),
        }
    }

    fn algorithm(&self) -> (r: signature::Algorithm) {
        match self {
            AnyVerifyingKey::Ecdsa(key) => key.algorithm,
            AnyVerifyingKey::Ed25519(_) => signature::Algorithm::Ed25519,
        }
    }
}

impl PrivateKeySerializer for AnySigningKey {
    fn to_pkcs8v1_der(&self) -> (r: Result<PrivateKeyDer, Error>) {
        let (algorithm, pkcs8) = self.parts();
        match signature::encode_signing_key(algorithm, pkcs8, Encoding::Pkcs8V1) {
            Ok(bytes) => Ok(PrivateKeyDer::Pkcs8V1Key(bytes)),
            Err(e) => Err(e),
        }
    }

    fn to_pkcs8v2_der(&self) -> (r: Result<PrivateKeyDer, Error>) {
        let (algorithm, pkcs8) = self.parts();
        match signature::encode_signing_key(algorithm, pkcs8, Encoding::Pkcs8V2) {
            Ok(bytes) => Ok(PrivateKeyDer::Pkcs8V2Key(bytes)),
            Err(e) => Err(e),
        }
    }

    fn to_rfc_5915_private_key_der(&self) -> (r: Result<PrivateKeyDer, Error>) {
        let (algorithm, pkcs8) = self.parts();
        match signature::encode_signing_key(algorithm, pkcs8, Encoding::EcPrivateKey) {
            Ok(bytes) => Ok(PrivateKeyDer::EcPrivateKey(bytes)),
            Err(e) => Err(e),
        }
    }

    fn to_ed_ec_be_bytes(&self) -> (r: Result<PrivateKeyBin, Error>) {
        let (algorithm, pkcs8) = self.parts();
        match signature::encode_signing_key(algorithm, pkcs8, Encoding::Seed) {
            Ok(bytes) => Ok(PrivateKeyBin::EdEcSeed(bytes)),
            Err(e) => Err(e),
        }
    }

    fn to_ec_be_bytes(&self) -> (r: Result<PrivateKeyBin, Error>) {
        let (algorithm, pkcs8) = self.parts();
        match signature::encode_signing_key(algorithm, pkcs8, Encoding::Integer) {
            Ok(bytes) => Ok(PrivateKeyBin::Ec(bytes)),
            Err(e) => Err(e),
        }
    }
}

impl AnySigningKey {
    /// The algorithm and the PKCS #8 document of the key.
    fn parts(&self) -> (r: (signature::Algorithm, &[u8]))
        ensures
            r.0 == self.spec_algorithm(),
            r.1@ == self.spec_pkcs8(),
    {
        match self {
            AnySigningKey::Ecdsa(key) => (key.algorithm, key.pkcs8.as_slice()),
            AnySigningKey::Ed25519(key) => (signature::Algorithm::Ed25519, key.pkcs8.as_slice()),
        }
    }
}

impl PublicKeySerializer for AnyVerifyingKey {
    fn to_x509_der(&self) -> (r: Result<PublicKeyDer, Error>) {
        let (algorithm, bytes) = match self {
            AnyVerifyingKey::Ecdsa(key) => (key.algorithm, key.bytes.as_slice()),
            AnyVerifyingKey::Ed25519(key) => (signature::Algorithm::Ed25519, key.bytes.as_slice()),
        };
        match signature::x509(algorithm, bytes) {
            Ok(der) => Ok(PublicKeyDer::X509Key(der)),
            Err(e) => Err(e),
        }
    }

    fn to_rfc_5915_public_key_der(&self) -> (r: Result<PublicKeyDer, Error>) {
        Err(Error::UnsupportedEncoding)
    }

    fn to_be_bytes(&self) -> (r: Result<PublicKeyBin, Error>) {
        let bytes = match self {
            AnyVerifyingKey::Ecdsa(key) => key.bytes.as_slice(),
            AnyVerifyingKey::Ed25519(key) => key.bytes.as_slice(),
        };
        Ok(PublicKeyBin::Uncompreessed(bytes::copy(bytes)))
    }

    fn to_compressed_be_bytes(&self) -> (r: Result<PublicKeyBin, Error>) {
        Err(Error::UnsupportedEncoding)
    }
}

} // verus!
