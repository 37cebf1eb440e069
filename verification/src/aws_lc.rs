use vstd::prelude::*;
use crate::bytes;
use crate::digest;
use crate::ec::agreement;
use crate::ec::agreement::result_view;
use crate::ec::signature;
use crate::error::Error;
use crate::hkdf;
use ::aws_lc_rs::encoding::AsBigEndian;
use ::aws_lc_rs::encoding::AsDer;
use ::aws_lc_rs::signature::KeyPair;

/// The providers that aws-lc-rs backs.
pub mod provider;

/// The keys that aws-lc-rs backs.
pub mod keys;

/// Loading keys from their encodings.
pub mod load;

pub use keys::AnyPrivateKey;
pub use keys::AnyPublicKey;
pub use keys::AnySigningKey;
pub use keys::AnyVerifyingKey;
pub use keys::EcdhPrivateKey;
pub use keys::EcdhPublicKey;
pub use keys::EcdsaSigningKey;
pub use keys::EcdsaVerifyingKey;
pub use keys::Ed25519SigningKey;
pub use keys::Ed25519VerifyingKey;
pub use keys::EphemeralKey;
pub use keys::X25519PrivateKey;
pub use keys::X25519PublicKey;
pub use provider::default_provider;
pub use provider::AwsLcRs;
pub use crate::digest::DigestFunction;
pub use provider::HkdfFunction;

verus! {

/// The digest of `data` under `algorithm`, as aws-lc-rs computes it.
pub uninterp spec fn digest_value(algorithm: digest::Algorithm, data: Seq<u8>) -> Seq<u8>;

/// The data that a digest computation of aws-lc-rs was given so far.
pub uninterp spec fn context_input(context: DigestContext) -> Seq<u8>;

/// The algorithm that a digest computation of aws-lc-rs was started with.
pub uninterp spec fn context_algorithm(context: DigestContext) -> digest::Algorithm;

/// A digest computation of aws-lc-rs in progress: an
/// `aws_lc_rs::digest::Context`.
///
/// Trusted: nothing of what is inside is read by the verifier. What the
/// computation was given and its algorithm are known by name only, from
/// what `digest_start`, `digest_update` and `digest_finish` say of them.
#[verifier::external_body]
pub struct DigestContext {
    context: ::aws_lc_rs::digest::Context,
}

/// The `len` bytes that HKDF under `algorithm` derives from the salt, the
/// secret and the info string, as aws-lc-rs computes them.
pub uninterp spec fn hkdf_value(
    algorithm: hkdf::Algorithm,
    salt: Seq<u8>,
    secret: Seq<u8>,
    info: Seq<u8>,
    len: usize,
) -> Seq<u8>;

/// The public key that aws-lc-rs computes for a raw private key, or the
/// error with which it rejects the key.
pub uninterp spec fn public_key_value(algorithm: agreement::Algorithm, private_key: Seq<u8>)
    -> Result<Seq<u8>, Error>;

/// The raw private key that aws-lc-rs reads from a DER document, or the
/// error with which it rejects the document.
pub uninterp spec fn private_key_der_value(algorithm: agreement::Algorithm, der: Seq<u8>) -> Result<
    Seq<u8>,
    Error,
>;

/// The PKCS #8 v1 document that aws-lc-rs gives for a raw private key, or
/// the error with which it rejects the key.
pub uninterp spec fn private_key_pkcs8_value(algorithm: agreement::Algorithm, private_key: Seq<u8>)
    -> Result<Seq<u8>, Error>;

/// The secret that aws-lc-rs agrees on for a raw private key and a peer's
/// public key, or the error with which it rejects one of them.
pub uninterp spec fn agreement_value(
    algorithm: agreement::Algorithm,
    private_key: Seq<u8>,
    peer_public_key: Seq<u8>,
) -> Result<Seq<u8>, Error>;

/// Whether aws-lc-rs accepts `signature` for `message` under the public key.
pub uninterp spec fn signature_valid(
    algorithm: signature::Algorithm,
    public_key: Seq<u8>,
    message: Seq<u8>,
    signature: Seq<u8>,
) -> bool;

/// The Ed25519 signature that aws-lc-rs gives for a key and a message, or
/// the error with which it rejects the key.
pub uninterp spec fn ed25519_signature_value(pkcs8: Seq<u8>, message: Seq<u8>) -> Result<
    Seq<u8>,
    Error,
>;

/// The public key of an Ed25519 signing key, or the error with which
/// aws-lc-rs rejects the key.
pub uninterp spec fn ed25519_public_key_value(pkcs8: Seq<u8>) -> Result<Seq<u8>, Error>;

/// The public key of an ECDSA signing key, or the error with which
/// aws-lc-rs rejects the key.
pub uninterp spec fn ecdsa_public_key_value(algorithm: signature::Algorithm, pkcs8: Seq<u8>)
    -> Result<Seq<u8>, Error>;

/// The PKCS #8 v1 document that aws-lc-rs gives for the ECDSA signing key
/// of a DER document, or the error with which it rejects the document.
pub uninterp spec fn ecdsa_pkcs8_value(algorithm: signature::Algorithm, der: Seq<u8>) -> Result<
    Seq<u8>,
    Error,
>;

/// The PKCS #8 v1 document that aws-lc-rs gives for the Ed25519 signing key
/// of a seed, or the error with which it rejects the seed.
pub uninterp spec fn ed25519_pkcs8_value(seed: Seq<u8>) -> Result<Seq<u8>, Error>;

/// Whether aws-lc-rs parses the bytes as a public key of the signature
/// algorithm.
pub uninterp spec fn verifying_key_valid(algorithm: signature::Algorithm, public_key: Seq<u8>)
    -> bool;

/// The PKCS #8 v2 document that aws-lc-rs gives for an Ed25519 signing key,
/// or the error with which it rejects the key.
pub uninterp spec fn ed25519_pkcs8v2_value(pkcs8: Seq<u8>) -> Result<Seq<u8>, Error>;

/// The seed that aws-lc-rs gives for an Ed25519 signing key, or the error
/// with which it rejects the key.
pub uninterp spec fn ed25519_seed_value(pkcs8: Seq<u8>) -> Result<Seq<u8>, Error>;

/// The elliptic curve private key structure that aws-lc-rs gives for an
/// ECDSA signing key, or the error with which it rejects the key.
pub uninterp spec fn ecdsa_rfc5915_value(algorithm: signature::Algorithm, pkcs8: Seq<u8>)
    -> Result<Seq<u8>, Error>;

/// The big-endian private scalar that aws-lc-rs gives for an ECDSA signing
/// key, or the error with which it rejects the key.
pub uninterp spec fn ecdsa_scalar_value(algorithm: signature::Algorithm, pkcs8: Seq<u8>)
    -> Result<Seq<u8>, Error>;

/// The X.509 public key structure that aws-lc-rs gives for a verifying key,
/// or the error with which it rejects the key.
pub uninterp spec fn verifying_key_x509_value(algorithm: signature::Algorithm, public_key: Seq<u8>)
    -> Result<Seq<u8>, Error>;

/// The output length that is asked of one HKDF-Expand.
pub struct OkmLen(pub usize);

impl ::aws_lc_rs::hkdf::KeyType for OkmLen {
    /// The length that one HKDF-Expand is asked for.
    fn len(&self) -> (n: usize)
        ensures
            n == self.0,
    {
        self.0
    }
}

/// `aws_lc_rs::digest::digest` with the algorithm constant that stands for
/// `algorithm`.
///
/// Trusted: the digest is a function of algorithm and data, and its
/// length is the algorithm's output length. The crate offers a constant
/// for every algorithm that `requires` admits.
#[verifier::external_body]
pub(crate) fn digest(algorithm: digest::Algorithm, data: &[u8]) -> (r: Option<Vec<u8>>)
    requires
        algorithm.spec_is_supported(),
    ensures
        r.is_some(),
        r matches Some(d) ==> d@ == digest_value(algorithm, data@),
        r matches Some(d) ==> d@.len() == algorithm.spec_output_len(),
{
    let alg = match algorithm {
        digest::Algorithm::Sha224 => &::aws_lc_rs::digest::SHA224,
        digest::Algorithm::Sha256 => &::aws_lc_rs::digest::SHA256,
        digest::Algorithm::Sha384 => &::aws_lc_rs::digest::SHA384,
        digest::Algorithm::Sha512 => &::aws_lc_rs::digest::SHA512,
        digest::Algorithm::Sha3_256 => &::aws_lc_rs::digest::SHA3_256,
        digest::Algorithm::Sha3_384 => &::aws_lc_rs::digest::SHA3_384,
        digest::Algorithm::Sha3_512 => &::aws_lc_rs::digest::SHA3_512,
        digest::Algorithm::Sha3_224 => return None,
    };
    Some(::aws_lc_rs::digest::digest(alg, data).as_ref().to_vec())
}

/// `aws_lc_rs::digest::Context::new` with the algorithm constant that
/// stands for `algorithm`.
///
/// Trusted: the computation starts with no data. The crate offers a
/// constant for every algorithm that `requires` admits.
#[verifier::external_body]
pub(crate) fn digest_start(algorithm: digest::Algorithm) -> (r: Option<DigestContext>)
    requires
        algorithm.spec_is_supported(),
    ensures
        r.is_some(),
        r matches Some(c) ==> context_input(c) == Seq::<u8>::empty(),
        r matches Some(c) ==> context_algorithm(c) == algorithm,
{
    let alg = match algorithm {
        digest::Algorithm::Sha224 => &::aws_lc_rs::digest::SHA224,
        digest::Algorithm::Sha256 => &::aws_lc_rs::digest::SHA256,
        digest::Algorithm::Sha384 => &::aws_lc_rs::digest::SHA384,
        digest::Algorithm::Sha512 => &::aws_lc_rs::digest::SHA512,
        digest::Algorithm::Sha3_256 => &::aws_lc_rs::digest::SHA3_256,
        digest::Algorithm::Sha3_384 => &::aws_lc_rs::digest::SHA3_384,
        digest::Algorithm::Sha3_512 => &::aws_lc_rs::digest::SHA3_512,
        digest::Algorithm::Sha3_224 => return None,
    };
    Some(DigestContext { context: ::aws_lc_rs::digest::Context::new(alg) })
}

/// `aws_lc_rs::digest::Context::update`.
///
/// Trusted: the data is added after what the computation was given
/// before, and the algorithm stays. The crate refuses a total of more
/// bytes than a `u64` counts, which `requires` leaves out; within it the
/// call does not unwind, as the backend's own update fails only on a
/// computation that was not started.
#[verifier::external_body]
pub(crate) fn digest_update(context: &mut DigestContext, data: &[u8])
    requires
        context_input(*old(context)).len() + data@.len() <= u64::MAX,
    ensures
        context_input(*final(context)) == context_input(*old(context)) + data@,
        context_algorithm(*final(context)) == context_algorithm(*old(context)),
    no_unwind
{
    context.context.update(data)
}

/// `aws_lc_rs::digest::Context::finish`.
///
/// Trusted: the digest is that of all the data that the computation was
/// given, in the order in which it was given, as `digest` computes it of
/// the data in one piece; its length is the algorithm's output length.
#[verifier::external_body]
pub(crate) fn digest_finish(context: DigestContext) -> (r: Vec<u8>)
    ensures
        r@ == digest_value(context_algorithm(context), context_input(context)),
        r@.len() == context_algorithm(context).spec_output_len(),
{
    context.context.finish().as_ref().to_vec()
}

/// `aws_lc_rs::hkdf::Salt::new(..).extract(..)`, then `Prk::expand` and
/// `Okm::fill` into a buffer of `len` bytes.
///
/// Trusted: the derived bytes are a function of the arguments, there are
/// `len` of them, and the derivation succeeds for every `len` up to
/// `255 * HashLen`, the one error that `expand` and `fill` document for a
/// buffer of the length asked for. This is read off release 1.18.2 of
/// aws-lc-rs, to which the library is held; it takes a salt of any length.
#[verifier::external_body]
pub(crate) fn hkdf(
    algorithm: hkdf::Algorithm,
    salt: &[u8],
    secret: &[u8],
    info: &[u8],
    len: usize,
) -> (r: Option<Vec<u8>>)
    requires
        len <= algorithm.spec_max_output_len(),
    ensures
        r.is_some(),
        r matches Some(okm) ==> okm@ == hkdf_value(algorithm, salt@, secret@, info@, len),
        r matches Some(okm) ==> okm@.len() == len,
{
    let alg = match algorithm {
        hkdf::Algorithm::Sha256 => ::aws_lc_rs::hkdf::HKDF_SHA256,
        hkdf::Algorithm::Sha384 => ::aws_lc_rs::hkdf::HKDF_SHA384,
        hkdf::Algorithm::Sha512 => ::aws_lc_rs::hkdf::HKDF_SHA512,
    };
    let prk = ::aws_lc_rs::hkdf::Salt::new(alg, salt).extract(secret);
    let mut okm = vec![0u8; len];
    let filled = prk.expand(&[info], OkmLen(len)).and_then(|o| o.fill(&mut okm));
    filled.ok().map(|_| okm)
}

/// `aws_lc_rs::agreement::PrivateKey::generate`, the key then exported by
/// `as_be_bytes` as the big-endian scalar or, for X25519, the seed.
///
/// Trusted: the length of the key, which the crate fixes for each
/// algorithm. The key is random, and generation may fail.
#[verifier::external_body]
pub(crate) fn generate_private_key(algorithm: agreement::Algorithm) -> (r: Option<Vec<u8>>)
    requires
        algorithm.spec_is_supported(),
    ensures
        r matches Some(key) ==> key@.len() == algorithm.spec_key_len(),
{
    let alg = match algorithm {
        agreement::Algorithm::EcdhP256 => &::aws_lc_rs::agreement::ECDH_P256,
        agreement::Algorithm::EcdhP384 => &::aws_lc_rs::agreement::ECDH_P384,
        agreement::Algorithm::EcdhP521 => &::aws_lc_rs::agreement::ECDH_P521,
        agreement::Algorithm::X25519 => &::aws_lc_rs::agreement::X25519,
        agreement::Algorithm::X448 => return None,
    };
    let key = ::aws_lc_rs::agreement::PrivateKey::generate(alg).ok()?;
    let scalar: Result<::aws_lc_rs::encoding::EcPrivateKeyBin, _> = key.as_be_bytes();
    let seed: Result<::aws_lc_rs::encoding::Curve25519SeedBin, _> = key.as_be_bytes();
    scalar.map(|b| b.as_ref().to_vec()).or(seed.map(|b| b.as_ref().to_vec())).ok()
}

/// `aws_lc_rs::agreement::PrivateKey::from_private_key`, then
/// `compute_public_key`.
///
/// Trusted: the outcome, key or error, is a function of algorithm and
/// private key. A key that does not parse gives [`Error::KeyRejected`], a
/// failure to compute the public key [`Error::Unspecified`], and there is
/// no other error.
#[verifier::external_body]
pub(crate) fn public_key(algorithm: agreement::Algorithm, private_key: &[u8]) -> (r: Result<
    Vec<u8>,
    Error,
>)
    requires
        algorithm.spec_is_supported(),
    ensures
        result_view(r) == public_key_value(algorithm, private_key@),
        r matches Err(e) ==> e == Error::KeyRejected || e == Error::Unspecified,
{
    let alg = match algorithm {
        agreement::Algorithm::EcdhP256 => &::aws_lc_rs::agreement::ECDH_P256,
        agreement::Algorithm::EcdhP384 => &::aws_lc_rs::agreement::ECDH_P384,
        agreement::Algorithm::EcdhP521 => &::aws_lc_rs::agreement::ECDH_P521,
        agreement::Algorithm::X25519 => &::aws_lc_rs::agreement::X25519,
        agreement::Algorithm::X448 => return Err(Error::UnsupportedAgreementAlgorithm),
    };
    let key = ::aws_lc_rs::agreement::PrivateKey::from_private_key(alg, private_key)
        .map_err(|_| Error::KeyRejected)?;
    key.compute_public_key().map(|p| p.as_ref().to_vec()).map_err(|_| Error::Unspecified)
}

/// `aws_lc_rs::agreement::PrivateKey::from_private_key_der`, the key then
/// exported by `as_be_bytes` as the big-endian scalar.
///
/// Trusted: the outcome, key or error, is a function of algorithm and
/// document. A document that does not parse or holds a key of another
/// curve gives [`Error::KeyRejected`], and so does every document for
/// X25519, which has no such encoding; a failure to export the key gives
/// [`Error::Unspecified`], and there is no other error.
#[verifier::external_body]
pub(crate) fn private_key_from_der(algorithm: agreement::Algorithm, der: &[u8]) -> (r: Result<
    Vec<u8>,
    Error,
>)
    requires
        algorithm.spec_is_supported(),
    ensures
        result_view(r) == private_key_der_value(algorithm, der@),
        r matches Err(e) ==> e == Error::KeyRejected || (e == Error::Unspecified && algorithm
            != agreement::Algorithm::X25519),
        algorithm == agreement::Algorithm::X25519 ==> r.is_err(),
{
    let alg = match algorithm {
        agreement::Algorithm::EcdhP256 => &::aws_lc_rs::agreement::ECDH_P256,
        agreement::Algorithm::EcdhP384 => &::aws_lc_rs::agreement::ECDH_P384,
        agreement::Algorithm::EcdhP521 => &::aws_lc_rs::agreement::ECDH_P521,
        agreement::Algorithm::X25519 => &::aws_lc_rs::agreement::X25519,
        agreement::Algorithm::X448 => return Err(Error::UnsupportedAgreementAlgorithm),
    };
    let key = ::aws_lc_rs::agreement::PrivateKey::from_private_key_der(alg, der)
        .map_err(|_| Error::KeyRejected)?;
    let scalar: Result<::aws_lc_rs::encoding::EcPrivateKeyBin, _> = key.as_be_bytes();
    scalar.map(|b| b.as_ref().to_vec()).map_err(|_| Error::Unspecified)
}

/// `aws_lc_rs::agreement::PrivateKey::from_private_key`, the key then
/// exported by `as_der` as a PKCS #8 v1 document.
///
/// Trusted: the outcome, document or error, is a function of algorithm
/// and key. A key that does not parse gives [`Error::KeyRejected`], a
/// failure to export it, as for every key for X25519,
/// [`Error::Unspecified`], and there is no other error.
#[verifier::external_body]
pub(crate) fn private_key_pkcs8(algorithm: agreement::Algorithm, private_key: &[u8]) -> (r: Result<
    Vec<u8>,
    Error,
>)
    requires
        algorithm.spec_is_supported(),
    ensures
        result_view(r) == private_key_pkcs8_value(algorithm, private_key@),
        r matches Err(e) ==> e == Error::KeyRejected || e == Error::Unspecified,
        algorithm == agreement::Algorithm::X25519 ==> r.is_err(),
{
    let alg = match algorithm {
        agreement::Algorithm::EcdhP256 => &::aws_lc_rs::agreement::ECDH_P256,
        agreement::Algorithm::EcdhP384 => &::aws_lc_rs::agreement::ECDH_P384,
        agreement::Algorithm::EcdhP521 => &::aws_lc_rs::agreement::ECDH_P521,
        agreement::Algorithm::X25519 => &::aws_lc_rs::agreement::X25519,
        agreement::Algorithm::X448 => return Err(Error::UnsupportedAgreementAlgorithm),
    };
    let key = ::aws_lc_rs::agreement::PrivateKey::from_private_key(alg, private_key)
        .map_err(|_| Error::KeyRejected)?;
    let der: Result<::aws_lc_rs::encoding::Pkcs8V1Der, _> = key.as_der();
    der.map(|d| d.as_ref().to_vec()).map_err(|_| Error::Unspecified)
}

/// `aws_lc_rs::agreement::agree` on the private key that
/// `PrivateKey::from_private_key` parses and the peer's unparsed public key.
///
/// Trusted: the outcome, secret or error, is a function of algorithm and
/// keys. A key of either side that is malformed or of another curve gives
/// [`Error::KeyRejected`], and there is no other error. The secret has the
/// length that the backend fixes for the algorithm.
#[verifier::external_body]
pub(crate) fn agree(algorithm: agreement::Algorithm, private_key: &[u8], peer_public_key: &[u8])
    -> (r: Result<Vec<u8>, Error>)
    requires
        algorithm.spec_is_supported(),
    ensures
        result_view(r) == agreement_value(algorithm, private_key@, peer_public_key@),
        r matches Err(e) ==> e == Error::KeyRejected,
        r matches Ok(secret) ==> secret@.len() == algorithm.spec_key_len(),
{
    let alg = match algorithm {
        agreement::Algorithm::EcdhP256 => &::aws_lc_rs::agreement::ECDH_P256,
        agreement::Algorithm::EcdhP384 => &::aws_lc_rs::agreement::ECDH_P384,
        agreement::Algorithm::EcdhP521 => &::aws_lc_rs::agreement::ECDH_P521,
        agreement::Algorithm::X25519 => &::aws_lc_rs::agreement::X25519,
        agreement::Algorithm::X448 => return Err(Error::UnsupportedAgreementAlgorithm),
    };
    let key = ::aws_lc_rs::agreement::PrivateKey::from_private_key(alg, private_key)
        .map_err(|_| Error::KeyRejected)?;
    let peer = ::aws_lc_rs::agreement::UnparsedPublicKey::new(alg, peer_public_key);
    ::aws_lc_rs::agreement::agree(&key, peer, Error::KeyRejected, |s| Ok(bytes::copy(s)))
}

/// `aws_lc_rs::signature::UnparsedPublicKey::verify` with the verification
/// algorithm that stands for `algorithm`.
///
/// Trusted: the verdict is a function of algorithm, key, message and
/// signature.
#[verifier::external_body]
pub(crate) fn verify(
    algorithm: signature::Algorithm,
    public_key: &[u8],
    message: &[u8],
    signature: &[u8],
) -> (r: bool)
    requires
        algorithm.spec_is_supported(),
    ensures
        r == signature_valid(algorithm, public_key@, message@, signature@),
{
    let alg: &'static dyn ::aws_lc_rs::signature::VerificationAlgorithm = match algorithm {
        signature::Algorithm::EcdsaP256Sha256Asn1 => &::aws_lc_rs::signature::ECDSA_P256_SHA256_ASN1,
        signature::Algorithm::EcdsaP256Sha256Fixed => &::aws_lc_rs::signature::ECDSA_P256_SHA256_FIXED,
        signature::Algorithm::EcdsaP384Sha384Asn1 => &::aws_lc_rs::signature::ECDSA_P384_SHA384_ASN1,
        signature::Algorithm::EcdsaP384Sha384Fixed => &::aws_lc_rs::signature::ECDSA_P384_SHA384_FIXED,
        signature::Algorithm::Ed25519 => &::aws_lc_rs::signature::ED25519,
        signature::Algorithm::Ed448 => return false,
    };
    ::aws_lc_rs::signature::UnparsedPublicKey::new(alg, public_key).verify(message, signature).is_ok()
}

/// `aws_lc_rs::signature::Ed25519KeyPair::from_pkcs8`, then `try_sign`.
///
/// Trusted: the outcome, signature or error, is a function of key and
/// message. A document that does not parse gives [`Error::KeyRejected`].
#[verifier::external_body]
pub(crate) fn ed25519_sign(pkcs8: &[u8], message: &[u8]) -> (r: Result<Vec<u8>, Error>)
    ensures
        result_view(r) == ed25519_signature_value(pkcs8@, message@),
        r matches Err(e) ==> e == Error::KeyRejected || e == Error::Unspecified,
{
    let key = ::aws_lc_rs::signature::Ed25519KeyPair::from_pkcs8(pkcs8)
        .map_err(|_| Error::KeyRejected)?;
    key.try_sign(message).map(|s| s.as_ref().to_vec()).map_err(|_| Error::Unspecified)
}

/// `aws_lc_rs::signature::EcdsaKeyPair::from_pkcs8`, then `sign`.
///
/// Trusted: nothing of the signature, which depends on a random nonce. A
/// document that does not parse gives [`Error::KeyRejected`], a failure to
/// sign [`Error::Unspecified`], and there is no other error.
#[verifier::external_body]
pub(crate) fn ecdsa_sign(algorithm: signature::Algorithm, pkcs8: &[u8], message: &[u8]) -> (r:
    Result<Vec<u8>, Error>)
    requires
        algorithm.spec_is_ecdsa(),
    ensures
        r matches Err(e) ==> e == Error::KeyRejected || e == Error::Unspecified,
{
    let alg = match algorithm {
        signature::Algorithm::EcdsaP256Sha256Asn1 => &::aws_lc_rs::signature::ECDSA_P256_SHA256_ASN1_SIGNING,
        signature::Algorithm::EcdsaP256Sha256Fixed => &::aws_lc_rs::signature::ECDSA_P256_SHA256_FIXED_SIGNING,
        signature::Algorithm::EcdsaP384Sha384Asn1 => &::aws_lc_rs::signature::ECDSA_P384_SHA384_ASN1_SIGNING,
        signature::Algorithm::EcdsaP384Sha384Fixed => &::aws_lc_rs::signature::ECDSA_P384_SHA384_FIXED_SIGNING,
        _ => return Err(Error::UnsupportedSignatureAlgorithm),
    };
    let key = ::aws_lc_rs::signature::EcdsaKeyPair::from_pkcs8(alg, pkcs8)
        .map_err(|_| Error::KeyRejected)?;
    let rng = ::aws_lc_rs::rand::SystemRandom::new();
    key.sign(&rng, message).map(|s| s.as_ref().to_vec()).map_err(|_| Error::Unspecified)
}

/// `aws_lc_rs::signature::Ed25519KeyPair::generate`, then `to_pkcs8v1`.
///
/// Trusted: nothing. The key is random, and generation may fail.
#[verifier::external_body]
pub(crate) fn ed25519_generate() -> (r: Option<Vec<u8>>) {
    let key = ::aws_lc_rs::signature::Ed25519KeyPair::generate().ok()?;
    key.to_pkcs8v1().map(|d| d.as_ref().to_vec()).ok()
}

/// `aws_lc_rs::signature::EcdsaKeyPair::generate`, then `to_pkcs8v1`.
///
/// Trusted: nothing. The key is random, and generation may fail.
#[verifier::external_body]
pub(crate) fn ecdsa_generate(algorithm: signature::Algorithm) -> (r: Option<Vec<u8>>)
    requires
        algorithm.spec_is_ecdsa(),
{
    let alg = match algorithm {
        signature::Algorithm::EcdsaP256Sha256Asn1 => &::aws_lc_rs::signature::ECDSA_P256_SHA256_ASN1_SIGNING,
        signature::Algorithm::EcdsaP256Sha256Fixed => &::aws_lc_rs::signature::ECDSA_P256_SHA256_FIXED_SIGNING,
        signature::Algorithm::EcdsaP384Sha384Asn1 => &::aws_lc_rs::signature::ECDSA_P384_SHA384_ASN1_SIGNING,
        signature::Algorithm::EcdsaP384Sha384Fixed => &::aws_lc_rs::signature::ECDSA_P384_SHA384_FIXED_SIGNING,
        _ => return None,
    };
    let key = ::aws_lc_rs::signature::EcdsaKeyPair::generate(alg).ok()?;
    key.to_pkcs8v1().map(|d| d.as_ref().to_vec()).ok()
}

/// `aws_lc_rs::signature::Ed25519KeyPair::from_pkcs8`, then `public_key`.
///
/// Trusted: the outcome, the 32 raw bytes of the public key or the error,
/// is a function of the document. A document that does not parse gives
/// [`Error::KeyRejected`], and there is no other error.
#[verifier::external_body]
pub(crate) fn ed25519_public_key(pkcs8: &[u8]) -> (r: Result<Vec<u8>, Error>)
    ensures
        result_view(r) == ed25519_public_key_value(pkcs8@),
        r matches Err(e) ==> e == Error::KeyRejected,
{
    let key = ::aws_lc_rs::signature::Ed25519KeyPair::from_pkcs8(pkcs8)
        .map_err(|_| Error::KeyRejected)?;
    Ok(key.public_key().as_ref().to_vec())
}

/// `aws_lc_rs::signature::EcdsaKeyPair::from_pkcs8`, then `public_key`.
///
/// Trusted: the outcome, the uncompressed point or the error, is a function
/// of algorithm and document. A document that does not parse gives
/// [`Error::KeyRejected`], and there is no other error.
#[verifier::external_body]
pub(crate) fn ecdsa_public_key(algorithm: signature::Algorithm, pkcs8: &[u8]) -> (r: Result<
    Vec<u8>,
    Error,
>)
    requires
        algorithm.spec_is_ecdsa(),
    ensures
        result_view(r) == ecdsa_public_key_value(algorithm, pkcs8@),
        r matches Err(e) ==> e == Error::KeyRejected,
{
    let alg = match algorithm {
        signature::Algorithm::EcdsaP256Sha256Asn1 => &::aws_lc_rs::signature::ECDSA_P256_SHA256_ASN1_SIGNING,
        signature::Algorithm::EcdsaP256Sha256Fixed => &::aws_lc_rs::signature::ECDSA_P256_SHA256_FIXED_SIGNING,
        signature::Algorithm::EcdsaP384Sha384Asn1 => &::aws_lc_rs::signature::ECDSA_P384_SHA384_ASN1_SIGNING,
        signature::Algorithm::EcdsaP384Sha384Fixed => &::aws_lc_rs::signature::ECDSA_P384_SHA384_FIXED_SIGNING,
        _ => return Err(Error::UnsupportedSignatureAlgorithm),
    };
    let key = ::aws_lc_rs::signature::EcdsaKeyPair::from_pkcs8(alg, pkcs8)
        .map_err(|_| Error::KeyRejected)?;
    Ok(key.public_key().as_ref().to_vec())
}

/// `zeroize::Zeroize::zeroize` on a byte vector.
///
/// Trusted: the vector is empty afterwards; its bytes and its spare
/// capacity were overwritten with zeros first. The call does not unwind:
/// the crate's only checks are on sizes that no vector in memory exceeds.
#[verifier::external_body]
pub(crate) fn zeroize(buf: &mut Vec<u8>)
    ensures
        final(buf)@ == Seq::<u8>::empty(),
    opens_invariants none
    no_unwind
{
    ::zeroize::Zeroize::zeroize(buf);
}

/// `aws_lc_rs::signature::EcdsaKeyPair::from_private_key_der`, then
/// `to_pkcs8v1`.
///
/// Trusted: the outcome, document or error, is a function of algorithm and
/// input. An input that does not parse gives [`Error::KeyRejected`].
#[verifier::external_body]
pub(crate) fn ecdsa_pkcs8_from_der(algorithm: signature::Algorithm, der: &[u8]) -> (r: Result<
    Vec<u8>,
    Error,
>)
    requires
        algorithm.spec_is_ecdsa(),
    ensures
        result_view(r) == ecdsa_pkcs8_value(algorithm, der@),
        r matches Err(e) ==> e == Error::KeyRejected || e == Error::Unspecified,
{
    let alg = match algorithm {
        signature::Algorithm::EcdsaP256Sha256Asn1 => &::aws_lc_rs::signature::ECDSA_P256_SHA256_ASN1_SIGNING,
        signature::Algorithm::EcdsaP256Sha256Fixed => &::aws_lc_rs::signature::ECDSA_P256_SHA256_FIXED_SIGNING,
        signature::Algorithm::EcdsaP384Sha384Asn1 => &::aws_lc_rs::signature::ECDSA_P384_SHA384_ASN1_SIGNING,
        signature::Algorithm::EcdsaP384Sha384Fixed => &::aws_lc_rs::signature::ECDSA_P384_SHA384_FIXED_SIGNING,
        _ => return Err(Error::UnsupportedSignatureAlgorithm),
    };
    let key = ::aws_lc_rs::signature::EcdsaKeyPair::from_private_key_der(alg, der)
        .map_err(|_| Error::KeyRejected)?;
    key.to_pkcs8v1().map(|d| d.as_ref().to_vec()).map_err(|_| Error::Unspecified)
}

/// `aws_lc_rs::signature::Ed25519KeyPair::from_seed_unchecked`, then
/// `to_pkcs8v1`.
///
/// Trusted: the outcome, document or error, is a function of the seed. A
/// seed that does not parse gives [`Error::KeyRejected`].
#[verifier::external_body]
pub(crate) fn ed25519_pkcs8_from_seed(seed: &[u8]) -> (r: Result<Vec<u8>, Error>)
    ensures
        result_view(r) == ed25519_pkcs8_value(seed@),
        r matches Err(e) ==> e == Error::KeyRejected || e == Error::Unspecified,
{
    let key = ::aws_lc_rs::signature::Ed25519KeyPair::from_seed_unchecked(seed)
        .map_err(|_| Error::KeyRejected)?;
    key.to_pkcs8v1().map(|d| d.as_ref().to_vec()).map_err(|_| Error::Unspecified)
}

/// `aws_lc_rs::signature::ParsedPublicKey::new` with the verification
/// algorithm that stands for `algorithm`.
///
/// Trusted: whether the bytes parse is a function of algorithm and bytes.
#[verifier::external_body]
pub(crate) fn verifying_key_parses(algorithm: signature::Algorithm, public_key: &[u8]) -> (r: bool)
    requires
        algorithm.spec_is_supported(),
    ensures
        r == verifying_key_valid(algorithm, public_key@),
{
    let alg: &'static dyn ::aws_lc_rs::signature::VerificationAlgorithm = match algorithm {
        signature::Algorithm::EcdsaP256Sha256Asn1 => &::aws_lc_rs::signature::ECDSA_P256_SHA256_ASN1,
        signature::Algorithm::EcdsaP256Sha256Fixed => &::aws_lc_rs::signature::ECDSA_P256_SHA256_FIXED,
        signature::Algorithm::EcdsaP384Sha384Asn1 => &::aws_lc_rs::signature::ECDSA_P384_SHA384_ASN1,
        signature::Algorithm::EcdsaP384Sha384Fixed => &::aws_lc_rs::signature::ECDSA_P384_SHA384_FIXED,
        signature::Algorithm::Ed25519 => &::aws_lc_rs::signature::ED25519,
        signature::Algorithm::Ed448 => return false,
    };
    ::aws_lc_rs::signature::ParsedPublicKey::new(alg, public_key).is_ok()
}

/// `aws_lc_rs::signature::Ed25519KeyPair::from_pkcs8`, then `to_pkcs8`.
///
/// Trusted: the outcome, document or error, is a function of the key. A
/// document that does not parse gives [`Error::KeyRejected`].
#[verifier::external_body]
pub(crate) fn ed25519_pkcs8v2(pkcs8: &[u8]) -> (r: Result<Vec<u8>, Error>)
    ensures
        result_view(r) == ed25519_pkcs8v2_value(pkcs8@),
        r matches Err(e) ==> e == Error::KeyRejected || e == Error::Unspecified,
{
    let key = ::aws_lc_rs::signature::Ed25519KeyPair::from_pkcs8(pkcs8)
        .map_err(|_| Error::KeyRejected)?;
    key.to_pkcs8().map(|d| d.as_ref().to_vec()).map_err(|_| Error::Unspecified)
}

/// `aws_lc_rs::signature::Ed25519KeyPair::from_pkcs8`, then `seed` and its
/// `as_be_bytes`.
///
/// Trusted: the outcome, seed or error, is a function of the key. A
/// document that does not parse gives [`Error::KeyRejected`].
#[verifier::external_body]
pub(crate) fn ed25519_seed(pkcs8: &[u8]) -> (r: Result<Vec<u8>, Error>)
    ensures
        result_view(r) == ed25519_seed_value(pkcs8@),
        r matches Err(e) ==> e == Error::KeyRejected || e == Error::Unspecified,
{
    let key = ::aws_lc_rs::signature::Ed25519KeyPair::from_pkcs8(pkcs8)
        .map_err(|_| Error::KeyRejected)?;
    let seed = key.seed().map_err(|_| Error::Unspecified)?;
    let bytes: Result<::aws_lc_rs::encoding::Curve25519SeedBin, _> = seed.as_be_bytes();
    bytes.map(|b| b.as_ref().to_vec()).map_err(|_| Error::Unspecified)
}

/// `aws_lc_rs::signature::EcdsaKeyPair::from_pkcs8`, then `private_key` and
/// its `as_der`.
///
/// Trusted: the outcome, structure or error, is a function of algorithm and
/// key. A document that does not parse gives [`Error::KeyRejected`].
#[verifier::external_body]
pub(crate) fn ecdsa_rfc5915(algorithm: signature::Algorithm, pkcs8: &[u8]) -> (r: Result<
    Vec<u8>,
    Error,
>)
    requires
        algorithm.spec_is_ecdsa(),
    ensures
        result_view(r) == ecdsa_rfc5915_value(algorithm, pkcs8@),
        r matches Err(e) ==> e == Error::KeyRejected || e == Error::Unspecified,
{
    let alg = match algorithm {
        signature::Algorithm::EcdsaP256Sha256Asn1 => &::aws_lc_rs::signature::ECDSA_P256_SHA256_ASN1_SIGNING,
        signature::Algorithm::EcdsaP256Sha256Fixed => &::aws_lc_rs::signature::ECDSA_P256_SHA256_FIXED_SIGNING,
        signature::Algorithm::EcdsaP384Sha384Asn1 => &::aws_lc_rs::signature::ECDSA_P384_SHA384_ASN1_SIGNING,
        signature::Algorithm::EcdsaP384Sha384Fixed => &::aws_lc_rs::signature::ECDSA_P384_SHA384_FIXED_SIGNING,
        _ => return Err(Error::UnsupportedSignatureAlgorithm),
    };
    let key = ::aws_lc_rs::signature::EcdsaKeyPair::from_pkcs8(alg, pkcs8)
        .map_err(|_| Error::KeyRejected)?;
    let der: Result<::aws_lc_rs::encoding::EcPrivateKeyRfc5915Der, _> = key.private_key().as_der();
    der.map(|d| d.as_ref().to_vec()).map_err(|_| Error::Unspecified)
}

/// `aws_lc_rs::signature::EcdsaKeyPair::from_pkcs8`, then `private_key` and
/// its `as_be_bytes`.
///
/// Trusted: the outcome, scalar or error, is a function of algorithm and
/// key. A document that does not parse gives [`Error::KeyRejected`].
#[verifier::external_body]
pub(crate) fn ecdsa_scalar(algorithm: signature::Algorithm, pkcs8: &[u8]) -> (r: Result<
    Vec<u8>,
    Error,
>)
    requires
        algorithm.spec_is_ecdsa(),
    ensures
        result_view(r) == ecdsa_scalar_value(algorithm, pkcs8@),
        r matches Err(e) ==> e == Error::KeyRejected || e == Error::Unspecified,
{
    let alg = match algorithm {
        signature::Algorithm::EcdsaP256Sha256Asn1 => &::aws_lc_rs::signature::ECDSA_P256_SHA256_ASN1_SIGNING,
        signature::Algorithm::EcdsaP256Sha256Fixed => &::aws_lc_rs::signature::ECDSA_P256_SHA256_FIXED_SIGNING,
        signature::Algorithm::EcdsaP384Sha384Asn1 => &::aws_lc_rs::signature::ECDSA_P384_SHA384_ASN1_SIGNING,
        signature::Algorithm::EcdsaP384Sha384Fixed => &::aws_lc_rs::signature::ECDSA_P384_SHA384_FIXED_SIGNING,
        _ => return Err(Error::UnsupportedSignatureAlgorithm),
    };
    let key = ::aws_lc_rs::signature::EcdsaKeyPair::from_pkcs8(alg, pkcs8)
        .map_err(|_| Error::KeyRejected)?;
    let bin: Result<::aws_lc_rs::encoding::EcPrivateKeyBin, _> = key.private_key().as_be_bytes();
    bin.map(|b| b.as_ref().to_vec()).map_err(|_| Error::Unspecified)
}

/// `aws_lc_rs::signature::ParsedPublicKey::new`, then its `as_der`.
///
/// Trusted: the outcome, structure or error, is a function of algorithm and
/// key. Bytes that do not parse give [`Error::KeyRejected`].
#[verifier::external_body]
pub(crate) fn verifying_key_x509(algorithm: signature::Algorithm, public_key: &[u8]) -> (r:
    Result<Vec<u8>, Error>)
    requires
        algorithm.spec_is_supported(),
    ensures
        result_view(r) == verifying_key_x509_value(algorithm, public_key@),
        r matches Err(e) ==> e == Error::KeyRejected || e == Error::Unspecified,
{
    let alg: &'static dyn ::aws_lc_rs::signature::VerificationAlgorithm = match algorithm {
        signature::Algorithm::EcdsaP256Sha256Asn1 => &::aws_lc_rs::signature::ECDSA_P256_SHA256_ASN1,
        signature::Algorithm::EcdsaP256Sha256Fixed => &::aws_lc_rs::signature::ECDSA_P256_SHA256_FIXED,
        signature::Algorithm::EcdsaP384Sha384Asn1 => &::aws_lc_rs::signature::ECDSA_P384_SHA384_ASN1,
        signature::Algorithm::EcdsaP384Sha384Fixed => &::aws_lc_rs::signature::ECDSA_P384_SHA384_FIXED,
        signature::Algorithm::Ed25519 => &::aws_lc_rs::signature::ED25519,
        signature::Algorithm::Ed448 => return Err(Error::UnsupportedSignatureAlgorithm),
    };
    let key = ::aws_lc_rs::signature::ParsedPublicKey::new(alg, public_key)
        .map_err(|_| Error::KeyRejected)?;
    let der: Result<::aws_lc_rs::encoding::PublicKeyX509Der, _> = key.as_der();
    der.map(|d| d.as_ref().to_vec()).map_err(|_| Error::Unspecified)
}

} // verus!
