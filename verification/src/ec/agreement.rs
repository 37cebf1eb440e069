use vstd::prelude::*;
use crate::aws_lc;
use crate::ec::Curve;
use crate::error::Error;

verus! {

/// Supported key agreement functions.
#[derive(Debug, Clone, Copy, PartialEq, Eq, Structural)]
pub enum Algorithm {
    /// ECDH using the [`P256`] curve.
    ///
    /// [`P256`]: Curve::P256
    EcdhP256,
    /// ECDH using the [`P384`] curve.
    ///
    /// [`P384`]: Curve::P384
    EcdhP384,
    /// ECDH using the [`P521`] curve.
    ///
    /// [`P521`]: Curve::P521
    EcdhP521,
    /// X25519 (ECDH using [`Curve25519`]).
    ///
    /// [`Curve25519`]: Curve::Curve25519
    X25519,
    /// X448 (ECDH using [`Curve448`]).
    ///
    /// [`Curve448`]: Curve::Curve448
    X448,
}

impl Algorithm {
    /// The numeric identifier of the algorithm.
    pub open spec fn spec_code(self) -> i32 {
        match self {
            Algorithm::EcdhP256 => 714,
            Algorithm::EcdhP384 => 715,
            Algorithm::EcdhP521 => 716,
            Algorithm::X25519 => 1034,
            Algorithm::X448 => 1035,
        }
    }

    /// Elliptic curve associated with the algorithm.
    pub open spec fn spec_curve(&self) -> Curve {
        match *self {
            Algorithm::EcdhP256 => Curve::P256,
            Algorithm::EcdhP384 => Curve::P384,
            Algorithm::EcdhP521 => Curve::P521,
            Algorithm::X25519 => Curve::Curve25519,
            Algorithm::X448 => Curve::Curve448,
        }
    }

    /// Whether the backend implements the algorithm: all but X448.
    pub open spec fn spec_is_supported(self) -> bool {
        self != Algorithm::X448
    }

    /// The length in bytes of a raw private key of the algorithm, which is
    /// also the length of the secret that an agreement gives.
    pub open spec fn spec_key_len(self) -> usize {
        match self {
            Algorithm::EcdhP256 | Algorithm::X25519 => 32,
            Algorithm::EcdhP384 => 48,
            Algorithm::EcdhP521 => 66,
            Algorithm::X448 => 56,
        }
    }

    /// Whether the algorithm is ECDH over one of the NIST curves.
    pub open spec fn spec_is_nist(self) -> bool {
        self == Algorithm::EcdhP256 || self == Algorithm::EcdhP384 || self
            == Algorithm::EcdhP521
    }

    /// The numeric identifier of the algorithm.
    #[verifier::when_used_as_spec(spec_code)]
    pub fn code(self) -> (r: i32)
        ensures
            r == self.spec_code(),
    {
        match self {
            Algorithm::EcdhP256 => 714,
            Algorithm::EcdhP384 => 715,
            Algorithm::EcdhP521 => 716,
            Algorithm::X25519 => 1034,
            Algorithm::X448 => 1035,
        }
    }

    /// Elliptic curve associated with the algorithm.
    #[verifier::when_used_as_spec(spec_curve)]
    pub fn curve(&self) -> (r: Curve)
        ensures
            r == self.spec_curve(),
    {
        match self {
            Algorithm::EcdhP256 => Curve::P256,
            Algorithm::EcdhP384 => Curve::P384,
            Algorithm::EcdhP521 => Curve::P521,
            Algorithm::X25519 => Curve::Curve25519,
            Algorithm::X448 => Curve::Curve448,
        }
    }

    /// The algorithm with the given numeric identifier.
    ///
    /// Succeeds exactly on the identifiers of the five algorithms; any other
    /// value is an [`Error::UnsupportedAgreementAlgorithm`].
    pub fn try_from(value: i32) -> (r: Result<Algorithm, Error>)
        ensures
            match r {
                Ok(a) => a.spec_code() == value,
                Err(e) => e == Error::UnsupportedAgreementAlgorithm && forall|a: Algorithm|
                    a.spec_code() != value,
            },
    {
        match value {
            714 => Ok(Algorithm::EcdhP256),
            715 => Ok(Algorithm::EcdhP384),
            716 => Ok(Algorithm::EcdhP521),
            1034 => Ok(Algorithm::X25519),
            1035 => Ok(Algorithm::X448),
            _ => Err(Error::UnsupportedAgreementAlgorithm),
        }
    }

    /// Whether the backend implements the algorithm.
    #[verifier::when_used_as_spec(spec_is_supported)]
    pub fn is_supported(self) -> (r: bool)
        ensures
            r == self.spec_is_supported(),
    {
        match self {
            Algorithm::X448 => false,
            _ => true,
        }
    }

    /// Whether the algorithm is ECDH over one of the NIST curves.
    #[verifier::when_used_as_spec(spec_is_nist)]
    pub fn is_nist(self) -> (r: bool)
        ensures
            r == self.spec_is_nist(),
    {
        match self {
            Algorithm::EcdhP256 => true,
            Algorithm::EcdhP384 => true,
            Algorithm::EcdhP521 => true,
            _ => false,
        }
    }
}

/// Result of a key agreement.
pub struct SharedSecret {
    pub(crate) buf: Vec<u8>,
}

impl View for SharedSecret {
    type V = Seq<u8>;

    closed spec fn view(&self) -> Seq<u8> {
        self.buf@
    }
}

impl SharedSecret {
    /// The bytes of the secret.
    pub fn as_ref(&self) -> (r: &[u8])
        ensures
            r@ == self@,
    {
        self.buf.as_slice()
    }

    /// Overwrites the secret with zeros and empties it.
    pub fn erase(&mut self)
        ensures
            final(self)@ == Seq::<u8>::empty(),
    {
        aws_lc::zeroize(&mut self.buf);
    }
}

impl Drop for SharedSecret {
    /// Overwrites the secret with zeros when it is dropped.
    fn drop(&mut self)
        opens_invariants none
        no_unwind
    {
        aws_lc::zeroize(&mut self.buf);
    }
}

/// The public key of a private key, both as raw bytes: the big-endian
/// scalar and the uncompressed point for the NIST curves, the 32 bytes of
/// RFC 7748 for X25519.
pub open spec fn spec_public_key(algorithm: Algorithm, private_key: Seq<u8>) -> Result<
    Seq<u8>,
    Error,
> {
    if algorithm.spec_is_supported() {
        aws_lc::public_key_value(algorithm, private_key)
    } else {
        Err(Error::UnsupportedAgreementAlgorithm)
    }
}

/// The secret that a Diffie-Hellman agreement of `private_key` with
/// `peer_public_key` gives.
pub open spec fn spec_agree(algorithm: Algorithm, private_key: Seq<u8>, peer_public_key: Seq<u8>)
    -> Result<Seq<u8>, Error> {
    if algorithm.spec_is_supported() {
        aws_lc::agreement_value(algorithm, private_key, peer_public_key)
    } else {
        Err(Error::UnsupportedAgreementAlgorithm)
    }
}

/// The view of a result that holds bytes.
pub open spec fn result_view(r: Result<Vec<u8>, Error>) -> Result<Seq<u8>, Error> {
    match r {
        Ok(v) => Ok(v@),
        Err(e) => Err(e),
    }
}

/// Generates a new private key for the algorithm, as raw bytes.
///
/// The key comes from the system's random source, so nothing is known of
/// its value but its length. Fails with [`Error::UnsupportedAgreementAlgorithm`] exactly
/// where the backend does not implement the algorithm; with an algorithm
/// that it implements, the one failure is that of the random source,
/// [`Error::Unspecified`].
pub fn generate_private_key(algorithm: Algorithm) -> (r: Result<Vec<u8>, Error>)
    ensures
        !algorithm.spec_is_supported() ==> r == Err::<Vec<u8>, Error>(
            Error::UnsupportedAgreementAlgorithm,
        ),
        algorithm.spec_is_supported() ==> (r matches Err(e) ==> e == Error::Unspecified),
        r matches Ok(key) ==> key@.len() == algorithm.spec_key_len(),
{
    if !algorithm.is_supported() {
        return Err(Error::UnsupportedAgreementAlgorithm);
    }
    match aws_lc::generate_private_key(algorithm) {
        Some(key) => Ok(key),
        None => Err(Error::Unspecified),
    }
}

/// Computes the public key of a private key.
///
/// Fails with [`Error::UnsupportedAgreementAlgorithm`] exactly where the
/// backend does not implement the algorithm; any other failure is that of
/// a key that the backend rejects or cannot compute with.
pub fn compute_public_key(algorithm: Algorithm, private_key: &[u8]) -> (r: Result<Vec<u8>, Error>)
    ensures
        result_view(r) == spec_public_key(algorithm, private_key@),
        algorithm.spec_is_supported() ==> (r matches Err(e) ==> e == Error::KeyRejected || e
            == Error::Unspecified),
{
    if !algorithm.is_supported() {
        return Err(Error::UnsupportedAgreementAlgorithm);
    }
    aws_lc::public_key(algorithm, private_key)
}

/// The raw private key that a DER document holds.
pub open spec fn spec_private_key_from_der(algorithm: Algorithm, der: Seq<u8>) -> Result<
    Seq<u8>,
    Error,
> {
    if algorithm.spec_is_supported() {
        aws_lc::private_key_der_value(algorithm, der)
    } else {
        Err(Error::UnsupportedAgreementAlgorithm)
    }
}

/// Reads a private key from a DER document: a PKCS #8 document or the
/// elliptic curve private key structure. Gives the raw bytes of the key.
///
/// Fails with [`Error::UnsupportedAgreementAlgorithm`] exactly where the
/// backend does not implement the algorithm, and with
/// [`Error::KeyRejected`] for every document under X25519, whose keys have
/// no such encoding; any other failure is that of a document that the
/// backend rejects or of a key that it cannot export.
pub fn private_key_from_der(algorithm: Algorithm, der: &[u8]) -> (r: Result<Vec<u8>, Error>)
    ensures
        result_view(r) == spec_private_key_from_der(algorithm, der@),
        !algorithm.spec_is_supported() ==> r == Err::<Vec<u8>, Error>(
            Error::UnsupportedAgreementAlgorithm,
        ),
        algorithm == Algorithm::X25519 ==> r == Err::<Vec<u8>, Error>(Error::KeyRejected),
        algorithm.spec_is_supported() ==> (r matches Err(e) ==> e == Error::KeyRejected || e
            == Error::Unspecified),
{
    if !algorithm.is_supported() {
        return Err(Error::UnsupportedAgreementAlgorithm);
    }
    aws_lc::private_key_from_der(algorithm, der)
}

/// The PKCS #8 v1 document of a raw private key.
pub open spec fn spec_private_key_to_der(algorithm: Algorithm, private_key: Seq<u8>) -> Result<
    Seq<u8>,
    Error,
> {
    if algorithm.spec_is_supported() {
        aws_lc::private_key_pkcs8_value(algorithm, private_key)
    } else {
        Err(Error::UnsupportedAgreementAlgorithm)
    }
}

/// Writes a private key, given as raw bytes, as a PKCS #8 v1 document.
///
/// Fails with [`Error::UnsupportedAgreementAlgorithm`] exactly where the
/// backend does not implement the algorithm, and always under X25519,
/// whose keys have no such encoding; any other failure is that of a key
/// that the backend rejects or cannot export.
pub fn private_key_to_der(algorithm: Algorithm, private_key: &[u8]) -> (r: Result<Vec<u8>, Error>)
    ensures
        result_view(r) == spec_private_key_to_der(algorithm, private_key@),
        !algorithm.spec_is_supported() ==> r == Err::<Vec<u8>, Error>(
            Error::UnsupportedAgreementAlgorithm,
        ),
        algorithm == Algorithm::X25519 ==> r.is_err(),
        algorithm.spec_is_supported() ==> (r matches Err(e) ==> e == Error::KeyRejected || e
            == Error::Unspecified),
{
    if !algorithm.is_supported() {
        return Err(Error::UnsupportedAgreementAlgorithm);
    }
    aws_lc::private_key_pkcs8(algorithm, private_key)
}

/// Performs a Diffie-Hellman (DH) key agreement.
///
/// The private key can be used for any number of agreements.
pub fn agree(algorithm: Algorithm, private_key: &[u8], peer_public_key: &[u8]) -> (r: Result<
    SharedSecret,
    Error,
>)
    ensures
        match r {
            Ok(s) => Ok::<Seq<u8>, Error>(s@),
            Err(e) => Err(e),
        } == spec_agree(algorithm, private_key@, peer_public_key@),
        algorithm.spec_is_supported() ==> (r matches Err(e) ==> e == Error::KeyRejected),
        r matches Ok(s) ==> s@.len() == algorithm.spec_key_len(),
{
    if !algorithm.is_supported() {
        return Err(Error::UnsupportedAgreementAlgorithm);
    }
    match aws_lc::agree(algorithm, private_key, peer_public_key) {
        Ok(buf) => Ok(SharedSecret { buf }),
        Err(e) => Err(e),
    }
}

/// The secret that an agreement of `private_key` with a public key of a
/// known algorithm gives: a public key of another algorithm than the
/// private key's is rejected with [`Error::KeyRejected`] before any
/// agreement is made.
pub open spec fn spec_agree_with(
    algorithm: Algorithm,
    private_key: Seq<u8>,
    peer_algorithm: Algorithm,
    peer_public_key: Seq<u8>,
) -> Result<Seq<u8>, Error> {
    if peer_algorithm != algorithm {
        Err(Error::KeyRejected)
    } else {
        spec_agree(algorithm, private_key, peer_public_key)
    }
}

/// Performs a Diffie-Hellman (DH) key agreement with a public key of any
/// kind. The algorithms are compared first: a public key of another
/// algorithm gives [`Error::KeyRejected`], and no secret is derived.
pub fn agree_with<P: PublicKey>(algorithm: Algorithm, private_key: &[u8], peer_public_key: &P)
    -> (r: Result<SharedSecret, Error>)
    ensures
        match r {
            Ok(s) => Ok::<Seq<u8>, Error>(s@),
            Err(e) => Err(e),
        } == spec_agree_with(
            algorithm,
            private_key@,
            peer_public_key.spec_algorithm(),
            peer_public_key.spec_bytes(),
        ),
        r matches Err(e) ==> e == Error::KeyRejected || e
            == Error::UnsupportedAgreementAlgorithm,
        r matches Ok(s) ==> s@.len() == algorithm.spec_key_len(),
{
    if peer_public_key.algorithm() != algorithm {
        return Err(Error::KeyRejected);
    }
    agree(algorithm, private_key, peer_public_key.as_bytes())
}

} // verus!

verus! {

/// A private key for key agreement.
///
/// [`agree`] borrows the key, so a key can be used for more than one
/// agreement.
///
/// [`agree`]: PrivateKey::agree
pub trait PrivateKey {
    /// The algorithm of the key.
    spec fn spec_algorithm(&self) -> Algorithm;

    /// The raw bytes of the key.
    spec fn spec_bytes(&self) -> Seq<u8>;

    /// Performs a Diffie-Hellman (DH) key agreement.
    ///
    /// A public key of another algorithm than this key's is rejected with
    /// [`Error::KeyRejected`] before any agreement is made, whatever kind
    /// of public key it is; so is a public key that is malformed. Where
    /// both keys are of an algorithm that the backend does not implement,
    /// the error is [`Error::UnsupportedAgreementAlgorithm`].
    fn agree<P: PublicKey>(&self, peer_public_key: &P) -> (r: Result<SharedSecret, Error>)
        ensures
            match r {
                Ok(s) => Ok::<Seq<u8>, Error>(s@),
                Err(e) => Err(e),
            } == spec_agree_with(
                self.spec_algorithm(),
                self.spec_bytes(),
                peer_public_key.spec_algorithm(),
                peer_public_key.spec_bytes(),
            ),
            r matches Err(e) ==> e == Error::KeyRejected || e
                == Error::UnsupportedAgreementAlgorithm,
            r matches Ok(s) ==> s@.len() == self.spec_algorithm().spec_key_len(),
    ;

    /// Computes public key of the private key.
    fn compute_public_key(&self) -> (r: Result<Vec<u8>, Error>)
        ensures
            result_view(r) == spec_public_key(self.spec_algorithm(), self.spec_bytes()),
    ;

    /// Serializes the key as a PKCS #8 v1 document in DER. A key for
    /// X25519 has no such document.
    fn as_der(&self) -> (r: Result<Vec<u8>, Error>)
        ensures
            result_view(r) == spec_private_key_to_der(self.spec_algorithm(), self.spec_bytes()),
            self.spec_algorithm() == Algorithm::X25519 ==> r.is_err(),
            r matches Err(e) ==> e == Error::KeyRejected || e == Error::Unspecified || e
                == Error::UnsupportedAgreementAlgorithm,
    ;

    /// Returns the algorithm associated with this key.
    fn algorithm(&self) -> (r: Algorithm)
        ensures
            r == self.spec_algorithm(),
    ;
}

/// An ephemeral private key for key agreement.
///
/// [`agree_ephemeral`] borrows the key, so that one key serves the
/// agreements of one handshake; [`erase`] ends its use once the secret is
/// derived.
///
/// [`agree_ephemeral`]: EphemeralPrivateKey::agree_ephemeral
/// [`erase`]: EphemeralPrivateKey::erase
pub trait EphemeralPrivateKey: Sized {
    /// The algorithm of the key.
    spec fn spec_algorithm(&self) -> Algorithm;

    /// The raw bytes of the key.
    spec fn spec_bytes(&self) -> Seq<u8>;

    /// Performs a Diffie-Hellman (DH) key agreement.
    ///
    /// A public key of another algorithm than this key's is rejected with
    /// [`Error::KeyRejected`] before any agreement is made.
    fn agree_ephemeral<P: PublicKey>(&self, peer_public_key: &P) -> (r: Result<
        SharedSecret,
        Error,
    >)
        ensures
            match r {
                Ok(s) => Ok::<Seq<u8>, Error>(s@),
                Err(e) => Err(e),
            } == spec_agree_with(
                self.spec_algorithm(),
                self.spec_bytes(),
                peer_public_key.spec_algorithm(),
                peer_public_key.spec_bytes(),
            ),
            r matches Err(e) ==> e == Error::KeyRejected || e
                == Error::UnsupportedAgreementAlgorithm,
            r matches Ok(s) ==> s@.len() == self.spec_algorithm().spec_key_len(),
    ;

    /// Overwrites the private key with zeros and empties it: no further
    /// agreement is made with it.
    fn erase(&mut self)
        ensures
            final(self).spec_bytes() == Seq::<u8>::empty(),
            final(self).spec_algorithm() == old(self).spec_algorithm(),
    ;

    /// Computes public key of the ephemeral key.
    fn compute_public_key(&self) -> (r: Result<Vec<u8>, Error>)
        ensures
            result_view(r) == spec_public_key(self.spec_algorithm(), self.spec_bytes()),
    ;

    /// Returns the algorithm associated with this key.
    fn algorithm(&self) -> (r: Algorithm)
        ensures
            r == self.spec_algorithm(),
    ;
}

/// A public key for key agreement.
pub trait PublicKey {
    /// The algorithm of the key.
    spec fn spec_algorithm(&self) -> Algorithm;

    /// The raw bytes of the key.
    spec fn spec_bytes(&self) -> Seq<u8>;

    /// Kind of the public key we have.
    fn algorithm(&self) -> (r: Algorithm)
        ensures
            r == self.spec_algorithm(),
    ;

    /// The raw bytes of the key: the uncompressed point for the NIST
    /// curves, the 32 bytes of RFC 7748 for X25519.
    fn as_bytes(&self) -> (r: &[u8])
        ensures
            r@ == self.spec_bytes(),
    ;
}

} // verus!
