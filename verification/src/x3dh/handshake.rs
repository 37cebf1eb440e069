use vstd::prelude::*;
use crate::aws_lc;
use crate::bytes;
use crate::doubleratchet::kdf::derive_key;
use crate::doubleratchet::kdf::Suite;
use crate::doubleratchet::kdf::KEY_LEN;
use crate::doubleratchet::session::KeyPairView;
use crate::doubleratchet::session::RatchetKeyPair;
use crate::ec::agreement;
use crate::ec::signature;
use crate::error::Error;
use crate::hkdf;
use crate::x3dh::storage::KeyStorage;

verus! {

/// The info string that keeps the handshake's derivation apart from any
/// other: `e2ee x3dh v1`.
pub open spec fn x3dh_info() -> Seq<u8> {
    seq![101u8, 50, 101, 101, 32, 120, 51, 100, 104, 32, 118, 49]
}

/// The info string of the handshake's derivation.
pub fn x3dh_info_bytes() -> (r: Vec<u8>)
    ensures
        r@ == x3dh_info(),
{
    let r: Vec<u8> = vec![101u8, 50, 101, 101, 32, 120, 51, 100, 104, 32, 118, 49];
    assert(r@ =~= x3dh_info());
    r
}

/// What an identity public key holds.
pub struct IdentityPublicView {
    /// The public key for key agreement.
    pub agreement: Seq<u8>,
    /// The public key for verifying signatures.
    pub verifying: Seq<u8>,
}

impl IdentityPublicView {
    /// The bytes that stand for the identity in the associated data: the
    /// agreement key, then the verifying key.
    pub open spec fn bytes(self) -> Seq<u8> {
        self.agreement + self.verifying
    }
}

/// The public part of a long-term identity: one key for key agreement and
/// one for verifying signatures.
#[derive(Debug, Clone)]
pub struct IdentityPublic {
    /// The public key for key agreement.
    pub agreement: Vec<u8>,
    /// The public key for verifying signatures.
    pub verifying: Vec<u8>,
}

impl View for IdentityPublic {
    type V = IdentityPublicView;

    open spec fn view(&self) -> IdentityPublicView {
        IdentityPublicView { agreement: self.agreement@, verifying: self.verifying@ }
    }
}

impl IdentityPublic {
    /// The bytes that stand for the identity in the associated data.
    pub fn to_bytes(&self) -> (r: Vec<u8>)
        ensures
            r@ == self@.bytes(),
    {
        let mut r = bytes::copy(self.agreement.as_slice());
        bytes::append(&mut r, self.verifying.as_slice());
        r
    }
}

/// What a long-term identity holds.
pub struct IdentityView {
    /// The key pair for key agreement.
    pub agreement: KeyPairView,
    /// The signing key, as a PKCS #8 document.
    pub signing: Seq<u8>,
    /// The public key for verifying signatures.
    pub verifying: Seq<u8>,
}

impl IdentityView {
    /// The public part of the identity.
    pub open spec fn public(self) -> IdentityPublicView {
        IdentityPublicView { agreement: self.agreement.public, verifying: self.verifying }
    }
}

/// A long-term identity: a key pair for key agreement and a key pair for
/// signing. A peer owns one for its lifetime.
pub struct IdentityKeyPair {
    agreement: RatchetKeyPair,
    signing: Vec<u8>,
    verifying: Vec<u8>,
}

impl Drop for IdentityKeyPair {
    /// Overwrites the signing key with zeros when it is dropped.
    fn drop(&mut self)
        opens_invariants none
        no_unwind
    {
        aws_lc::zeroize(&mut self.signing);
    }
}

impl View for IdentityKeyPair {
    type V = IdentityView;

    closed spec fn view(&self) -> IdentityView {
        IdentityView {
            agreement: self.agreement@,
            signing: self.signing@,
            verifying: self.verifying@,
        }
    }
}

impl IdentityKeyPair {
    /// The identity of an agreement key pair and a signing key; the public
    /// key of the signing key is computed.
    pub fn new(algorithm: signature::Algorithm, agreement: RatchetKeyPair, signing: Vec<u8>) -> (r:
        Result<IdentityKeyPair, Error>)
        ensures
            match r {
                Ok(identity) => identity@.agreement == agreement@ && identity@.signing == signing@
                    && signature::spec_public_key(algorithm, signing@) == Ok::<Seq<u8>, Error>(
                    identity@.verifying,
                ),
                Err(e) => signature::spec_public_key(algorithm, signing@) == Err::<
                    Seq<u8>,
                    Error,
                >(e),
            },
            algorithm.spec_is_supported() ==> (r matches Err(e) ==> e == Error::KeyRejected),
    {
        match signature::compute_public_key(algorithm, signing.as_slice()) {
            Ok(verifying) => Ok(IdentityKeyPair { agreement, signing, verifying }),
            Err(e) => Err(e),
        }
    }

    /// A new identity from the system's random source: a new key pair for
    /// key agreement and a new signing key, made into an identity as
    /// [`IdentityKeyPair::new`] does.
    ///
    /// The algorithms are looked at before any key is generated. A key
    /// agreement that the backend does not implement fails with
    /// [`Error::UnsupportedAgreementAlgorithm`]; with a key agreement that
    /// it implements, a signature algorithm that it does not implement
    /// fails with [`Error::UnsupportedSignatureAlgorithm`]. With both
    /// implemented, neither error comes: a failure is then that of the
    /// random source or of a key that the backend rejects. In an identity
    /// that was generated, each public key belongs to its private key.
    pub fn generate(suite: Suite, algorithm: signature::Algorithm) -> (r: Result<
        IdentityKeyPair,
        Error,
    >)
        ensures
            r matches Ok(identity) ==> signature::spec_public_key(algorithm, identity@.signing)
                == Ok::<Seq<u8>, Error>(identity@.verifying),
            r matches Ok(identity) ==> agreement::spec_public_key(
                suite.agreement,
                identity@.agreement.private,
            ) == Ok::<Seq<u8>, Error>(identity@.agreement.public),
            r is Ok ==> suite.agreement.spec_is_supported() && algorithm.spec_is_supported(),
            !suite.agreement.spec_is_supported() ==> (r matches Err(e) && e
                == Error::UnsupportedAgreementAlgorithm),
            suite.agreement.spec_is_supported() && !algorithm.spec_is_supported() ==> (
            r matches Err(e) && e == Error::UnsupportedSignatureAlgorithm),
            suite.agreement.spec_is_supported() && algorithm.spec_is_supported() ==> (
            r matches Err(e) ==> e == Error::Unspecified || e == Error::KeyRejected),
    {
        if !suite.agreement.is_supported() {
            return Err(Error::UnsupportedAgreementAlgorithm);
        }
        if !algorithm.is_supported() {
            return Err(Error::UnsupportedSignatureAlgorithm);
        }
        let agreement = match RatchetKeyPair::generate(suite.agreement) {
            Ok(pair) => pair,
            Err(e) => { return Err(e); },
        };
        let signing = match signature::generate_signing_key(algorithm) {
            Ok(key) => key,
            Err(e) => { return Err(e); },
        };
        IdentityKeyPair::new(algorithm, agreement, signing)
    }

    /// The public part of the identity.
    pub fn public(&self) -> (r: IdentityPublic)
        ensures
            r@ == self@.public(),
    {
        IdentityPublic {
            agreement: bytes::copy(self.agreement.public()),
            verifying: bytes::copy(self.verifying.as_slice()),
        }
    }

    /// The key pair for key agreement.
    pub fn agreement(&self) -> (r: &RatchetKeyPair)
        ensures
            r@ == self@.agreement,
    {
        &self.agreement
    }

    /// Signs a message with the signing key of the identity.
    pub fn sign(&self, algorithm: signature::Algorithm, message: &[u8]) -> (r: Result<
        Vec<u8>,
        Error,
    >)
        ensures
            algorithm == signature::Algorithm::Ed448 ==> r == Err::<Vec<u8>, Error>(
                Error::UnsupportedSignatureAlgorithm,
            ),
            algorithm == signature::Algorithm::Ed25519 ==> agreement::result_view(r)
                == aws_lc::ed25519_signature_value(self@.signing, message@),
            algorithm.spec_is_supported() ==> (r matches Err(e) ==> e == Error::KeyRejected || e
                == Error::Unspecified),
    {
        signature::sign(algorithm, self.signing.as_slice(), message)
    }
}

/// What a prekey bundle holds.
pub struct BundleView {
    /// The identity of the peer that published the bundle.
    pub identity: IdentityPublicView,
    /// The id of the signed prekey.
    pub signed_prekey_id: u32,
    /// The public key of the signed prekey.
    pub signed_prekey_public: Seq<u8>,
    /// The signature of the identity over the signed prekey's public key.
    pub signature: Seq<u8>,
    /// The id of the one-time prekey, if the bundle carries one.
    pub one_time_prekey_id: Option<u32>,
    /// The public key of the one-time prekey, if the bundle carries one.
    pub one_time_prekey_public: Option<Seq<u8>>,
}

/// The value that a responder publishes and an initiator's handshake
/// consumes: the responder's identity, its signed prekey with the
/// signature, and a one-time prekey where one is left.
#[derive(Debug, Clone)]
pub struct PeerPreKeyBundle {
    /// The identity of the peer that published the bundle.
    pub identity: IdentityPublic,
    /// The id of the signed prekey.
    pub signed_prekey_id: u32,
    /// The public key of the signed prekey.
    pub signed_prekey_public: Vec<u8>,
    /// The signature of the identity over the signed prekey's public key.
    pub signature: Vec<u8>,
    /// The id of the one-time prekey, if the bundle carries one.
    pub one_time_prekey_id: Option<u32>,
    /// The public key of the one-time prekey, if the bundle carries one.
    pub one_time_prekey_public: Option<Vec<u8>>,
}

impl View for PeerPreKeyBundle {
    type V = BundleView;

    open spec fn view(&self) -> BundleView {
        BundleView {
            identity: self.identity@,
            signed_prekey_id: self.signed_prekey_id,
            signed_prekey_public: self.signed_prekey_public@,
            signature: self.signature@,
            one_time_prekey_id: self.one_time_prekey_id,
            one_time_prekey_public: match self.one_time_prekey_public {
                Some(key) => Some(key@),
                None => None,
            },
        }
    }
}

impl BundleView {
    /// Whether the signature of the bundle verifies: it is a signature of
    /// the bundle's identity over the signed prekey's public key.
    pub open spec fn is_authentic(self, algorithm: signature::Algorithm) -> bool {
        signature::spec_verify(
            algorithm,
            self.identity.verifying,
            self.signed_prekey_public,
            self.signature,
        )
    }
}

impl PeerPreKeyBundle {
    /// Whether the signature of the bundle verifies.
    pub fn is_authentic(&self, algorithm: signature::Algorithm) -> (r: bool)
        ensures
            r == self@.is_authentic(algorithm),
    {
        signature::verify(
            algorithm,
            self.identity.verifying.as_slice(),
            self.signed_prekey_public.as_slice(),
            self.signature.as_slice(),
        )
    }
}

/// What a handshake gives.
pub struct HandshakeView {
    /// The 32 bytes of the initial shared secret.
    pub shared_secret: Seq<u8>,
    /// The associated data: the initiator's identity, then the responder's.
    pub associated_data: Seq<u8>,
}

/// The outcome of a handshake: the initial shared secret `SK`, from which a
/// session starts, and the associated data `AD`, which the ratchet keeps
/// for the encryption layer and does not read.
pub struct HandshakeSecret {
    shared_secret: Vec<u8>,
    associated_data: Vec<u8>,
}

impl View for HandshakeSecret {
    type V = HandshakeView;

    closed spec fn view(&self) -> HandshakeView {
        HandshakeView {
            shared_secret: self.shared_secret@,
            associated_data: self.associated_data@,
        }
    }
}

impl HandshakeSecret {
    /// The initial shared secret.
    pub fn shared_secret(&self) -> (r: &[u8])
        ensures
            r@ == self@.shared_secret,
    {
        self.shared_secret.as_slice()
    }

    /// The associated data.
    pub fn associated_data(&self) -> (r: &[u8])
        ensures
            r@ == self@.associated_data,
    {
        self.associated_data.as_slice()
    }

    /// Takes the associated data and erases the shared secret.
    pub fn into_associated_data(self) -> (r: Vec<u8>)
        ensures
            r@ == self@.associated_data,
    {
        bytes::copy(self.associated_data.as_slice())
    }
}

impl Drop for HandshakeSecret {
    /// Overwrites the shared secret with zeros when it is dropped.
    fn drop(&mut self)
        opens_invariants none
        no_unwind
    {
        aws_lc::zeroize(&mut self.shared_secret);
    }
}

/// The view of an outcome that holds a handshake secret.
pub open spec fn handshake_view(r: Result<HandshakeSecret, Error>) -> Result<HandshakeView, Error> {
    match r {
        Ok(secret) => Ok(secret@),
        Err(e) => Err(e),
    }
}

/// The input of the derivation: the agreements in their order, the fourth
/// only where a one-time prekey was used.
pub open spec fn spec_key_material(dh1: Seq<u8>, dh2: Seq<u8>, dh3: Seq<u8>, dh4: Option<Seq<u8>>)
    -> Seq<u8> {
    match dh4 {
        Some(dh4) => dh1 + dh2 + dh3 + dh4,
        None => dh1 + dh2 + dh3,
    }
}

/// The shared secret of the agreements: HKDF with a salt of `HashLen` zero
/// bytes over their concatenation, expanded to 32 bytes under the
/// handshake's info string.
pub open spec fn spec_shared_secret(
    hkdf: hkdf::Algorithm,
    dh1: Seq<u8>,
    dh2: Seq<u8>,
    dh3: Seq<u8>,
    dh4: Option<Seq<u8>>,
) -> Seq<u8> {
    aws_lc::hkdf_value(
        hkdf,
        bytes::zeros(hkdf.spec_hash_len() as nat),
        spec_key_material(dh1, dh2, dh3, dh4),
        x3dh_info(),
        KEY_LEN,
    )
}

/// The fourth agreement: that of `private_key` with the one-time prekey,
/// where there is one.
pub open spec fn spec_optional_agree(
    algorithm: agreement::Algorithm,
    private_key: Seq<u8>,
    peer_public_key: Option<Seq<u8>>,
) -> Result<Option<Seq<u8>>, Error> {
    match peer_public_key {
        None => Ok(None),
        Some(key) => match agreement::spec_agree(algorithm, private_key, key) {
            Ok(dh) => Ok(Some(dh)),
            Err(e) => Err(e),
        },
    }
}

/// The handshake of the initiator.
///
/// A bundle whose signature does not verify gives
/// [`Error::SignatureInvalid`] before any agreement. Then come the
/// agreements of the initiator's identity key with the signed prekey, and
/// of its ephemeral key with the responder's identity key, with the signed
/// prekey and, where the bundle carries one, with the one-time prekey; the
/// first that fails gives its error. The associated data names the
/// initiator first.
pub open spec fn spec_initiate(
    suite: Suite,
    signature: signature::Algorithm,
    identity: IdentityView,
    ephemeral: KeyPairView,
    bundle: BundleView,
) -> Result<HandshakeView, Error> {
    if !bundle.is_authentic(signature) {
        Err(Error::SignatureInvalid)
    } else {
        match agreement::spec_agree(
            suite.agreement,
            identity.agreement.private,
            bundle.signed_prekey_public,
        ) {
            Err(e) => Err(e),
            Ok(dh1) => match agreement::spec_agree(
                suite.agreement,
                ephemeral.private,
                bundle.identity.agreement,
            ) {
                Err(e) => Err(e),
                Ok(dh2) => match agreement::spec_agree(
                    suite.agreement,
                    ephemeral.private,
                    bundle.signed_prekey_public,
                ) {
                    Err(e) => Err(e),
                    Ok(dh3) => match spec_optional_agree(
                        suite.agreement,
                        ephemeral.private,
                        bundle.one_time_prekey_public,
                    ) {
                        Err(e) => Err(e),
                        Ok(dh4) => Ok(
                            HandshakeView {
                                shared_secret: spec_shared_secret(suite.hkdf, dh1, dh2, dh3, dh4),
                                associated_data: identity.public().bytes()
                                    + bundle.identity.bytes(),
                            },
                        ),
                    },
                },
            },
        }
    }
}

/// The handshake of the responder, which mirrors the initiator's with the
/// responder's private keys and the initiator's public keys.
///
/// The agreements are those of the signed prekey with the initiator's
/// identity key, and of the responder's identity key, the signed prekey
/// and, where one was used, the one-time prekey with the initiator's
/// ephemeral key; the first that fails gives its error. The associated
/// data names the initiator first.
pub open spec fn spec_respond(
    suite: Suite,
    identity: IdentityView,
    signed_prekey: KeyPairView,
    one_time_prekey: Option<Seq<u8>>,
    initiator: IdentityPublicView,
    initiator_ephemeral: Seq<u8>,
) -> Result<HandshakeView, Error> {
    match agreement::spec_agree(suite.agreement, signed_prekey.private, initiator.agreement) {
        Err(e) => Err(e),
        Ok(dh1) => match agreement::spec_agree(
            suite.agreement,
            identity.agreement.private,
            initiator_ephemeral,
        ) {
            Err(e) => Err(e),
            Ok(dh2) => match agreement::spec_agree(
                suite.agreement,
                signed_prekey.private,
                initiator_ephemeral,
            ) {
                Err(e) => Err(e),
                Ok(dh3) => match one_time_prekey {
                    None => Ok(
                        HandshakeView {
                            shared_secret: spec_shared_secret(suite.hkdf, dh1, dh2, dh3, None),
                            associated_data: initiator.bytes() + identity.public().bytes(),
                        },
                    ),
                    Some(key) => match agreement::spec_agree(
                        suite.agreement,
                        key,
                        initiator_ephemeral,
                    ) {
                        Err(e) => Err(e),
                        Ok(dh4) => Ok(
                            HandshakeView {
                                shared_secret: spec_shared_secret(
                                    suite.hkdf,
                                    dh1,
                                    dh2,
                                    dh3,
                                    Some(dh4),
                                ),
                                associated_data: initiator.bytes() + identity.public().bytes(),
                            },
                        ),
                    },
                },
            },
        },
    }
}

/// Derives the shared secret from the agreements and erases them.
fn derive_shared_secret(
    hkdf: hkdf::Algorithm,
    dh1: agreement::SharedSecret,
    dh2: agreement::SharedSecret,
    dh3: agreement::SharedSecret,
    dh4: Option<agreement::SharedSecret>,
) -> (r: Vec<u8>)
    ensures
        r@ == spec_shared_secret(
            hkdf,
            dh1@,
            dh2@,
            dh3@,
            match dh4 {
                Some(dh) => Some(dh@),
                None => None,
            },
        ),
        r@.len() == KEY_LEN,
{
    let mut dh1 = dh1;
    let mut dh2 = dh2;
    let mut dh3 = dh3;
    let mut material = bytes::copy(dh1.as_ref());
    bytes::append(&mut material, dh2.as_ref());
    bytes::append(&mut material, dh3.as_ref());
    match dh4 {
        Some(dh) => {
            let mut dh = dh;
            bytes::append(&mut material, dh.as_ref());
            dh.erase();
        },
        None => {},
    }
    let salt = bytes::zeroed(hkdf.digest().output_len());
    let info = x3dh_info_bytes();
    let secret = derive_key(hkdf, salt.as_slice(), material.as_slice(), info.as_slice(), KEY_LEN);
    dh1.erase();
    dh2.erase();
    dh3.erase();
    aws_lc::zeroize(&mut material);
    secret
}

/// The handshake of the initiator: from its identity, a fresh ephemeral key
/// pair and the responder's bundle, the shared secret and the associated
/// data.
///
/// A bundle with a forged signature fails with
/// [`Error::SignatureInvalid`]; keys that are malformed or of different
/// curves fail with the error of their agreement. A failed handshake
/// leaves nothing behind. All agreements are erased once the secret is
/// derived.
pub fn initiate(
    suite: Suite,
    signature: signature::Algorithm,
    identity: &IdentityKeyPair,
    ephemeral: &RatchetKeyPair,
    bundle: &PeerPreKeyBundle,
) -> (r: Result<HandshakeSecret, Error>)
    ensures
        handshake_view(r) == spec_initiate(suite, signature, identity@, ephemeral@, bundle@),
        r matches Ok(secret) ==> secret@.shared_secret.len() == KEY_LEN,
{
    if !bundle.is_authentic(signature) {
        return Err(Error::SignatureInvalid);
    }
    let mut dh1 = match agreement::agree(
        suite.agreement,
        identity.agreement.private(),
        bundle.signed_prekey_public.as_slice(),
    ) {
        Ok(dh) => dh,
        Err(e) => { return Err(e); },
    };
    let mut dh2 = match agreement::agree(
        suite.agreement,
        ephemeral.private(),
        bundle.identity.agreement.as_slice(),
    ) {
        Ok(dh) => dh,
        Err(e) => {
            dh1.erase();
            return Err(e);
        },
    };
    let mut dh3 = match agreement::agree(
        suite.agreement,
        ephemeral.private(),
        bundle.signed_prekey_public.as_slice(),
    ) {
        Ok(dh) => dh,
        Err(e) => {
            dh1.erase();
            dh2.erase();
            return Err(e);
        },
    };
    let dh4 = match &bundle.one_time_prekey_public {
        None => None,
        Some(key) => match agreement::agree(suite.agreement, ephemeral.private(), key.as_slice()) {
            Ok(dh) => Some(dh),
            Err(e) => {
                dh1.erase();
                dh2.erase();
                dh3.erase();
                return Err(e);
            },
        },
    };
    let shared_secret = derive_shared_secret(suite.hkdf, dh1, dh2, dh3, dh4);
    let mut associated_data = identity.public().to_bytes();
    bytes::append(&mut associated_data, bundle.identity.to_bytes().as_slice());
    Ok(HandshakeSecret { shared_secret, associated_data })
}

/// The handshake of the responder: from its identity, its signed prekey,
/// the one-time prekey that the initiator used, if any, and the
/// initiator's identity and ephemeral public key, the shared secret and the
/// associated data.
///
/// Keys that are malformed or of different curves fail with the error of
/// their agreement. A failed handshake leaves nothing behind. All
/// agreements are erased once the secret is derived.
pub fn respond(
    suite: Suite,
    identity: &IdentityKeyPair,
    signed_prekey: &RatchetKeyPair,
    one_time_prekey: Option<&[u8]>,
    initiator: &IdentityPublic,
    initiator_ephemeral: &[u8],
) -> (r: Result<HandshakeSecret, Error>)
    ensures
        handshake_view(r) == spec_respond(
            suite,
            identity@,
            signed_prekey@,
            match one_time_prekey {
                Some(key) => Some(key@),
                None => None,
            },
            initiator@,
            initiator_ephemeral@,
        ),
        r matches Ok(secret) ==> secret@.shared_secret.len() == KEY_LEN,
{
    let mut dh1 = match agreement::agree(
        suite.agreement,
        signed_prekey.private(),
        initiator.agreement.as_slice(),
    ) {
        Ok(dh) => dh,
        Err(e) => { return Err(e); },
    };
    let mut dh2 = match agreement::agree(
        suite.agreement,
        identity.agreement.private(),
        initiator_ephemeral,
    ) {
        Ok(dh) => dh,
        Err(e) => {
            dh1.erase();
            return Err(e);
        },
    };
    let mut dh3 = match agreement::agree(
        suite.agreement,
        signed_prekey.private(),
        initiator_ephemeral,
    ) {
        Ok(dh) => dh,
        Err(e) => {
            dh1.erase();
            dh2.erase();
            return Err(e);
        },
    };
    let dh4 = match one_time_prekey {
        None => None,
        Some(key) => match agreement::agree(suite.agreement, key, initiator_ephemeral) {
            Ok(dh) => Some(dh),
            Err(e) => {
                dh1.erase();
                dh2.erase();
                dh3.erase();
                return Err(e);
            },
        },
    };
    let shared_secret = derive_shared_secret(suite.hkdf, dh1, dh2, dh3, dh4);
    let mut associated_data = initiator.to_bytes();
    bytes::append(&mut associated_data, identity.public().to_bytes().as_slice());
    Ok(HandshakeSecret { shared_secret, associated_data })
}

/// The responder's handshake against a storage of one-time prekeys, as a
/// function of what the storage holds: the keys that it holds after, and
/// the outcome.
///
/// Where the initiator names a one-time prekey that the storage does not
/// hold, the key was taken by an earlier handshake or never existed: the
/// handshake fails with [`Error::KeyRejected`]. Where the handshake
/// succeeds, the one-time prekey is gone from the storage; where it fails,
/// the storage is as before.
pub open spec fn spec_respond_from_storage(
    suite: Suite,
    identity: IdentityView,
    signed_prekey: KeyPairView,
    keys: Map<u32, Seq<u8>>,
    one_time_prekey_id: Option<u32>,
    initiator: IdentityPublicView,
    initiator_ephemeral: Seq<u8>,
) -> (Map<u32, Seq<u8>>, Result<HandshakeView, Error>) {
    match one_time_prekey_id {
        None => (
            keys,
            spec_respond(suite, identity, signed_prekey, None, initiator, initiator_ephemeral),
        ),
        Some(id) => if !keys.contains_key(id) {
            (keys, Err(Error::KeyRejected))
        } else {
            match spec_respond(
                suite,
                identity,
                signed_prekey,
                Some(keys[id]),
                initiator,
                initiator_ephemeral,
            ) {
                Ok(secret) => (keys.remove(id), Ok(secret)),
                Err(e) => (keys, Err(e)),
            }
        },
    }
}

/// Whether `after` is what a handshake leaves in the storage: what it is
/// meant to leave or, where the handshake failed and the storage did not
/// take the one-time prekey back, what was there without that key.
pub open spec fn spec_left_in_storage(
    meant: Map<u32, Seq<u8>>,
    before: Map<u32, Seq<u8>>,
    one_time_prekey_id: Option<u32>,
    failed: bool,
    after: Map<u32, Seq<u8>>,
) -> bool {
    after == meant || (failed && match one_time_prekey_id {
        Some(id) => after == before.remove(id),
        None => false,
    })
}

/// The responder's handshake against its storage of one-time prekeys.
///
/// The one-time prekey that the initiator names is taken out of the
/// storage first, in the one step that the storage offers for it, so that
/// no second handshake is served by it, however the storage is shared. The
/// outcome is that of [`spec_respond_from_storage`], and so is the
/// storage where the handshake succeeds. Where the handshake fails, the
/// key is put back, and the storage is as before unless it refuses the
/// key.
pub fn respond_from_storage<S: KeyStorage>(
    suite: Suite,
    identity: &IdentityKeyPair,
    signed_prekey: &RatchetKeyPair,
    storage: &mut S,
    one_time_prekey_id: Option<u32>,
    initiator: &IdentityPublic,
    initiator_ephemeral: &[u8],
) -> (r: Result<HandshakeSecret, Error>)
    ensures
        handshake_view(r) == spec_respond_from_storage(
            suite,
            identity@,
            signed_prekey@,
            old(storage).keys(),
            one_time_prekey_id,
            initiator@,
            initiator_ephemeral@,
        ).1,
        spec_left_in_storage(
            spec_respond_from_storage(
                suite,
                identity@,
                signed_prekey@,
                old(storage).keys(),
                one_time_prekey_id,
                initiator@,
                initiator_ephemeral@,
            ).0,
            old(storage).keys(),
            one_time_prekey_id,
            r.is_err(),
            final(storage).keys(),
        ),
        r.is_ok() || old(storage).never_refuses() ==> final(storage).keys()
            == spec_respond_from_storage(
            suite,
            identity@,
            signed_prekey@,
            old(storage).keys(),
            one_time_prekey_id,
            initiator@,
            initiator_ephemeral@,
        ).0,
        r matches Ok(secret) ==> secret@.shared_secret.len() == KEY_LEN,
{
    match one_time_prekey_id {
        None => respond(suite, identity, signed_prekey, None, initiator, initiator_ephemeral),
        Some(id) => {
            let mut key = match storage.take(id) {
                Some(key) => key,
                None => {
                    assert(storage.keys() =~= old(storage).keys());
                    return Err(Error::KeyRejected);
                },
            };
            let r = respond(
                suite,
                identity,
                signed_prekey,
                Some(key.as_slice()),
                initiator,
                initiator_ephemeral,
            );
            if r.is_ok() {
                aws_lc::zeroize(&mut key);
            } else {
                let stored = storage.put(id, key);
                if stored {
                    assert(storage.keys() =~= old(storage).keys());
                }
            }
            r
        },
    }
}

/// A forged bundle is rejected: where the signature of the bundle does not
/// verify under the identity that the bundle names, the initiator's
/// handshake fails with [`Error::SignatureInvalid`], whatever the keys
/// are, and gives no secret to start a session from.
pub proof fn lemma_forged_bundle_is_rejected(
    suite: Suite,
    signature: signature::Algorithm,
    identity: IdentityView,
    ephemeral: KeyPairView,
    bundle: BundleView,
)
    requires
        !bundle.is_authentic(signature),
    ensures
        spec_initiate(suite, signature, identity, ephemeral, bundle) == Err::<
            HandshakeView,
            Error,
        >(Error::SignatureInvalid),
{
}

/// A one-time prekey serves one handshake: after a handshake that used the
/// one-time prekey `id` has succeeded, every further handshake that names
/// the same one-time prekey fails with [`Error::KeyRejected`] and leaves
/// the storage as it is. The second handshake never sees the key.
pub proof fn lemma_one_time_prekey_serves_once(
    suite: Suite,
    identity: IdentityView,
    signed_prekey: KeyPairView,
    keys: Map<u32, Seq<u8>>,
    id: u32,
    first: IdentityPublicView,
    first_ephemeral: Seq<u8>,
    second: IdentityPublicView,
    second_ephemeral: Seq<u8>,
)
    requires
        spec_respond_from_storage(
            suite,
            identity,
            signed_prekey,
            keys,
            Some(id),
            first,
            first_ephemeral,
        ).1.is_ok(),
    ensures
        ({
            let after = spec_respond_from_storage(
                suite,
                identity,
                signed_prekey,
                keys,
                Some(id),
                first,
                first_ephemeral,
            ).0;
            &&& !after.contains_key(id)
            &&& spec_respond_from_storage(
                suite,
                identity,
                signed_prekey,
                after,
                Some(id),
                second,
                second_ephemeral,
            ) == (after, Err::<HandshakeView, Error>(Error::KeyRejected))
        }),
{
}

/// Both sides derive the same secret and the same associated data, given
/// that each of the four agreements gives both sides the same value, which
/// is what a Diffie-Hellman agreement is for: the two handshakes feed the
/// same values in the same order into the same derivation.
pub proof fn lemma_both_sides_agree(
    suite: Suite,
    signature: signature::Algorithm,
    initiator: IdentityView,
    ephemeral: KeyPairView,
    responder: IdentityView,
    signed_prekey: KeyPairView,
    one_time_prekey: Option<KeyPairView>,
    bundle: BundleView,
)
    requires
        bundle.is_authentic(signature),
        bundle.identity == responder.public(),
        bundle.signed_prekey_public == signed_prekey.public,
        bundle.one_time_prekey_public == match one_time_prekey {
            Some(pair) => Some(pair.public),
            None => None,
        },
        agreement::spec_agree(suite.agreement, initiator.agreement.private, signed_prekey.public)
            == agreement::spec_agree(
            suite.agreement,
            signed_prekey.private,
            initiator.agreement.public,
        ),
        agreement::spec_agree(suite.agreement, ephemeral.private, responder.agreement.public)
            == agreement::spec_agree(
            suite.agreement,
            responder.agreement.private,
            ephemeral.public,
        ),
        agreement::spec_agree(suite.agreement, ephemeral.private, signed_prekey.public)
            == agreement::spec_agree(suite.agreement, signed_prekey.private, ephemeral.public),
        one_time_prekey matches Some(pair) ==> agreement::spec_agree(
            suite.agreement,
            ephemeral.private,
            pair.public,
        ) == agreement::spec_agree(suite.agreement, pair.private, ephemeral.public),
    ensures
        spec_initiate(suite, signature, initiator, ephemeral, bundle) == spec_respond(
            suite,
            responder,
            signed_prekey,
            match one_time_prekey {
                Some(pair) => Some(pair.private),
                None => None,
            },
            initiator.public(),
            ephemeral.public,
        ),
{
}

} // verus!
