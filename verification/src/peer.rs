use vstd::prelude::*;
use crate::doubleratchet::kdf::Suite;
use crate::doubleratchet::session::spec_init_initiator;
use crate::doubleratchet::session::spec_init_responder;
use crate::doubleratchet::session::KeyPairView;
use crate::doubleratchet::session::RatchetKeyPair;
use crate::doubleratchet::session::RatchetSession;
use crate::ec::signature;
use crate::error::Error;
use crate::tunnel::Tunnel;
use crate::tunnel::TunnelConfig;
use crate::tunnel::TunnelView;
use crate::x3dh::handshake::initiate;
use crate::x3dh::handshake::respond;
use crate::x3dh::handshake::spec_initiate;
use crate::x3dh::handshake::spec_left_in_storage;
use crate::x3dh::handshake::spec_respond_from_storage;
use crate::x3dh::handshake::BundleView;
use crate::x3dh::handshake::IdentityKeyPair;
use crate::x3dh::handshake::IdentityPublic;
use crate::x3dh::handshake::IdentityPublicView;
use crate::x3dh::handshake::IdentityView;
use crate::x3dh::handshake::PeerPreKeyBundle;
use crate::x3dh::storage::KeyStorage;

verus! {

/// Public configuration of a peer used during handshake: the algorithms
/// that were settled on and the bounds of a tunnel.
#[derive(Debug, Clone, Copy, PartialEq, Eq, Structural)]
pub struct PeerConfig {
    /// The key agreement and the key derivation.
    pub suite: Suite,
    /// The signature algorithm of the identity keys.
    pub signature: signature::Algorithm,
    /// The bounds of a tunnel.
    pub tunnel: TunnelConfig,
}

/// What a peer holds.
pub struct PeerView {
    /// The identity of the peer.
    pub identity: IdentityView,
    /// The configuration of the peer.
    pub config: PeerConfig,
}

/// Represents a local cryptographic peer for establishing secure tunnels.
pub struct Peer {
    identity: IdentityKeyPair,
    config: PeerConfig,
}

impl View for Peer {
    type V = PeerView;

    closed spec fn view(&self) -> PeerView {
        PeerView { identity: self.identity@, config: self.config }
    }
}

/// The view of an outcome that holds a tunnel.
pub open spec fn tunnel_view(r: Result<Tunnel, Error>) -> Result<TunnelView, Error> {
    match r {
        Ok(tunnel) => Ok(tunnel@),
        Err(e) => Err(e),
    }
}

/// The tunnel that the initiator's handshake gives: the session starts from
/// the shared secret, with the ephemeral key pair of the handshake as the
/// first ratchet key pair and the responder's signed prekey as the peer's
/// ratchet key. Where the handshake fails, or the session cannot start,
/// there is no tunnel.
pub open spec fn spec_handshake_3xdh(peer: PeerView, bundle: BundleView, ephemeral: KeyPairView)
    -> Result<TunnelView, Error> {
    match spec_initiate(peer.config.suite, peer.config.signature, peer.identity, ephemeral, bundle) {
        Err(e) => Err(e),
        Ok(secret) => match spec_init_initiator(
            peer.config.suite,
            secret.shared_secret,
            ephemeral,
            bundle.signed_prekey_public,
            peer.config.tunnel.max_skipped_keys,
            peer.config.tunnel.max_generations,
        ) {
            Err(e) => Err(e),
            Ok(session) => Ok(TunnelView { session, associated_data: secret.associated_data }),
        },
    }
}

/// The storage and the tunnel that the responder's handshake gives: the
/// session starts from the shared secret, with the signed prekey as the
/// responder's published ratchet key, the initiator's ephemeral key as the
/// peer's ratchet key and `fresh` as the responder's first ratchet key pair
/// of its own.
///
/// Only a handshake that succeeds consumes the one-time prekey: where the
/// secret is not derived or the session does not start, the storage is as
/// before.
pub open spec fn spec_accept_3xdh(
    peer: PeerView,
    signed_prekey: KeyPairView,
    keys: Map<u32, Seq<u8>>,
    one_time_prekey_id: Option<u32>,
    initiator: IdentityPublicView,
    initiator_ephemeral: Seq<u8>,
    fresh: KeyPairView,
) -> (Map<u32, Seq<u8>>, Result<TunnelView, Error>) {
    let (after, secret) = spec_respond_from_storage(
        peer.config.suite,
        peer.identity,
        signed_prekey,
        keys,
        one_time_prekey_id,
        initiator,
        initiator_ephemeral,
    );
    match secret {
        Err(e) => (keys, Err(e)),
        Ok(secret) => match spec_init_responder(
            peer.config.suite,
            secret.shared_secret,
            signed_prekey,
            initiator_ephemeral,
            fresh,
            peer.config.tunnel.max_skipped_keys,
            peer.config.tunnel.max_generations,
        ) {
            Err(e) => (keys, Err(e)),
            Ok(session) => (
                after,
                Ok(TunnelView { session, associated_data: secret.associated_data }),
            ),
        },
    }
}

impl Peer {
    /// A peer with its identity and its configuration.
    pub fn new(identity: IdentityKeyPair, config: PeerConfig) -> (r: Peer)
        ensures
            r@ == (PeerView { identity: identity@, config }),
    {
        Peer { identity, config }
    }

    /// The public part of the peer's identity.
    pub fn identity(&self) -> (r: IdentityPublic)
        ensures
            r@ == self@.identity.public(),
    {
        self.identity.public()
    }

    /// The configuration of the peer.
    pub fn config(&self) -> (r: PeerConfig)
        ensures
            r == self@.config,
    {
        self.config
    }

    /// Performs a handshake using the `3xdh` key agreement protocol as the
    /// initiator, with `ephemeral` as the ephemeral key pair of this
    /// attempt.
    ///
    /// The bundle is consumed: it serves this one handshake. The public
    /// part of `ephemeral` goes to the responder with the first message. A
    /// bundle with a forged signature fails with
    /// [`Error::SignatureInvalid`] and gives no tunnel.
    pub fn handshake_3xdh_with(&self, key_bundle: PeerPreKeyBundle, ephemeral: RatchetKeyPair)
        -> (r: Result<Tunnel, Error>)
        ensures
            tunnel_view(r) == spec_handshake_3xdh(self@, key_bundle@, ephemeral@),
            r matches Ok(tunnel) ==> tunnel@.session.wf(),
    {
        let secret = match initiate(
            self.config.suite,
            self.config.signature,
            &self.identity,
            &ephemeral,
            &key_bundle,
        ) {
            Ok(secret) => secret,
            Err(e) => { return Err(e); },
        };
        let session = match RatchetSession::init_initiator(
            self.config.suite,
            secret.shared_secret(),
            ephemeral,
            key_bundle.signed_prekey_public.as_slice(),
            self.config.tunnel.max_skipped_keys,
            self.config.tunnel.max_generations,
        ) {
            Ok(session) => session,
            Err(e) => {
                let _ = secret.into_associated_data();
                return Err(e);
            },
        };
        Ok(Tunnel::new(session, secret.into_associated_data()))
    }

    /// Performs a handshake using the `3xdh` key agreement protocol as the
    /// initiator, with a new ephemeral key pair from the system's random
    /// source.
    ///
    /// The bundle is consumed: it serves this one handshake. A bundle with
    /// a forged signature fails with [`Error::SignatureInvalid`] before any
    /// key is generated. Otherwise,
    /// whatever key pair was generated, the outcome, a tunnel or an error,
    /// is the one that [`Peer::handshake_3xdh_with`] makes of it; where no
    /// key pair could be generated, the error is that of the random source,
    /// of a key that the backend rejects, or of an algorithm that it does
    /// not implement.
    pub fn handshake_3xdh(&self, key_bundle: PeerPreKeyBundle) -> (r: Result<Tunnel, Error>)
        ensures
            r matches Ok(tunnel) ==> tunnel@.session.wf(),
            r matches Ok(tunnel) ==> exists|ephemeral: KeyPairView|
                Ok::<TunnelView, Error>(tunnel@) == #[trigger] spec_handshake_3xdh(
                    self@,
                    key_bundle@,
                    ephemeral,
                ),
            !key_bundle@.is_authentic(self@.config.signature) ==> (r matches Err(e) && e
                == Error::SignatureInvalid),
            key_bundle@.is_authentic(self@.config.signature) ==> (exists|ephemeral: KeyPairView|
                tunnel_view(r) == #[trigger] spec_handshake_3xdh(self@, key_bundle@, ephemeral))
                || (r matches Err(e) && (e == Error::Unspecified || e == Error::KeyRejected || e
                == Error::UnsupportedAgreementAlgorithm)),
            key_bundle@.is_authentic(self@.config.signature)
                && !self@.config.suite.agreement.spec_is_supported() ==> (r matches Err(e) && e
                == Error::UnsupportedAgreementAlgorithm),
    {
        if !key_bundle.is_authentic(self.config.signature) {
            return Err(Error::SignatureInvalid);
        }
        let ephemeral = match RatchetKeyPair::generate(self.config.suite.agreement) {
            Ok(pair) => pair,
            Err(e) => { return Err(e); },
        };
        let ghost made = ephemeral@;
        let ghost bundle = key_bundle@;
        let r = self.handshake_3xdh_with(key_bundle, ephemeral);
        assert(tunnel_view(r) == spec_handshake_3xdh(self@, bundle, made));
        r
    }

    /// Performs a handshake using the `3xdh` key agreement protocol as the
    /// responder, with `fresh` as the first ratchet key pair of its own.
    ///
    /// The one-time prekey that the initiator names is taken out of the
    /// storage first, in the one step that the storage offers for it, so
    /// that no second handshake is served by it, however the storage is
    /// shared. Where the secret is not derived or the session does not
    /// start, the key is put back: a handshake that fails leaves the
    /// storage as it is, unless the storage refuses the key.
    pub fn accept_3xdh_with<S: KeyStorage>(
        &self,
        signed_prekey: &RatchetKeyPair,
        storage: &mut S,
        one_time_prekey_id: Option<u32>,
        initiator: &IdentityPublic,
        initiator_ephemeral: &[u8],
        fresh: RatchetKeyPair,
    ) -> (r: Result<Tunnel, Error>)
        ensures
            tunnel_view(r) == spec_accept_3xdh(
                self@,
                signed_prekey@,
                old(storage).keys(),
                one_time_prekey_id,
                initiator@,
                initiator_ephemeral@,
                fresh@,
            ).1,
            spec_left_in_storage(
                spec_accept_3xdh(
                    self@,
                    signed_prekey@,
                    old(storage).keys(),
                    one_time_prekey_id,
                    initiator@,
                    initiator_ephemeral@,
                    fresh@,
                ).0,
                old(storage).keys(),
                one_time_prekey_id,
                r.is_err(),
                final(storage).keys(),
            ),
            r.is_ok() || old(storage).never_refuses() ==> final(storage).keys()
                == spec_accept_3xdh(
                self@,
                signed_prekey@,
                old(storage).keys(),
                one_time_prekey_id,
                initiator@,
                initiator_ephemeral@,
                fresh@,
            ).0,
            r matches Ok(tunnel) ==> tunnel@.session.wf(),
    {
        let mut one_time_prekey = match one_time_prekey_id {
            None => None,
            Some(id) => match storage.take(id) {
                Some(key) => Some(key),
                None => {
                    assert(storage.keys() =~= old(storage).keys());
                    return Err(Error::KeyRejected);
                },
            },
        };
        let responded = match &one_time_prekey {
            Some(key) => respond(
                self.config.suite,
                &self.identity,
                signed_prekey,
                Some(key.as_slice()),
                initiator,
                initiator_ephemeral,
            ),
            None => respond(
                self.config.suite,
                &self.identity,
                signed_prekey,
                None,
                initiator,
                initiator_ephemeral,
            ),
        };
        let secret = match responded {
            Ok(secret) => secret,
            Err(e) => {
                let stored = Peer::put_back(storage, one_time_prekey_id, one_time_prekey);
                assert(stored ==> storage.keys() =~= old(storage).keys());
                return Err(e);
            },
        };
        let session = match RatchetSession::init_responder_with(
            self.config.suite,
            secret.shared_secret(),
            signed_prekey,
            initiator_ephemeral,
            fresh,
            self.config.tunnel.max_skipped_keys,
            self.config.tunnel.max_generations,
        ) {
            Ok(session) => session,
            Err(e) => {
                let _ = secret.into_associated_data();
                let stored = Peer::put_back(storage, one_time_prekey_id, one_time_prekey);
                assert(stored ==> storage.keys() =~= old(storage).keys());
                return Err(e);
            },
        };
        match &mut one_time_prekey {
            Some(key) => crate::aws_lc::zeroize(key),
            None => {},
        }
        Ok(Tunnel::new(session, secret.into_associated_data()))
    }

    /// Puts the one-time prekey of a handshake that failed back where it
    /// was taken from.
    fn put_back<S: KeyStorage>(storage: &mut S, id: Option<u32>, key: Option<Vec<u8>>) -> (stored:
        bool)
        ensures
            match (id, key) {
                (Some(id), Some(key)) => if stored {
                    final(storage).keys() == old(storage).keys().insert(id, key@)
                } else {
                    final(storage).keys() == old(storage).keys() && !old(
                        storage,
                    ).never_refuses()
                },
                _ => final(storage).keys() == old(storage).keys(),
            },
    {
        match (id, key) {
            (Some(id), Some(key)) => storage.put(id, key),
            _ => false,
        }
    }
}

/// A forged bundle gives no tunnel: the session is never started.
pub proof fn lemma_forged_bundle_gives_no_tunnel(
    peer: PeerView,
    bundle: BundleView,
    ephemeral: KeyPairView,
)
    requires
        !bundle.is_authentic(peer.config.signature),
    ensures
        spec_handshake_3xdh(peer, bundle, ephemeral) == Err::<TunnelView, Error>(
            Error::SignatureInvalid,
        ),
{
}

} // verus!
