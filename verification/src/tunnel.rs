use vstd::prelude::*;
use crate::doubleratchet::kdf::MessageKey;
use crate::doubleratchet::session::key_view;
use crate::doubleratchet::session::Header;
use crate::doubleratchet::session::KeyPairView;
use crate::doubleratchet::session::RatchetKeyPair;
use crate::doubleratchet::session::RatchetSession;
use crate::doubleratchet::session::SessionView;
use crate::error::Error;

verus! {

/// Configuration for customizing tunnel behavior: the bounds of the cache
/// of skipped message keys.
#[derive(Debug, Clone, Copy, PartialEq, Eq, Structural)]
pub struct TunnelConfig {
    /// The largest number of skipped message keys that a session keeps.
    pub max_skipped_keys: usize,
    /// The largest number of ratchet generations of the peer whose skipped
    /// keys a session keeps.
    pub max_generations: usize,
}

impl Default for TunnelConfig {
    /// The usual bounds: 1000 skipped keys of 5 generations.
    fn default() -> (r: TunnelConfig)
        ensures
            r == (TunnelConfig { max_skipped_keys: 1000, max_generations: 5 }),
    {
        TunnelConfig { max_skipped_keys: 1000, max_generations: 5 }
    }
}

/// What a tunnel holds.
pub struct TunnelView {
    /// The state of the session.
    pub session: SessionView,
    /// The associated data of the handshake.
    pub associated_data: Seq<u8>,
}

/// Represents an encrypted tunnel between two peers: the session that a
/// handshake started, with the associated data that the handshake gave.
///
/// The tunnel hands out one message key for each message. Encrypting the
/// message under the key, with the associated data, is the work of the
/// layer above.
pub struct Tunnel {
    session: RatchetSession,
    associated_data: Vec<u8>,
}

impl View for Tunnel {
    type V = TunnelView;

    closed spec fn view(&self) -> TunnelView {
        TunnelView { session: self.session@, associated_data: self.associated_data@ }
    }
}

impl Tunnel {
    /// The tunnel of a session and the associated data of its handshake.
    pub fn new(session: RatchetSession, associated_data: Vec<u8>) -> (r: Tunnel)
        ensures
            r@ == (TunnelView { session: session@, associated_data: associated_data@ }),
    {
        Tunnel { session, associated_data }
    }

    /// The associated data of the handshake: the initiator's identity, then
    /// the responder's.
    pub fn associated_data(&self) -> (r: &[u8])
        ensures
            r@ == self@.associated_data,
    {
        self.associated_data.as_slice()
    }

    /// The session of the tunnel.
    pub fn session(&self) -> (r: &RatchetSession)
        ensures
            r@ == self@.session,
    {
        &self.session
    }

    /// Takes the session out of the tunnel.
    pub fn into_session(self) -> (r: RatchetSession)
        ensures
            r@ == self@.session,
    {
        self.session
    }

    /// Sends a message: returns its header and its message key, and
    /// advances the session's sending chain by one.
    pub fn encrypt(&mut self, plaintext: &[u8]) -> (r: (Header, MessageKey))
        requires
            old(self)@.session.wf(),
            old(self)@.session.sending_counter < u64::MAX,
        ensures
            (final(self)@.session, r.0@, r.1@) == old(self)@.session.encrypt(),
            final(self)@.associated_data == old(self)@.associated_data,
            final(self)@.session.wf(),
    {
        self.session.encrypt(plaintext)
    }

    /// Receives a message, with `fresh` as the new local ratchet key pair
    /// in case the header asks for a ratchet step: returns the message key.
    pub fn decrypt_with(&mut self, header: &Header, fresh: RatchetKeyPair) -> (r: Result<
        MessageKey,
        Error,
    >)
        requires
            old(self)@.session.wf(),
        ensures
            (final(self)@.session, key_view(r)) == old(self)@.session.decrypt(header@, fresh@),
            final(self)@.associated_data == old(self)@.associated_data,
            final(self)@.session.wf(),
    {
        self.session.decrypt_with(header, fresh)
    }

    /// Receives a message: returns the message key. A new local ratchet key
    /// pair, where the header asks for one, comes from the system's random
    /// source; where none could be generated, the error is that of the
    /// generation and the session stays as it is.
    pub fn decrypt(&mut self, header: &Header) -> (r: Result<MessageKey, Error>)
        requires
            old(self)@.session.wf(),
        ensures
            final(self)@.session.wf(),
            final(self)@.associated_data == old(self)@.associated_data,
            !old(self)@.session.needs_ratchet(header@) ==> (final(self)@.session, key_view(r))
                == old(self)@.session.decrypt(
                header@,
                KeyPairView { private: Seq::empty(), public: Seq::empty() },
            ),
            old(self)@.session.needs_ratchet(header@) ==> (r matches Err(e) && (e
                == Error::Unspecified || e == Error::KeyRejected || e
                == Error::UnsupportedAgreementAlgorithm) && final(self)@.session == old(
                self,
            )@.session) || (exists|fresh: KeyPairView|
                (final(self)@.session, key_view(r)) == #[trigger] old(self)@.session.decrypt(
                    header@,
                    fresh,
                )),
    {
        self.session.decrypt(header)
    }
}

} // verus!
