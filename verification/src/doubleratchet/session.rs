use vstd::prelude::*;
use crate::aws_lc;
use crate::bytes;
use crate::doubleratchet::cache::CacheView;
use crate::doubleratchet::cache::EntryView;
use crate::doubleratchet::cache::Expired;
use crate::doubleratchet::cache::GenerationView;
use crate::doubleratchet::cache::Generation;
use crate::doubleratchet::cache::SkippedKeyEntry;
use crate::doubleratchet::cache::SkippedKeys;
use crate::doubleratchet::kdf::derive_message_key;
use crate::doubleratchet::order::lemma_decrypt_keeps_order;
use crate::doubleratchet::order::lemma_ratchet_keeps_order;
use crate::doubleratchet::order::lemma_receive_keeps_order;
use crate::doubleratchet::kdf::derive_root_key;
use crate::doubleratchet::kdf::spec_message_key;
use crate::doubleratchet::kdf::spec_new_chain_key;
use crate::doubleratchet::kdf::spec_next_chain_key;
use crate::doubleratchet::kdf::spec_next_root_key;
use crate::doubleratchet::kdf::MessageKey;
use crate::doubleratchet::kdf::Suite;
use crate::doubleratchet::kdf::KEY_LEN;
use crate::doubleratchet::stored::countable;
use crate::doubleratchet::stored::entry_tokens;
use crate::doubleratchet::stored::expired_shape;
use crate::doubleratchet::stored::expired_start;
use crate::doubleratchet::stored::expired_tokens;
use crate::doubleratchet::stored::fits;
use crate::doubleratchet::stored::generation_tokens;
use crate::doubleratchet::stored::header_tokens;
use crate::doubleratchet::stored::lemma_decode_by_tokens;
use crate::doubleratchet::stored::entry_shape;
use crate::doubleratchet::stored::generation_shape;
use crate::doubleratchet::stored::lemma_candidate_tokens;
use crate::doubleratchet::stored::lemma_stored_shape;
use crate::doubleratchet::stored::lemma_tokens_determine_session;
use crate::doubleratchet::stored::stored_shape;
use crate::doubleratchet::stored::session_tokens;
use crate::doubleratchet::stored::spec_decode;
use crate::doubleratchet::stored::spec_encode;
use crate::doubleratchet::stored::MAGIC;
use crate::doubleratchet::wire::bytes_at;
use crate::doubleratchet::wire::encode_tokens;
use crate::doubleratchet::wire::number_at;
use crate::doubleratchet::wire::read_tokens;
use crate::doubleratchet::wire::lemma_encode_decoded_tokens;
use crate::doubleratchet::wire::token_views;
use crate::doubleratchet::wire::Token;
use crate::doubleratchet::wire::TokenView;
use crate::ec::agreement;
use crate::error::Error;
use crate::hkdf;

verus! {

/// What a ratchet key pair holds.
pub struct KeyPairView {
    /// The raw private key.
    pub private: Seq<u8>,
    /// The raw public key.
    pub public: Seq<u8>,
}

/// An ephemeral agreement key pair. The sender makes a new one whenever it
/// starts a new sending chain, and its public part is in the header of
/// every message of that chain.
pub struct RatchetKeyPair {
    private: Vec<u8>,
    public: Vec<u8>,
}

impl Drop for RatchetKeyPair {
    /// Overwrites the private key with zeros when it is dropped.
    fn drop(&mut self)
        opens_invariants none
        no_unwind
    {
        aws_lc::zeroize(&mut self.private);
    }
}

impl View for RatchetKeyPair {
    type V = KeyPairView;

    closed spec fn view(&self) -> KeyPairView {
        KeyPairView { private: self.private@, public: self.public@ }
    }
}

impl RatchetKeyPair {
    /// A key pair of the given raw keys. Nothing checks that they belong
    /// together.
    pub fn new(private: Vec<u8>, public: Vec<u8>) -> (r: RatchetKeyPair)
        ensures
            r@ == (KeyPairView { private: private@, public: public@ }),
    {
        RatchetKeyPair { private, public }
    }

    /// The key pair of a raw private key: the public key is computed.
    pub fn from_private(algorithm: agreement::Algorithm, private: Vec<u8>) -> (r: Result<
        RatchetKeyPair,
        Error,
    >)
        ensures
            match r {
                Ok(pair) => pair@.private == private@ && agreement::spec_public_key(
                    algorithm,
                    private@,
                ) == Ok::<Seq<u8>, Error>(pair@.public),
                Err(e) => agreement::spec_public_key(algorithm, private@) == Err::<
                    Seq<u8>,
                    Error,
                >(e),
            },
            algorithm.spec_is_supported() ==> (r matches Err(e) ==> e == Error::KeyRejected || e
                == Error::Unspecified),
    {
        match agreement::compute_public_key(algorithm, private.as_slice()) {
            Ok(public) => Ok(RatchetKeyPair { private, public }),
            Err(e) => Err(e),
        }
    }

    /// A new key pair from the system's random source.
    ///
    /// Nothing is known of the key but that its public part belongs to its
    /// private part. The pair is what [`RatchetKeyPair::from_private`] makes
    /// of the private key that was generated. Fails with
    /// [`Error::UnsupportedAgreementAlgorithm`] exactly where the backend
    /// does not implement the algorithm; with an algorithm that it
    /// implements, a failure is that of the random source or of a key that
    /// the backend rejects.
    pub fn generate(algorithm: agreement::Algorithm) -> (r: Result<RatchetKeyPair, Error>)
        ensures
            r matches Ok(pair) ==> agreement::spec_public_key(algorithm, pair@.private) == Ok::<
                Seq<u8>,
                Error,
            >(pair@.public),
            !algorithm.spec_is_supported() ==> (r matches Err(e) && e
                == Error::UnsupportedAgreementAlgorithm),
            algorithm.spec_is_supported() ==> (r matches Err(e) ==> e == Error::Unspecified || e
                == Error::KeyRejected),
    {
        match agreement::generate_private_key(algorithm) {
            Ok(private) => RatchetKeyPair::from_private(algorithm, private),
            Err(e) => Err(e),
        }
    }

    /// The raw private key.
    pub fn private(&self) -> (r: &[u8])
        ensures
            r@ == self@.private,
    {
        self.private.as_slice()
    }

    /// The raw public key.
    pub fn public(&self) -> (r: &[u8])
        ensures
            r@ == self@.public,
    {
        self.public.as_slice()
    }

    /// Overwrites the private key with zeros and empties the pair.
    pub fn erase(&mut self)
        ensures
            final(self)@ == (KeyPairView {
                private: Seq::<u8>::empty(),
                public: Seq::<u8>::empty(),
            }),
    {
        aws_lc::zeroize(&mut self.private);
        aws_lc::zeroize(&mut self.public);
    }
}

/// What a header holds.
pub struct HeaderView {
    /// The sender's current ratchet public key.
    pub ratchet_public: Seq<u8>,
    /// The number of messages in the sender's previous sending chain.
    pub previous_chain_length: u64,
    /// The number of the message in its chain, from zero.
    pub counter: u64,
}

/// The fields of a message that the ratchet needs. How they are written on
/// the wire is the transport's affair.
#[derive(Debug)]
pub struct Header {
    /// The sender's current ratchet public key.
    pub ratchet_public: Vec<u8>,
    /// The number of messages in the sender's previous sending chain.
    pub previous_chain_length: u64,
    /// The number of the message in its chain, from zero.
    pub counter: u64,
}

impl View for Header {
    type V = HeaderView;

    open spec fn view(&self) -> HeaderView {
        HeaderView {
            ratchet_public: self.ratchet_public@,
            previous_chain_length: self.previous_chain_length,
            counter: self.counter,
        }
    }
}

/// The chain key and the cache after the chain advanced from the message
/// `from` up to, not including, the message `until`, every message key on
/// the way cached under the ratchet key.
pub open spec fn spec_skip(
    hkdf: hkdf::Algorithm,
    chain: Seq<u8>,
    from: u64,
    until: u64,
    ratchet_public: Seq<u8>,
    cache: CacheView,
) -> (Seq<u8>, CacheView)
    decreases until - from,
{
    if from >= until {
        (chain, cache)
    } else {
        spec_skip(
            hkdf,
            spec_next_chain_key(hkdf, chain),
            (from + 1) as u64,
            until,
            ratchet_public,
            cache.store(
                EntryView {
                    ratchet_public,
                    counter: from,
                    message_key: spec_message_key(hkdf, chain),
                },
            ),
        )
    }
}

/// The state of a session.
pub struct SessionView {
    /// The algorithms of the session.
    pub suite: Suite,
    /// The root key.
    pub root_key: Seq<u8>,
    /// The local ratchet key pair.
    pub ratchet: KeyPairView,
    /// The chain key of the sending chain.
    pub sending_chain: Seq<u8>,
    /// The number of messages sent in the sending chain.
    pub sending_counter: u64,
    /// The number of messages that were sent in the sending chain before it.
    pub previous_sending_chain_length: u64,
    /// The chain key of the receiving chain, once the peer has sent under
    /// its current ratchet key.
    pub receiving_chain: Option<Seq<u8>>,
    /// The number of the next message of the receiving chain whose key was
    /// not derived yet.
    pub receiving_counter: u64,
    /// The skipped keys and the peer's ratchet generations, the current one
    /// last.
    pub cache: CacheView,
}

impl SessionView {
    /// The cache keeps its bounds, and the peer's current ratchet key is
    /// known.
    pub open spec fn bounded(self) -> bool {
        &&& self.cache.wf()
        &&& self.cache.generations.len() >= 1
    }

    /// The cache is in order for the receiving chain as far as it has
    /// advanced: see [`CacheView::in_order`].
    ///
    /// A session starts in order, and sending and receiving keep it so.
    pub open spec fn in_order(self) -> bool {
        self.cache.in_order(self.receiving_counter)
    }

    /// The session is valid: the keys have their length, the cache keeps its
    /// bounds and is in order, and the peer's current ratchet key is known.
    pub open spec fn wf(self) -> bool {
        &&& self.root_key.len() == KEY_LEN
        &&& self.sending_chain.len() == KEY_LEN
        &&& (self.receiving_chain matches Some(chain) ==> chain.len() == KEY_LEN)
        &&& self.bounded()
        &&& self.in_order()
    }

    /// The peer's current ratchet public key.
    pub open spec fn peer_ratchet_public(self) -> Seq<u8> {
        self.cache.generations.last().ratchet_public
    }

    /// The header of the next message to send.
    pub open spec fn next_header(self) -> HeaderView {
        HeaderView {
            ratchet_public: self.ratchet.public,
            previous_chain_length: self.previous_sending_chain_length,
            counter: self.sending_counter,
        }
    }

    /// Sending a message: the sending chain advances by one, and nothing
    /// else changes. Gives the state after, the header and the message key.
    pub open spec fn encrypt(self) -> (SessionView, HeaderView, Seq<u8>) {
        (
            SessionView {
                sending_chain: spec_next_chain_key(self.suite.hkdf, self.sending_chain),
                sending_counter: (self.sending_counter + 1) as u64,
                ..self
            },
            self.next_header(),
            spec_message_key(self.suite.hkdf, self.sending_chain),
        )
    }

    /// Receiving the message `counter` of the current receiving chain, which
    /// has not advanced past it: the chain advances up to and including the
    /// message, and every key on the way but the one of the message is
    /// cached. Gives the state after and the message key.
    pub open spec fn receive(self, counter: u64) -> (SessionView, Seq<u8>) {
        let (chain, cache) = spec_skip(
            self.suite.hkdf,
            self.receiving_chain.unwrap(),
            self.receiving_counter,
            counter,
            self.peer_ratchet_public(),
            self.cache,
        );
        (
            SessionView {
                receiving_chain: Some(spec_next_chain_key(self.suite.hkdf, chain)),
                receiving_counter: (counter + 1) as u64,
                cache,
                ..self
            },
            spec_message_key(self.suite.hkdf, chain),
        )
    }

    /// The length of the receiving chain when a ratchet step closes it:
    /// the length that the peer's header gives for it, or as far as it has
    /// advanced, if that is further. Without a receiving chain it is where
    /// the counter stands.
    pub open spec fn closed_length(self, previous_chain_length: u64) -> u64 {
        if self.receiving_chain.is_some() && self.receiving_counter <= previous_chain_length {
            previous_chain_length
        } else {
            self.receiving_counter
        }
    }

    /// The cache after the receiving chain, if there is one, advanced to the
    /// length that the peer's header gives for it.
    pub open spec fn skip_to_length(self, previous_chain_length: u64) -> CacheView {
        match self.receiving_chain {
            Some(chain) => spec_skip(
                self.suite.hkdf,
                chain,
                self.receiving_counter,
                previous_chain_length,
                self.peer_ratchet_public(),
                self.cache,
            ).1,
            None => self.cache,
        }
    }

    /// The cache after the receiving chain was closed: it advanced to the
    /// length that the peer's header gives for it, and the keys of all
    /// later messages of its generation are lost for good.
    pub open spec fn close_receiving_chain(self, previous_chain_length: u64) -> CacheView {
        self.skip_to_length(previous_chain_length).close(
            self.closed_length(previous_chain_length),
        )
    }

    /// The Diffie-Hellman ratchet step for a header with a new ratchet key
    /// of the peer, with `fresh` as the new local ratchet key pair.
    ///
    /// The keys that the peer's previous chain still owes are cached, and
    /// the chain is closed: no key of a later message of it will be
    /// derived. The peer's new ratchet key opens a generation, and the
    /// oldest generation leaves the bound if that exceeds it. The root key
    /// gives a new receiving chain with the local ratchet key, then a new
    /// sending chain with the fresh one; both counters start again. Where
    /// an agreement fails there is no step.
    pub open spec fn ratchet(self, header: HeaderView, fresh: KeyPairView) -> Result<
        SessionView,
        Error,
    > {
        let agreement = self.suite.agreement;
        let hkdf = self.suite.hkdf;
        match agreement::spec_agree(agreement, self.ratchet.private, header.ratchet_public) {
            Err(e) => Err(e),
            Ok(received) => match agreement::spec_agree(
                agreement,
                fresh.private,
                header.ratchet_public,
            ) {
                Err(e) => Err(e),
                Ok(sent) => {
                    let root = spec_next_root_key(hkdf, self.root_key, received);
                    Ok(
                        SessionView {
                            suite: self.suite,
                            root_key: spec_next_root_key(hkdf, root, sent),
                            ratchet: fresh,
                            sending_chain: spec_new_chain_key(hkdf, root, sent),
                            sending_counter: 0,
                            previous_sending_chain_length: self.sending_counter,
                            receiving_chain: Some(
                                spec_new_chain_key(hkdf, self.root_key, received),
                            ),
                            receiving_counter: 0,
                            cache: self.close_receiving_chain(
                                header.previous_chain_length,
                            ).open_generation(header.ratchet_public),
                        },
                    )
                },
            },
        }
    }

    /// Whether a header asks for a Diffie-Hellman ratchet step: its key is
    /// not cached, and its ratchet key is that of no generation that the
    /// session has seen, however long ago.
    pub open spec fn needs_ratchet(self, header: HeaderView) -> bool {
        &&& self.cache.position(header.ratchet_public, header.counter).is_none()
        &&& !self.cache.knows(header.ratchet_public)
        &&& header.counter < u64::MAX
    }

    /// Receiving a message, with `fresh` as the new local ratchet key pair
    /// in case the header asks for a ratchet step. Gives the state after
    /// and the message key or the error.
    ///
    /// - A cached key is taken out of the cache and returned.
    /// - A message of the current chain that the chain has not passed
    ///   advances the chain.
    /// - Any other message of a generation that the session has seen,
    ///   however long ago, is lost, and the state stays as it is: its key
    ///   was used, which is [`Error::DuplicateMessage`], or it was evicted
    ///   or can never be derived, which is [`Error::MessageKeyExpired`].
    /// - A message under a new ratchet key makes a ratchet step first; where
    ///   the step fails, the state stays as it is.
    pub open spec fn decrypt(self, header: HeaderView, fresh: KeyPairView) -> (
        SessionView,
        Result<Seq<u8>, Error>,
    ) {
        match self.cache.position(header.ratchet_public, header.counter) {
            Some(i) => (
                SessionView { cache: self.cache.consume(i), ..self },
                Ok(self.cache.entries[i].message_key),
            ),
            None => if self.cache.is_current(header.ratchet_public) {
                if self.receiving_chain.is_some() && self.receiving_counter <= header.counter
                    < u64::MAX {
                    let (after, key) = self.receive(header.counter);
                    (after, Ok(key))
                } else if header.counter < self.receiving_counter {
                    (self, Err(self.cache.miss(header.ratchet_public, header.counter)))
                } else {
                    (self, Err(Error::MessageKeyExpired))
                }
            } else if self.cache.knows(header.ratchet_public) {
                (self, Err(self.cache.miss(header.ratchet_public, header.counter)))
            } else if header.counter == u64::MAX {
                (self, Err(Error::MessageKeyExpired))
            } else {
                match self.ratchet(header, fresh) {
                    Err(e) => (self, Err(e)),
                    Ok(stepped) => {
                        let (after, key) = stepped.receive(header.counter);
                        (after, Ok(key))
                    },
                }
            },
        }
    }
}

/// The session that the initiator of a handshake starts with.
///
/// The shared secret of the handshake and the agreement of the local
/// ratchet key with the peer's ratchet key give the root key and the
/// sending chain. There is no receiving chain until the peer replies under
/// a ratchet key of its own.
pub open spec fn spec_init_initiator(
    suite: Suite,
    shared_secret: Seq<u8>,
    ratchet: KeyPairView,
    peer_ratchet_public: Seq<u8>,
    max_entries: usize,
    max_generations: usize,
) -> Result<SessionView, Error> {
    match agreement::spec_agree(suite.agreement, ratchet.private, peer_ratchet_public) {
        Err(e) => Err(e),
        Ok(dh) => Ok(
            SessionView {
                suite,
                root_key: spec_next_root_key(suite.hkdf, shared_secret, dh),
                ratchet,
                sending_chain: spec_new_chain_key(suite.hkdf, shared_secret, dh),
                sending_counter: 0,
                previous_sending_chain_length: 0,
                receiving_chain: None,
                receiving_counter: 0,
                cache: CacheView {
                    entries: Seq::empty(),
                    expired: Seq::empty(),
                    generations: seq![
                        GenerationView { ratchet_public: peer_ratchet_public },
                    ],
                    max_entries,
                    max_generations: if max_generations == 0 {
                        1usize
                    } else {
                        max_generations
                    },
                },
            },
        ),
    }
}

/// The session that the responder of a handshake starts with.
///
/// The shared secret of the handshake is the first root key. The agreement
/// of the responder's own ratchet key with the initiator's gives the
/// receiving chain, which is the initiator's sending chain; the agreement
/// of a fresh ratchet key with the initiator's gives the sending chain.
pub open spec fn spec_init_responder(
    suite: Suite,
    shared_secret: Seq<u8>,
    own: KeyPairView,
    peer_ratchet_public: Seq<u8>,
    fresh: KeyPairView,
    max_entries: usize,
    max_generations: usize,
) -> Result<SessionView, Error> {
    match agreement::spec_agree(suite.agreement, own.private, peer_ratchet_public) {
        Err(e) => Err(e),
        Ok(received) => match agreement::spec_agree(
            suite.agreement,
            fresh.private,
            peer_ratchet_public,
        ) {
            Err(e) => Err(e),
            Ok(sent) => {
                let root = spec_next_root_key(suite.hkdf, shared_secret, received);
                Ok(
                    SessionView {
                        suite,
                        root_key: spec_next_root_key(suite.hkdf, root, sent),
                        ratchet: fresh,
                        sending_chain: spec_new_chain_key(suite.hkdf, root, sent),
                        sending_counter: 0,
                        previous_sending_chain_length: 0,
                        receiving_chain: Some(
                            spec_new_chain_key(suite.hkdf, shared_secret, received),
                        ),
                        receiving_counter: 0,
                        cache: CacheView {
                            entries: Seq::empty(),
                            expired: Seq::empty(),
                            generations: seq![
                                GenerationView { ratchet_public: peer_ratchet_public },
                            ],
                            max_entries,
                            max_generations: if max_generations == 0 {
                                1usize
                            } else {
                                max_generations
                            },
                        },
                    },
                )
            },
        },
    }
}

/// The view of an outcome that holds a message key.
pub open spec fn key_view(r: Result<MessageKey, Error>) -> Result<Seq<u8>, Error> {
    match r {
        Ok(key) => Ok(key@),
        Err(e) => Err(e),
    }
}

/// The view of an outcome that holds a session.
pub open spec fn session_view(r: Result<RatchetSession, Error>) -> Result<SessionView, Error> {
    match r {
        Ok(session) => Ok(session@),
        Err(e) => Err(e),
    }
}

/// Advances a chain from the message `from` up to, not including, the
/// message `until`, and caches every message key on the way under the
/// ratchet key. Returns the chain key of the message `until`.
pub fn skip_keys(
    cache: &mut SkippedKeys,
    hkdf: hkdf::Algorithm,
    chain: Vec<u8>,
    from: u64,
    until: u64,
    ratchet_public: &[u8],
) -> (r: Vec<u8>)
    requires
        old(cache)@.wf(),
        chain@.len() == KEY_LEN,
    ensures
        (r@, final(cache)@) == spec_skip(hkdf, chain@, from, until, ratchet_public@, old(cache)@),
        final(cache)@.wf(),
        final(cache)@.generations.len() == old(cache)@.generations.len(),
        final(cache)@.max_entries == old(cache)@.max_entries,
        final(cache)@.max_generations == old(cache)@.max_generations,
        r@.len() == KEY_LEN,
{
    let mut chain = chain;
    let mut i = from;
    let ghost first = chain@;
    while i < until
        invariant
            cache@.wf(),
            chain@.len() == KEY_LEN,
            cache@.generations.len() == old(cache)@.generations.len(),
            cache@.max_entries == old(cache)@.max_entries,
            cache@.max_generations == old(cache)@.max_generations,
            spec_skip(hkdf, chain@, i, until, ratchet_public@, cache@) == spec_skip(
                hkdf,
                first,
                from,
                until,
                ratchet_public@,
                old(cache)@,
            ),
        decreases until - i,
    {
        let (message_key, next) = derive_message_key(hkdf, chain.as_slice());
        cache.store(ratchet_public, i, message_key.into_bytes());
        aws_lc::zeroize(&mut chain);
        chain = next;
        i += 1;
    }
    chain
}

/// The state of one side of a Double Ratchet session.
///
/// A session is made once by a handshake and changed by every message sent
/// or received. It must not be used from two places at once.
pub struct RatchetSession {
    suite: Suite,
    root_key: Vec<u8>,
    ratchet: RatchetKeyPair,
    sending_chain: Vec<u8>,
    sending_counter: u64,
    previous_sending_chain_length: u64,
    receiving_chain: Option<Vec<u8>>,
    receiving_counter: u64,
    skipped: SkippedKeys,
}

impl Drop for RatchetSession {
    /// Overwrites the root key and the chain keys with zeros when it is dropped.
    fn drop(&mut self)
        opens_invariants none
        no_unwind
    {
        aws_lc::zeroize(&mut self.root_key);
        aws_lc::zeroize(&mut self.sending_chain);
        match &mut self.receiving_chain {
            Some(chain) => aws_lc::zeroize(chain),
            None => {},
        }
    }
}

impl View for RatchetSession {
    type V = SessionView;

    closed spec fn view(&self) -> SessionView {
        SessionView {
            suite: self.suite,
            root_key: self.root_key@,
            ratchet: self.ratchet@,
            sending_chain: self.sending_chain@,
            sending_counter: self.sending_counter,
            previous_sending_chain_length: self.previous_sending_chain_length,
            receiving_chain: match self.receiving_chain {
                Some(chain) => Some(chain@),
                None => None,
            },
            receiving_counter: self.receiving_counter,
            cache: self.skipped@,
        }
    }
}

impl RatchetSession {
    /// Starts the session of the initiator of a handshake.
    ///
    /// `ratchet` is the initiator's first ratchet key pair, and
    /// `peer_ratchet_public` the ratchet key that the responder published.
    /// Fails, with the error of the agreement, where the two keys do not
    /// agree; no session is made then.
    pub fn init_initiator(
        suite: Suite,
        shared_secret: &[u8],
        ratchet: RatchetKeyPair,
        peer_ratchet_public: &[u8],
        max_entries: usize,
        max_generations: usize,
    ) -> (r: Result<RatchetSession, Error>)
        ensures
            session_view(r) == spec_init_initiator(
                suite,
                shared_secret@,
                ratchet@,
                peer_ratchet_public@,
                max_entries,
                max_generations,
            ),
            r matches Ok(session) ==> session@.wf(),
    {
        let mut dh = match agreement::agree(suite.agreement, ratchet.private(), peer_ratchet_public) {
            Ok(dh) => dh,
            Err(e) => { return Err(e); },
        };
        let (root_key, sending_chain) = derive_root_key(suite.hkdf, shared_secret, dh.as_ref());
        dh.erase();
        let mut skipped = SkippedKeys::new(max_entries, max_generations);
        skipped.open_generation(peer_ratchet_public);
        proof {
            assert(skipped@.generations =~= seq![
                GenerationView { ratchet_public: peer_ratchet_public@ },
            ]);
        }
        Ok(
            RatchetSession {
                suite,
                root_key,
                ratchet,
                sending_chain,
                sending_counter: 0,
                previous_sending_chain_length: 0,
                receiving_chain: None,
                receiving_counter: 0,
                skipped,
            },
        )
    }

    /// Starts the session of the responder of a handshake, with `fresh` as
    /// its first ratchet key pair of its own.
    ///
    /// `own` is the key pair whose public part the responder published as
    /// its ratchet key, and `peer_ratchet_public` the initiator's ratchet
    /// key. Fails, with the error of the agreement, where the keys do not
    /// agree; no session is made then.
    pub fn init_responder_with(
        suite: Suite,
        shared_secret: &[u8],
        own: &RatchetKeyPair,
        peer_ratchet_public: &[u8],
        fresh: RatchetKeyPair,
        max_entries: usize,
        max_generations: usize,
    ) -> (r: Result<RatchetSession, Error>)
        ensures
            session_view(r) == spec_init_responder(
                suite,
                shared_secret@,
                own@,
                peer_ratchet_public@,
                fresh@,
                max_entries,
                max_generations,
            ),
            r matches Ok(session) ==> session@.wf(),
    {
        let mut received = match agreement::agree(
            suite.agreement,
            own.private(),
            peer_ratchet_public,
        ) {
            Ok(dh) => dh,
            Err(e) => { return Err(e); },
        };
        let mut sent = match agreement::agree(suite.agreement, fresh.private(), peer_ratchet_public) {
            Ok(dh) => dh,
            Err(e) => {
                received.erase();
                return Err(e);
            },
        };
        let (mut root, receiving_chain) = derive_root_key(
            suite.hkdf,
            shared_secret,
            received.as_ref(),
        );
        let (root_key, sending_chain) = derive_root_key(suite.hkdf, root.as_slice(), sent.as_ref());
        received.erase();
        sent.erase();
        aws_lc::zeroize(&mut root);
        let mut skipped = SkippedKeys::new(max_entries, max_generations);
        skipped.open_generation(peer_ratchet_public);
        proof {
            assert(skipped@.generations =~= seq![
                GenerationView { ratchet_public: peer_ratchet_public@ },
            ]);
        }
        Ok(
            RatchetSession {
                suite,
                root_key,
                ratchet: fresh,
                sending_chain,
                sending_counter: 0,
                previous_sending_chain_length: 0,
                receiving_chain: Some(receiving_chain),
                receiving_counter: 0,
                skipped,
            },
        )
    }

    /// Starts the session of the responder of a handshake, with a new
    /// ratchet key pair from the system's random source.
    ///
    /// An algorithm that the backend does not implement fails with
    /// [`Error::UnsupportedAgreementAlgorithm`] before any key is
    /// generated. Otherwise, whatever key pair was generated, the outcome, a
    /// session or an error, is the one that
    /// [`RatchetSession::init_responder_with`] makes of it; where no key
    /// pair could be generated, no session is made, and the error is that
    /// of the random source or of a key that the backend rejects.
    pub fn init_responder(
        suite: Suite,
        shared_secret: &[u8],
        own: &RatchetKeyPair,
        peer_ratchet_public: &[u8],
        max_entries: usize,
        max_generations: usize,
    ) -> (r: Result<RatchetSession, Error>)
        ensures
            r matches Ok(session) ==> session@.wf(),
            r matches Ok(session) ==> exists|fresh: KeyPairView|
                Ok::<SessionView, Error>(session@) == #[trigger] spec_init_responder(
                    suite,
                    shared_secret@,
                    own@,
                    peer_ratchet_public@,
                    fresh,
                    max_entries,
                    max_generations,
                ),
            !suite.agreement.spec_is_supported() ==> (r matches Err(e) && e
                == Error::UnsupportedAgreementAlgorithm),
            suite.agreement.spec_is_supported() ==> (exists|fresh: KeyPairView|
                session_view(r) == #[trigger] spec_init_responder(
                    suite,
                    shared_secret@,
                    own@,
                    peer_ratchet_public@,
                    fresh,
                    max_entries,
                    max_generations,
                )) || (r matches Err(e) && (e == Error::Unspecified || e == Error::KeyRejected)),
    {
        let fresh = match RatchetKeyPair::generate(suite.agreement) {
            Ok(pair) => pair,
            Err(e) => { return Err(e); },
        };
        let ghost made = fresh@;
        let r = RatchetSession::init_responder_with(
            suite,
            shared_secret,
            own,
            peer_ratchet_public,
            fresh,
            max_entries,
            max_generations,
        );
        assert(session_view(r) == spec_init_responder(
            suite,
            shared_secret@,
            own@,
            peer_ratchet_public@,
            made,
            max_entries,
            max_generations,
        ));
        r
    }

    /// The algorithms of the session.
    pub fn suite(&self) -> (r: Suite)
        ensures
            r == self@.suite,
    {
        self.suite
    }

    /// The local ratchet public key, which every header carries.
    pub fn ratchet_public(&self) -> (r: &[u8])
        ensures
            r@ == self@.ratchet.public,
    {
        self.ratchet.public()
    }

    /// The peer's current ratchet public key.
    pub fn peer_ratchet_public(&self) -> (r: &[u8])
        requires
            self@.wf(),
        ensures
            r@ == self@.peer_ratchet_public(),
    {
        self.skipped.generation(self.skipped.generation_count() - 1).ratchet_public()
    }

    /// The number of messages sent in the sending chain.
    pub fn sending_counter(&self) -> (r: u64)
        ensures
            r == self@.sending_counter,
    {
        self.sending_counter
    }

    /// The number of the next message of the receiving chain whose key was
    /// not derived yet.
    pub fn receiving_counter(&self) -> (r: u64)
        ensures
            r == self@.receiving_counter,
    {
        self.receiving_counter
    }

    /// The number of messages that were sent in the previous sending chain.
    pub fn previous_sending_chain_length(&self) -> (r: u64)
        ensures
            r == self@.previous_sending_chain_length,
    {
        self.previous_sending_chain_length
    }

    /// The number of skipped message keys in the cache.
    pub fn skipped_len(&self) -> (r: usize)
        ensures
            r == self@.cache.entries.len(),
    {
        self.skipped.len()
    }

    /// The root key.
    pub fn root_key(&self) -> (r: &[u8])
        ensures
            r@ == self@.root_key,
    {
        self.root_key.as_slice()
    }

    /// Whether another message can be sent in the sending chain: its
    /// counter has not reached the largest number.
    pub fn can_send(&self) -> (r: bool)
        ensures
            r == (self@.sending_counter < u64::MAX),
    {
        self.sending_counter < u64::MAX
    }

    /// Whether a header asks for a Diffie-Hellman ratchet step.
    pub fn needs_ratchet(&self, header: &Header) -> (r: bool)
        ensures
            r == self@.needs_ratchet(header@),
    {
        header.counter < u64::MAX && self.skipped.position(
            header.ratchet_public.as_slice(),
            header.counter,
        ).is_none() && self.skipped.find_generation(header.ratchet_public.as_slice()).is_none()
    }

    /// Sends a message: returns its header and its message key, and
    /// advances the sending chain by one.
    ///
    /// The header carries the local ratchet public key, the length of the
    /// previous sending chain and the number of the message. The plaintext
    /// is not read: the caller encrypts it under the message key, which
    /// must not be used again.
    pub fn encrypt(&mut self, plaintext: &[u8]) -> (r: (Header, MessageKey))
        requires
            old(self)@.wf(),
            old(self)@.sending_counter < u64::MAX,
        ensures
            (final(self)@, r.0@, r.1@) == old(self)@.encrypt(),
            final(self)@.wf(),
    {
        let (message_key, next) = derive_message_key(self.suite.hkdf, self.sending_chain.as_slice());
        let header = Header {
            ratchet_public: bytes::copy(self.ratchet.public()),
            previous_chain_length: self.previous_sending_chain_length,
            counter: self.sending_counter,
        };
        aws_lc::zeroize(&mut self.sending_chain);
        self.sending_chain = next;
        self.sending_counter = self.sending_counter + 1;
        (header, message_key)
    }

    /// Advances the receiving chain up to and including the message
    /// `counter` and returns its key.
    fn receive(&mut self, counter: u64) -> (r: MessageKey)
        requires
            old(self)@.wf(),
            old(self)@.receiving_chain.is_some(),
            old(self)@.receiving_counter <= counter < u64::MAX,
        ensures
            (final(self)@, r@) == old(self)@.receive(counter),
            final(self)@.wf(),
    {
        proof {
            lemma_receive_keeps_order(self@, counter);
        }
        let current = bytes::copy(self.peer_ratchet_public());
        let chain = match &self.receiving_chain {
            Some(chain) => bytes::copy(chain.as_slice()),
            None => Vec::new(),
        };
        let mut chain = skip_keys(
            &mut self.skipped,
            self.suite.hkdf,
            chain,
            self.receiving_counter,
            counter,
            current.as_slice(),
        );
        let (message_key, next) = derive_message_key(self.suite.hkdf, chain.as_slice());
        aws_lc::zeroize(&mut chain);
        self.receiving_chain = Some(next);
        self.receiving_counter = counter + 1;
        message_key
    }

    /// Makes the Diffie-Hellman ratchet step for a header with a new
    /// ratchet key of the peer. Where an agreement fails, the session stays
    /// as it is.
    fn ratchet(&mut self, header: &Header, fresh: RatchetKeyPair) -> (r: Result<(), Error>)
        requires
            old(self)@.wf(),
            !old(self)@.cache.knows(header@.ratchet_public),
        ensures
            match old(self)@.ratchet(header@, fresh@) {
                Ok(stepped) => r.is_ok() && final(self)@ == stepped,
                Err(e) => r == Err::<(), Error>(e) && final(self)@ == old(self)@,
            },
            final(self)@.wf(),
    {
        proof {
            if self@.ratchet(header@, fresh@).is_ok() {
                lemma_ratchet_keeps_order(self@, header@, fresh@);
            }
        }
        let peer = header.ratchet_public.as_slice();
        let mut received = match agreement::agree(self.suite.agreement, self.ratchet.private(), peer) {
            Ok(dh) => dh,
            Err(e) => { return Err(e); },
        };
        let mut sent = match agreement::agree(self.suite.agreement, fresh.private(), peer) {
            Ok(dh) => dh,
            Err(e) => {
                received.erase();
                return Err(e);
            },
        };
        match &self.receiving_chain {
            Some(chain) => {
                let current = bytes::copy(self.peer_ratchet_public());
                let chain = bytes::copy(chain.as_slice());
                let mut last = skip_keys(
                    &mut self.skipped,
                    self.suite.hkdf,
                    chain,
                    self.receiving_counter,
                    header.previous_chain_length,
                    current.as_slice(),
                );
                aws_lc::zeroize(&mut last);
            },
            None => {},
        }
        let passed = if self.receiving_chain.is_some() && self.receiving_counter
            <= header.previous_chain_length {
            header.previous_chain_length
        } else {
            self.receiving_counter
        };
        self.skipped.close(passed);
        self.skipped.open_generation(peer);
        let (mut root, receiving_chain) = derive_root_key(
            self.suite.hkdf,
            self.root_key.as_slice(),
            received.as_ref(),
        );
        let (root_key, sending_chain) = derive_root_key(
            self.suite.hkdf,
            root.as_slice(),
            sent.as_ref(),
        );
        received.erase();
        sent.erase();
        aws_lc::zeroize(&mut root);
        aws_lc::zeroize(&mut self.root_key);
        aws_lc::zeroize(&mut self.sending_chain);
        self.root_key = root_key;
        self.ratchet.erase();
        self.ratchet = fresh;
        self.sending_chain = sending_chain;
        self.previous_sending_chain_length = self.sending_counter;
        self.sending_counter = 0;
        self.receiving_chain = Some(receiving_chain);
        self.receiving_counter = 0;
        Ok(())
    }

    /// Receives a message, with `fresh` as the new local ratchet key pair
    /// in case the header asks for a ratchet step: returns the message key.
    ///
    /// The outcome and the state after are those of
    /// [`SessionView::decrypt`]. On an error the session stays as it is.
    pub fn decrypt_with(&mut self, header: &Header, fresh: RatchetKeyPair) -> (r: Result<
        MessageKey,
        Error,
    >)
        requires
            old(self)@.wf(),
        ensures
            (final(self)@, key_view(r)) == old(self)@.decrypt(header@, fresh@),
            final(self)@.wf(),
    {
        proof {
            lemma_decrypt_keeps_order(self@, header@, fresh@);
        }
        let mut fresh = fresh;
        let peer = header.ratchet_public.as_slice();
        match self.skipped.take(peer, header.counter) {
            Some(key) => {
                fresh.erase();
                return Ok(MessageKey::from_bytes(key));
            },
            None => {},
        }
        if self.skipped.is_current(peer) {
            fresh.erase();
            if self.receiving_chain.is_some() && self.receiving_counter <= header.counter
                && header.counter < u64::MAX {
                Ok(self.receive(header.counter))
            } else if header.counter < self.receiving_counter {
                Err(self.skipped.miss(peer, header.counter))
            } else {
                Err(Error::MessageKeyExpired)
            }
        } else if self.skipped.find_generation(peer).is_some() {
            fresh.erase();
            Err(self.skipped.miss(peer, header.counter))
        } else if header.counter == u64::MAX {
            fresh.erase();
            Err(Error::MessageKeyExpired)
        } else {
            match self.ratchet(header, fresh) {
                Err(e) => Err(e),
                Ok(()) => Ok(self.receive(header.counter)),
            }
        }
    }

    /// Receives a message: returns the message key.
    ///
    /// Where the header asks for a ratchet step, the new local ratchet key
    /// pair comes from the system's random source: whatever pair was
    /// generated, outcome and state are those that
    /// [`RatchetSession::decrypt_with`] gives with it, and where none could
    /// be generated the session stays as it is. Where the header asks for no
    /// step, outcome and state do not depend on any key pair.
    pub fn decrypt(&mut self, header: &Header) -> (r: Result<MessageKey, Error>)
        requires
            old(self)@.wf(),
        ensures
            final(self)@.wf(),
            !old(self)@.needs_ratchet(header@) ==> (final(self)@, key_view(r)) == old(
                self,
            )@.decrypt(header@, KeyPairView { private: Seq::empty(), public: Seq::empty() }),
            old(self)@.needs_ratchet(header@) ==> (r matches Err(e) && (e == Error::Unspecified
                || e == Error::KeyRejected || e == Error::UnsupportedAgreementAlgorithm)
                && final(self)@ == old(self)@) || (exists|fresh: KeyPairView|
                (final(self)@, key_view(r)) == #[trigger] old(self)@.decrypt(header@, fresh)),
    {
        if self.needs_ratchet(header) {
            let fresh = match RatchetKeyPair::generate(self.suite.agreement) {
                Ok(pair) => pair,
                Err(e) => { return Err(e); },
            };
            let ghost made = fresh@;
            let r = self.decrypt_with(header, fresh);
            assert((self@, key_view(r)) == old(self)@.decrypt(header@, made));
            r
        } else {
            let fresh = RatchetKeyPair::new(Vec::new(), Vec::new());
            self.decrypt_with(header, fresh)
        }
    }
}

impl RatchetSession {
    /// The tokens of the session.
    fn to_tokens(&self) -> (r: Vec<Token>)
        ensures
            token_views(r@) == session_tokens(self@),
            countable(self@),
    {
        let mut t: Vec<Token> = Vec::new();
        t.push(Token::Number(MAGIC));
        t.push(Token::Number(self.suite.agreement.code() as u64));
        t.push(Token::Number(self.suite.hkdf.code() as u64));
        t.push(Token::Bytes(bytes::copy(self.root_key.as_slice())));
        t.push(Token::Bytes(bytes::copy(self.ratchet.private())));
        t.push(Token::Bytes(bytes::copy(self.ratchet.public())));
        t.push(Token::Bytes(bytes::copy(self.sending_chain.as_slice())));
        t.push(Token::Number(self.sending_counter));
        t.push(Token::Number(self.previous_sending_chain_length));
        match &self.receiving_chain {
            Some(chain) => {
                t.push(Token::Number(1));
                t.push(Token::Bytes(bytes::copy(chain.as_slice())));
            },
            None => {
                t.push(Token::Number(0));
                t.push(Token::Bytes(Vec::new()));
            },
        }
        t.push(Token::Number(self.receiving_counter));
        t.push(Token::Number(self.skipped.max_entries() as u64));
        t.push(Token::Number(self.skipped.max_generations() as u64));
        let g = self.skipped.generation_count();
        let e = self.skipped.len();
        t.push(Token::Number(g as u64));
        t.push(Token::Number(e as u64));
        let ghost header = header_tokens(self@);
        let ghost generations = self@.cache.generations;
        let ghost entries = self@.cache.entries;
        assert(token_views(t@) =~= header);
        let mut i: usize = 0;
        while i < g
            invariant
                i <= g,
                g == generations.len(),
                generations == self@.cache.generations,
                header.len() == 16,
                t@.len() == 16 + i,
                forall|k: int| 0 <= k < 16 ==> token_views(t@)[k] == header[k],
                forall|k: int|
                    0 <= k < i ==> token_views(t@)[16 + k] == generation_tokens(generations)[k],
            decreases g - i,
        {
            let generation = self.skipped.generation(i);
            let ghost before = token_views(t@);
            t.push(Token::Bytes(bytes::copy(generation.ratchet_public())));
            proof {
                assert forall|k: int| 0 <= k < 16 + i implies token_views(t@)[k] == before[k] by {}
            }
            i += 1;
        }
        let ghost middle = token_views(t@);
        let mut j: usize = 0;
        while j < e
            invariant
                j <= e,
                e == entries.len(),
                g == generations.len(),
                entries == self@.cache.entries,
                middle.len() == 16 + g,
                t@.len() == 16 + g + 3 * j,
                forall|k: int| 0 <= k < 16 + g ==> token_views(t@)[k] == middle[k],
                forall|k: int|
                    0 <= k < 3 * j ==> token_views(t@)[16 + g + k] == entry_tokens(entries)[k],
            decreases e - j,
        {
            let entry = self.skipped.entry(j);
            let ghost before = token_views(t@);
            t.push(Token::Bytes(bytes::copy(entry.ratchet_public())));
            t.push(Token::Number(entry.counter()));
            t.push(Token::Bytes(bytes::copy(entry.message_key())));
            proof {
                assert forall|k: int| 0 <= k < 16 + g + 3 * j implies token_views(t@)[k]
                    == before[k] by {}
                assert((3 * j) % 3 == 0 && (3 * j) / 3 == j);
                assert((3 * j + 1) % 3 == 1 && (3 * j + 1) / 3 == j);
                assert((3 * j + 2) % 3 == 2 && (3 * j + 2) / 3 == j);
            }
            j += 1;
        }
        let ghost most = token_views(t@);
        let ghost expired = self@.cache.expired;
        let ghost s = 16 + g + 3 * e;
        let x = self.skipped.expired_count();
        let mut k: usize = 0;
        while k < x
            invariant
                k <= x,
                x == expired.len(),
                expired == self@.cache.expired,
                s == 16 + g + 3 * e,
                most.len() == s,
                t@.len() == s + 3 * k,
                forall|a: int| 0 <= a < s ==> token_views(t@)[a] == most[a],
                forall|a: int| 0 <= a < 3 * k ==> token_views(t@)[s + a] == expired_tokens(expired)[a],
            decreases x - k,
        {
            let run = self.skipped.expired_run(k);
            let ghost before = token_views(t@);
            t.push(Token::Bytes(bytes::copy(run.ratchet_public())));
            t.push(Token::Number(run.first()));
            t.push(Token::Number(run.last()));
            proof {
                assert forall|a: int| 0 <= a < s + 3 * k implies token_views(t@)[a] == before[a] by {}
                assert((3 * k) % 3 == 0 && (3 * k) / 3 == k);
                assert((3 * k + 1) % 3 == 1 && (3 * k + 1) / 3 == k);
                assert((3 * k + 2) % 3 == 2 && (3 * k + 2) / 3 == k);
            }
            k += 1;
        }
        proof {
            let all = session_tokens(self@);
            assert(token_views(t@).len() == all.len());
            assert forall|k: int| 0 <= k < all.len() implies token_views(t@)[k] == all[k] by {
                if k < 16 {
                    assert(token_views(t@)[k] == most[k]);
                    assert(most[k] == middle[k]);
                } else if k < 16 + g {
                    assert(token_views(t@)[k] == most[k]);
                    assert(most[k] == middle[k]);
                    assert(middle[16 + (k - 16)] == generation_tokens(generations)[k - 16]);
                } else if k < s {
                    assert(token_views(t@)[k] == most[k]);
                    assert(most[16 + g + (k - 16 - g)] == entry_tokens(entries)[k - 16 - g]);
                } else {
                    assert(token_views(t@)[s + (k - s)] == expired_tokens(expired)[k - s]);
                }
            }
            assert(token_views(t@) =~= all);
        }
        t
    }

    /// Stores the session: returns the bytes of the whole state, the
    /// skipped keys included, from which [`RatchetSession::from_bytes`]
    /// makes the session again.
    pub fn to_bytes(&self) -> (r: Vec<u8>)
        ensures
            r@ == spec_encode(self@),
            fits(self@),
    {
        let tokens = self.to_tokens();
        encode_tokens(&tokens)
    }
}

/// The generations that the tokens from `start` on hold, `count` of them,
/// or `None` where a token is not of its kind.
fn generations_from_tokens(tokens: &Vec<Token>, start: usize, count: usize) -> (r: Option<
    Vec<Generation>,
>)
    requires
        start + count <= tokens@.len(),
    ensures
        match r {
            Some(list) => list@.len() == count && forall|i: int|
                0 <= i < count ==> token_views(tokens@)[start + i] == TokenView::Bytes(
                    (#[trigger] list@[i])@.ratchet_public,
                ),
            None => exists|i: int|
                0 <= i < count && !#[trigger] generation_shape(
                    token_views(tokens@),
                    start as int,
                    i,
                ),
        },
{
    let n = tokens.len();
    let mut list: Vec<Generation> = Vec::new();
    let mut i: usize = 0;
    while i < count
        invariant
            i <= count,
            start + count <= tokens@.len(),
            tokens@.len() == n,
            list@.len() == i,
            forall|k: int|
                0 <= k < i ==> token_views(tokens@)[start + k] == TokenView::Bytes(
                    (#[trigger] list@[k])@.ratchet_public,
                ),
        decreases count - i,
    {
        match bytes_at(tokens, start + i) {
            Some(ratchet_public) => {
                list.push(Generation::new(ratchet_public));
            },
            None => {
                assert(!generation_shape(token_views(tokens@), start as int, i as int));
                return None;
            },
        }
        i += 1;
    }
    Some(list)
}

/// The skipped keys that the tokens from `start` on hold, `count` of them,
/// or `None` where a token is not of its kind.
fn entries_from_tokens(tokens: &Vec<Token>, start: usize, count: usize) -> (r: Option<
    Vec<SkippedKeyEntry>,
>)
    requires
        start + 3 * count <= tokens@.len(),
    ensures
        match r {
            Some(list) => list@.len() == count && forall|i: int|
                0 <= i < count ==> token_views(tokens@)[start + 3 * i] == TokenView::Bytes(
                    (#[trigger] list@[i])@.ratchet_public,
                ) && token_views(tokens@)[start + 3 * i + 1] == TokenView::Number(
                    list@[i]@.counter,
                ) && token_views(tokens@)[start + 3 * i + 2] == TokenView::Bytes(
                    list@[i]@.message_key,
                ),
            None => exists|i: int|
                0 <= i < count && !#[trigger] entry_shape(token_views(tokens@), start as int, i),
        },
{
    let n = tokens.len();
    let mut list: Vec<SkippedKeyEntry> = Vec::new();
    let mut i: usize = 0;
    while i < count
        invariant
            i <= count,
            start + 3 * count <= tokens@.len(),
            tokens@.len() == n,
            list@.len() == i,
            forall|k: int|
                0 <= k < i ==> token_views(tokens@)[start + 3 * k] == TokenView::Bytes(
                    (#[trigger] list@[k])@.ratchet_public,
                ) && token_views(tokens@)[start + 3 * k + 1] == TokenView::Number(
                    list@[k]@.counter,
                ) && token_views(tokens@)[start + 3 * k + 2] == TokenView::Bytes(
                    list@[k]@.message_key,
                ),
        decreases count - i,
    {
        let ratchet_public = bytes_at(tokens, start + 3 * i);
        let counter = number_at(tokens, start + 3 * i + 1);
        let message_key = bytes_at(tokens, start + 3 * i + 2);
        match (ratchet_public, counter, message_key) {
            (Some(ratchet_public), Some(counter), Some(message_key)) => {
                list.push(SkippedKeyEntry::new(ratchet_public, counter, message_key));
            },
            _ => {
                assert(!entry_shape(token_views(tokens@), start as int, i as int));
                return None;
            },
        }
        i += 1;
    }
    Some(list)
}

/// The runs of evicted counters that the tokens from `start` on hold,
/// `count` of them, or `None` where a token is not of its kind.
fn expired_from_tokens(tokens: &Vec<Token>, start: usize, count: usize) -> (r: Option<
    Vec<Expired>,
>)
    requires
        start + 3 * count <= tokens@.len(),
    ensures
        match r {
            Some(list) => list@.len() == count && forall|i: int|
                0 <= i < count ==> token_views(tokens@)[start + 3 * i] == TokenView::Bytes(
                    (#[trigger] list@[i])@.ratchet_public,
                ) && token_views(tokens@)[start + 3 * i + 1] == TokenView::Number(list@[i]@.first)
                    && token_views(tokens@)[start + 3 * i + 2] == TokenView::Number(
                    list@[i]@.last,
                ),
            None => exists|i: int|
                0 <= i < count && !#[trigger] expired_shape(token_views(tokens@), start as int, i),
        },
{
    let n = tokens.len();
    let mut list: Vec<Expired> = Vec::new();
    let mut i: usize = 0;
    while i < count
        invariant
            i <= count,
            start + 3 * count <= tokens@.len(),
            tokens@.len() == n,
            list@.len() == i,
            forall|k: int|
                0 <= k < i ==> token_views(tokens@)[start + 3 * k] == TokenView::Bytes(
                    (#[trigger] list@[k])@.ratchet_public,
                ) && token_views(tokens@)[start + 3 * k + 1] == TokenView::Number(list@[k]@.first)
                    && token_views(tokens@)[start + 3 * k + 2] == TokenView::Number(
                    list@[k]@.last,
                ),
        decreases count - i,
    {
        let ratchet_public = bytes_at(tokens, start + 3 * i);
        let first = number_at(tokens, start + 3 * i + 1);
        let last = number_at(tokens, start + 3 * i + 2);
        match (ratchet_public, first, last) {
            (Some(ratchet_public), Some(first), Some(last)) => {
                list.push(Expired::new(ratchet_public, first, last));
            },
            _ => {
                assert(!expired_shape(token_views(tokens@), start as int, i as int));
                return None;
            },
        }
        i += 1;
    }
    Some(list)
}

/// Whether `count` runs of evicted counters fill `n` tokens from `start`
/// on.
spec fn runs_fill(n: int, start: int, count: int) -> bool {
    n == start + 3 * count
}

/// Where the runs of evicted counters begin among `n` tokens that hold
/// `generations` generations and `entries` skipped keys before them, and
/// how many runs there are; `None` where no number of runs fills the
/// tokens.
fn expired_place(n: usize, generations: usize, entries: usize) -> (r: Option<(usize, usize)>)
    ensures
        match r {
            Some((start, count)) => start == 16 + generations + 3 * entries && n == start + 3
                * count,
            None => forall|count: int|
                count >= 0 ==> !#[trigger] runs_fill(
                    n as int,
                    16 + generations + 3 * entries,
                    count,
                ),
        },
{
    let lists: u128 = 16u128 + (generations as u128) + 3 * (entries as u128);
    if lists > n as u128 || (n as u128 - lists) % 3 != 0 {
        return None;
    }
    let start: usize = 16 + generations + 3 * entries;
    Some((start, (n - start) / 3))
}

/// The first sixteen tokens of a stored session as they were read, before
/// anything is checked.
struct StoredHeader {
    magic: u64,
    agreement: u64,
    hkdf: u64,
    root_key: Vec<u8>,
    private: Vec<u8>,
    public: Vec<u8>,
    sending_chain: Vec<u8>,
    sending_counter: u64,
    previous_sending_chain_length: u64,
    receiving: u64,
    receiving_chain: Vec<u8>,
    receiving_counter: u64,
    max_entries: u64,
    max_generations: u64,
    generations: u64,
    entries: u64,
}

impl StoredHeader {
    /// The tokens that were read.
    spec fn tokens(self) -> Seq<TokenView> {
        seq![
            TokenView::Number(self.magic),
            TokenView::Number(self.agreement),
            TokenView::Number(self.hkdf),
            TokenView::Bytes(self.root_key@),
            TokenView::Bytes(self.private@),
            TokenView::Bytes(self.public@),
            TokenView::Bytes(self.sending_chain@),
            TokenView::Number(self.sending_counter),
            TokenView::Number(self.previous_sending_chain_length),
            TokenView::Number(self.receiving),
            TokenView::Bytes(self.receiving_chain@),
            TokenView::Number(self.receiving_counter),
            TokenView::Number(self.max_entries),
            TokenView::Number(self.max_generations),
            TokenView::Number(self.generations),
            TokenView::Number(self.entries),
        ]
    }
}

/// Reads the first sixteen tokens, or `None` where there are fewer or one
/// is not of its kind.
fn header_from_tokens(tokens: &Vec<Token>) -> (r: Option<StoredHeader>)
    ensures
        match r {
            Some(header) => tokens@.len() >= 16 && token_views(tokens@).subrange(0, 16)
                == header.tokens(),
            None => forall|v: SessionView|
                !#[trigger] stored_shape(v, token_views(tokens@)),
        },
{
    if tokens.len() < 16 {
        return None;
    }
    let numbers = (
        number_at(tokens, 0),
        number_at(tokens, 1),
        number_at(tokens, 2),
        number_at(tokens, 7),
        number_at(tokens, 8),
        number_at(tokens, 9),
        number_at(tokens, 11),
    );
    let sizes = (
        number_at(tokens, 12),
        number_at(tokens, 13),
        number_at(tokens, 14),
        number_at(tokens, 15),
    );
    let strings = (
        bytes_at(tokens, 3),
        bytes_at(tokens, 4),
        bytes_at(tokens, 5),
        bytes_at(tokens, 6),
        bytes_at(tokens, 10),
    );
    let ghost ts = token_views(tokens@);
    proof {
        assert forall|v: SessionView| #[trigger] stored_shape(v, ts) implies ts[0] is Number
            && ts[1] is Number && ts[2] is Number && ts[3] is Bytes && ts[4] is Bytes && ts[5]
            is Bytes && ts[6] is Bytes && ts[7] is Number && ts[8] is Number && ts[9] is Number
            && ts[10] is Bytes && ts[11] is Number && ts[12] is Number && ts[13] is Number
            && ts[14] is Number && ts[15] is Number by {
            let h = header_tokens(v);
            assert(ts[0] == h[0] && ts[1] == h[1] && ts[2] == h[2] && ts[3] == h[3] && ts[4]
                == h[4] && ts[5] == h[5] && ts[6] == h[6] && ts[7] == h[7]);
            assert(ts[8] == h[8] && ts[9] == h[9] && ts[10] == h[10] && ts[11] == h[11] && ts[12]
                == h[12] && ts[13] == h[13] && ts[14] == h[14] && ts[15] == h[15]);
        }
    }
    match (numbers, sizes, strings) {
        (
            (
                Some(magic),
                Some(agreement),
                Some(hkdf),
                Some(sending_counter),
                Some(previous_sending_chain_length),
                Some(receiving),
                Some(receiving_counter),
            ),
            (Some(max_entries), Some(max_generations), Some(generations), Some(entries)),
            (
                Some(root_key),
                Some(private),
                Some(public),
                Some(sending_chain),
                Some(receiving_chain),
            ),
        ) => {
            let header = StoredHeader {
                magic,
                agreement,
                hkdf,
                root_key,
                private,
                public,
                sending_chain,
                sending_counter,
                previous_sending_chain_length,
                receiving,
                receiving_chain,
                receiving_counter,
                max_entries,
                max_generations,
                generations,
                entries,
            };
            assert(ts.subrange(0, 16) =~= header.tokens());
            Some(header)
        },
        _ => None,
    }
}

impl RatchetSession {
    /// Whether the session is valid.
    fn is_wf(&self) -> (r: bool)
        ensures
            r == self@.wf(),
    {
        let receiving = match &self.receiving_chain {
            Some(chain) => chain.len() == KEY_LEN,
            None => true,
        };
        self.root_key.len() == KEY_LEN && self.sending_chain.len() == KEY_LEN && receiving
            && self.skipped.is_wf() && self.skipped.generation_count() >= 1
            && self.skipped.is_in_order(self.receiving_counter)
    }

    /// The valid session with these tokens, or
    /// [`Error::SessionStateCorrupt`] where there is none.
    fn from_tokens(tokens: &Vec<Token>) -> (r: Result<RatchetSession, Error>)
        ensures
            match r {
                Ok(session) => session@.wf() && countable(session@) && session_tokens(session@)
                    == token_views(tokens@),
                Err(e) => e == Error::SessionStateCorrupt && forall|v: SessionView|
                    v.wf() && countable(v) ==> session_tokens(v) != token_views(tokens@),
            },
    {
        let ghost ts = token_views(tokens@);
        proof {
            assert forall|v: SessionView|
                v.wf() && countable(v) && #[trigger] session_tokens(v) == ts implies stored_shape(
                v,
                ts,
            ) by {
                lemma_stored_shape(v);
            }
        }
        let n = tokens.len();
        let header = match header_from_tokens(tokens) {
            Some(header) => header,
            None => { return Err(Error::SessionStateCorrupt); },
        };
        proof {
            assert forall|i: int| 0 <= i < 16 implies ts[i] == header.tokens()[i] by {
                assert(ts.subrange(0, 16)[i] == ts[i]);
            }
        }
        if header.magic != MAGIC || header.agreement > 0x7fff_ffff || header.hkdf > 0xffff_ffff {
            return Err(Error::SessionStateCorrupt);
        }
        let agreement = match agreement::Algorithm::try_from(header.agreement as i32) {
            Ok(a) => a,
            Err(_) => { return Err(Error::SessionStateCorrupt); },
        };
        let hkdf = match hkdf::Algorithm::try_from(header.hkdf as u32) {
            Ok(a) => a,
            Err(_) => { return Err(Error::SessionStateCorrupt); },
        };
        if header.receiving > 1 || (header.receiving == 0 && header.receiving_chain.len() != 0) {
            return Err(Error::SessionStateCorrupt);
        }
        if header.max_entries > usize::MAX as u64 || header.max_generations > usize::MAX as u64
            || header.generations > n as u64 || header.entries > n as u64 {
            return Err(Error::SessionStateCorrupt);
        }
        let g = header.generations as usize;
        let e = header.entries as usize;
        proof {
            assert forall|v: SessionView| #[trigger] stored_shape(v, ts) implies
                v.cache.generations.len() == g && v.cache.entries.len() == e && n == 16 + g
                + 3 * e + 3 * v.cache.expired.len() by {
                assert(ts[14] == header_tokens(v)[14]);
                assert(ts[15] == header_tokens(v)[15]);
            }
        }
        let (start, x) = match expired_place(n, g, e) {
            Some(place) => place,
            None => {
                proof {
                    assert forall|v: SessionView| !#[trigger] stored_shape(v, ts) by {
                        if stored_shape(v, ts) {
                            assert(runs_fill(
                                n as int,
                                16 + g + 3 * e,
                                v.cache.expired.len() as int,
                            ));
                        }
                    }
                }
                return Err(Error::SessionStateCorrupt);
            },
        };
        proof {
            assert forall|v: SessionView| #[trigger] stored_shape(v, ts) implies
                v.cache.expired.len() == x && expired_start(v) == start by {}
        }
        let generations = match generations_from_tokens(tokens, 16, g) {
            Some(list) => list,
            None => { return Err(Error::SessionStateCorrupt); },
        };
        let entries = match entries_from_tokens(tokens, 16 + g, e) {
            Some(list) => list,
            None => { return Err(Error::SessionStateCorrupt); },
        };
        let expired = match expired_from_tokens(tokens, start, x) {
            Some(list) => list,
            None => { return Err(Error::SessionStateCorrupt); },
        };
        let receiving_chain = if header.receiving == 1 {
            Some(header.receiving_chain)
        } else {
            assert(header.receiving_chain@ =~= Seq::<u8>::empty());
            None
        };
        let session = RatchetSession {
            suite: Suite { agreement, hkdf },
            root_key: header.root_key,
            ratchet: RatchetKeyPair::new(header.private, header.public),
            sending_chain: header.sending_chain,
            sending_counter: header.sending_counter,
            previous_sending_chain_length: header.previous_sending_chain_length,
            receiving_chain,
            receiving_counter: header.receiving_counter,
            skipped: SkippedKeys::unchecked(
                entries,
                expired,
                generations,
                header.max_entries as usize,
                header.max_generations as usize,
            ),
        };
        proof {
            let h = header_tokens(session@);
            let t = header.tokens();
            assert(h[0] == t[0] && h[1] == t[1] && h[2] == t[2] && h[3] == t[3]);
            assert(h[4] == t[4] && h[5] == t[5] && h[6] == t[6] && h[7] == t[7]);
            assert(h[8] == t[8] && h[9] == t[9] && h[10] == t[10] && h[11] == t[11]);
            assert(h[12] == t[12] && h[13] == t[13] && h[14] == t[14] && h[15] == t[15]);
            lemma_candidate_tokens(session@, ts);
            assert forall|v: SessionView| v.wf() && countable(v) && session_tokens(v) == ts implies v
                == session@ by {
                lemma_tokens_determine_session(v, session@);
            }
        }
        if session.is_wf() {
            Ok(session)
        } else {
            Err(Error::SessionStateCorrupt)
        }
    }

    /// Loads a stored session: the valid session whose stored bytes these
    /// are.
    ///
    /// Fails with [`Error::SessionStateCorrupt`] for any other bytes:
    /// where a part of the state is missing, the skipped keys as much as
    /// the root key, where bytes are left over, and where the state that
    /// the bytes hold is not a valid one. Nothing is loaded in part.
    pub fn from_bytes(stored: &[u8]) -> (r: Result<RatchetSession, Error>)
        ensures
            session_view(r) == spec_decode(stored@),
            r matches Ok(session) ==> session@.wf() && spec_encode(session@) == stored@,
            r matches Err(e) ==> e == Error::SessionStateCorrupt,
    {
        proof {
            lemma_decode_by_tokens(stored@);
        }
        let tokens = match read_tokens(stored) {
            Some(tokens) => tokens,
            None => { return Err(Error::SessionStateCorrupt); },
        };
        let r = RatchetSession::from_tokens(&tokens);
        proof {
            if r.is_ok() {
                lemma_encode_decoded_tokens(stored@);
            }
        }
        r
    }
}

} // verus!
