use vstd::prelude::*;
use crate::doubleratchet::cache::CacheView;
use crate::doubleratchet::kdf::spec_advance;
use crate::doubleratchet::kdf::spec_message_key;
use crate::doubleratchet::kdf::spec_new_chain_key;
use crate::doubleratchet::kdf::spec_next_chain_key;
use crate::doubleratchet::kdf::spec_next_root_key;
use crate::doubleratchet::kdf::Suite;
use crate::doubleratchet::session::spec_init_initiator;
use crate::doubleratchet::session::spec_init_responder;
use crate::doubleratchet::session::spec_skip;
use crate::doubleratchet::session::HeaderView;
use crate::doubleratchet::session::KeyPairView;
use crate::doubleratchet::session::SessionView;
use crate::ec::agreement;
use crate::error::Error;
use crate::hkdf;

verus! {

/// Skipping messages advances the chain by one step for each of them,
/// whatever the cache holds: a chain is only ever advanced forward, by
/// exactly one step for each message key.
pub proof fn lemma_skip_advances_chain(
    hkdf: hkdf::Algorithm,
    chain: Seq<u8>,
    from: u64,
    until: u64,
    ratchet_public: Seq<u8>,
    cache: CacheView,
)
    requires
        from <= until,
    ensures
        spec_skip(hkdf, chain, from, until, ratchet_public, cache).0 == spec_advance(
            hkdf,
            chain,
            (until - from) as nat,
        ),
    decreases until - from,
{
    if from < until {
        lemma_skip_advances_chain(
            hkdf,
            spec_next_chain_key(hkdf, chain),
            (from + 1) as u64,
            until,
            ratchet_public,
            cache.store(
                crate::doubleratchet::cache::EntryView {
                    ratchet_public,
                    counter: from,
                    message_key: spec_message_key(hkdf, chain),
                },
            ),
        );
    }
}

/// Whether the receiver can follow the sender: both use the same
/// algorithms, the receiver's current generation is the sender's ratchet
/// key, and the sender's sending chain is the receiver's receiving chain,
/// advanced by the messages that the receiver has not seen yet.
pub open spec fn follows(receiver: SessionView, sender: SessionView) -> bool {
    &&& receiver.suite == sender.suite
    &&& receiver.cache.is_current(sender.ratchet.public)
    &&& receiver.receiving_chain.is_some()
    &&& receiver.receiving_counter <= sender.sending_counter
    &&& sender.sending_chain == spec_advance(
        sender.suite.hkdf,
        receiver.receiving_chain.unwrap(),
        (sender.sending_counter - receiver.receiving_counter) as nat,
    )
}

/// The message key that the receiver recovers from the header of a message
/// is the message key that the sender was given for it.
///
/// This holds for every receiver that follows the sender, however many
/// earlier messages are still on their way, and whatever the plaintext is:
/// the ratchet does not read it.
pub proof fn lemma_decrypt_recovers_message_key(
    sender: SessionView,
    receiver: SessionView,
    fresh: KeyPairView,
)
    requires
        receiver.in_order(),
        follows(receiver, sender),
        sender.sending_counter < u64::MAX,
    ensures
        receiver.decrypt(sender.encrypt().1, fresh).1 == Ok::<Seq<u8>, Error>(sender.encrypt().2),
        receiver.decrypt(sender.encrypt().1, fresh).0.receiving_counter == sender.encrypt().0.sending_counter,
        follows(receiver.decrypt(sender.encrypt().1, fresh).0, sender.encrypt().0),
{
    let header = sender.encrypt().1;
    crate::doubleratchet::order::lemma_position_is_first(
        receiver.cache.entries,
        header.ratchet_public,
        header.counter,
    );
    match receiver.cache.position(header.ratchet_public, header.counter) {
        Some(i) => {
            assert(receiver.cache.entries[i].counter < receiver.receiving_counter);
        },
        None => {},
    }
    lemma_skip_advances_chain(
        receiver.suite.hkdf,
        receiver.receiving_chain.unwrap(),
        receiver.receiving_counter,
        header.counter,
        receiver.peer_ratchet_public(),
        receiver.cache,
    );
    let after = receiver.decrypt(header, fresh).0;
    lemma_skip_keeps_generations(
        receiver.suite.hkdf,
        receiver.receiving_chain.unwrap(),
        receiver.receiving_counter,
        header.counter,
        receiver.peer_ratchet_public(),
        receiver.cache,
    );
}

/// Skipping messages keeps the generations.
pub proof fn lemma_skip_keeps_generations(
    hkdf: hkdf::Algorithm,
    chain: Seq<u8>,
    from: u64,
    until: u64,
    ratchet_public: Seq<u8>,
    cache: CacheView,
)
    ensures
        spec_skip(hkdf, chain, from, until, ratchet_public, cache).1.generations
            == cache.generations,
    decreases until - from,
{
    if from < until {
        let entry = crate::doubleratchet::cache::EntryView {
            ratchet_public,
            counter: from,
            message_key: spec_message_key(hkdf, chain),
        };
        lemma_skip_keeps_generations(
            hkdf,
            spec_next_chain_key(hkdf, chain),
            (from + 1) as u64,
            until,
            ratchet_public,
            cache.store(entry),
        );
    }
}

/// The root key changes only on a Diffie-Hellman ratchet step: sending a
/// message keeps it, and so does receiving a message whose header asks for
/// no step.
pub proof fn lemma_root_key_changes_only_on_ratchet(
    session: SessionView,
    header: HeaderView,
    fresh: KeyPairView,
)
    ensures
        session.encrypt().0.root_key == session.root_key,
        !session.needs_ratchet(header) ==> session.decrypt(header, fresh).0.root_key
            == session.root_key,
        session.decrypt(header, fresh).1.is_err() ==> session.decrypt(header, fresh).0 == session,
{
}

/// The fresh key pair counts only where the header asks for a
/// Diffie-Hellman ratchet step: receiving any other message gives the same
/// outcome and the same state whatever key pair is at hand.
pub proof fn lemma_fresh_key_pair_counts_only_on_ratchet(
    session: SessionView,
    header: HeaderView,
    one: KeyPairView,
    other: KeyPairView,
)
    requires
        !session.needs_ratchet(header),
    ensures
        session.decrypt(header, one) == session.decrypt(header, other),
{
}

/// Sending a message advances the sending chain by exactly one step and
/// touches nothing of the receiving side; the message key is that of the
/// chain key before the step.
pub proof fn lemma_encrypt_advances_sending_chain(session: SessionView)
    requires
        session.sending_counter < u64::MAX,
    ensures
        session.encrypt().0.sending_counter == session.sending_counter + 1,
        session.encrypt().0.sending_chain == spec_advance(
            session.suite.hkdf,
            session.sending_chain,
            1,
        ),
        session.encrypt().1.counter == session.sending_counter,
        session.encrypt().1.ratchet_public == session.ratchet.public,
        session.encrypt().0.ratchet == session.ratchet,
        session.encrypt().0.receiving_chain == session.receiving_chain,
        session.encrypt().0.receiving_counter == session.receiving_counter,
        session.encrypt().0.cache == session.cache,
{
    reveal_with_fuel(spec_advance, 2);
}

/// What a Diffie-Hellman ratchet step leaves: the root key went through two
/// derivations, one with each agreement; the new sending chain comes from
/// the second; the old sending chain's length is kept for the peer, and
/// both counters start again. Nothing of the old sending chain is in the
/// state after.
pub proof fn lemma_ratchet_step(session: SessionView, header: HeaderView, fresh: KeyPairView)
    requires
        session.ratchet(header, fresh).is_ok(),
    ensures
        ({
            let stepped = session.ratchet(header, fresh).unwrap();
            let received = agreement::spec_agree(
                session.suite.agreement,
                session.ratchet.private,
                header.ratchet_public,
            ).unwrap();
            let sent = agreement::spec_agree(
                session.suite.agreement,
                fresh.private,
                header.ratchet_public,
            ).unwrap();
            let root = spec_next_root_key(session.suite.hkdf, session.root_key, received);
            &&& stepped.root_key == spec_next_root_key(session.suite.hkdf, root, sent)
            &&& stepped.sending_chain == spec_new_chain_key(session.suite.hkdf, root, sent)
            &&& stepped.receiving_chain == Some(
                spec_new_chain_key(session.suite.hkdf, session.root_key, received),
            )
            &&& stepped.ratchet == fresh
            &&& stepped.sending_counter == 0
            &&& stepped.receiving_counter == 0
            &&& stepped.previous_sending_chain_length == session.sending_counter
        }),
{
}

/// A session starts in order: whichever side it is of, its cache keeps its
/// bounds and is in order.
pub proof fn lemma_sessions_start_in_order(
    suite: Suite,
    shared_secret: Seq<u8>,
    ratchet: KeyPairView,
    own: KeyPairView,
    peer_ratchet_public: Seq<u8>,
    fresh: KeyPairView,
    max_entries: usize,
    max_generations: usize,
)
    ensures
        spec_init_initiator(
            suite,
            shared_secret,
            ratchet,
            peer_ratchet_public,
            max_entries,
            max_generations,
        ) matches Ok(session) ==> session.bounded() && session.in_order(),
        spec_init_responder(
            suite,
            shared_secret,
            own,
            peer_ratchet_public,
            fresh,
            max_entries,
            max_generations,
        ) matches Ok(session) ==> session.bounded() && session.in_order(),
{
}

/// Sending keeps the session in order: it touches neither the cache nor
/// the receiving chain.
pub proof fn lemma_encrypt_keeps_order(session: SessionView)
    requires
        session.bounded(),
        session.in_order(),
    ensures
        session.encrypt().0.bounded(),
        session.encrypt().0.in_order(),
{
}

/// The two sides of a handshake start in step: given that the agreement of
/// the initiator's ratchet key with the responder's published key gives
/// both sides the same secret, as a Diffie-Hellman agreement does, the
/// responder follows the initiator from the first message on.
pub proof fn lemma_sessions_start_in_step(
    suite: Suite,
    shared_secret: Seq<u8>,
    initiator_ratchet: KeyPairView,
    responder_own: KeyPairView,
    fresh: KeyPairView,
    max_entries: usize,
    max_generations: usize,
)
    requires
        agreement::spec_agree(suite.agreement, initiator_ratchet.private, responder_own.public)
            == agreement::spec_agree(
            suite.agreement,
            responder_own.private,
            initiator_ratchet.public,
        ),
        spec_init_initiator(
            suite,
            shared_secret,
            initiator_ratchet,
            responder_own.public,
            max_entries,
            max_generations,
        ).is_ok(),
        spec_init_responder(
            suite,
            shared_secret,
            responder_own,
            initiator_ratchet.public,
            fresh,
            max_entries,
            max_generations,
        ).is_ok(),
    ensures
        follows(
            spec_init_responder(
                suite,
                shared_secret,
                responder_own,
                initiator_ratchet.public,
                fresh,
                max_entries,
                max_generations,
            ).unwrap(),
            spec_init_initiator(
                suite,
                shared_secret,
                initiator_ratchet,
                responder_own.public,
                max_entries,
                max_generations,
            ).unwrap(),
        ),
{
    reveal_with_fuel(spec_advance, 1);
}

} // verus!
