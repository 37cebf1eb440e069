use vstd::prelude::*;
use crate::doubleratchet::kdf::spec_advance;
use crate::doubleratchet::kdf::Suite;
use crate::doubleratchet::laws::follows;
use crate::doubleratchet::laws::lemma_decrypt_recovers_message_key;
use crate::doubleratchet::laws::lemma_sessions_start_in_order;
use crate::doubleratchet::laws::lemma_sessions_start_in_step;
use crate::doubleratchet::order::lemma_advance_twice;
use crate::doubleratchet::order::lemma_any_order_decrypts_once;
use crate::doubleratchet::order::spec_deliver;
use crate::doubleratchet::order::spec_key_of;
use crate::doubleratchet::session::spec_init_initiator;
use crate::doubleratchet::session::spec_init_responder;
use crate::doubleratchet::session::HeaderView;
use crate::doubleratchet::session::KeyPairView;
use crate::doubleratchet::session::SessionView;
use crate::ec::agreement;
use crate::error::Error;

verus! {

/// The sender after it sent `count` messages.
pub open spec fn spec_sent(sender: SessionView, count: nat) -> SessionView
    decreases count,
{
    if count == 0 {
        sender
    } else {
        spec_sent(sender, (count - 1) as nat).encrypt().0
    }
}

/// The header of the message that the sender sends after `index` others.
pub open spec fn spec_header(sender: SessionView, index: nat) -> HeaderView {
    spec_sent(sender, index).encrypt().1
}

/// The message key that the sender is given for the message that it sends
/// after `index` others.
pub open spec fn spec_key(sender: SessionView, index: nat) -> Seq<u8> {
    spec_sent(sender, index).encrypt().2
}

/// The headers of the messages that the sender sends after as many others
/// as `order` says, one by one.
pub open spec fn spec_headers(sender: SessionView, order: Seq<nat>) -> Seq<HeaderView> {
    Seq::new(order.len(), |k: int| spec_header(sender, order[k]))
}

/// Sending advances the sending chain by one step for each message and
/// counts it, and changes nothing else.
pub proof fn lemma_sent(sender: SessionView, count: nat)
    requires
        sender.sending_counter + count <= u64::MAX,
    ensures
        spec_sent(sender, count) == (SessionView {
            sending_chain: spec_advance(sender.suite.hkdf, sender.sending_chain, count),
            sending_counter: (sender.sending_counter + count) as u64,
            ..sender
        }),
    decreases count,
{
    if count > 0 {
        lemma_sent(sender, (count - 1) as nat);
        lemma_advance_twice(sender.suite.hkdf, sender.sending_chain, (count - 1) as nat, 1);
        reveal_with_fuel(spec_advance, 2);
    }
}

/// The keys that the sender is given are the keys of the receiver's chain:
/// for a receiver that follows the sender, the header of each message
/// that the sender sends names the sender's ratchet key and the place of
/// the message in the chain, and its message key is the key of that place
/// in the receiver's receiving chain.
pub proof fn lemma_sent_key_is_chain_key(sender: SessionView, receiver: SessionView, index: nat)
    requires
        follows(receiver, sender),
        sender.sending_counter + index < u64::MAX,
    ensures
        spec_header(sender, index) == (HeaderView {
            ratchet_public: sender.ratchet.public,
            previous_chain_length: sender.previous_sending_chain_length,
            counter: (sender.sending_counter + index) as u64,
        }),
        spec_key(sender, index) == spec_key_of(
            receiver.suite.hkdf,
            receiver.receiving_chain.unwrap(),
            receiver.receiving_counter,
            (sender.sending_counter + index) as u64,
        ),
{
    lemma_sent(sender, index);
    lemma_advance_twice(
        receiver.suite.hkdf,
        receiver.receiving_chain.unwrap(),
        (sender.sending_counter - receiver.receiving_counter) as nat,
        index,
    );
}

/// The responder of a handshake recovers the message key of the
/// initiator's first message: given that the agreement of the initiator's
/// ratchet key with the responder's published key gives both sides the
/// same secret, as a Diffie-Hellman agreement does, the responder
/// recovers from the header of that message the message key that the
/// initiator was given for it, whatever the plaintext is.
pub proof fn lemma_first_message_is_recovered(
    suite: Suite,
    shared_secret: Seq<u8>,
    initiator_ratchet: KeyPairView,
    responder_own: KeyPairView,
    fresh: KeyPairView,
    again: KeyPairView,
    max_entries: usize,
    max_generations: usize,
)
    requires
        agreement::spec_agree(suite.agreement, initiator_ratchet.private, responder_own.public)
            == agreement::spec_agree(
            suite.agreement,
            responder_own.private,
            initiator_ratchet.public,
        ),
        spec_init_initiator(
            suite,
            shared_secret,
            initiator_ratchet,
            responder_own.public,
            max_entries,
            max_generations,
        ).is_ok(),
        spec_init_responder(
            suite,
            shared_secret,
            responder_own,
            initiator_ratchet.public,
            fresh,
            max_entries,
            max_generations,
        ).is_ok(),
    ensures
        ({
            let initiator = spec_init_initiator(
                suite,
                shared_secret,
                initiator_ratchet,
                responder_own.public,
                max_entries,
                max_generations,
            ).unwrap();
            let responder = spec_init_responder(
                suite,
                shared_secret,
                responder_own,
                initiator_ratchet.public,
                fresh,
                max_entries,
                max_generations,
            ).unwrap();
            &&& follows(responder, initiator)
            &&& responder.decrypt(initiator.encrypt().1, again).1 == Ok::<Seq<u8>, Error>(
                initiator.encrypt().2,
            )
        }),
{
    let initiator = spec_init_initiator(
        suite,
        shared_secret,
        initiator_ratchet,
        responder_own.public,
        max_entries,
        max_generations,
    ).unwrap();
    let responder = spec_init_responder(
        suite,
        shared_secret,
        responder_own,
        initiator_ratchet.public,
        fresh,
        max_entries,
        max_generations,
    ).unwrap();
    lemma_sessions_start_in_step(
        suite,
        shared_secret,
        initiator_ratchet,
        responder_own,
        fresh,
        max_entries,
        max_generations,
    );
    lemma_sessions_start_in_order(
        suite,
        shared_secret,
        initiator_ratchet,
        responder_own,
        initiator_ratchet.public,
        fresh,
        max_entries,
        max_generations,
    );
    lemma_decrypt_recovers_message_key(initiator, responder, again);
}

/// Messages that arrive out of order decrypt to the keys that the sender
/// was given.
///
/// A receiver follows a sender and has received all that the sender sent.
/// The sender sends `count` messages. Any number of them arrive, each
/// once, in any order; the cache has room for those that are passed on the
/// way. Then each of them decrypts, when it arrives, to the message key
/// that the sender was given for it.
pub proof fn lemma_any_order_recovers_sent_keys(
    sender: SessionView,
    receiver: SessionView,
    order: Seq<nat>,
    count: nat,
    fresh: KeyPairView,
)
    requires
        receiver.bounded(),
        receiver.in_order(),
        follows(receiver, sender),
        sender.sending_counter == receiver.receiving_counter,
        sender.sending_counter + count < u64::MAX,
        receiver.cache.entries.len() + count <= receiver.cache.max_entries + 1,
        forall|k: int| 0 <= k < order.len() ==> #[trigger] order[k] < count,
        forall|a: int, b: int| 0 <= a < b < order.len() ==> #[trigger] order[a] != #[trigger] order[b],
    ensures
        forall|k: int|
            0 <= k < order.len() ==> (#[trigger] spec_deliver(
                receiver,
                spec_headers(sender, order.subrange(0, k)),
                fresh,
            )).decrypt(spec_header(sender, order[k]), fresh).1 == Ok::<Seq<u8>, Error>(
                spec_key(sender, order[k]),
            ),
{
    let headers = spec_headers(sender, order);
    assert forall|k: int| 0 <= k < headers.len() implies (#[trigger] headers[k]).ratchet_public
        == receiver.peer_ratchet_public() && receiver.receiving_counter <= headers[k].counter
        < receiver.receiving_counter + count by {
        assert(order[k] < count);
        lemma_sent_key_is_chain_key(sender, receiver, order[k]);
    }
    assert forall|a: int, b: int| 0 <= a < b < headers.len() implies (#[trigger] headers[a]).counter
        != (#[trigger] headers[b]).counter by {
        assert(order[a] < count && order[b] < count);
        assert(order[a] != order[b]);
        lemma_sent_key_is_chain_key(sender, receiver, order[a]);
        lemma_sent_key_is_chain_key(sender, receiver, order[b]);
    }
    lemma_any_order_decrypts_once(receiver, headers, count, fresh);
    assert forall|k: int| 0 <= k < order.len() implies (#[trigger] spec_deliver(
        receiver,
        spec_headers(sender, order.subrange(0, k)),
        fresh,
    )).decrypt(spec_header(sender, order[k]), fresh).1 == Ok::<Seq<u8>, Error>(
        spec_key(sender, order[k]),
    ) by {
        assert(order[k] < count);
        lemma_sent_key_is_chain_key(sender, receiver, order[k]);
        assert(spec_headers(sender, order.subrange(0, k)) =~= headers.subrange(0, k));
        assert(headers[k] == spec_header(sender, order[k]));
        let before = spec_deliver(receiver, headers.subrange(0, k), fresh);
        assert(before.decrypt(headers[k], fresh).1 == Ok::<Seq<u8>, Error>(
            spec_key_of(
                receiver.suite.hkdf,
                receiver.receiving_chain.unwrap(),
                receiver.receiving_counter,
                headers[k].counter,
            ),
        ));
    }
}

} // verus!
