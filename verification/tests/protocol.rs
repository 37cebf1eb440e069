use e2ee::doubleratchet::Header;
use e2ee::doubleratchet::RatchetKeyPair;
use e2ee::doubleratchet::RatchetSession;
use e2ee::doubleratchet::Suite;
use e2ee::ec::agreement;
use e2ee::ec::signature;
use e2ee::hkdf;
use e2ee::peer::Peer;
use e2ee::peer::PeerConfig;
use e2ee::tunnel::Tunnel;
use e2ee::tunnel::TunnelConfig;
use e2ee::x3dh::handshake::initiate;
use e2ee::x3dh::handshake::respond;
use e2ee::x3dh::handshake::respond_from_storage;
use e2ee::x3dh::IdentityKeyPair;
use e2ee::x3dh::KeyStorage;
use e2ee::x3dh::MemoryKeyStorage;
use e2ee::x3dh::PeerPreKeyBundle;
use e2ee::Error;

fn suite() -> Suite {
    Suite { agreement: agreement::Algorithm::X25519, hkdf: hkdf::Algorithm::Sha256 }
}

fn config(max_skipped_keys: usize, max_generations: usize) -> PeerConfig {
    PeerConfig {
        suite: suite(),
        signature: signature::Algorithm::Ed25519,
        tunnel: TunnelConfig { max_skipped_keys, max_generations },
    }
}

struct Responder {
    identity: IdentityKeyPair,
    signed_prekey: RatchetKeyPair,
    storage: MemoryKeyStorage,
    bundle: PeerPreKeyBundle,
}

fn responder(suite: Suite, algorithm: signature::Algorithm, one_time: bool) -> Responder {
    let identity = IdentityKeyPair::generate(suite, algorithm).unwrap();
    let signed_prekey = RatchetKeyPair::generate(suite.agreement).unwrap();
    let signature = identity.sign(algorithm, signed_prekey.public()).unwrap();
    let mut storage = MemoryKeyStorage::new();
    let mut one_time_prekey_id = None;
    let mut one_time_prekey_public = None;
    if one_time {
        let key = RatchetKeyPair::generate(suite.agreement).unwrap();
        assert!(storage.put(7, key.private().to_vec()));
        one_time_prekey_id = Some(7);
        one_time_prekey_public = Some(key.public().to_vec());
    }
    let bundle = PeerPreKeyBundle {
        identity: identity.public(),
        signed_prekey_id: 1,
        signed_prekey_public: signed_prekey.public().to_vec(),
        signature,
        one_time_prekey_id,
        one_time_prekey_public,
    };
    Responder { identity, signed_prekey, storage, bundle }
}

fn tunnels(max_skipped_keys: usize, max_generations: usize) -> (Tunnel, Tunnel) {
    let cfg = config(max_skipped_keys, max_generations);
    let mut bob = responder(cfg.suite, cfg.signature, true);
    let alice = Peer::new(IdentityKeyPair::generate(cfg.suite, cfg.signature).unwrap(), cfg);
    let ephemeral = RatchetKeyPair::generate(cfg.suite.agreement).unwrap();
    let ephemeral_public = ephemeral.public().to_vec();
    let alice_tunnel = alice.handshake_3xdh_with(bob.bundle.clone(), ephemeral).unwrap();
    let bob_peer = Peer::new(bob.identity, cfg);
    let fresh = RatchetKeyPair::generate(cfg.suite.agreement).unwrap();
    let bob_tunnel = bob_peer
        .accept_3xdh_with(
            &bob.signed_prekey,
            &mut bob.storage,
            bob.bundle.one_time_prekey_id,
            &alice.identity(),
            &ephemeral_public,
            fresh,
        )
        .unwrap();
    assert!(bob.storage.get(7).is_none());
    (alice_tunnel, bob_tunnel)
}

#[test]
fn both_sides_derive_the_same_shared_secret() {
    for one_time in [false, true] {
        let cfg = config(1000, 5);
        let bob = responder(cfg.suite, cfg.signature, one_time);
        let alice = IdentityKeyPair::generate(cfg.suite, cfg.signature).unwrap();
        let ephemeral = RatchetKeyPair::generate(cfg.suite.agreement).unwrap();
        let initiated = initiate(cfg.suite, cfg.signature, &alice, &ephemeral, &bob.bundle).unwrap();
        let one_time_key = bob.bundle.one_time_prekey_id.map(|id| bob.storage.get(id).unwrap());
        let responded = respond(
            cfg.suite,
            &bob.identity,
            &bob.signed_prekey,
            one_time_key.as_deref(),
            &alice.public(),
            ephemeral.public(),
        )
        .unwrap();
        assert_eq!(initiated.shared_secret().len(), 32);
        assert_eq!(initiated.shared_secret(), responded.shared_secret());
        assert_eq!(initiated.associated_data(), responded.associated_data());
        let mut expected = alice.public().to_bytes();
        expected.extend_from_slice(&bob.identity.public().to_bytes());
        assert_eq!(initiated.associated_data(), expected.as_slice());
    }
}

#[test]
fn the_one_time_prekey_changes_the_shared_secret() {
    let cfg = config(1000, 5);
    let bob = responder(cfg.suite, cfg.signature, true);
    let alice = IdentityKeyPair::generate(cfg.suite, cfg.signature).unwrap();
    let ephemeral = RatchetKeyPair::generate(cfg.suite.agreement).unwrap();
    let with = initiate(cfg.suite, cfg.signature, &alice, &ephemeral, &bob.bundle).unwrap();
    let without = respond(
        cfg.suite,
        &bob.identity,
        &bob.signed_prekey,
        None,
        &alice.public(),
        ephemeral.public(),
    )
    .unwrap();
    assert_ne!(with.shared_secret(), without.shared_secret());
}

#[test]
fn both_sides_derive_the_same_shared_secret_over_p256_with_ecdsa() {
    let suite = Suite { agreement: agreement::Algorithm::EcdhP256, hkdf: hkdf::Algorithm::Sha384 };
    let algorithm = signature::Algorithm::EcdsaP256Sha256Asn1;
    let bob = responder(suite, algorithm, true);
    let alice = IdentityKeyPair::generate(suite, algorithm).unwrap();
    let ephemeral = RatchetKeyPair::generate(suite.agreement).unwrap();
    let initiated = initiate(suite, algorithm, &alice, &ephemeral, &bob.bundle).unwrap();
    let one_time_key = bob.storage.get(7).unwrap();
    let responded = respond(
        suite,
        &bob.identity,
        &bob.signed_prekey,
        Some(&one_time_key),
        &alice.public(),
        ephemeral.public(),
    )
    .unwrap();
    assert_eq!(initiated.shared_secret(), responded.shared_secret());
}

#[test]
fn a_forged_bundle_is_rejected() {
    let cfg = config(1000, 5);
    let mut bob = responder(cfg.suite, cfg.signature, true);
    bob.bundle.signature[0] ^= 1;
    let alice = IdentityKeyPair::generate(cfg.suite, cfg.signature).unwrap();
    let ephemeral = RatchetKeyPair::generate(cfg.suite.agreement).unwrap();
    let outcome = initiate(cfg.suite, cfg.signature, &alice, &ephemeral, &bob.bundle);
    assert_eq!(outcome.err(), Some(Error::SignatureInvalid));
    let peer = Peer::new(alice, cfg);
    assert_eq!(peer.handshake_3xdh(bob.bundle).err(), Some(Error::SignatureInvalid));
}

#[test]
fn a_bundle_signed_by_another_identity_is_rejected() {
    let cfg = config(1000, 5);
    let mut bob = responder(cfg.suite, cfg.signature, false);
    let mallory = responder(cfg.suite, cfg.signature, false);
    bob.bundle.signed_prekey_public = mallory.bundle.signed_prekey_public;
    bob.bundle.signature = mallory.bundle.signature;
    let alice = Peer::new(IdentityKeyPair::generate(cfg.suite, cfg.signature).unwrap(), cfg);
    assert_eq!(alice.handshake_3xdh(bob.bundle).err(), Some(Error::SignatureInvalid));
}

#[test]
fn a_key_of_another_curve_is_rejected() {
    let cfg = config(1000, 5);
    let mut bob = responder(cfg.suite, cfg.signature, false);
    let other = RatchetKeyPair::generate(agreement::Algorithm::EcdhP256).unwrap();
    bob.bundle.identity.agreement = other.public().to_vec();
    let alice = IdentityKeyPair::generate(cfg.suite, cfg.signature).unwrap();
    let ephemeral = RatchetKeyPair::generate(cfg.suite.agreement).unwrap();
    let outcome = initiate(cfg.suite, cfg.signature, &alice, &ephemeral, &bob.bundle);
    assert_eq!(outcome.err(), Some(Error::KeyRejected));
}

#[test]
fn an_algorithm_without_backend_is_unsupported() {
    assert_eq!(
        RatchetKeyPair::generate(agreement::Algorithm::X448).err(),
        Some(Error::UnsupportedAgreementAlgorithm)
    );
    assert_eq!(
        signature::generate_signing_key(signature::Algorithm::Ed448).err(),
        Some(Error::UnsupportedSignatureAlgorithm)
    );
    assert_eq!(
        agreement::agree(agreement::Algorithm::X448, &[1; 56], &[2; 56]).err(),
        Some(Error::UnsupportedAgreementAlgorithm)
    );
    assert!(!signature::verify(signature::Algorithm::Ed448, &[1; 57], b"m", &[0; 114]));
}

#[test]
fn a_one_time_prekey_serves_one_handshake() {
    let cfg = config(1000, 5);
    let mut bob = responder(cfg.suite, cfg.signature, true);
    let alice = IdentityKeyPair::generate(cfg.suite, cfg.signature).unwrap();
    let carol = IdentityKeyPair::generate(cfg.suite, cfg.signature).unwrap();
    let alice_ephemeral = RatchetKeyPair::generate(cfg.suite.agreement).unwrap();
    let carol_ephemeral = RatchetKeyPair::generate(cfg.suite.agreement).unwrap();
    let alice_secret =
        initiate(cfg.suite, cfg.signature, &alice, &alice_ephemeral, &bob.bundle).unwrap();
    let carol_secret =
        initiate(cfg.suite, cfg.signature, &carol, &carol_ephemeral, &bob.bundle).unwrap();
    let first = respond_from_storage(
        cfg.suite,
        &bob.identity,
        &bob.signed_prekey,
        &mut bob.storage,
        Some(7),
        &alice.public(),
        alice_ephemeral.public(),
    )
    .unwrap();
    assert_eq!(first.shared_secret(), alice_secret.shared_secret());
    assert!(bob.storage.get(7).is_none());
    assert!(bob.storage.take(7).is_none());
    let second = respond_from_storage(
        cfg.suite,
        &bob.identity,
        &bob.signed_prekey,
        &mut bob.storage,
        Some(7),
        &carol.public(),
        carol_ephemeral.public(),
    );
    assert_eq!(second.err(), Some(Error::KeyRejected));
    let without = respond_from_storage(
        cfg.suite,
        &bob.identity,
        &bob.signed_prekey,
        &mut bob.storage,
        None,
        &carol.public(),
        carol_ephemeral.public(),
    )
    .unwrap();
    assert_ne!(without.shared_secret(), carol_secret.shared_secret());
}

#[test]
fn a_failed_handshake_keeps_the_one_time_prekey() {
    let cfg = config(1000, 5);
    let mut bob = responder(cfg.suite, cfg.signature, true);
    let alice = IdentityKeyPair::generate(cfg.suite, cfg.signature).unwrap();
    let outcome = respond_from_storage(
        cfg.suite,
        &bob.identity,
        &bob.signed_prekey,
        &mut bob.storage,
        Some(7),
        &alice.public(),
        &[1, 2, 3],
    );
    assert_eq!(outcome.err(), Some(Error::KeyRejected));
    assert!(bob.storage.get(7).is_some());
}

#[test]
fn storage_puts_gets_and_takes() {
    let mut storage = MemoryKeyStorage::new();
    assert!(storage.get(1).is_none());
    assert!(storage.put(1, vec![1, 1]));
    assert!(storage.put(2, vec![2]));
    assert!(storage.put(1, vec![3]));
    assert_eq!(storage.get(1), Some(vec![3]));
    assert_eq!(storage.get(2), Some(vec![2]));
    assert_eq!(storage.take(1), Some(vec![3]));
    assert_eq!(storage.take(1), None);
    assert_eq!(storage.get(1), None);
    assert_eq!(storage.get(2), Some(vec![2]));
}

#[test]
fn decrypt_recovers_the_message_key_of_encrypt() {
    let (mut alice, mut bob) = tunnels(1000, 5);
    assert_eq!(alice.associated_data(), bob.associated_data());
    for length in [0usize, 1, 16, 1000] {
        let plaintext = vec![0x5a; length];
        let (header, key) = alice.encrypt(&plaintext);
        assert_eq!(key.as_ref().len(), 32);
        let recovered = bob.decrypt(&header).unwrap();
        assert_eq!(recovered.as_ref(), key.as_ref());
    }
    for _ in 0..3 {
        let (header, key) = bob.encrypt(b"reply");
        assert_eq!(alice.decrypt(&header).unwrap().as_ref(), key.as_ref());
    }
}

#[test]
fn headers_count_the_messages_of_a_chain() {
    let (mut alice, mut bob) = tunnels(1000, 5);
    let (first, _) = alice.encrypt(b"a");
    let (second, _) = alice.encrypt(b"b");
    assert_eq!(first.counter, 0);
    assert_eq!(second.counter, 1);
    assert_eq!(first.previous_chain_length, 0);
    assert_eq!(first.ratchet_public, alice.session().ratchet_public());
    assert_eq!(alice.session().sending_counter(), 2);
    bob.decrypt(&second).unwrap();
    assert_eq!(bob.session().receiving_counter(), 2);
    assert_eq!(bob.session().skipped_len(), 1);
    let (reply, _) = bob.encrypt(b"c");
    alice.decrypt(&reply).unwrap();
    let (third, _) = alice.encrypt(b"d");
    assert_eq!(third.counter, 0);
    assert_eq!(third.previous_chain_length, 2);
    assert_ne!(third.ratchet_public, first.ratchet_public);
}

#[test]
fn message_keys_are_all_different() {
    let (mut alice, _bob) = tunnels(1000, 5);
    let mut keys: Vec<Vec<u8>> = Vec::new();
    for _ in 0..20 {
        let (_, key) = alice.encrypt(b"m");
        assert!(!keys.contains(&key.as_ref().to_vec()));
        keys.push(key.as_ref().to_vec());
    }
}

#[test]
fn the_root_key_changes_on_a_ratchet_step_only() {
    let (mut alice, mut bob) = tunnels(1000, 5);
    let root = bob.session().root_key().to_vec();
    let (header, _) = alice.encrypt(b"a");
    bob.decrypt(&header).unwrap();
    let (header, _) = alice.encrypt(b"b");
    bob.decrypt(&header).unwrap();
    let (reply, _) = bob.encrypt(b"c");
    assert_eq!(bob.session().root_key(), root.as_slice());
    let before = alice.session().root_key().to_vec();
    let old_public = alice.session().ratchet_public().to_vec();
    alice.decrypt(&reply).unwrap();
    assert_ne!(alice.session().root_key(), before.as_slice());
    assert_ne!(alice.session().ratchet_public(), old_public.as_slice());
    assert_eq!(alice.session().previous_sending_chain_length(), 2);
    assert_eq!(alice.session().sending_counter(), 0);
    let (header, key) = alice.encrypt(b"d");
    assert_eq!(bob.decrypt(&header).unwrap().as_ref(), key.as_ref());
    assert_ne!(bob.session().root_key(), root.as_slice());
}

#[test]
fn messages_out_of_order_decrypt_once() {
    let (mut alice, mut bob) = tunnels(1000, 5);
    let mut sent: Vec<(Header, Vec<u8>)> = Vec::new();
    for _ in 0..6 {
        let (header, key) = alice.encrypt(b"m");
        sent.push((header, key.as_ref().to_vec()));
    }
    for index in [3usize, 0, 5, 1, 4, 2] {
        let (header, key) = &sent[index];
        assert_eq!(bob.decrypt(header).unwrap().as_ref(), key.as_slice());
    }
    assert_eq!(bob.session().skipped_len(), 0);
    for (header, _) in &sent {
        assert_eq!(bob.decrypt(header).err(), Some(Error::DuplicateMessage));
    }
    assert_eq!(bob.session().receiving_counter(), 6);
}

#[test]
fn messages_across_a_ratchet_step_decrypt_out_of_order() {
    let (mut alice, mut bob) = tunnels(1000, 5);
    let (a0, k0) = alice.encrypt(b"a0");
    let (a1, k1) = alice.encrypt(b"a1");
    bob.decrypt(&a0).unwrap();
    let (b0, _) = bob.encrypt(b"b0");
    alice.decrypt(&b0).unwrap();
    let (a2, k2) = alice.encrypt(b"a2");
    assert_eq!(a2.previous_chain_length, 2);
    assert_eq!(bob.decrypt(&a2).unwrap().as_ref(), k2.as_ref());
    assert_eq!(bob.decrypt(&a1).unwrap().as_ref(), k1.as_ref());
    assert_eq!(bob.decrypt(&a1).err(), Some(Error::DuplicateMessage));
    assert_eq!(bob.decrypt(&a0).err(), Some(Error::DuplicateMessage));
    assert_eq!(k0.as_ref().len(), 32);
}

#[test]
fn a_skipped_key_beyond_the_bound_expires() {
    let (mut alice, mut bob) = tunnels(2, 5);
    let mut sent: Vec<(Header, Vec<u8>)> = Vec::new();
    for _ in 0..5 {
        let (header, key) = alice.encrypt(b"m");
        sent.push((header, key.as_ref().to_vec()));
    }
    assert_eq!(bob.decrypt(&sent[4].0).unwrap().as_ref(), sent[4].1.as_slice());
    assert_eq!(bob.session().skipped_len(), 2);
    assert_eq!(bob.decrypt(&sent[0].0).err(), Some(Error::MessageKeyExpired));
    assert_eq!(bob.decrypt(&sent[1].0).err(), Some(Error::MessageKeyExpired));
    assert_eq!(bob.decrypt(&sent[2].0).unwrap().as_ref(), sent[2].1.as_slice());
    assert_eq!(bob.decrypt(&sent[3].0).unwrap().as_ref(), sent[3].1.as_slice());
    assert_eq!(bob.decrypt(&sent[0].0).err(), Some(Error::MessageKeyExpired));
    assert_eq!(bob.decrypt(&sent[4].0).err(), Some(Error::DuplicateMessage));
    let (header, key) = alice.encrypt(b"next");
    assert_eq!(bob.decrypt(&header).unwrap().as_ref(), key.as_ref());
}

#[test]
fn a_used_key_below_an_evicted_one_is_a_duplicate() {
    let (mut alice, mut bob) = tunnels(2, 5);
    let mut sent: Vec<(Header, Vec<u8>)> = Vec::new();
    for _ in 0..6 {
        let (header, key) = alice.encrypt(b"m");
        sent.push((header, key.as_ref().to_vec()));
    }
    assert_eq!(bob.decrypt(&sent[0].0).unwrap().as_ref(), sent[0].1.as_slice());
    assert_eq!(bob.decrypt(&sent[5].0).unwrap().as_ref(), sent[5].1.as_slice());
    assert_eq!(bob.session().skipped_len(), 2);
    assert_eq!(bob.decrypt(&sent[0].0).err(), Some(Error::DuplicateMessage));
    assert_eq!(bob.decrypt(&sent[1].0).err(), Some(Error::MessageKeyExpired));
    assert_eq!(bob.decrypt(&sent[2].0).err(), Some(Error::MessageKeyExpired));
    assert_eq!(bob.decrypt(&sent[3].0).unwrap().as_ref(), sent[3].1.as_slice());
    assert_eq!(bob.decrypt(&sent[3].0).err(), Some(Error::DuplicateMessage));
    assert_eq!(bob.decrypt(&sent[0].0).err(), Some(Error::DuplicateMessage));
    assert_eq!(bob.decrypt(&sent[5].0).err(), Some(Error::DuplicateMessage));
    assert_eq!(bob.decrypt(&sent[4].0).unwrap().as_ref(), sent[4].1.as_slice());
    assert_eq!(bob.decrypt(&sent[1].0).err(), Some(Error::MessageKeyExpired));
}

#[test]
fn a_used_key_stays_a_duplicate_across_a_ratchet_step() {
    let (mut alice, mut bob) = tunnels(1, 5);
    let (a0, _) = alice.encrypt(b"a0");
    let (a1, _) = alice.encrypt(b"a1");
    let (a2, _) = alice.encrypt(b"a2");
    let (a3, _) = alice.encrypt(b"a3");
    bob.decrypt(&a0).unwrap();
    bob.decrypt(&a3).unwrap();
    let (b0, _) = bob.encrypt(b"b0");
    alice.decrypt(&b0).unwrap();
    let (next, _) = alice.encrypt(b"next");
    bob.decrypt(&next).unwrap();
    assert_eq!(bob.decrypt(&a0).err(), Some(Error::DuplicateMessage));
    assert_eq!(bob.decrypt(&a1).err(), Some(Error::MessageKeyExpired));
    assert_eq!(bob.decrypt(&a3).err(), Some(Error::DuplicateMessage));
    assert!(bob.decrypt(&a2).is_ok());
    assert_eq!(bob.decrypt(&a2).err(), Some(Error::DuplicateMessage));
}

#[test]
fn evicted_counters_that_follow_each_other_make_one_run() {
    let mut cache = e2ee::doubleratchet::SkippedKeys::new(1, 2);
    cache.open_generation(b"first");
    cache.store(b"first", 0, vec![10]);
    cache.store(b"first", 1, vec![11]);
    cache.store(b"first", 2, vec![12]);
    cache.store(b"first", 4, vec![14]);
    assert_eq!(cache.expired_count(), 1);
    assert_eq!(cache.expired_run(0).first(), 0);
    assert_eq!(cache.expired_run(0).last(), 2);
    cache.store(b"first", 6, vec![16]);
    assert_eq!(cache.expired_count(), 2);
    assert_eq!(cache.expired_run(1).first(), 4);
    assert_eq!(cache.expired_run(1).last(), 4);
    assert_eq!(cache.miss(b"first", 3), Error::DuplicateMessage);
    assert_eq!(cache.miss(b"first", 4), Error::MessageKeyExpired);
    assert_eq!(cache.miss(b"first", 2), Error::MessageKeyExpired);
    assert_eq!(cache.miss(b"first", 5), Error::DuplicateMessage);
    assert!(cache.is_in_order(7));
    assert!(!cache.is_in_order(4));
    cache.open_generation(b"second");
    cache.store(b"second", 0, vec![20]);
    assert_eq!(cache.expired_count(), 3);
    assert_eq!(cache.expired_run(2).ratchet_public(), b"first");
    assert_eq!(cache.expired_run(2).first(), 6);
    cache.open_generation(b"third");
    assert_eq!(cache.find_generation(b"first"), Some(0));
    assert!(!cache.retains(b"first"));
    assert!(cache.retains(b"second"));
    assert!(cache.retains(b"third"));
    assert_eq!(cache.generation_count(), 3);
    assert_eq!(cache.retained_count(), 2);
    assert_eq!(cache.expired_count(), 3);
    assert!(cache.has_expired(b"first", 4));
    assert_eq!(cache.len(), 1);
    assert!(cache.is_in_order(0));
    cache.open_generation(b"fourth");
    assert_eq!(cache.len(), 0);
    assert!(!cache.retains(b"second"));
    assert!(cache.has_expired(b"second", 0));
    assert_eq!(cache.miss(b"second", 0), Error::MessageKeyExpired);
    assert_eq!(cache.miss(b"second", 1), Error::DuplicateMessage);
    assert_eq!(cache.miss(b"first", 6), Error::MessageKeyExpired);
    assert_eq!(cache.retained_count(), 2);
    assert!(cache.is_in_order(0));
}

#[test]
fn a_generation_beyond_the_bound_loses_its_keys() {
    let (mut alice, mut bob) = tunnels(1000, 2);
    let (skipped, _) = alice.encrypt(b"never delivered early");
    let (a1, _) = alice.encrypt(b"a1");
    bob.decrypt(&a1).unwrap();
    assert_eq!(bob.session().skipped_len(), 1);
    let (b0, _) = bob.encrypt(b"b0");
    alice.decrypt(&b0).unwrap();
    let (a2, _) = alice.encrypt(b"a2");
    bob.decrypt(&a2).unwrap();
    assert_eq!(bob.session().skipped_len(), 1);
    let (b1, _) = bob.encrypt(b"b1");
    alice.decrypt(&b1).unwrap();
    let (a3, _) = alice.encrypt(b"a3");
    bob.decrypt(&a3).unwrap();
    assert_eq!(bob.session().skipped_len(), 0);
    let root = bob.session().root_key().to_vec();
    let ratchet = bob.session().ratchet_public().to_vec();
    let stored = bob.session().to_bytes();
    assert_eq!(bob.decrypt(&skipped).err(), Some(Error::MessageKeyExpired));
    assert_eq!(bob.decrypt(&skipped).err(), Some(Error::MessageKeyExpired));
    assert_eq!(bob.decrypt(&a1).err(), Some(Error::DuplicateMessage));
    assert_eq!(bob.decrypt(&a2).err(), Some(Error::DuplicateMessage));
    let never_sent = Header {
        ratchet_public: skipped.ratchet_public.clone(),
        previous_chain_length: 0,
        counter: 7,
    };
    assert_eq!(bob.decrypt(&never_sent).err(), Some(Error::MessageKeyExpired));
    assert_eq!(bob.session().root_key(), root.as_slice());
    assert_eq!(bob.session().ratchet_public(), ratchet.as_slice());
    assert_eq!(bob.session().to_bytes(), stored);
    let (a4, k4) = alice.encrypt(b"a4");
    assert_eq!(bob.decrypt(&a4).unwrap().as_ref(), k4.as_ref());
    let (b2, k) = bob.encrypt(b"b2");
    assert_eq!(alice.decrypt(&b2).unwrap().as_ref(), k.as_ref());
    let mut loaded = RatchetSession::from_bytes(&stored).unwrap();
    assert_eq!(loaded.decrypt(&skipped).err(), Some(Error::MessageKeyExpired));
    assert_eq!(loaded.decrypt(&a1).err(), Some(Error::DuplicateMessage));
}

#[test]
fn a_key_that_can_never_be_derived_has_expired() {
    let (mut alice, mut bob) = tunnels(1000, 5);
    let first = Header {
        ratchet_public: alice.session().peer_ratchet_public().to_vec(),
        previous_chain_length: 0,
        counter: 0,
    };
    assert_eq!(alice.decrypt(&first).err(), Some(Error::MessageKeyExpired));
    assert_eq!(alice.session().receiving_counter(), 0);
    let (a0, _) = alice.encrypt(b"a0");
    bob.decrypt(&a0).unwrap();
    let last = Header {
        ratchet_public: a0.ratchet_public.clone(),
        previous_chain_length: 0,
        counter: u64::MAX,
    };
    assert_eq!(bob.decrypt(&last).err(), Some(Error::MessageKeyExpired));
    let unknown =
        Header { ratchet_public: vec![5; 32], previous_chain_length: 0, counter: u64::MAX };
    assert_eq!(bob.decrypt(&unknown).err(), Some(Error::MessageKeyExpired));
    assert_eq!(bob.decrypt(&a0).err(), Some(Error::DuplicateMessage));
}

#[test]
fn an_error_leaves_the_session_as_it_is() {
    let (mut alice, mut bob) = tunnels(1000, 5);
    let (header, key) = alice.encrypt(b"m");
    let forged = Header { ratchet_public: vec![9; 3], previous_chain_length: 0, counter: 0 };
    let root = bob.session().root_key().to_vec();
    assert_eq!(bob.decrypt(&forged).err(), Some(Error::KeyRejected));
    assert_eq!(bob.session().root_key(), root.as_slice());
    assert_eq!(bob.session().receiving_counter(), 0);
    assert_eq!(bob.decrypt(&header).unwrap().as_ref(), key.as_ref());
    let last = Header {
        ratchet_public: header.ratchet_public.clone(),
        previous_chain_length: 0,
        counter: u64::MAX,
    };
    assert_eq!(bob.decrypt(&last).err(), Some(Error::MessageKeyExpired));
    assert_eq!(bob.decrypt(&header).err(), Some(Error::DuplicateMessage));
    assert_eq!(bob.session().receiving_counter(), 1);
}

#[test]
fn a_session_starts_from_a_shared_secret() {
    let suite = suite();
    let alice_ratchet = RatchetKeyPair::generate(suite.agreement).unwrap();
    let bob_ratchet = RatchetKeyPair::generate(suite.agreement).unwrap();
    let alice_public = alice_ratchet.public().to_vec();
    let mut alice =
        RatchetSession::init_initiator(suite, &[7; 32], alice_ratchet, bob_ratchet.public(), 10, 0)
            .unwrap();
    let mut bob =
        RatchetSession::init_responder(suite, &[7; 32], &bob_ratchet, &alice_public, 10, 0).unwrap();
    assert!(alice.can_send());
    let (header, key) = alice.encrypt(b"hello");
    assert!(!bob.needs_ratchet(&header));
    assert_eq!(bob.decrypt(&header).unwrap().as_ref(), key.as_ref());
    let (reply, key) = bob.encrypt(b"hello");
    assert!(alice.needs_ratchet(&reply));
    assert_eq!(alice.decrypt(&reply).unwrap().as_ref(), key.as_ref());
    assert_eq!(alice.suite(), suite);
}

#[test]
fn the_shared_secret_is_the_derivation_of_the_four_agreements() {
    let cfg = config(1000, 5);
    let bob = responder(cfg.suite, cfg.signature, true);
    let alice = IdentityKeyPair::generate(cfg.suite, cfg.signature).unwrap();
    let ephemeral = RatchetKeyPair::generate(cfg.suite.agreement).unwrap();
    let secret = initiate(cfg.suite, cfg.signature, &alice, &ephemeral, &bob.bundle).unwrap();
    let x25519 = agreement::Algorithm::X25519;
    let one_time_public = bob.bundle.one_time_prekey_public.clone().unwrap();
    let dh1 = agreement::agree(x25519, alice.agreement().private(), &bob.bundle.signed_prekey_public)
        .unwrap();
    let dh2 =
        agreement::agree(x25519, ephemeral.private(), &bob.bundle.identity.agreement).unwrap();
    let dh3 =
        agreement::agree(x25519, ephemeral.private(), &bob.bundle.signed_prekey_public).unwrap();
    let dh4 = agreement::agree(x25519, ephemeral.private(), &one_time_public).unwrap();
    let mut material = Vec::new();
    material.extend_from_slice(dh1.as_ref());
    material.extend_from_slice(dh2.as_ref());
    material.extend_from_slice(dh3.as_ref());
    material.extend_from_slice(dh4.as_ref());
    let expected =
        hkdf::derive(hkdf::Algorithm::Sha256, &[0; 32], &material, b"e2ee x3dh v1", 32).unwrap();
    assert_eq!(secret.shared_secret(), expected.as_slice());
}

#[test]
fn the_chains_are_derived_as_the_formulas_say() {
    let suite = suite();
    let alice_ratchet = RatchetKeyPair::generate(suite.agreement).unwrap();
    let bob_ratchet = RatchetKeyPair::generate(suite.agreement).unwrap();
    let dh = agreement::agree(suite.agreement, alice_ratchet.private(), bob_ratchet.public())
        .unwrap()
        .as_ref()
        .to_vec();
    let mut alice =
        RatchetSession::init_initiator(suite, &[9; 32], alice_ratchet, bob_ratchet.public(), 10, 2)
            .unwrap();
    let root = hkdf::derive(suite.hkdf, &[9; 32], &dh, b"e2ee ratchet v1", 64).unwrap();
    assert_eq!(alice.root_key(), &root[..32]);
    let chain = root[32..].to_vec();
    let first = hkdf::derive(suite.hkdf, &chain, &[1], b"e2ee chain v1", 32).unwrap();
    let next = hkdf::derive(suite.hkdf, &chain, &[2], b"e2ee chain v1", 32).unwrap();
    let second = hkdf::derive(suite.hkdf, &next, &[1], b"e2ee chain v1", 32).unwrap();
    let (_, key) = alice.encrypt(b"a");
    assert_eq!(key.as_ref(), first.as_slice());
    let (_, key) = alice.encrypt(b"b");
    assert_eq!(key.as_ref(), second.as_slice());
    let (message_key, chain_key) = e2ee::doubleratchet::kdf::derive_message_key(suite.hkdf, &chain);
    assert_eq!(message_key.as_ref(), first.as_slice());
    assert_eq!(chain_key, next);
    let (next_root, new_chain) =
        e2ee::doubleratchet::kdf::derive_root_key(suite.hkdf, &[9; 32], &dh);
    assert_eq!(next_root.as_slice(), &root[..32]);
    assert_eq!(new_chain.as_slice(), &root[32..]);
}

#[test]
fn the_usual_bounds_are_a_thousand_keys_of_five_generations() {
    let bounds = TunnelConfig::default();
    assert_eq!(bounds.max_skipped_keys, 1000);
    assert_eq!(bounds.max_generations, 5);
}

#[test]
fn the_cache_evicts_the_oldest_and_remembers_it() {
    let mut cache = e2ee::doubleratchet::SkippedKeys::new(2, 0);
    assert_eq!(cache.max_generations(), 1);
    assert_eq!(cache.max_entries(), 2);
    cache.open_generation(b"first");
    assert!(cache.is_current(b"first"));
    cache.store(b"first", 0, vec![10]);
    cache.store(b"first", 1, vec![11]);
    cache.store(b"first", 2, vec![12]);
    assert_eq!(cache.len(), 2);
    assert_eq!(cache.position(b"first", 0), None);
    assert_eq!(cache.position(b"first", 1), Some(0));
    assert_eq!(cache.entry(0).counter(), 1);
    assert_eq!(cache.entry(1).message_key(), &[12]);
    assert_eq!(cache.entry(1).ratchet_public(), b"first");
    assert_eq!(cache.expired_count(), 1);
    assert_eq!(cache.expired_run(0).ratchet_public(), b"first");
    assert_eq!(cache.expired_run(0).first(), 0);
    assert_eq!(cache.expired_run(0).last(), 0);
    assert!(cache.has_expired(b"first", 0));
    assert!(!cache.has_expired(b"first", 1));
    assert!(!cache.has_expired(b"other", 0));
    assert_eq!(cache.miss(b"first", 0), Error::MessageKeyExpired);
    assert_eq!(cache.miss(b"first", 5), Error::DuplicateMessage);
    assert_eq!(cache.miss(b"other", 0), Error::DuplicateMessage);
    assert_eq!(cache.take(b"first", 2), Some(vec![12]));
    assert_eq!(cache.take(b"first", 2), None);
    assert!(cache.is_in_order(3));
    assert!(!cache.is_in_order(1));
    cache.close(3);
    assert_eq!(cache.miss(b"first", 5), Error::MessageKeyExpired);
    assert_eq!(cache.miss(b"first", 3), Error::MessageKeyExpired);
    assert_eq!(cache.miss(b"first", 2), Error::DuplicateMessage);
    cache.open_generation(b"second");
    assert_eq!(cache.generation_count(), 2);
    assert_eq!(cache.retained_count(), 1);
    assert_eq!(cache.len(), 0);
    assert_eq!(cache.find_generation(b"first"), Some(0));
    assert_eq!(cache.find_generation(b"second"), Some(1));
    assert!(!cache.retains(b"first"));
    assert!(cache.is_current(b"second"));
    assert_eq!(cache.generation(1).ratchet_public(), b"second");
    assert_eq!(cache.miss(b"first", 1), Error::MessageKeyExpired);
    assert_eq!(cache.miss(b"first", 2), Error::DuplicateMessage);
    assert!(cache.is_in_order(0));
}

#[test]
fn a_handshake_that_does_not_start_a_session_keeps_the_one_time_prekey() {
    let cfg = config(1000, 5);
    let mut bob = responder(cfg.suite, cfg.signature, true);
    let alice = IdentityKeyPair::generate(cfg.suite, cfg.signature).unwrap();
    let ephemeral = RatchetKeyPair::generate(cfg.suite.agreement).unwrap();
    let bob_peer = Peer::new(bob.identity, cfg);
    let rejected = RatchetKeyPair::new(vec![1, 2, 3], vec![4, 5, 6]);
    let outcome = bob_peer.accept_3xdh_with(
        &bob.signed_prekey,
        &mut bob.storage,
        Some(7),
        &alice.public(),
        ephemeral.public(),
        rejected,
    );
    assert_eq!(outcome.err(), Some(Error::KeyRejected));
    assert!(bob.storage.get(7).is_some());
    let fresh = RatchetKeyPair::generate(cfg.suite.agreement).unwrap();
    assert!(bob_peer
        .accept_3xdh_with(
            &bob.signed_prekey,
            &mut bob.storage,
            Some(7),
            &alice.public(),
            ephemeral.public(),
            fresh,
        )
        .is_ok());
    assert!(bob.storage.get(7).is_none());
}

#[test]
fn a_failed_handshake_puts_the_one_time_prekey_back() {
    let cfg = config(1000, 5);
    let mut bob = responder(cfg.suite, cfg.signature, true);
    let alice = IdentityKeyPair::generate(cfg.suite, cfg.signature).unwrap();
    let key = bob.storage.get(7).unwrap();
    bob.storage.put(8, vec![8; 32]);
    let outcome = respond_from_storage(
        cfg.suite,
        &bob.identity,
        &bob.signed_prekey,
        &mut bob.storage,
        Some(7),
        &alice.public(),
        &[1, 2, 3],
    );
    assert_eq!(outcome.err(), Some(Error::KeyRejected));
    assert_eq!(bob.storage.get(7), Some(key));
    assert_eq!(bob.storage.get(8), Some(vec![8; 32]));
    let absent = respond_from_storage(
        cfg.suite,
        &bob.identity,
        &bob.signed_prekey,
        &mut bob.storage,
        Some(9),
        &alice.public(),
        &[1, 2, 3],
    );
    assert_eq!(absent.err(), Some(Error::KeyRejected));
    assert_eq!(bob.storage.get(9), None);
}
