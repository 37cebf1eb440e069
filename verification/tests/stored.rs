use e2ee::doubleratchet::Header;
use e2ee::doubleratchet::RatchetKeyPair;
use e2ee::doubleratchet::RatchetSession;
use e2ee::doubleratchet::Suite;
use e2ee::ec::agreement;
use e2ee::hkdf;
use e2ee::Error;

fn pair() -> (RatchetSession, RatchetSession) {
    let suite = Suite { agreement: agreement::Algorithm::X25519, hkdf: hkdf::Algorithm::Sha256 };
    let alice_ratchet = RatchetKeyPair::generate(suite.agreement).unwrap();
    let bob_ratchet = RatchetKeyPair::generate(suite.agreement).unwrap();
    let alice_public = alice_ratchet.public().to_vec();
    let alice =
        RatchetSession::init_initiator(suite, &[3; 32], alice_ratchet, bob_ratchet.public(), 100, 3)
            .unwrap();
    let bob =
        RatchetSession::init_responder(suite, &[3; 32], &bob_ratchet, &alice_public, 100, 3).unwrap();
    (alice, bob)
}

#[test]
fn a_stored_session_is_loaded_whole() {
    let (mut alice, mut bob) = pair();
    let mut sent: Vec<(Header, Vec<u8>)> = Vec::new();
    for _ in 0..4 {
        let (header, key) = alice.encrypt(b"m");
        sent.push((header, key.as_ref().to_vec()));
    }
    bob.decrypt(&sent[3].0).unwrap();
    assert_eq!(bob.skipped_len(), 3);
    let stored = bob.to_bytes();
    let mut loaded = RatchetSession::from_bytes(&stored).unwrap();
    assert_eq!(loaded.to_bytes(), stored);
    assert_eq!(loaded.skipped_len(), 3);
    assert_eq!(loaded.receiving_counter(), 4);
    assert_eq!(loaded.root_key(), bob.root_key());
    for index in [1usize, 0, 2] {
        assert_eq!(loaded.decrypt(&sent[index].0).unwrap().as_ref(), sent[index].1.as_slice());
    }
    assert_eq!(loaded.decrypt(&sent[3].0).err(), Some(Error::DuplicateMessage));
    let (reply, key) = loaded.encrypt(b"r");
    assert_eq!(alice.decrypt(&reply).unwrap().as_ref(), key.as_ref());
}

#[test]
fn a_stored_initiator_is_loaded() {
    let (alice, _bob) = pair();
    let stored = alice.to_bytes();
    let loaded = RatchetSession::from_bytes(&stored).unwrap();
    assert_eq!(loaded.to_bytes(), stored);
    assert_eq!(loaded.ratchet_public(), alice.ratchet_public());
    assert_eq!(loaded.suite(), alice.suite());
}

#[test]
fn stored_bytes_begin_with_the_mark_and_the_algorithms() {
    let (alice, _bob) = pair();
    let stored = alice.to_bytes();
    let mut expected: Vec<u8> = vec![0];
    expected.extend_from_slice(&0x0153_5232_4545_3245u64.to_le_bytes());
    expected.push(0);
    expected.extend_from_slice(&1034u64.to_le_bytes());
    expected.push(0);
    expected.extend_from_slice(&1496u64.to_le_bytes());
    expected.push(1);
    expected.extend_from_slice(&32u64.to_le_bytes());
    expected.extend_from_slice(alice.root_key());
    assert_eq!(&stored[..expected.len()], expected.as_slice());
}

#[test]
fn a_session_stored_in_part_is_corrupt() {
    let (mut alice, mut bob) = pair();
    let (_first, _) = alice.encrypt(b"a");
    let (second, _) = alice.encrypt(b"b");
    bob.decrypt(&second).unwrap();
    let stored = bob.to_bytes();
    for len in 0..stored.len() {
        assert_eq!(
            RatchetSession::from_bytes(&stored[..len]).err(),
            Some(Error::SessionStateCorrupt)
        );
    }
}

#[test]
fn bytes_left_over_are_corrupt() {
    let (alice, _bob) = pair();
    let mut stored = alice.to_bytes();
    stored.push(0);
    assert_eq!(RatchetSession::from_bytes(&stored).err(), Some(Error::SessionStateCorrupt));
    stored.extend_from_slice(&[0; 8]);
    assert_eq!(RatchetSession::from_bytes(&stored).err(), Some(Error::SessionStateCorrupt));
}

#[test]
fn a_changed_mark_or_algorithm_is_corrupt() {
    let (alice, _bob) = pair();
    let stored = alice.to_bytes();
    let mut mark = stored.clone();
    mark[1] ^= 1;
    assert_eq!(RatchetSession::from_bytes(&mark).err(), Some(Error::SessionStateCorrupt));
    let mut algorithm = stored.clone();
    algorithm[10] = 0xff;
    assert_eq!(RatchetSession::from_bytes(&algorithm).err(), Some(Error::SessionStateCorrupt));
    let mut tag = stored.clone();
    tag[0] = 2;
    assert_eq!(RatchetSession::from_bytes(&tag).err(), Some(Error::SessionStateCorrupt));
}

#[test]
fn a_state_that_is_not_valid_is_corrupt() {
    let (alice, _bob) = pair();
    let stored = alice.to_bytes();
    let mut short_root = stored.clone();
    short_root[28] = 31;
    short_root.remove(36);
    assert_eq!(RatchetSession::from_bytes(&short_root).err(), Some(Error::SessionStateCorrupt));
    assert_eq!(RatchetSession::from_bytes(&[]).err(), Some(Error::SessionStateCorrupt));
}

#[test]
fn a_cache_that_is_not_in_order_is_corrupt() {
    let (mut alice, mut bob) = pair();
    let (_first, _) = alice.encrypt(b"a");
    let (second, _) = alice.encrypt(b"b");
    let (third, _) = alice.encrypt(b"c");
    bob.decrypt(&third).unwrap();
    assert_eq!(bob.skipped_len(), 2);
    let stored = bob.to_bytes();
    assert!(RatchetSession::from_bytes(&stored).is_ok());
    let entry = (9 + 32) + 9 + (9 + 32);
    let first_counter = stored.len() - 2 * entry + (9 + 32) + 1;
    let second_counter = stored.len() - entry + (9 + 32) + 1;
    assert_eq!(stored[first_counter], 0);
    assert_eq!(stored[second_counter], 1);
    let mut twice = stored.clone();
    twice[second_counter] = 0;
    assert_eq!(RatchetSession::from_bytes(&twice).err(), Some(Error::SessionStateCorrupt));
    let mut ahead = stored.clone();
    ahead[second_counter] = 7;
    assert_eq!(RatchetSession::from_bytes(&ahead).err(), Some(Error::SessionStateCorrupt));
    let mut unknown = stored.clone();
    unknown[stored.len() - entry + 9] ^= 1;
    assert_eq!(RatchetSession::from_bytes(&unknown).err(), Some(Error::SessionStateCorrupt));
    assert_eq!(second.counter, 1);
}

#[test]
fn what_was_evicted_is_stored_with_the_session() {
    let suite = Suite { agreement: agreement::Algorithm::X25519, hkdf: hkdf::Algorithm::Sha256 };
    let alice_ratchet = RatchetKeyPair::generate(suite.agreement).unwrap();
    let bob_ratchet = RatchetKeyPair::generate(suite.agreement).unwrap();
    let alice_public = alice_ratchet.public().to_vec();
    let mut alice =
        RatchetSession::init_initiator(suite, &[3; 32], alice_ratchet, bob_ratchet.public(), 2, 3)
            .unwrap();
    let mut bob =
        RatchetSession::init_responder(suite, &[3; 32], &bob_ratchet, &alice_public, 2, 3).unwrap();
    let mut sent: Vec<Header> = Vec::new();
    for _ in 0..6 {
        sent.push(alice.encrypt(b"m").0);
    }
    bob.decrypt(&sent[0]).unwrap();
    let before = bob.to_bytes().len();
    bob.decrypt(&sent[5]).unwrap();
    let stored = bob.to_bytes();
    let entry = (9 + 32) + 9 + (9 + 32);
    let run = (9 + 32) + 9 + 9;
    assert_eq!(stored.len(), before + 2 * entry + run);
    let first = stored.len() - 18 + 1;
    let last = stored.len() - 9 + 1;
    assert_eq!(stored[first], 1);
    assert_eq!(stored[last], 2);
    let mut loaded = RatchetSession::from_bytes(&stored).unwrap();
    assert_eq!(loaded.to_bytes(), stored);
    assert_eq!(loaded.decrypt(&sent[0]).err(), Some(Error::DuplicateMessage));
    assert_eq!(loaded.decrypt(&sent[1]).err(), Some(Error::MessageKeyExpired));
    assert_eq!(loaded.decrypt(&sent[2]).err(), Some(Error::MessageKeyExpired));
    assert!(loaded.decrypt(&sent[3]).is_ok());
    assert!(loaded.decrypt(&sent[4]).is_ok());
    let mut cached = stored.clone();
    cached[last] = 3;
    assert_eq!(RatchetSession::from_bytes(&cached).err(), Some(Error::SessionStateCorrupt));
    let mut ahead = stored.clone();
    ahead[last] = 6;
    assert_eq!(RatchetSession::from_bytes(&ahead).err(), Some(Error::SessionStateCorrupt));
    let mut unknown = stored.clone();
    unknown[stored.len() - run + 9] ^= 1;
    assert_eq!(RatchetSession::from_bytes(&unknown).err(), Some(Error::SessionStateCorrupt));
    let mut cut = stored.clone();
    cut.truncate(stored.len() - 9);
    assert_eq!(RatchetSession::from_bytes(&cut).err(), Some(Error::SessionStateCorrupt));
}
