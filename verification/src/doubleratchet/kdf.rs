use vstd::prelude::*;
use crate::aws_lc;
use crate::bytes;
use crate::ec::agreement;
use crate::hkdf;

verus! {

/// Length in bytes of root keys, chain keys and message keys.
pub const KEY_LEN: usize = 32;

/// The algorithms of a session, chosen once when the session is made and
/// used for its whole life.
#[derive(Debug, Clone, Copy, PartialEq, Eq, Structural)]
pub struct Suite {
    /// The key agreement of the handshake and of the ratchet keys.
    pub agreement: agreement::Algorithm,
    /// The key derivation of the handshake, the root key and the chains.
    pub hkdf: hkdf::Algorithm,
}

/// The constant that is fed to a chain key to give a message key.
pub open spec fn message_key_input() -> Seq<u8> {
    seq![1u8]
}

/// The constant that is fed to a chain key to give the next chain key.
pub open spec fn chain_key_input() -> Seq<u8> {
    seq![2u8]
}

/// The info string of chain derivations: `e2ee chain v1`.
pub open spec fn chain_info() -> Seq<u8> {
    seq![101u8, 50, 101, 101, 32, 99, 104, 97, 105, 110, 32, 118, 49]
}

/// The info string of root key derivations: `e2ee ratchet v1`.
pub open spec fn root_info() -> Seq<u8> {
    seq![101u8, 50, 101, 101, 32, 114, 97, 116, 99, 104, 101, 116, 32, 118, 49]
}

/// The message key of a chain key: the chain key keys the derivation, the
/// input is the constant `0x01`.
pub open spec fn spec_message_key(hkdf: hkdf::Algorithm, chain_key: Seq<u8>) -> Seq<u8> {
    aws_lc::hkdf_value(hkdf, chain_key, message_key_input(), chain_info(), KEY_LEN)
}

/// The chain key that follows a chain key: the chain key keys the
/// derivation, the input is the constant `0x02`.
pub open spec fn spec_next_chain_key(hkdf: hkdf::Algorithm, chain_key: Seq<u8>) -> Seq<u8> {
    aws_lc::hkdf_value(hkdf, chain_key, chain_key_input(), chain_info(), KEY_LEN)
}

/// The chain key after `steps` messages.
pub open spec fn spec_advance(hkdf: hkdf::Algorithm, chain_key: Seq<u8>, steps: nat) -> Seq<u8>
    decreases steps,
{
    if steps == 0 {
        chain_key
    } else {
        spec_advance(hkdf, spec_next_chain_key(hkdf, chain_key), (steps - 1) as nat)
    }
}

/// The 64 bytes that a root key and a Diffie-Hellman output give.
pub open spec fn spec_root_output(hkdf: hkdf::Algorithm, root_key: Seq<u8>, dh: Seq<u8>) -> Seq<
    u8,
> {
    aws_lc::hkdf_value(hkdf, root_key, dh, root_info(), 64)
}

/// The root key after a step: the first half of the output.
pub open spec fn spec_next_root_key(hkdf: hkdf::Algorithm, root_key: Seq<u8>, dh: Seq<u8>) -> Seq<
    u8,
> {
    spec_root_output(hkdf, root_key, dh).subrange(0, 32)
}

/// The chain key that a root key step starts: the second half of the output.
pub open spec fn spec_new_chain_key(hkdf: hkdf::Algorithm, root_key: Seq<u8>, dh: Seq<u8>) -> Seq<
    u8,
> {
    spec_root_output(hkdf, root_key, dh).subrange(32, 64)
}

/// A single-use symmetric key for one message.
#[derive(Debug)]
pub struct MessageKey {
    bytes: Vec<u8>,
}

impl Drop for MessageKey {
    /// Overwrites the key with zeros when it is dropped.
    fn drop(&mut self)
        opens_invariants none
        no_unwind
    {
        aws_lc::zeroize(&mut self.bytes);
    }
}

impl View for MessageKey {
    type V = Seq<u8>;

    closed spec fn view(&self) -> Seq<u8> {
        self.bytes@
    }
}

impl MessageKey {
    /// Makes a message key of the given bytes.
    pub fn from_bytes(bytes: Vec<u8>) -> (r: MessageKey)
        ensures
            r@ == bytes@,
    {
        MessageKey { bytes }
    }

    /// The bytes of the key.
    pub fn as_ref(&self) -> (r: &[u8])
        ensures
            r@ == self@,
    {
        self.bytes.as_slice()
    }

    /// Takes the bytes of the key.
    pub fn into_bytes(self) -> (r: Vec<u8>)
        ensures
            r@ == self@,
    {
        bytes::copy(self.bytes.as_slice())
    }

    /// Overwrites the key with zeros and empties it.
    pub fn erase(&mut self)
        ensures
            final(self)@ == Seq::<u8>::empty(),
    {
        aws_lc::zeroize(&mut self.bytes);
    }
}

/// The info string of chain derivations.
pub fn chain_info_bytes() -> (r: Vec<u8>)
    ensures
        r@ == chain_info(),
{
    let r: Vec<u8> = vec![101u8, 50, 101, 101, 32, 99, 104, 97, 105, 110, 32, 118, 49];
    assert(r@ =~= chain_info());
    r
}

/// The info string of root key derivations.
pub fn root_info_bytes() -> (r: Vec<u8>)
    ensures
        r@ == root_info(),
{
    let r: Vec<u8> = vec![101u8, 50, 101, 101, 32, 114, 97, 116, 99, 104, 101, 116, 32, 118, 49];
    assert(r@ =~= root_info());
    r
}

/// HKDF for an output of a length that the algorithm gives: no more than
/// 255 times the length of its hash.
pub fn derive_key(algorithm: hkdf::Algorithm, salt: &[u8], secret: &[u8], info: &[u8], len: usize)
    -> (r: Vec<u8>)
    requires
        len <= algorithm.spec_max_output_len(),
    ensures
        r@ == aws_lc::hkdf_value(algorithm, salt@, secret@, info@, len),
        r@.len() == len,
{
    match hkdf::derive(algorithm, salt, secret, info, len) {
        Ok(okm) => okm,
        Err(_) => Vec::new(),
    }
}

/// The symmetric ratchet: from a chain key, the message key of this step
/// and the chain key of the next.
///
/// The two outputs come from distinct constant inputs, so neither gives the
/// other, and the next chain key does not give the chain key back.
pub fn derive_message_key(hkdf: hkdf::Algorithm, chain_key: &[u8]) -> (r: (MessageKey, Vec<u8>))
    ensures
        r.0@ == spec_message_key(hkdf, chain_key@),
        r.1@ == spec_next_chain_key(hkdf, chain_key@),
        r.0@.len() == KEY_LEN,
        r.1@.len() == KEY_LEN,
{
    let info = chain_info_bytes();
    let one: Vec<u8> = vec![1u8];
    let two: Vec<u8> = vec![2u8];
    assert(one@ =~= message_key_input());
    assert(two@ =~= chain_key_input());
    let message_key = derive_key(hkdf, chain_key, one.as_slice(), info.as_slice(), KEY_LEN);
    let next = derive_key(hkdf, chain_key, two.as_slice(), info.as_slice(), KEY_LEN);
    (MessageKey { bytes: message_key }, next)
}

/// The root key step `KDF_RK`: from the root key and a Diffie-Hellman
/// output, the next root key and the chain key of a new chain.
pub fn derive_root_key(hkdf: hkdf::Algorithm, root_key: &[u8], dh: &[u8]) -> (r: (Vec<u8>, Vec<u8>))
    ensures
        r.0@ == spec_next_root_key(hkdf, root_key@, dh@),
        r.1@ == spec_new_chain_key(hkdf, root_key@, dh@),
        r.0@.len() == KEY_LEN,
        r.1@.len() == KEY_LEN,
{
    let info = root_info_bytes();
    let mut okm = derive_key(hkdf, root_key, dh, info.as_slice(), 64);
    let next_root = bytes::slice(okm.as_slice(), 0, 32);
    let chain = bytes::slice(okm.as_slice(), 32, 64);
    aws_lc::zeroize(&mut okm);
    (next_root, chain)
}

} // verus!
