use vstd::prelude::*;
use crate::digest;
use crate::doubleratchet::kdf::Suite;
use crate::ec::agreement;
use crate::error::Error;
use crate::hkdf;
use crate::provider::contains_curve;
use crate::provider::contains_hash;
use crate::provider::contains_hkdf;
use crate::provider::CryptoProvider;
use crate::x3dh::builder::ConfigBuilder;

verus! {

/// The first algorithm of `local`, the list in order of preference, that
/// `peer` lists too.
pub open spec fn spec_first_common<A>(local: Seq<A>, peer: Seq<A>) -> Option<A>
    decreases local.len(),
{
    if local.len() == 0 {
        None
    } else if peer.contains(local[0]) {
        Some(local[0])
    } else {
        spec_first_common(local.subrange(1, local.len() as int), peer)
    }
}

/// The algorithms that two peers have settled on.
#[derive(Debug, Clone, Copy, PartialEq, Eq, Structural)]
pub struct Negotiated {
    /// The key agreement and the key derivation of the session.
    pub suite: Suite,
    /// The hash function.
    pub hash: digest::Algorithm,
}

/// The algorithms that two peers settle on: for the curve, the key
/// derivation and the hash function, the first local choice that the peer
/// lists too. [`Error::UnsupportedAlgorithm`] where they have no curve, no
/// key derivation or no hash function in common.
pub open spec fn spec_negotiate(
    curve: Seq<agreement::Algorithm>,
    hkdf: Seq<hkdf::Algorithm>,
    hash: Seq<digest::Algorithm>,
    peer_curve: Seq<agreement::Algorithm>,
    peer_hkdf: Seq<hkdf::Algorithm>,
    peer_hash: Seq<digest::Algorithm>,
) -> Result<Negotiated, Error> {
    match (
        spec_first_common(curve, peer_curve),
        spec_first_common(hkdf, peer_hkdf),
        spec_first_common(hash, peer_hash),
    ) {
        (Some(agreement), Some(hkdf), Some(hash)) => Ok(
            Negotiated { suite: Suite { agreement, hkdf }, hash },
        ),
        _ => Err(Error::UnsupportedAlgorithm),
    }
}

/// The first curve of `local` that `peer` lists too.
pub fn first_common_curve(local: &[agreement::Algorithm], peer: &[agreement::Algorithm]) -> (r:
    Option<agreement::Algorithm>)
    ensures
        r == spec_first_common(local@, peer@),
{
    let mut i: usize = 0;
    assert(local@.subrange(0, local@.len() as int) =~= local@);
    while i < local.len()
        invariant
            i <= local@.len(),
            spec_first_common(local@.subrange(i as int, local@.len() as int), peer@)
                == spec_first_common(local@, peer@),
        decreases local@.len() - i,
    {
        let ghost rest = local@.subrange(i as int, local@.len() as int);
        assert(rest[0] == local@[i as int]);
        assert(rest.subrange(1, rest.len() as int) =~= local@.subrange(
            i + 1,
            local@.len() as int,
        ));
        if contains_curve(peer, local[i]) {
            return Some(local[i]);
        }
        i += 1;
    }
    None
}

/// The first key derivation of `local` that `peer` lists too.
pub fn first_common_hkdf(local: &[hkdf::Algorithm], peer: &[hkdf::Algorithm]) -> (r: Option<
    hkdf::Algorithm,
>)
    ensures
        r == spec_first_common(local@, peer@),
{
    let mut i: usize = 0;
    assert(local@.subrange(0, local@.len() as int) =~= local@);
    while i < local.len()
        invariant
            i <= local@.len(),
            spec_first_common(local@.subrange(i as int, local@.len() as int), peer@)
                == spec_first_common(local@, peer@),
        decreases local@.len() - i,
    {
        let ghost rest = local@.subrange(i as int, local@.len() as int);
        assert(rest[0] == local@[i as int]);
        assert(rest.subrange(1, rest.len() as int) =~= local@.subrange(
            i + 1,
            local@.len() as int,
        ));
        if contains_hkdf(peer, local[i]) {
            return Some(local[i]);
        }
        i += 1;
    }
    None
}

/// The first hash function of `local` that `peer` lists too.
pub fn first_common_hash(local: &[digest::Algorithm], peer: &[digest::Algorithm]) -> (r: Option<
    digest::Algorithm,
>)
    ensures
        r == spec_first_common(local@, peer@),
{
    let mut i: usize = 0;
    assert(local@.subrange(0, local@.len() as int) =~= local@);
    while i < local.len()
        invariant
            i <= local@.len(),
            spec_first_common(local@.subrange(i as int, local@.len() as int), peer@)
                == spec_first_common(local@, peer@),
        decreases local@.len() - i,
    {
        let ghost rest = local@.subrange(i as int, local@.len() as int);
        assert(rest[0] == local@[i as int]);
        assert(rest.subrange(1, rest.len() as int) =~= local@.subrange(
            i + 1,
            local@.len() as int,
        ));
        if contains_hash(peer, local[i]) {
            return Some(local[i]);
        }
        i += 1;
    }
    None
}

/// `x3dh` peer configuration.
#[derive(Debug)]
pub struct Config {
    /// List of supported curves, ordered by preference.
    pub curve: Vec<agreement::Algorithm>,
    /// List of supported key derivation functions, ordered by preference.
    pub hkdf: Vec<hkdf::Algorithm>,
    /// List of supported hash functions, ordered by preference.
    pub hash: Vec<digest::Algorithm>,
    /// The provider that the lists were checked against.
    pub provider: CryptoProvider,
}

impl Config {
    /// Create a builder for a client configuration with a specific
    /// [`CryptoProvider`].
    pub fn builder_with_provider(provider: CryptoProvider) -> (r: ConfigBuilder)
        ensures
            r.curve.is_none(),
            r.hkdf.is_none(),
            r.hash.is_none(),
            r.provider == provider,
    {
        ConfigBuilder { curve: None, hash: None, hkdf: None, provider }
    }

    /// Settles on the algorithms of a session with a peer that supports the
    /// given curves, key derivations and hash functions: for each, the
    /// first of this configuration's list that the peer supports too.
    ///
    /// Fails with [`Error::UnsupportedAlgorithm`], before any key material
    /// is touched, where there is no common curve, no common key
    /// derivation or no common hash function.
    pub fn negotiate(
        &self,
        peer_curve: &[agreement::Algorithm],
        peer_hkdf: &[hkdf::Algorithm],
        peer_hash: &[digest::Algorithm],
    ) -> (r: Result<Negotiated, Error>)
        ensures
            r == spec_negotiate(
                self.curve@,
                self.hkdf@,
                self.hash@,
                peer_curve@,
                peer_hkdf@,
                peer_hash@,
            ),
    {
        let agreement = first_common_curve(self.curve.as_slice(), peer_curve);
        let hkdf = first_common_hkdf(self.hkdf.as_slice(), peer_hkdf);
        let hash = first_common_hash(self.hash.as_slice(), peer_hash);
        match (agreement, hkdf, hash) {
            (Some(agreement), Some(hkdf), Some(hash)) => Ok(
                Negotiated { suite: Suite { agreement, hkdf }, hash },
            ),
            _ => Err(Error::UnsupportedAlgorithm),
        }
    }
}

/// What is negotiated is supported by both sides, and where nothing is
/// negotiated the two sides have nothing in common.
pub proof fn lemma_first_common_is_common<A>(local: Seq<A>, peer: Seq<A>)
    ensures
        match spec_first_common(local, peer) {
            Some(a) => local.contains(a) && peer.contains(a),
            None => forall|a: A| !(local.contains(a) && peer.contains(a)),
        },
    decreases local.len(),
{
    if local.len() > 0 {
        let rest = local.subrange(1, local.len() as int);
        lemma_first_common_is_common(rest, peer);
        if peer.contains(local[0]) {
        } else {
            match spec_first_common(rest, peer) {
                Some(a) => {
                    let i = choose|i: int| 0 <= i < rest.len() && rest[i] == a;
                    assert(local[i + 1] == a);
                },
                None => {
                    assert forall|a: A| !(local.contains(a) && peer.contains(a)) by {
                        if local.contains(a) && peer.contains(a) {
                            let i = choose|i: int| 0 <= i < local.len() && local[i] == a;
                            assert(i > 0);
                            assert(rest[i - 1] == a);
                            assert(rest.contains(a));
                        }
                    }
                },
            }
        }
    }
}

} // verus!
