use vstd::prelude::*;
use crate::aws_lc;

verus! {

/// Serialized private key DER.
#[derive(Debug)]
pub enum PrivateKeyDer {
    /// PKCS #8 v1 private key in DER format, defined in
    /// [RFC 5208](https://datatracker.ietf.org/doc/html/rfc5208).
    Pkcs8V1Key(Vec<u8>),
    /// PKCS #8 v2 private key in DER format, defined in
    /// [RFC 5958](https://datatracker.ietf.org/doc/html/rfc5958).
    Pkcs8V2Key(Vec<u8>),
    /// Elliptic curve private key structure in DER format, defined in
    /// [RFC 5915](https://datatracker.ietf.org/doc/html/rfc5915).
    EcPrivateKey(Vec<u8>),
}

/// Serialized public key DER.
#[derive(Debug)]
pub enum PublicKeyDer {
    /// Internet X.509 public key as defined in
    /// [RFC 5280](https://datatracker.ietf.org/doc/html/rfc5280).
    X509Key(Vec<u8>),
    /// Elliptic curve public key structure in DER format, defined in
    /// [RFC 5480](https://datatracker.ietf.org/doc/html/rfc5480).
    EcPublicKey(Vec<u8>),
}

/// Serialized private key bytes.
#[derive(Debug)]
pub enum PrivateKeyBin {
    /// Seed of a twisted Edwards curve encoded as a big-endian fixed-length
    /// integer.
    EdEcSeed(Vec<u8>),
    /// Elliptic curve private key encoded as a big-endian fixed-length
    /// integer.
    Ec(Vec<u8>),
}

/// Serialized public key bytes.
#[derive(Debug)]
pub enum PublicKeyBin {
    /// Compressed big-endian integer representing elliptic curve.
    Compressed(Vec<u8>),
    /// Big-endian integer representing elliptic curve.
    Uncompreessed(Vec<u8>),
}

impl Drop for PrivateKeyDer {
    /// Overwrites the key with zeros when it is dropped.
    fn drop(&mut self)
        opens_invariants none
        no_unwind
    {
        match self {
            PrivateKeyDer::Pkcs8V1Key(key) => aws_lc::zeroize(key),
            PrivateKeyDer::Pkcs8V2Key(key) => aws_lc::zeroize(key),
            PrivateKeyDer::EcPrivateKey(key) => aws_lc::zeroize(key),
        }
    }
}

impl PrivateKeyDer {
    /// Overwrites the key with zeros and empties it; the format stays.
    pub fn erase(&mut self)
        ensures
            final(self).bytes() == Seq::<u8>::empty(),
    {
        match self {
            PrivateKeyDer::Pkcs8V1Key(key) => aws_lc::zeroize(key),
            PrivateKeyDer::Pkcs8V2Key(key) => aws_lc::zeroize(key),
            PrivateKeyDer::EcPrivateKey(key) => aws_lc::zeroize(key),
        }
    }

    /// The encoded bytes, whatever the format.
    pub open spec fn bytes(self) -> Seq<u8> {
        match self {
            PrivateKeyDer::Pkcs8V1Key(key) => key@,
            PrivateKeyDer::Pkcs8V2Key(key) => key@,
            PrivateKeyDer::EcPrivateKey(key) => key@,
        }
    }

    /// The encoded bytes, whatever the format.
    pub fn as_ref(&self) -> (r: &[u8])
        ensures
            r@ == self.bytes(),
    {
        match self {
            PrivateKeyDer::Pkcs8V1Key(key) => key.as_slice(),
            PrivateKeyDer::Pkcs8V2Key(key) => key.as_slice(),
            PrivateKeyDer::EcPrivateKey(key) => key.as_slice(),
        }
    }
}

impl Drop for PublicKeyDer {
    /// Overwrites the key with zeros when it is dropped.
    fn drop(&mut self)
        opens_invariants none
        no_unwind
    {
        match self {
            PublicKeyDer::X509Key(key) => aws_lc::zeroize(key),
            PublicKeyDer::EcPublicKey(key) => aws_lc::zeroize(key),
        }
    }
}

impl PublicKeyDer {
    /// Overwrites the key with zeros and empties it; the format stays.
    pub fn erase(&mut self)
        ensures
            final(self).bytes() == Seq::<u8>::empty(),
    {
        match self {
            PublicKeyDer::X509Key(key) => aws_lc::zeroize(key),
            PublicKeyDer::EcPublicKey(key) => aws_lc::zeroize(key),
        }
    }

    /// The encoded bytes, whatever the format.
    pub open spec fn bytes(self) -> Seq<u8> {
        match self {
            PublicKeyDer::X509Key(key) => key@,
            PublicKeyDer::EcPublicKey(key) => key@,
        }
    }

    /// The encoded bytes, whatever the format.
    pub fn as_ref(&self) -> (r: &[u8])
        ensures
            r@ == self.bytes(),
    {
        match self {
            PublicKeyDer::X509Key(key) => key.as_slice(),
            PublicKeyDer::EcPublicKey(key) => key.as_slice(),
        }
    }
}

impl Drop for PrivateKeyBin {
    /// Overwrites the key with zeros when it is dropped.
    fn drop(&mut self)
        opens_invariants none
        no_unwind
    {
        match self {
            PrivateKeyBin::EdEcSeed(key) => aws_lc::zeroize(key),
            PrivateKeyBin::Ec(key) => aws_lc::zeroize(key),
        }
    }
}

impl PrivateKeyBin {
    /// Overwrites the key with zeros and empties it; the format stays.
    pub fn erase(&mut self)
        ensures
            final(self).bytes() == Seq::<u8>::empty(),
    {
        match self {
            PrivateKeyBin::EdEcSeed(key) => aws_lc::zeroize(key),
            PrivateKeyBin::Ec(key) => aws_lc::zeroize(key),
        }
    }

    /// The encoded bytes, whatever the format.
    pub open spec fn bytes(self) -> Seq<u8> {
        match self {
            PrivateKeyBin::EdEcSeed(key) => key@,
            PrivateKeyBin::Ec(key) => key@,
        }
    }

    /// The encoded bytes, whatever the format.
    pub fn as_ref(&self) -> (r: &[u8])
        ensures
            r@ == self.bytes(),
    {
        match self {
            PrivateKeyBin::EdEcSeed(key) => key.as_slice(),
            PrivateKeyBin::Ec(key) => key.as_slice(),
        }
    }
}

impl Drop for PublicKeyBin {
    /// Overwrites the key with zeros when it is dropped.
    fn drop(&mut self)
        opens_invariants none
        no_unwind
    {
        match self {
            PublicKeyBin::Compressed(key) => aws_lc::zeroize(key),
            PublicKeyBin::Uncompreessed(key) => aws_lc::zeroize(key),
        }
    }
}

impl PublicKeyBin {
    /// Overwrites the key with zeros and empties it; the format stays.
    pub fn erase(&mut self)
        ensures
            final(self).bytes() == Seq::<u8>::empty(),
    {
        match self {
            PublicKeyBin::Compressed(key) => aws_lc::zeroize(key),
            PublicKeyBin::Uncompreessed(key) => aws_lc::zeroize(key),
        }
    }

    /// The encoded bytes, whatever the format.
    pub open spec fn bytes(self) -> Seq<u8> {
        match self {
            PublicKeyBin::Compressed(key) => key@,
            PublicKeyBin::Uncompreessed(key) => key@,
        }
    }

    /// The encoded bytes, whatever the format.
    pub fn as_ref(&self) -> (r: &[u8])
        ensures
            r@ == self.bytes(),
    {
        match self {
            PublicKeyBin::Compressed(key) => key.as_slice(),
            PublicKeyBin::Uncompreessed(key) => key.as_slice(),
        }
    }
}

} // verus!
