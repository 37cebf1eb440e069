use vstd::prelude::*;

verus! {

/// Error reporting.
#[derive(Debug, Clone, Copy, PartialEq, Eq, Structural)]
pub enum Error {
    /// An error with absolutely no details.
    ///
    /// Used where the reason for a failure is obvious, not useful to know, or
    /// dangerous to disclose because of side channels.
    Unspecified,
    /// The key could not be marshalled to the format.
    UnsupportedEncoding,
    /// The key agreement algorithm is not supported by the provider.
    UnsupportedAgreementAlgorithm,
    /// The digital signature algorithm is not supported by the provider.
    UnsupportedSignatureAlgorithm,
    /// The digest function is not supported by the provider.
    UnsupportedDigestFunction,
    /// The key derivation function is not supported by the provider.
    UnsupportedHkdf,
    /// The elliptic curve is not supported by the provider.
    UnsupportedCurve,
    /// No algorithm with this identifier exists, or negotiation found no
    /// common choice.
    UnsupportedAlgorithm,
    /// Malformed or curve-mismatched key material.
    KeyRejected,
    /// The signature of a prekey bundle does not verify.
    SignatureInvalid,
    /// The message key for this counter was already consumed.
    DuplicateMessage,
    /// The message key for this counter was evicted from the skipped-key
    /// cache.
    MessageKeyExpired,
    /// A stored session fails a consistency check.
    SessionStateCorrupt,
}

#[verifier::external_type_specification]
#[verifier::external_body]
pub struct ExUnspecified(::aws_lc_rs::error::Unspecified);

#[verifier::external_type_specification]
#[verifier::external_body]
pub struct ExKeyRejected(::aws_lc_rs::error::KeyRejected);

impl From<::aws_lc_rs::error::Unspecified> for Error {
    fn from(e: ::aws_lc_rs::error::Unspecified) -> (r: Error) {
        Error::Unspecified
    }
}

impl vstd::std_specs::convert::FromSpecImpl<::aws_lc_rs::error::Unspecified> for Error {
    open spec fn obeys_from_spec() -> bool {
        true
    }

    open spec fn from_spec(e: ::aws_lc_rs::error::Unspecified) -> Error {
        Error::Unspecified
    }
}

impl From<::aws_lc_rs::error::KeyRejected> for Error {
    fn from(e: ::aws_lc_rs::error::KeyRejected) -> (r: Error) {
        Error::KeyRejected
    }
}

impl vstd::std_specs::convert::FromSpecImpl<::aws_lc_rs::error::KeyRejected> for Error {
    open spec fn obeys_from_spec() -> bool {
        true
    }

    open spec fn from_spec(e: ::aws_lc_rs::error::KeyRejected) -> Error {
        Error::KeyRejected
    }
}

impl Error {
    /// Whether the error ends only the message at hand and leaves the
    /// session usable.
    pub open spec fn spec_is_message_local(self) -> bool {
        self == Error::DuplicateMessage || self == Error::MessageKeyExpired
    }

    /// Whether the error ends only the message at hand and leaves the
    /// session usable.
    #[verifier::when_used_as_spec(spec_is_message_local)]
    pub fn is_message_local(self) -> (r: bool)
        ensures
            r == self.spec_is_message_local(),
    {
        match self {
            Error::DuplicateMessage => true,
            Error::MessageKeyExpired => true,
            _ => false,
        }
    }

    /// A short description of the error.
    pub fn description(self) -> (r: &'static str)
        ensures
            r@ == self.spec_description()@,
    {
        match self {
            Error::Unspecified => "unspecified error",
            Error::UnsupportedEncoding => "unsupported key encoding",
            Error::UnsupportedAgreementAlgorithm => "unsupported key agreement algorithm",
            Error::UnsupportedSignatureAlgorithm => "unsupported signature algorithm",
            Error::UnsupportedDigestFunction => "unsupported digest function",
            Error::UnsupportedHkdf => "unsupported key derivation function",
            Error::UnsupportedCurve => "unsupported elliptic curve",
            Error::UnsupportedAlgorithm => "unsupported algorithm",
            Error::KeyRejected => "key rejected",
            Error::SignatureInvalid => "invalid signature",
            Error::DuplicateMessage => "duplicate message",
            Error::MessageKeyExpired => "message key expired",
            Error::SessionStateCorrupt => "session state corrupt",
        }
    }

    /// The text that [`Error::description`] returns.
    pub open spec fn spec_description(self) -> &'static str {
        match self {
            Error::Unspecified => "unspecified error",
            Error::UnsupportedEncoding => "unsupported key encoding",
            Error::UnsupportedAgreementAlgorithm => "unsupported key agreement algorithm",
            Error::UnsupportedSignatureAlgorithm => "unsupported signature algorithm",
            Error::UnsupportedDigestFunction => "unsupported digest function",
            Error::UnsupportedHkdf => "unsupported key derivation function",
            Error::UnsupportedCurve => "unsupported elliptic curve",
            Error::UnsupportedAlgorithm => "unsupported algorithm",
            Error::KeyRejected => "key rejected",
            Error::SignatureInvalid => "invalid signature",
            Error::DuplicateMessage => "duplicate message",
            Error::MessageKeyExpired => "message key expired",
            Error::SessionStateCorrupt => "session state corrupt",
        }
    }
}

} // verus!
