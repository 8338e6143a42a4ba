//! What can go wrong, by name.

use vstd::prelude::*;

verus! {

/// Every failure of issuing, parsing, key discovery and verification.
#[derive(Clone, Copy, Debug, PartialEq, Eq)]
pub enum Error {
    /// A claim set was asked for without an issuer or a key identifier, or
    /// with an expiry that no timestamp can hold.
    InvalidClaim,
    /// The key did not sign, or the token would be too long to encode.
    SigningError,
    /// The text is not a token: wrong number of segments, a segment that does
    /// not decode, a header that is no object naming the ES256 algorithm, or
    /// a payload that is not in its one spelling.
    MalformedToken,
    /// The header names no key.
    MissingKeyId,
    /// The claims name no issuer.
    MissingIssuer,
    /// No key is known for the issuer and key identifier.
    KeyNotFound,
    /// The issuer's key set could not be had in time.
    ResolutionTimeout,
    /// The issuer's key set could not be reached or read.
    ResolutionTransportError,
    /// The signature is not one that the resolved key accepts.
    BadSignature,
    /// The token's expiry lies in the past.
    Expired,
    /// The token claims to be issued further in the future than clocks differ.
    NotYetValid,
}

/// Why a verification ended without a value.
#[derive(Clone, Copy, Debug, PartialEq, Eq)]
pub enum Rejection {
    KeyUnavailable,
    BadSignature,
    Expired,
    NotYetValid,
}

impl Error {
    /// Whether trying again may succeed without anything else changing.
    pub fn is_transient(&self) -> (transient: bool)
        ensures
            transient == (*self is ResolutionTimeout || *self is ResolutionTransportError),
    {
        match self {
            Error::ResolutionTimeout => true,
            Error::ResolutionTransportError => true,
            _ => false,
        }
    }

    /// The sentence that tells a user of this failure.
    pub open spec fn sentence(self) -> Seq<char> {
        match self {
            Error::InvalidClaim => "the claim needs an issuer, a key identifier and a representable expiry"@,
            Error::SigningError => "the token could not be signed"@,
            Error::MalformedToken => "the text is not a well-formed token"@,
            Error::MissingKeyId => "Key ID not found in token"@,
            Error::MissingIssuer => "Issuer not found in token"@,
            Error::KeyNotFound => "Key ID not found"@,
            Error::ResolutionTimeout => "the issuer's keys could not be fetched in time"@,
            Error::ResolutionTransportError => "the issuer's keys could not be fetched"@,
            Error::BadSignature => "failed to verify signature"@,
            Error::Expired => "token expired"@,
            Error::NotYetValid => "token is not valid yet"@,
        }
    }

    /// A sentence for the user.
    pub fn message(&self) -> (text: &'static str)
        ensures
            text@ == self.sentence(),
    {
        match self {
            Error::InvalidClaim => "the claim needs an issuer, a key identifier and a representable expiry",
            Error::SigningError => "the token could not be signed",
            Error::MalformedToken => "the text is not a well-formed token",
            Error::MissingKeyId => "Key ID not found in token",
            Error::MissingIssuer => "Issuer not found in token",
            Error::KeyNotFound => "Key ID not found",
            Error::ResolutionTimeout => "the issuer's keys could not be fetched in time",
            Error::ResolutionTransportError => "the issuer's keys could not be fetched",
            Error::BadSignature => "failed to verify signature",
            Error::Expired => "token expired",
            Error::NotYetValid => "token is not valid yet",
        }
    }
}

impl Rejection {
    /// The failure that a caller of the whole verification sees for this
    /// reason, given what the key discovery had reported.
    pub open spec fn as_error(self, resolution_failure: Error) -> Error {
        match self {
            Rejection::KeyUnavailable => resolution_failure,
            Rejection::BadSignature => Error::BadSignature,
            Rejection::Expired => Error::Expired,
            Rejection::NotYetValid => Error::NotYetValid,
        }
    }
}

} // verus!
