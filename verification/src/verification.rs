//! Verification: from a parsed token to the value it attests, or to the
//! reason why it is rejected. The steps are taken in one order only: the key
//! is resolved, the signature is checked against it, the times are checked
//! against the clock, and only then is the value released.

use vstd::prelude::*;
use vstd::utf8::encode_utf8;
use crate::claims::{ClaimSet, ClaimsModel, decode};
use crate::error::{Error, Rejection};
use crate::keys::{
    MAX_PEM_BYTES,
    ecdsa_verify,
    es256,
    no_passphrase,
    pem_fits,
    signature_accepted,
};
use crate::parser::{ParsedModel, ParsedToken, parse, parse_outcome};
use crate::resolver::{KeyStore, PublicKey};

verus! {

/// How many seconds the clock of an issuer may be ahead of the verifier's.
pub const CLOCK_SKEW_SECS: u64 = 60;

/// Whether the key accepts the token's signature as an ES256 signature of the
/// token's header and payload segments. The key is a PEM text; one that is
/// protected by a passphrase is tried with the empty passphrase.
pub open spec fn signature_holds(token: ParsedModel, public_pem: Seq<char>) -> bool {
    &&& pem_fits(public_pem)
    &&& signature_accepted(
        public_pem,
        no_passphrase(),
        es256(),
        token.signing_input,
        token.signature,
    )
}

/// What the clock has against the claims: they are expired once `now` is
/// past the expiry, and not yet valid while the time of issue, or the time
/// before which the issuer wants them refused, is more than the tolerated
/// skew ahead of `now`.
pub open spec fn time_verdict(claims: ClaimsModel, not_before: Option<u64>, now: u64) -> Option<
    Rejection,
> {
    if claims.expires_at is Some && now > claims.expires_at.unwrap() {
        Some(Rejection::Expired)
    } else if claims.issued_at > now + CLOCK_SKEW_SECS {
        Some(Rejection::NotYetValid)
    } else if not_before is Some && not_before.unwrap() > now + CLOCK_SKEW_SECS {
        Some(Rejection::NotYetValid)
    } else {
        None
    }
}

/// How the verification of a parsed token ends, given what the key
/// resolution brought and what the clock reads.
pub open spec fn verdict(
    token: ParsedModel,
    resolution: Result<Seq<char>, Error>,
    now: u64,
) -> Result<Seq<char>, Rejection> {
    match resolution {
        Err(_) => Err(Rejection::KeyUnavailable),
        Ok(pem) => {
            if !signature_holds(token, pem) {
                Err(Rejection::BadSignature)
            } else {
                match time_verdict(token.claims, token.not_before, now) {
                    Some(reason) => Err(reason),
                    None => Ok(token.claims.value),
                }
            }
        },
    }
}

/// A key resolution as the contracts see it.
pub open spec fn resolution_view(resolution: Result<PublicKey, Error>) -> Result<
    Seq<char>,
    Error,
> {
    match resolution {
        Ok(key) => Ok(key@),
        Err(e) => Err(e),
    }
}

/// Checks the signature of a parsed token against a key.
pub fn check_signature(token: &ParsedToken, key: &PublicKey) -> (ok: bool)
    ensures
        ok == signature_holds(token@, key@),
{
    if key.pem.as_str().as_bytes().len() > MAX_PEM_BYTES {
        return false;
    }
    let passphrase: Vec<u8> = Vec::new();
    ecdsa_verify(
        key.pem.as_str(),
        passphrase.as_slice(),
        "ES256",
        token.signing_input(),
        token.signature(),
    )
}

/// Checks the times of a claim set, and a time before which it is to be
/// refused, against the clock.
pub fn check_time(claims: &ClaimSet, not_before: Option<u64>, now: u64) -> (r: Option<Rejection>)
    ensures
        r == time_verdict(claims@, not_before, now),
{
    match claims.expires_at() {
        Some(e) => {
            if now > e {
                return Some(Rejection::Expired);
            }
        },
        None => {},
    }
    let ahead: bool = match now.checked_add(CLOCK_SKEW_SECS) {
        Some(limit) => claims.issued_at() > limit || match not_before {
            Some(t) => t > limit,
            None => false,
        },
        None => false,
    };
    if ahead {
        Some(Rejection::NotYetValid)
    } else {
        None
    }
}

/// Where a verification stands.
#[derive(Clone, Copy, Debug, PartialEq, Eq)]
pub enum Stage {
    Parsed,
    KeyResolved,
    SignatureChecked,
    ExpiryChecked,
    Verified,
    Rejected(Rejection),
}

/// One verification under way. It moves forward by the four steps below, each
/// of which leaves it untouched unless it stands at the stage the step is for.
pub struct Verifier {
    token: ParsedToken,
    key: Option<PublicKey>,
    checked_at: Option<u64>,
    stage: Stage,
}

impl Verifier {
    #[verifier::type_invariant]
    spec fn consistent(&self) -> bool {
        match self.stage {
            Stage::Parsed => self.key is None && self.checked_at is None,
            Stage::KeyResolved => self.key is Some && self.checked_at is None,
            Stage::SignatureChecked => {
                &&& self.key is Some
                &&& self.checked_at is None
                &&& signature_holds(self.token@, self.key.unwrap()@)
            },
            Stage::ExpiryChecked | Stage::Verified => {
                &&& self.key is Some
                &&& self.checked_at is Some
                &&& signature_holds(self.token@, self.key.unwrap()@)
                &&& time_verdict(
                    self.token@.claims,
                    self.token@.not_before,
                    self.checked_at.unwrap(),
                ) is None
            },
            Stage::Rejected(_) => true,
        }
    }

    pub closed spec fn stage(&self) -> Stage {
        self.stage
    }

    pub closed spec fn token(&self) -> ParsedModel {
        self.token@
    }

    /// The key that was resolved, once one was.
    pub closed spec fn key(&self) -> Option<Seq<char>> {
        match self.key {
            Some(k) => Some(k@),
            None => None,
        }
    }

    /// The clock reading that the times were checked against, once they were.
    pub closed spec fn checked_at(&self) -> Option<u64> {
        self.checked_at
    }

    /// Begins the verification of a parsed token.
    pub fn new(token: ParsedToken) -> (v: Verifier)
        ensures
            v.stage() == Stage::Parsed,
            v.token() == token@,
            v.key() is None,
            v.checked_at() is None,
    {
        Verifier { token: token, key: None, checked_at: None, stage: Stage::Parsed }
    }

    /// Where the verification stands.
    pub fn current_stage(&self) -> (s: Stage)
        ensures
            s == self.stage(),
    {
        self.stage
    }

    /// The issuer to resolve the key for.
    pub fn issuer(&self) -> (s: &str)
        ensures
            s@ == self.token().claims.issuer,
    {
        self.token.issuer()
    }

    /// The key identifier to resolve the key for.
    pub fn key_id(&self) -> (s: &str)
        ensures
            s@ == self.token().claims.key_id,
    {
        self.token.key_id()
    }

    /// From `Parsed`: takes what the key resolution brought. A failure of
    /// whatever kind rejects the token as `KeyUnavailable`.
    pub fn key_resolved(self, resolution: Result<PublicKey, Error>) -> (next: Verifier)
        ensures
            next.token() == self.token(),
            next.checked_at() == self.checked_at(),
            self.stage() is Parsed ==> match resolution {
                Ok(key) => next.stage() == Stage::KeyResolved && next.key() == Some(key@),
                Err(_) => next.stage() == Stage::Rejected(Rejection::KeyUnavailable),
            },
            !(self.stage() is Parsed) ==> next.stage() == self.stage() && next.key() == self.key(),
    {
        proof {
            use_type_invariant(&self);
        }
        match self.stage {
            Stage::Parsed => match resolution {
                Ok(key) => Verifier {
                    token: self.token,
                    key: Some(key),
                    checked_at: self.checked_at,
                    stage: Stage::KeyResolved,
                },
                Err(_) => Verifier {
                    token: self.token,
                    key: self.key,
                    checked_at: self.checked_at,
                    stage: Stage::Rejected(Rejection::KeyUnavailable),
                },
            },
            _ => self,
        }
    }

    /// From `KeyResolved`: checks the signature against the resolved key.
    pub fn signature_checked(self) -> (next: Verifier)
        ensures
            next.token() == self.token(),
            next.key() == self.key(),
            next.checked_at() == self.checked_at(),
            self.stage() is KeyResolved ==> self.key() is Some && next.stage() == (if signature_holds(
                self.token(),
                self.key().unwrap(),
            ) {
                Stage::SignatureChecked
            } else {
                Stage::Rejected(Rejection::BadSignature)
            }),
            !(self.stage() is KeyResolved) ==> next.stage() == self.stage(),
    {
        proof {
            use_type_invariant(&self);
        }
        match self.stage {
            Stage::KeyResolved => {
                let ok: bool = match &self.key {
                    Some(key) => check_signature(&self.token, key),
                    None => false,
                };
                let stage: Stage = if ok {
                    Stage::SignatureChecked
                } else {
                    Stage::Rejected(Rejection::BadSignature)
                };
                Verifier {
                    token: self.token,
                    key: self.key,
                    checked_at: self.checked_at,
                    stage: stage,
                }
            },
            _ => self,
        }
    }

    /// From `SignatureChecked`: checks expiry and time of issue against the
    /// clock.
    pub fn expiry_checked(self, now: u64) -> (next: Verifier)
        ensures
            next.token() == self.token(),
            next.key() == self.key(),
            self.stage() is SignatureChecked ==> match time_verdict(
                self.token().claims,
                self.token().not_before,
                now,
            ) {
                None => next.stage() == Stage::ExpiryChecked && next.checked_at() == Some(now),
                Some(reason) => next.stage() == Stage::Rejected(reason),
            },
            !(self.stage() is SignatureChecked) ==> next.stage() == self.stage()
                && next.checked_at() == self.checked_at(),
    {
        proof {
            use_type_invariant(&self);
        }
        match self.stage {
            Stage::SignatureChecked => match check_time(
                self.token.claims(),
                self.token.not_before(),
                now,
            ) {
                None => Verifier {
                    token: self.token,
                    key: self.key,
                    checked_at: Some(now),
                    stage: Stage::ExpiryChecked,
                },
                Some(reason) => Verifier {
                    token: self.token,
                    key: self.key,
                    checked_at: self.checked_at,
                    stage: Stage::Rejected(reason),
                },
            },
            _ => self,
        }
    }

    /// From `ExpiryChecked`: the verification is complete.
    pub fn released(self) -> (next: Verifier)
        ensures
            next.token() == self.token(),
            next.key() == self.key(),
            next.checked_at() == self.checked_at(),
            next.stage() == (if self.stage() is ExpiryChecked {
                Stage::Verified
            } else {
                self.stage()
            }),
    {
        proof {
            use_type_invariant(&self);
        }
        match self.stage {
            Stage::ExpiryChecked => Verifier {
                token: self.token,
                key: self.key,
                checked_at: self.checked_at,
                stage: Stage::Verified,
            },
            _ => self,
        }
    }

    /// The value, which only a verification that stands at `Verified` has.
    /// Whoever gets one knows that the signature held under the resolved key
    /// and that the clock had nothing against the claims.
    pub fn value(&self) -> (r: Option<String>)
        ensures
            r is Some <==> self.stage() is Verified,
            r matches Some(v) ==> {
                &&& v@ == self.token().claims.value
                &&& self.key() is Some
                &&& self.checked_at() is Some
                &&& verdict(
                    self.token(),
                    Ok::<Seq<char>, Error>(self.key().unwrap()),
                    self.checked_at().unwrap(),
                ) == Ok::<Seq<char>, Rejection>(v@)
            },
    {
        proof {
            use_type_invariant(self);
        }
        match self.stage {
            Stage::Verified => Some(decode(self.token.claims())),
            _ => None,
        }
    }

    /// Why the token was rejected, if it was.
    pub fn rejection(&self) -> (r: Option<Rejection>)
        ensures
            r == (match self.stage() {
                Stage::Rejected(reason) => Some(reason),
                _ => None,
            }),
    {
        match self.stage {
            Stage::Rejected(reason) => Some(reason),
            _ => None,
        }
    }
}

/// Runs a verification from `Parsed` to its end.
pub fn verify(token: ParsedToken, resolution: Result<PublicKey, Error>, now: u64) -> (r: Result<
    String,
    Rejection,
>)
    ensures
        match r {
            Ok(value) => verdict(token@, resolution_view(resolution), now) == Ok::<
                Seq<char>,
                Rejection,
            >(value@),
            Err(reason) => verdict(token@, resolution_view(resolution), now) == Err::<
                Seq<char>,
                Rejection,
            >(reason),
        },
{
    let v = Verifier::new(token).key_resolved(resolution).signature_checked().expiry_checked(
        now,
    ).released();
    match v.value() {
        Some(value) => Ok(value),
        None => match v.rejection() {
            Some(reason) => Err(reason),
            None => Err(Rejection::KeyUnavailable),
        },
    }
}

/// How the verification of a token text ends where keys are found in a store.
pub open spec fn verification_outcome(
    raw: Seq<u8>,
    known: Map<(Seq<char>, Seq<char>), Seq<char>>,
    now: u64,
) -> Result<Seq<char>, Error> {
    match parse_outcome(raw) {
        Err(e) => Err(e),
        Ok(token) => {
            let at = (token.claims.issuer, token.claims.key_id);
            if !known.contains_key(at) {
                Err(Error::KeyNotFound)
            } else {
                match verdict(token, Ok(known[at]), now) {
                    Ok(value) => Ok(value),
                    Err(reason) => Err(reason.as_error(Error::KeyNotFound)),
                }
            }
        },
    }
}

/// Parses a token, finds its key in the store and verifies it.
pub fn verify_token(raw: &str, store: &KeyStore, now: u64) -> (r: Result<String, Error>)
    ensures
        match r {
            Ok(value) => verification_outcome(encode_utf8(raw@), store@, now) == Ok::<Seq<char>, Error>(
                value@,
            ),
            Err(e) => verification_outcome(encode_utf8(raw@), store@, now) == Err::<Seq<char>, Error>(e),
        },
{
    let token: ParsedToken = match parse(raw) {
        Ok(token) => token,
        Err(e) => {
            return Err(e);
        },
    };
    let resolution: Result<PublicKey, Error> = store.resolve(token.issuer(), token.key_id());
    match verify(token, resolution, now) {
        Ok(value) => Ok(value),
        Err(Rejection::KeyUnavailable) => Err(Error::KeyNotFound),
        Err(Rejection::BadSignature) => Err(Error::BadSignature),
        Err(Rejection::Expired) => Err(Error::Expired),
        Err(Rejection::NotYetValid) => Err(Error::NotYetValid),
    }
}

} // verus!
