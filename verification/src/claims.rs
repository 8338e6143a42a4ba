//! The claim set: the value that is attested, with who attests it, under
//! which key, since when and until when.

use vstd::prelude::*;
use crate::error::Error;

verus! {

/// What a claim set holds.
pub struct ClaimsModel {
    pub value: Seq<char>,
    pub issuer: Seq<char>,
    pub key_id: Seq<char>,
    pub issued_at: u64,
    pub expires_at: Option<u64>,
}

impl ClaimsModel {
    /// Issuer and key identifier are present, and the expiry, if there is
    /// one, is not before the time of issue.
    pub open spec fn valid(self) -> bool {
        &&& self.issuer.len() > 0
        &&& self.key_id.len() > 0
        &&& self.expires_at matches Some(e) ==> e >= self.issued_at
    }
}

/// A valid claim set. It is made by `encode`, or by a successful verification.
pub struct ClaimSet {
    value: String,
    issuer: String,
    key_id: String,
    issued_at: u64,
    expires_at: Option<u64>,
}

impl View for ClaimSet {
    type V = ClaimsModel;

    closed spec fn view(&self) -> ClaimsModel {
        ClaimsModel {
            value: self.value@,
            issuer: self.issuer@,
            key_id: self.key_id@,
            issued_at: self.issued_at,
            expires_at: self.expires_at,
        }
    }
}

/// The claims that `encode` makes of its arguments, where it makes any.
pub open spec fn encoded(
    value: Seq<char>,
    issuer: Seq<char>,
    key_id: Seq<char>,
    now: u64,
    valid_for: Option<u64>,
) -> Option<ClaimsModel> {
    if issuer.len() == 0 || key_id.len() == 0 {
        None
    } else {
        match valid_for {
            None => Some(
                ClaimsModel { value, issuer, key_id, issued_at: now, expires_at: None },
            ),
            Some(d) => {
                if now + d <= u64::MAX {
                    Some(
                        ClaimsModel {
                            value,
                            issuer,
                            key_id,
                            issued_at: now,
                            expires_at: Some((now + d) as u64),
                        },
                    )
                } else {
                    None
                }
            },
        }
    }
}

impl ClaimSet {
    #[verifier::type_invariant]
    spec fn well_formed(&self) -> bool {
        self@.valid()
    }

    /// Puts claims together that are known to be valid.
    pub(crate) fn from_parts(
        value: String,
        issuer: String,
        key_id: String,
        issued_at: u64,
        expires_at: Option<u64>,
    ) -> (claims: ClaimSet)
        requires
            (ClaimsModel {
                value: value@,
                issuer: issuer@,
                key_id: key_id@,
                issued_at: issued_at,
                expires_at: expires_at,
            }).valid(),
        ensures
            claims@ == (ClaimsModel {
                value: value@,
                issuer: issuer@,
                key_id: key_id@,
                issued_at: issued_at,
                expires_at: expires_at,
            }),
    {
        ClaimSet { value, issuer, key_id, issued_at, expires_at }
    }

    pub fn value(&self) -> (s: &str)
        ensures
            s@ == self@.value,
            self@.valid(),
    {
        proof {
            use_type_invariant(self);
        }
        self.value.as_str()
    }

    pub fn issuer(&self) -> (s: &str)
        ensures
            s@ == self@.issuer,
            s@.len() > 0,
    {
        proof {
            use_type_invariant(self);
        }
        self.issuer.as_str()
    }

    pub fn key_id(&self) -> (s: &str)
        ensures
            s@ == self@.key_id,
            s@.len() > 0,
    {
        proof {
            use_type_invariant(self);
        }
        self.key_id.as_str()
    }

    pub fn issued_at(&self) -> (t: u64)
        ensures
            t == self@.issued_at,
    {
        self.issued_at
    }

    pub fn expires_at(&self) -> (t: Option<u64>)
        ensures
            t == self@.expires_at,
            t matches Some(e) ==> e >= self@.issued_at,
    {
        proof {
            use_type_invariant(self);
        }
        self.expires_at
    }
}

/// Wraps a value into a claim set that is issued at `now` and, where
/// `valid_for` is given, expires that many seconds later. An empty issuer or
/// key identifier is refused, and so is an expiry beyond the last timestamp.
pub fn encode(value: &str, issuer: &str, key_id: &str, now: u64, valid_for: Option<u64>) -> (r:
    Result<ClaimSet, Error>)
    ensures
        match r {
            Ok(claims) => encoded(value@, issuer@, key_id@, now, valid_for) == Some(claims@),
            Err(e) => e == Error::InvalidClaim && encoded(value@, issuer@, key_id@, now, valid_for)
                is None,
        },
{
    if issuer.is_empty() || key_id.is_empty() {
        return Err(Error::InvalidClaim);
    }
    let expires_at: Option<u64> = match valid_for {
        None => None,
        Some(d) => match now.checked_add(d) {
            Some(e) => Some(e),
            None => {
                return Err(Error::InvalidClaim);
            },
        },
    };
    Ok(ClaimSet::from_parts(value.to_owned(), issuer.to_owned(), key_id.to_owned(), now, expires_at))
}

/// The value that a claim set attests.
pub fn decode(claims: &ClaimSet) -> (value: String)
    ensures
        value@ == claims@.value,
{
    claims.value.clone()
}

} // verus!
