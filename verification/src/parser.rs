//! Reading a token that came from outside. Nothing in it is trusted: a text
//! is either taken apart completely or refused, and of what was taken apart
//! only the issuer and the key identifier can be read before the signature
//! has been checked.

use vstd::prelude::*;
use vstd::slice::{slice_subrange, slice_to_vec};
use vstd::utf8::encode_utf8;
use crate::base64url::{base64url_bytes, decode_segment};
use crate::claims::{ClaimSet, ClaimsModel};
use crate::error::Error;
use crate::token::{DOT, segments, split};
use crate::wire::{
    Header,
    HeaderModel,
    Payload,
    PayloadModel,
    header_read,
    is_payload_text,
    lemma_payload_text_injective,
    payload_of_text,
    read_header,
    read_payload,
};

verus! {

/// What a parsed token holds.
pub struct ParsedModel {
    pub claims: ClaimsModel,
    /// The time before which the token is not to be accepted, where the
    /// issuer has set one.
    pub not_before: Option<u64>,
    /// The bytes that the signature is over: header and payload segment with
    /// the dot between them, as they were received.
    pub signing_input: Seq<u8>,
    /// The signature: what the third segment decodes to.
    pub signature: Seq<u8>,
}

/// A token that was taken apart, not yet verified.
pub struct ParsedToken {
    claims: ClaimSet,
    not_before: Option<u64>,
    signing_input: Vec<u8>,
    signature: Vec<u8>,
}

impl View for ParsedToken {
    type V = ParsedModel;

    closed spec fn view(&self) -> ParsedModel {
        ParsedModel {
            claims: self.claims@,
            not_before: self.not_before,
            signing_input: self.signing_input@,
            signature: self.signature@,
        }
    }
}

/// The claims that a header and a payload make together, where the header
/// names a key and the payload an issuer.
pub open spec fn claims_of(h: HeaderModel, p: PayloadModel) -> ClaimsModel {
    ClaimsModel {
        value: p.value,
        issuer: p.issuer.unwrap(),
        key_id: h.key_id.unwrap(),
        issued_at: p.issued_at,
        expires_at: p.expires_at,
    }
}

/// What becomes of a header and a payload that were read.
pub open spec fn claims_outcome(h: HeaderModel, p: PayloadModel) -> Result<ClaimsModel, Error> {
    if p.expires_at is Some && p.expires_at.unwrap() < p.issued_at {
        Err(Error::MalformedToken)
    } else if h.key_id is None || h.key_id.unwrap().len() == 0 {
        Err(Error::MissingKeyId)
    } else if p.issuer is None || p.issuer.unwrap().len() == 0 {
        Err(Error::MissingIssuer)
    } else {
        Ok(claims_of(h, p))
    }
}

/// What `parse` makes of a text, given as bytes.
pub open spec fn parse_outcome(raw: Seq<u8>) -> Result<ParsedModel, Error> {
    match segments(raw) {
        None => Err(Error::MalformedToken),
        Some((hs, cs, ss)) => match (base64url_bytes(hs), base64url_bytes(cs), base64url_bytes(ss)) {
            (Some(hb), Some(cb), Some(signature)) => {
                if header_read(hb) is Some && is_payload_text(cb) {
                    match claims_outcome(header_read(hb).unwrap(), payload_of_text(cb)) {
                        Ok(claims) => Ok(
                            ParsedModel {
                                claims: claims,
                                not_before: payload_of_text(cb).not_before,
                                signing_input: hs + seq![DOT] + cs,
                                signature: signature,
                            },
                        ),
                        Err(e) => Err(e),
                    }
                } else {
                    Err(Error::MalformedToken)
                }
            },
            _ => Err(Error::MalformedToken),
        },
    }
}

impl ParsedToken {
    /// The issuer that the token names. Not verified: good for finding the
    /// key, and for nothing else.
    pub fn issuer(&self) -> (s: &str)
        ensures
            s@ == self@.claims.issuer,
            s@.len() > 0,
    {
        self.claims.issuer()
    }

    /// The key identifier that the token names. Not verified: good for
    /// finding the key, and for nothing else.
    pub fn key_id(&self) -> (s: &str)
        ensures
            s@ == self@.claims.key_id,
            s@.len() > 0,
    {
        self.claims.key_id()
    }

    pub(crate) fn claims(&self) -> (c: &ClaimSet)
        ensures
            c@ == self@.claims,
    {
        &self.claims
    }

    pub(crate) fn not_before(&self) -> (t: Option<u64>)
        ensures
            t == self@.not_before,
    {
        self.not_before
    }

    pub(crate) fn signing_input(&self) -> (b: &[u8])
        ensures
            b@ == self@.signing_input,
    {
        self.signing_input.as_slice()
    }

    pub(crate) fn signature(&self) -> (b: &[u8])
        ensures
            b@ == self@.signature,
    {
        self.signature.as_slice()
    }
}

/// Turns what was read into claims, or into the reason why it holds none.
fn claims_from(header: Header, payload: Payload) -> (r: Result<ClaimSet, Error>)
    ensures
        match r {
            Ok(claims) => claims_outcome(header@, payload@) == Ok::<ClaimsModel, Error>(claims@),
            Err(e) => claims_outcome(header@, payload@) == Err::<ClaimsModel, Error>(e),
        },
{
    match payload.expires_at {
        Some(e) => {
            if e < payload.issued_at {
                return Err(Error::MalformedToken);
            }
        },
        None => {},
    }
    let key_id: String = match header.key_id {
        Some(k) => k,
        None => {
            return Err(Error::MissingKeyId);
        },
    };
    if key_id.as_str().is_empty() {
        return Err(Error::MissingKeyId);
    }
    let issuer: String = match payload.issuer {
        Some(s) => s,
        None => {
            return Err(Error::MissingIssuer);
        },
    };
    if issuer.as_str().is_empty() {
        return Err(Error::MissingIssuer);
    }
    Ok(ClaimSet::from_parts(payload.value, issuer, key_id, payload.issued_at, payload.expires_at))
}

/// Takes a token apart. Any byte string may be given; it is refused as
/// malformed unless it has three segments that all decode, the first to an
/// object that names the algorithm, the second to a payload in its one
/// spelling. A header without key identifier
/// and a payload without issuer are told apart from that.
pub fn parse_bytes(raw: &[u8]) -> (r: Result<ParsedToken, Error>)
    ensures
        match r {
            Ok(token) => parse_outcome(raw@) == Ok::<ParsedModel, Error>(token@),
            Err(e) => parse_outcome(raw@) == Err::<ParsedModel, Error>(e),
        },
        r matches Err(e) ==> e is MalformedToken || e is MissingKeyId || e is MissingIssuer,
{
    let n: usize = raw.len();
    let (p, q): (usize, usize) = match split(raw) {
        Some(at) => at,
        None => {
            return Err(Error::MalformedToken);
        },
    };
    let hs: &[u8] = slice_subrange(raw, 0, p);
    let cs: &[u8] = slice_subrange(raw, p + 1, q);
    let ss: &[u8] = slice_subrange(raw, q + 1, n);
    let hb: Vec<u8> = match decode_segment(hs) {
        Some(b) => b,
        None => {
            return Err(Error::MalformedToken);
        },
    };
    let cb: Vec<u8> = match decode_segment(cs) {
        Some(b) => b,
        None => {
            return Err(Error::MalformedToken);
        },
    };
    let signature: Vec<u8> = match decode_segment(ss) {
        Some(b) => b,
        None => {
            return Err(Error::MalformedToken);
        },
    };
    let header: Header = match read_header(hb.as_slice()) {
        Some(h) => h,
        None => {
            return Err(Error::MalformedToken);
        },
    };
    let payload: Payload = match read_payload(cb.as_slice()) {
        Some(p) => p,
        None => {
            return Err(Error::MalformedToken);
        },
    };
    proof {
        lemma_payload_text_injective(payload@, payload_of_text(cb@));
    }
    let not_before: Option<u64> = payload.not_before;
    let claims: ClaimSet = match claims_from(header, payload) {
        Ok(c) => c,
        Err(e) => {
            return Err(e);
        },
    };
    let signing_input: Vec<u8> = slice_to_vec(slice_subrange(raw, 0, q));
    assert(signing_input@ =~= hs@ + seq![DOT] + cs@) by {
        crate::token::lemma_find_dot(raw@, 0);
    }
    Ok(
        ParsedToken {
            claims: claims,
            not_before: not_before,
            signing_input: signing_input,
            signature: signature,
        },
    )
}

/// Takes a token apart that is given as text.
pub fn parse(raw: &str) -> (r: Result<ParsedToken, Error>)
    ensures
        match r {
            Ok(token) => parse_outcome(encode_utf8(raw@)) == Ok::<ParsedModel, Error>(token@),
            Err(e) => parse_outcome(encode_utf8(raw@)) == Err::<ParsedModel, Error>(e),
        },
        r matches Err(e) ==> e is MalformedToken || e is MissingKeyId || e is MissingIssuer,
{
    parse_bytes(raw.as_bytes())
}

} // verus!
