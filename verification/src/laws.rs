//! What holds of issuing, parsing and verifying together.

use vstd::prelude::*;
use crate::claims::{ClaimsModel, encoded};
use crate::error::{Error, Rejection};
use crate::base64url::base64url_bytes;
use crate::parser::{ParsedModel, parse_outcome};
use crate::signer::signed;
use crate::token::{DOT, compact, dot_free, lemma_segments_of_compact, lemma_segments_sound, segments};
use crate::verification::{signature_holds, time_verdict, verdict, verification_outcome};

verus! {

/// The round trip: a token that was signed for claims under a key pair
/// verifies against the pair's public key, at any time that the claims
/// allow, to the claims' value.
pub proof fn lemma_round_trip(raw: Seq<u8>, claims: ClaimsModel, public_pem: Seq<char>, now: u64)
    requires
        signed(raw, claims, public_pem),
        time_verdict(claims, None, now) is None,
    ensures
        parse_outcome(raw) is Ok,
        verdict(parse_outcome(raw).unwrap(), Ok::<Seq<char>, Error>(public_pem), now) == Ok::<
            Seq<char>,
            Rejection,
        >(claims.value),
{
}

/// The round trip through a key store that holds the public key under the
/// issuer and key identifier of the claims.
pub proof fn lemma_round_trip_through_store(
    raw: Seq<u8>,
    claims: ClaimsModel,
    public_pem: Seq<char>,
    known: Map<(Seq<char>, Seq<char>), Seq<char>>,
    now: u64,
)
    requires
        signed(raw, claims, public_pem),
        time_verdict(claims, None, now) is None,
        known.contains_key((claims.issuer, claims.key_id)),
        known[(claims.issuer, claims.key_id)] == public_pem,
    ensures
        verification_outcome(raw, known, now) == Ok::<Seq<char>, Error>(claims.value),
{
}

/// Claims are in time at the moment they are made, and stay so until they
/// expire.
pub proof fn lemma_fresh_claims_are_in_time(
    value: Seq<char>,
    issuer: Seq<char>,
    key_id: Seq<char>,
    issued: u64,
    valid_for: Option<u64>,
    now: u64,
)
    requires
        encoded(value, issuer, key_id, issued, valid_for) is Some,
        issued <= now,
        valid_for is Some ==> now <= issued + valid_for.unwrap(),
    ensures
        encoded(value, issuer, key_id, issued, valid_for).unwrap().valid(),
        encoded(value, issuer, key_id, issued, valid_for).unwrap().value == value,
        time_verdict(encoded(value, issuer, key_id, issued, valid_for).unwrap(), None, now)
            is None,
{
}

/// The round trip from the value on: what is made into claims, signed at
/// once and verified before it expires, against the public key of the pair
/// that signed, comes out as it went in.
pub proof fn lemma_value_round_trip(
    raw: Seq<u8>,
    value: Seq<char>,
    issuer: Seq<char>,
    key_id: Seq<char>,
    issued: u64,
    valid_for: Option<u64>,
    public_pem: Seq<char>,
    now: u64,
)
    requires
        encoded(value, issuer, key_id, issued, valid_for) is Some,
        signed(raw, encoded(value, issuer, key_id, issued, valid_for).unwrap(), public_pem),
        issued <= now,
        valid_for is Some ==> now <= issued + valid_for.unwrap(),
    ensures
        parse_outcome(raw) is Ok,
        verdict(parse_outcome(raw).unwrap(), Ok::<Seq<char>, Error>(public_pem), now) == Ok::<
            Seq<char>,
            Rejection,
        >(value),
{
    lemma_fresh_claims_are_in_time(value, issuer, key_id, issued, valid_for, now);
}

/// Whatever the bytes, taking them apart ends with a parsed token or with one
/// of three refusals.
pub proof fn lemma_parse_refusals(raw: Seq<u8>)
    ensures
        parse_outcome(raw) matches Err(e) ==> e is MalformedToken || e is MissingKeyId
            || e is MissingIssuer,
{
}

/// A signed token with an expiry is rejected as expired at every time after
/// the expiry, whatever else holds of it.
pub proof fn lemma_expired_after_expiry(
    raw: Seq<u8>,
    claims: ClaimsModel,
    public_pem: Seq<char>,
    now: u64,
)
    requires
        signed(raw, claims, public_pem),
        claims.expires_at is Some,
        now > claims.expires_at.unwrap(),
    ensures
        verdict(parse_outcome(raw).unwrap(), Ok::<Seq<char>, Error>(public_pem), now) == Err::<
            Seq<char>,
            Rejection,
        >(Rejection::Expired),
{
}

/// A key that does not accept the signature rejects the token with
/// `BadSignature`, whatever the claims hold and whatever the clock reads.
pub proof fn lemma_unaccepted_is_bad_signature(token: ParsedModel, public_pem: Seq<char>, now: u64)
    requires
        !signature_holds(token, public_pem),
    ensures
        verdict(token, Ok::<Seq<char>, Error>(public_pem), now) == Err::<Seq<char>, Rejection>(
            Rejection::BadSignature,
        ),
{
}

/// A key resolution that failed, for whatever reason, rejects the token with
/// `KeyUnavailable`: neither the signature nor the clock has a say.
pub proof fn lemma_unresolved_is_key_unavailable(token: ParsedModel, failure: Error, now: u64)
    ensures
        verdict(token, Err::<Seq<char>, Error>(failure), now) == Err::<Seq<char>, Rejection>(
            Rejection::KeyUnavailable,
        ),
{
}

/// A value is released only where the key was resolved, the signature held
/// under it and the clock had nothing against the claims.
pub proof fn lemma_value_needs_all(
    token: ParsedModel,
    resolution: Result<Seq<char>, Error>,
    now: u64,
)
    requires
        verdict(token, resolution, now) is Ok,
    ensures
        resolution is Ok,
        signature_holds(token, resolution.unwrap()),
        time_verdict(token.claims, token.not_before, now) is None,
        verdict(token, resolution, now) == Ok::<Seq<char>, Rejection>(token.claims.value),
{
}

/// Changing one byte inside the signature segment of a token that parses, so
/// that the segment still decodes, leaves claims and signed bytes as they
/// were read and makes what the segment now decodes to the signature; the
/// token is then rejected with `BadSignature` unless the key accepts that as
/// a signature of the unchanged bytes.
pub proof fn lemma_signature_byte_changed(
    raw: Seq<u8>,
    at: int,
    byte: u8,
    public_pem: Seq<char>,
    now: u64,
)
    requires
        parse_outcome(raw) is Ok,
        raw.len() - segments(raw).unwrap().2.len() <= at < raw.len(),
        byte != DOT,
        base64url_bytes(
            segments(raw).unwrap().2.update(at - (raw.len() - segments(raw).unwrap().2.len()), byte),
        ) is Some,
    ensures
        ({
            let before = parse_outcome(raw).unwrap();
            let segment = segments(raw).unwrap().2;
            let after = ParsedModel {
                claims: before.claims,
                not_before: before.not_before,
                signing_input: before.signing_input,
                signature: base64url_bytes(
                    segment.update(at - (raw.len() - segment.len()), byte),
                ).unwrap(),
            };
            &&& parse_outcome(raw.update(at, byte)) == Ok::<ParsedModel, Error>(after)
            &&& !signature_holds(after, public_pem) ==> verdict(
                after,
                Ok::<Seq<char>, Error>(public_pem),
                now,
            ) == Err::<Seq<char>, Rejection>(Rejection::BadSignature)
        }),
{
    lemma_segments_sound(raw);
    let (hs, cs, ss) = segments(raw).unwrap();
    let k: int = at - (raw.len() - ss.len());
    let ss2 = ss.update(k, byte);
    assert(raw.update(at, byte) =~= compact(hs, cs, ss2));
    assert(dot_free(ss2)) by {
        assert forall|i: int| 0 <= i < ss2.len() implies #[trigger] ss2[i] != DOT by {
            if i != k {
                assert(ss2[i] == ss[i]);
            }
        }
    }
    lemma_segments_of_compact(hs, cs, ss2);
}

/// A segment that does not decode makes the whole text malformed, whichever
/// of the three it is.
pub proof fn lemma_undecodable_segment_is_malformed(raw: Seq<u8>)
    requires
        segments(raw) is Some,
        ({
            let (hs, cs, ss) = segments(raw).unwrap();
            base64url_bytes(hs) is None || base64url_bytes(cs) is None || base64url_bytes(ss)
                is None
        }),
    ensures
        parse_outcome(raw) == Err::<ParsedModel, Error>(Error::MalformedToken),
{
}

} // verus!
