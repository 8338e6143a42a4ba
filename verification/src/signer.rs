//! Issuing a token: the claims are spelled canonically, the spelling is
//! signed, and header, payload and signature are joined into the compact form.

use vstd::prelude::*;
use vstd::utf8::encode_utf8;
use crate::base64url::{
    MAX_ENCODABLE,
    base64url_bytes,
    base64url_text,
    encode_segment,
    is_symbol,
};
use crate::claims::{ClaimSet, ClaimsModel};
use crate::error::Error;
use crate::keys::{KeyPair, ecdsa_sign, load_outcome};
use crate::parser::{ParsedModel, claims_outcome, parse_outcome};
use crate::text::{lemma_seven_bit_is_text, string_from_utf8};
use crate::token::{DOT, compact, dot_free, lemma_segments_of_compact};
use crate::verification::signature_holds;
use crate::wire::{
    Header,
    HeaderModel,
    Payload,
    PayloadModel,
    header_text,
    lemma_header_reads_back,
    lemma_payload_text_injective,
    payload_of_text,
    payload_text,
    write_header,
    write_payload,
};

verus! {

/// The header of a token for the claims.
pub open spec fn header_for(claims: ClaimsModel) -> HeaderModel {
    HeaderModel { key_id: Some(claims.key_id) }
}

/// The payload of a token for the claims.
pub open spec fn payload_for(claims: ClaimsModel) -> PayloadModel {
    PayloadModel {
        expires_at: claims.expires_at,
        not_before: None,
        issued_at: claims.issued_at,
        issuer: Some(claims.issuer),
        value: claims.value,
    }
}

/// Whether header and payload are short enough to be encoded.
pub open spec fn encodable(claims: ClaimsModel) -> bool {
    &&& header_text(header_for(claims)).len() <= MAX_ENCODABLE
    &&& payload_text(payload_for(claims)).len() <= MAX_ENCODABLE
}

/// The bytes that are signed: the encoded header, a dot, the encoded payload.
pub open spec fn signing_text(claims: ClaimsModel) -> Seq<u8> {
    base64url_text(header_text(header_for(claims))) + seq![DOT] + base64url_text(
        payload_text(payload_for(claims)),
    )
}

/// The token for the claims with the given signature.
pub open spec fn token_text(claims: ClaimsModel, signature: Seq<u8>) -> Seq<u8> {
    signing_text(claims) + seq![DOT] + base64url_text(signature)
}

/// What is read from the token for the claims with the given signature.
pub open spec fn parsed_form(claims: ClaimsModel, signature: Seq<u8>) -> ParsedModel {
    ParsedModel {
        claims: claims,
        not_before: None,
        signing_input: signing_text(claims),
        signature: signature,
    }
}

/// What the encoder has promised of its text for these bytes.
pub open spec fn reads_back(bytes: Seq<u8>) -> bool {
    &&& base64url_bytes(base64url_text(bytes)) == Some(bytes)
    &&& forall|i: int|
        0 <= i < base64url_text(bytes).len() ==> is_symbol(#[trigger] base64url_text(bytes)[i])
}

/// `raw` is the token for valid claims with a signature that the key accepts,
/// and is read as such.
pub open spec fn issued(
    raw: Seq<u8>,
    claims: ClaimsModel,
    signature: Seq<u8>,
    public_pem: Seq<char>,
) -> bool {
    &&& claims.valid()
    &&& raw == token_text(claims, signature)
    &&& parse_outcome(raw) == Ok::<ParsedModel, Error>(parsed_form(claims, signature))
    &&& signature_holds(parsed_form(claims, signature), public_pem)
}

/// `raw` is a token that `sign` may give for the claims under a key pair with
/// this public key.
pub open spec fn signed(raw: Seq<u8>, claims: ClaimsModel, public_pem: Seq<char>) -> bool {
    exists|signature: Seq<u8>| #[trigger] issued(raw, claims, signature, public_pem)
}

/// A token for valid claims reads back as those claims, given what the
/// encoder has promised of the three segments.
proof fn lemma_token_reads_back(claims: ClaimsModel, signature: Seq<u8>)
    requires
        claims.valid(),
        reads_back(header_text(header_for(claims))),
        reads_back(payload_text(payload_for(claims))),
        reads_back(signature),
    ensures
        parse_outcome(token_text(claims, signature)) == Ok::<ParsedModel, Error>(
            parsed_form(claims, signature),
        ),
        forall|i: int|
            0 <= i < token_text(claims, signature).len() ==> #[trigger] token_text(
                claims,
                signature,
            )[i] < 0x80,
{
    let h = header_for(claims);
    let p = payload_for(claims);
    let hs = base64url_text(header_text(h));
    let cs = base64url_text(payload_text(p));
    let ss = base64url_text(signature);
    let raw = token_text(claims, signature);
    assert(raw =~= compact(hs, cs, ss));
    assert(dot_free(hs) && dot_free(cs) && dot_free(ss));
    lemma_segments_of_compact(hs, cs, ss);
    lemma_header_reads_back(h);
    lemma_payload_text_injective(p, payload_of_text(payload_text(p)));
    assert(claims_outcome(h, p) == Ok::<ClaimsModel, Error>(claims));
    assert forall|i: int| 0 <= i < raw.len() implies #[trigger] raw[i] < 0x80 by {
        let a: int = hs.len() as int;
        let b: int = a + 1 + cs.len();
        if i < a {
            assert(raw[i] == hs[i]);
        } else if i == a {
        } else if i < b {
            assert(raw[i] == cs[i - a - 1]);
        } else if i == b {
        } else {
            assert(raw[i] == ss[i - b - 1]);
        }
    }
}

/// The bytes to sign for the claims, unless header or payload is too long.
pub fn signing_input(claims: &ClaimSet) -> (r: Result<Vec<u8>, Error>)
    ensures
        match r {
            Ok(input) => {
                &&& encodable(claims@)
                &&& claims@.valid()
                &&& input@ == signing_text(claims@)
                &&& reads_back(header_text(header_for(claims@)))
                &&& reads_back(payload_text(payload_for(claims@)))
            },
            Err(e) => e == Error::SigningError && !encodable(claims@),
        },
{
    let header = Header { key_id: Some(claims.key_id().to_owned()) };
    let payload = Payload {
        expires_at: claims.expires_at(),
        not_before: None,
        issued_at: claims.issued_at(),
        issuer: Some(claims.issuer().to_owned()),
        value: claims.value().to_owned(),
    };
    assert(header@ == header_for(claims@));
    assert(payload@ == payload_for(claims@));
    let header_bytes: Vec<u8> = write_header(&header);
    let payload_bytes: Vec<u8> = write_payload(&payload);
    if header_bytes.len() > MAX_ENCODABLE || payload_bytes.len() > MAX_ENCODABLE {
        return Err(Error::SigningError);
    }
    let mut out: Vec<u8> = encode_segment(header_bytes.as_slice());
    let mut second: Vec<u8> = encode_segment(payload_bytes.as_slice());
    out.push(DOT);
    out.append(&mut second);
    Ok(out)
}

/// Joins the signed bytes and the signature into the token.
fn join(claims: &ClaimSet, input: Vec<u8>, signature: &[u8]) -> (token: String)
    requires
        claims@.valid(),
        input@ == signing_text(claims@),
        reads_back(header_text(header_for(claims@))),
        reads_back(payload_text(payload_for(claims@))),
        signature@.len() <= MAX_ENCODABLE,
    ensures
        encode_utf8(token@) == token_text(claims@, signature@),
        parse_outcome(encode_utf8(token@)) == Ok::<ParsedModel, Error>(
            parsed_form(claims@, signature@),
        ),
        reads_back(signature@),
{
    let mut out: Vec<u8> = input;
    let mut third: Vec<u8> = encode_segment(signature);
    out.push(DOT);
    out.append(&mut third);
    proof {
        lemma_token_reads_back(claims@, signature@);
        assert(out@ =~= token_text(claims@, signature@));
        lemma_seven_bit_is_text(out@);
    }
    // The bytes are symbols and dots, so they always are text.
    match string_from_utf8(out) {
        Some(token) => token,
        None => String::new(),
    }
}

/// The token for the claims with a signature that was made elsewhere. It is
/// owed unless header, payload or signature is too long to be encoded.
pub fn assemble(claims: &ClaimSet, signature: &[u8]) -> (r: Result<String, Error>)
    ensures
        r is Ok <==> encodable(claims@) && signature@.len() <= MAX_ENCODABLE,
        match r {
            Ok(token) => {
                &&& encode_utf8(token@) == token_text(claims@, signature@)
                &&& parse_outcome(encode_utf8(token@)) == Ok::<ParsedModel, Error>(
                    parsed_form(claims@, signature@),
                )
            },
            Err(e) => e == Error::SigningError,
        },
{
    let input: Vec<u8> = match signing_input(claims) {
        Ok(input) => input,
        Err(e) => {
            return Err(e);
        },
    };
    if signature.len() > MAX_ENCODABLE {
        return Err(Error::SigningError);
    }
    Ok(join(claims, input, signature))
}

/// Signs the claims with the key pair. Whether the key signs is for OpenSSL
/// to say; a token that comes back is issued for these claims under the
/// pair's public key.
pub fn sign(claims: &ClaimSet, key: &KeyPair) -> (r: Result<String, Error>)
    ensures
        match r {
            Ok(token) => encodable(claims@) && signed(
                encode_utf8(token@),
                claims@,
                key.public_text(),
            ),
            Err(e) => e == Error::SigningError,
        },
{
    let input: Vec<u8> = match signing_input(claims) {
        Ok(input) => input,
        Err(e) => {
            return Err(e);
        },
    };
    let signature: Vec<u8> = match ecdsa_sign(key.private_pem(), input.as_slice()) {
        Some(signature) => signature,
        None => {
            return Err(Error::SigningError);
        },
    };
    if signature.len() > MAX_ENCODABLE {
        return Err(Error::SigningError);
    }
    let token: String = join(claims, input, signature.as_slice());
    assert(issued(encode_utf8(token@), claims@, signature@, key.public_text()));
    Ok(token)
}

/// Signs the claims with a private key that is given as PEM text. A text that
/// is not taken as an ES256 key pair gives a signing error.
pub fn sign_with_pem(claims: &ClaimSet, private_pem: &str) -> (r: Result<String, Error>)
    ensures
        match r {
            Ok(token) => {
                &&& load_outcome(private_pem@) is Ok
                &&& encodable(claims@)
                &&& signed(encode_utf8(token@), claims@, load_outcome(private_pem@).unwrap().1)
            },
            Err(e) => e == Error::SigningError,
        },
{
    match KeyPair::load(private_pem.to_owned()) {
        Ok(key) => sign(claims, &key),
        Err(_) => Err(Error::SigningError),
    }
}

} // verus!
