use base64::engine::general_purpose::URL_SAFE_NO_PAD;
use base64::Engine;
use xqr_core::claims::encode;
use xqr_core::error::Error;
use xqr_core::keys::KeyPair;
use xqr_core::parser::{parse, parse_bytes};
use xqr_core::signer::{assemble, sign, sign_with_pem, signing_input};
use xqr_core::token::{next_dot, split};

const HEADER_SEGMENT: &str = "eyJhbGciOiJFUzI1NiIsImtpZCI6ImtpZC0xIn0";
const PAYLOAD_SEGMENT: &str =
    "eyJpYXQiOjE3MDAwMDAwMDAsImlzcyI6Imlzc3Vlci1hIiwidmFsdWUiOiJoZWxsbyJ9";

fn token_of(header: &str, payload: &str) -> String {
    format!("{}.{}.AAAA", URL_SAFE_NO_PAD.encode(header), URL_SAFE_NO_PAD.encode(payload))
}

fn refusal(raw: &str) -> Error {
    match parse(raw) {
        Ok(_) => panic!("accepted: {}", raw),
        Err(e) => e,
    }
}

#[test]
fn dots_are_found() {
    assert_eq!(next_dot(b"ab.cd", 0), 2);
    assert_eq!(next_dot(b"ab.cd", 2), 2);
    assert_eq!(next_dot(b"ab.cd", 3), 5);
    assert_eq!(next_dot(b"", 0), 0);
}

#[test]
fn only_texts_with_two_dots_are_split() {
    assert_eq!(split(b"a.b.c"), Some((1, 3)));
    assert_eq!(split(b".."), Some((0, 1)));
    assert_eq!(split(b"abc.def.ghi"), Some((3, 7)));
    assert_eq!(split(b""), None);
    assert_eq!(split(b"abc"), None);
    assert_eq!(split(b"a.b"), None);
    assert_eq!(split(b"a.b.c.d"), None);
    assert_eq!(split(b"..."), None);
}

#[test]
fn signing_input_is_the_two_encoded_objects() {
    let claims = encode("hello", "issuer-a", "kid-1", 1_700_000_000, None).unwrap();
    let input = signing_input(&claims).unwrap();
    assert_eq!(String::from_utf8(input).unwrap(), format!("{}.{}", HEADER_SEGMENT, PAYLOAD_SEGMENT));
}

#[test]
fn signing_input_with_expiry_spells_it_first() {
    let claims = encode("hello", "issuer-a", "kid-1", 1_700_000_000, Some(60)).unwrap();
    let input = String::from_utf8(signing_input(&claims).unwrap()).unwrap();
    let payload = input.split('.').nth(1).unwrap();
    assert_eq!(
        payload,
        "eyJleHAiOjE3MDAwMDAwNjAsImlhdCI6MTcwMDAwMDAwMCwiaXNzIjoiaXNzdWVyLWEiLCJ2YWx1ZSI6ImhlbGxvIn0"
    );
}

#[test]
fn assembled_token_has_three_segments_in_order() {
    let claims = encode("hello", "issuer-a", "kid-1", 1_700_000_000, None).unwrap();
    let token = assemble(&claims, &[0xff, 0xfe]).unwrap();
    assert_eq!(token, format!("{}.{}.__4", HEADER_SEGMENT, PAYLOAD_SEGMENT));
}

#[test]
fn assembled_token_parses_to_its_issuer_and_key_id() {
    let claims = encode("hello", "issuer-a", "kid-1", 1_700_000_000, Some(5)).unwrap();
    let token = assemble(&claims, b"not a signature").unwrap();
    let parsed = match parse(&token) {
        Ok(p) => p,
        Err(e) => panic!("refused: {:?}", e),
    };
    assert_eq!(parsed.issuer(), "issuer-a");
    assert_eq!(parsed.key_id(), "kid-1");
}

#[test]
fn signed_token_starts_with_the_signing_input() {
    let pair = KeyPair::generate().unwrap();
    let claims = encode("hello", "issuer-a", "kid-1", 1_700_000_000, None).unwrap();
    let token = sign(&claims, &pair).unwrap();
    let parts: Vec<&str> = token.split('.').collect();
    assert_eq!(parts.len(), 3);
    assert_eq!(parts[0], HEADER_SEGMENT);
    assert_eq!(parts[1], PAYLOAD_SEGMENT);
    assert_eq!(URL_SAFE_NO_PAD.decode(parts[2]).unwrap().len(), 64);
}

#[test]
fn signing_twice_gives_the_same_header_and_payload() {
    let pair = KeyPair::generate().unwrap();
    let claims = encode("hello", "issuer-a", "kid-1", 1_700_000_000, None).unwrap();
    let a = sign(&claims, &pair).unwrap();
    let b = sign(&claims, &pair).unwrap();
    assert_eq!(a.rsplit_once('.').unwrap().0, b.rsplit_once('.').unwrap().0);
}

#[test]
fn text_without_three_segments_is_malformed() {
    assert_eq!(refusal(""), Error::MalformedToken);
    assert_eq!(refusal("hello"), Error::MalformedToken);
    assert_eq!(refusal("a.b"), Error::MalformedToken);
    assert_eq!(refusal("a.b.c.d"), Error::MalformedToken);
    assert_eq!(refusal(".."), Error::MalformedToken);
    assert_eq!(refusal("..."), Error::MalformedToken);
    assert_eq!(
        refusal(&format!("{}.{}", HEADER_SEGMENT, PAYLOAD_SEGMENT)),
        Error::MalformedToken
    );
    assert_eq!(
        refusal(&format!("{}.{}.AAAA.AAAA", HEADER_SEGMENT, PAYLOAD_SEGMENT)),
        Error::MalformedToken
    );
}

#[test]
fn segment_that_does_not_decode_is_malformed() {
    assert_eq!(refusal(&format!("!!!!.{}.AAAA", PAYLOAD_SEGMENT)), Error::MalformedToken);
    assert_eq!(refusal(&format!("{}.====.AAAA", HEADER_SEGMENT)), Error::MalformedToken);
    assert_eq!(refusal(&format!("{}=.{}.AAAA", HEADER_SEGMENT, PAYLOAD_SEGMENT)), Error::MalformedToken);
    assert_eq!(refusal(&format!("{} .{}.AAAA", HEADER_SEGMENT, PAYLOAD_SEGMENT)), Error::MalformedToken);
    assert_eq!(refusal("é.ü.ö"), Error::MalformedToken);
}

#[test]
fn segment_that_is_no_canonical_object_is_malformed() {
    let payload = "{\"iat\":1,\"iss\":\"a\",\"value\":\"v\"}";
    let header = "{\"alg\":\"ES256\",\"kid\":\"k\"}";
    assert_eq!(refusal(&token_of("hello", payload)), Error::MalformedToken);
    assert_eq!(refusal(&token_of(header, "hello")), Error::MalformedToken);
    assert_eq!(refusal(&token_of(header, "{\"iat\":1,\"iss\":\"a\",\"value\":\"v\"} ")), Error::MalformedToken);
    assert_eq!(refusal(&token_of(header, "{\"iss\":\"a\",\"iat\":1,\"value\":\"v\"}")), Error::MalformedToken);
    assert_eq!(refusal(&token_of(header, "{\"iat\":01,\"iss\":\"a\",\"value\":\"v\"}")), Error::MalformedToken);
    assert_eq!(refusal(&token_of(header, "{\"iat\":1,\"iss\":\"a\",\"value\":\"a\\u000ab\"}")), Error::MalformedToken);
    assert_eq!(refusal(&token_of("", "")), Error::MalformedToken);
}

#[test]
fn unknown_algorithm_is_malformed() {
    let payload = "{\"iat\":1,\"iss\":\"a\",\"value\":\"v\"}";
    assert_eq!(refusal(&token_of("{\"alg\":\"HS256\",\"kid\":\"k\"}", payload)), Error::MalformedToken);
    assert_eq!(refusal(&token_of("{\"alg\":\"none\",\"kid\":\"k\"}", payload)), Error::MalformedToken);
}

#[test]
fn expiry_before_issue_is_malformed() {
    let header = "{\"alg\":\"ES256\",\"kid\":\"k\"}";
    assert_eq!(
        refusal(&token_of(header, "{\"exp\":5,\"iat\":10,\"iss\":\"a\",\"value\":\"v\"}")),
        Error::MalformedToken
    );
}

#[test]
fn header_without_key_id_is_reported_as_such() {
    let payload = "{\"iat\":1,\"iss\":\"a\",\"value\":\"v\"}";
    assert_eq!(refusal(&token_of("{\"alg\":\"ES256\"}", payload)), Error::MissingKeyId);
    assert_eq!(refusal(&token_of("{\"alg\":\"ES256\",\"kid\":\"\"}", payload)), Error::MissingKeyId);
}

#[test]
fn payload_without_issuer_is_reported_as_such() {
    let header = "{\"alg\":\"ES256\",\"kid\":\"k\"}";
    assert_eq!(refusal(&token_of(header, "{\"iat\":1,\"value\":\"v\"}")), Error::MissingIssuer);
    assert_eq!(
        refusal(&token_of(header, "{\"iat\":1,\"iss\":\"\",\"value\":\"v\"}")),
        Error::MissingIssuer
    );
}

#[test]
fn missing_key_id_is_reported_before_missing_issuer() {
    assert_eq!(
        refusal(&token_of("{\"alg\":\"ES256\"}", "{\"iat\":1,\"value\":\"v\"}")),
        Error::MissingKeyId
    );
}

#[test]
fn signature_segment_that_does_not_decode_is_malformed() {
    let header = URL_SAFE_NO_PAD.encode("{\"alg\":\"ES256\",\"kid\":\"k\"}");
    let payload = URL_SAFE_NO_PAD.encode("{\"iat\":1,\"iss\":\"a\",\"value\":\"v\"}");
    for signature in ["!!not base64!!", "A", "AAAA=", "AA AA", "AB", "AAAAA", "++++", "////"] {
        let raw = format!("{}.{}.{}", header, payload, signature);
        assert_eq!(refusal(&raw), Error::MalformedToken);
    }
}

#[test]
fn signature_segment_that_decodes_is_taken_whatever_it_holds() {
    let header = URL_SAFE_NO_PAD.encode("{\"alg\":\"ES256\",\"kid\":\"k\"}");
    let payload = URL_SAFE_NO_PAD.encode("{\"iat\":1,\"iss\":\"a\",\"value\":\"v\"}");
    for signature in ["", "AA", "AAA", "AAAA", "-_-_", "QUJD"] {
        let raw = format!("{}.{}.{}", header, payload, signature);
        assert!(parse(&raw).is_ok());
    }
}

#[test]
fn header_with_further_members_is_taken() {
    let payload = "{\"iat\":1,\"iss\":\"a\",\"value\":\"v\"}";
    let raw = token_of("{\"typ\":\"JWT\",\"alg\":\"ES256\",\"kid\":\"k\"}", payload);
    match parse(&raw) {
        Ok(p) => assert_eq!(p.key_id(), "k"),
        Err(e) => panic!("refused: {:?}", e),
    }
    let raw = token_of("{\"typ\":\"JWT\",\"alg\":\"ES256\"}", payload);
    assert_eq!(refusal(&raw), Error::MissingKeyId);
}

#[test]
fn arbitrary_bytes_are_refused_without_panic() {
    let mut state: u64 = 0x9e37_79b9_7f4a_7c15;
    for round in 0..2000usize {
        let len = round % 97;
        let mut raw: Vec<u8> = Vec::with_capacity(len);
        for _ in 0..len {
            state = state.wrapping_mul(6364136223846793005).wrapping_add(1442695040888963407);
            raw.push((state >> 33) as u8);
        }
        match parse_bytes(&raw) {
            Ok(_) => panic!("accepted arbitrary bytes"),
            Err(e) => assert!(matches!(
                e,
                Error::MalformedToken | Error::MissingKeyId | Error::MissingIssuer
            )),
        }
    }
}

#[test]
fn arbitrary_token_shaped_text_is_refused_without_panic() {
    let alphabet = b"ABCDEFGHIJKLMNOPQRSTUVWXYZabcdefghijklmnopqrstuvwxyz0123456789-_..{}\"";
    let mut state: u64 = 42;
    for round in 0..2000usize {
        let len = round % 61;
        let mut raw = String::new();
        for _ in 0..len {
            state = state.wrapping_mul(6364136223846793005).wrapping_add(1442695040888963407);
            raw.push(alphabet[(state >> 33) as usize % alphabet.len()] as char);
        }
        assert!(parse(&raw).is_err());
    }
}

#[test]
fn text_that_is_no_key_does_not_sign() {
    let claims = encode("hello", "issuer-a", "kid-1", 1_700_000_000, None).unwrap();
    assert_eq!(sign_with_pem(&claims, ""), Err(Error::SigningError));
    assert_eq!(sign_with_pem(&claims, "not a key"), Err(Error::SigningError));
    let pair = KeyPair::generate().unwrap();
    assert_eq!(sign_with_pem(&claims, &pair.export_public()), Err(Error::SigningError));
}

#[test]
fn key_on_another_curve_does_not_sign() {
    let key = jwtk::ecdsa::EcdsaPrivateKey::generate(jwtk::ecdsa::EcdsaAlgorithm::ES384).unwrap();
    let claims = encode("hello", "issuer-a", "kid-1", 1_700_000_000, None).unwrap();
    assert_eq!(
        sign_with_pem(&claims, &key.private_key_to_pem_pkcs8().unwrap()),
        Err(Error::SigningError)
    );
}

#[test]
fn private_key_as_text_signs_like_the_pair() {
    let pair = KeyPair::generate().unwrap();
    let claims = encode("hello", "issuer-a", "kid-1", 1_700_000_000, None).unwrap();
    let token = sign_with_pem(&claims, &pair.export_private()).unwrap();
    let mut store = xqr_core::resolver::KeyStore::new();
    store.insert("issuer-a", "kid-1", &pair.export_public());
    assert_eq!(
        xqr_core::verification::verify_token(&token, &store, 1_700_000_000),
        Ok("hello".to_string())
    );
}
