use base64::engine::general_purpose::URL_SAFE_NO_PAD;
use base64::Engine;
use xqr::XQR;
use xqr_core::claims::encode;
use xqr_core::error::{Error, Rejection};
use xqr_core::keys::KeyPair;
use xqr_core::parser::{parse, ParsedToken};
use xqr_core::resolver::{KeyStore, PublicKey};
use xqr_core::signer::{assemble, sign};
use xqr_core::verification::{
    check_signature, check_time, verify, verify_token, Stage, Verifier, CLOCK_SKEW_SECS,
};

const NOW: u64 = 1_700_000_000;

fn token_for(pair: &KeyPair, value: &str, now: u64, valid_for: Option<u64>) -> String {
    let claims = encode(value, "issuer-a", "kid-1", now, valid_for).unwrap();
    sign(&claims, pair).unwrap()
}

fn store_with(pair: &KeyPair) -> KeyStore {
    let mut store = KeyStore::new();
    store.insert("issuer-a", "kid-1", &pair.export_public());
    store
}

fn parsed(raw: &str) -> ParsedToken {
    match parse(raw) {
        Ok(p) => p,
        Err(e) => panic!("refused: {:?}", e),
    }
}

fn public_key(pair: &KeyPair) -> PublicKey {
    PublicKey { pem: pair.export_public() }
}

#[test]
fn hello_from_issuer_a_verifies_to_hello() {
    let pair = KeyPair::generate().unwrap();
    let claims = encode("hello", "issuer-a", "kid-1", NOW, None).unwrap();
    let token = sign(&claims, &pair).unwrap();
    let mut store = KeyStore::new();
    store.insert("issuer-a", "kid-1", &pair.export_public());
    assert_eq!(verify_token(&token, &store, NOW), Ok("hello".to_string()));
}

#[test]
fn round_trip_recovers_the_value_exactly() {
    let pair = KeyPair::generate().unwrap();
    let store = store_with(&pair);
    let values = [
        "",
        "hello",
        "with \"quotes\" and \\backslashes\\",
        "line one\nline two\r\n\ttabbed \u{0}\u{1f}",
        "ünïcödé \u{1F600} 日本語",
        "a.b.c",
        "{\"iat\":1,\"iss\":\"x\",\"value\":\"y\"}",
    ];
    for value in values {
        let token = token_for(&pair, value, NOW, None);
        assert_eq!(verify_token(&token, &store, NOW), Ok(value.to_string()));
    }
}

#[test]
fn round_trip_with_unusual_issuer_and_key_id() {
    let pair = KeyPair::generate().unwrap();
    let claims = encode("v", "https://example.com/\"é\"", "k id\n#1", NOW, Some(10)).unwrap();
    let token = sign(&claims, &pair).unwrap();
    let p = parsed(&token);
    assert_eq!(p.issuer(), "https://example.com/\"é\"");
    assert_eq!(p.key_id(), "k id\n#1");
    let mut store = KeyStore::new();
    store.insert("https://example.com/\"é\"", "k id\n#1", &pair.export_public());
    assert_eq!(verify_token(&token, &store, NOW + 10), Ok("v".to_string()));
}

#[test]
fn round_trip_with_a_long_value() {
    let pair = KeyPair::generate().unwrap();
    let store = store_with(&pair);
    let value: String = "0123456789".repeat(2000);
    let token = token_for(&pair, &value, NOW, None);
    assert_eq!(verify_token(&token, &store, NOW), Ok(value));
}

#[test]
fn verification_can_be_repeated() {
    let pair = KeyPair::generate().unwrap();
    let store = store_with(&pair);
    let token = token_for(&pair, "hello", NOW, None);
    for _ in 0..3 {
        assert_eq!(verify_token(&token, &store, NOW), Ok("hello".to_string()));
    }
}

#[test]
fn token_is_accepted_by_another_implementation() {
    let pair = KeyPair::generate().unwrap();
    let token = token_for(&pair, "hello", NOW, None);
    let other = XQR::from(token);
    assert_eq!(other.get_kid(), Some("kid-1".to_string()));
    assert_eq!(other.get_iss(), Some("issuer-a".to_string()));
    assert_eq!(xqr::decode(&pair.export_public(), &other).unwrap(), "hello");
    let stranger = KeyPair::generate().unwrap();
    assert!(xqr::decode(&stranger.export_public(), &other).is_err());
}

fn with_signature(token: &str, signature: &[u8]) -> String {
    let start = token.rfind('.').unwrap() + 1;
    format!("{}{}", &token[..start], URL_SAFE_NO_PAD.encode(signature))
}

fn signature_of(token: &str) -> Vec<u8> {
    let start = token.rfind('.').unwrap() + 1;
    URL_SAFE_NO_PAD.decode(&token[start..]).unwrap()
}

#[test]
fn changed_signature_byte_is_a_bad_signature() {
    let pair = KeyPair::generate().unwrap();
    let store = store_with(&pair);
    let token = token_for(&pair, "hello", NOW, None);
    let signature = signature_of(&token);
    assert_eq!(with_signature(&token, &signature), token);
    for at in 0..signature.len() {
        let mut changed = signature.clone();
        changed[at] = changed[at].wrapping_add(1);
        assert_eq!(
            verify_token(&with_signature(&token, &changed), &store, NOW),
            Err(Error::BadSignature)
        );
    }
}

#[test]
fn flipped_signature_bit_is_a_bad_signature() {
    let pair = KeyPair::generate().unwrap();
    let store = store_with(&pair);
    let token = token_for(&pair, "hello", NOW, None);
    let signature = signature_of(&token);
    for at in 0..signature.len() {
        for bit in 0..8 {
            let mut changed = signature.clone();
            changed[at] ^= 1 << bit;
            assert_eq!(
                verify_token(&with_signature(&token, &changed), &store, NOW),
                Err(Error::BadSignature)
            );
        }
    }
}

#[test]
fn changed_signature_text_never_verifies() {
    let pair = KeyPair::generate().unwrap();
    let store = store_with(&pair);
    let token = token_for(&pair, "hello", NOW, None);
    let start = token.rfind('.').unwrap() + 1;
    for at in start..token.len() {
        for bit in 0..7 {
            let mut bytes = token.clone().into_bytes();
            bytes[at] ^= 1 << bit;
            let tampered = String::from_utf8(bytes).unwrap();
            let outcome = verify_token(&tampered, &store, NOW);
            assert!(matches!(outcome, Err(Error::BadSignature) | Err(Error::MalformedToken)));
        }
    }
}

#[test]
fn signature_that_does_not_decode_is_malformed() {
    let pair = KeyPair::generate().unwrap();
    let store = store_with(&pair);
    let token = token_for(&pair, "hello", NOW, None);
    let start = token.rfind('.').unwrap() + 1;
    let mut bytes = token.clone().into_bytes();
    bytes[start] = b'!';
    let tampered = String::from_utf8(bytes).unwrap();
    assert_eq!(verify_token(&tampered, &store, NOW), Err(Error::MalformedToken));
    let padded = format!("{}==", token);
    assert_eq!(verify_token(&padded, &store, NOW), Err(Error::MalformedToken));
}

#[test]
fn signature_byte_changed_to_a_dot_is_malformed() {
    let pair = KeyPair::generate().unwrap();
    let store = store_with(&pair);
    let token = token_for(&pair, "hello", NOW, None);
    let mut bytes = token.into_bytes();
    let last = bytes.len() - 1;
    bytes[last] = b'.';
    let tampered = String::from_utf8(bytes).unwrap();
    assert_eq!(verify_token(&tampered, &store, NOW), Err(Error::MalformedToken));
}

#[test]
fn truncated_or_missing_signature_is_a_bad_signature() {
    let pair = KeyPair::generate().unwrap();
    let store = store_with(&pair);
    let token = token_for(&pair, "hello", NOW, None);
    let signature = signature_of(&token);
    let cut = with_signature(&token, &signature[..63]);
    assert_eq!(verify_token(&cut, &store, NOW), Err(Error::BadSignature));
    let longer = with_signature(&token, &[&signature[..], &[0u8][..]].concat());
    assert_eq!(verify_token(&longer, &store, NOW), Err(Error::BadSignature));
    let none = &token[..token.rfind('.').unwrap() + 1];
    assert_eq!(verify_token(none, &store, NOW), Err(Error::BadSignature));
}

#[test]
fn changed_payload_is_a_bad_signature() {
    let pair = KeyPair::generate().unwrap();
    let store = store_with(&pair);
    let token = token_for(&pair, "hello", NOW, None);
    let forged_claims = encode("HELLO", "issuer-a", "kid-1", NOW, None).unwrap();
    let forged = assemble(&forged_claims, b"").unwrap();
    let signature = &token[token.rfind('.').unwrap() + 1..];
    let spliced = format!("{}{}", forged, signature);
    assert_eq!(verify_token(&spliced, &store, NOW), Err(Error::BadSignature));
}

#[test]
fn signature_made_elsewhere_is_a_bad_signature() {
    let pair = KeyPair::generate().unwrap();
    let store = store_with(&pair);
    let claims = encode("hello", "issuer-a", "kid-1", NOW, None).unwrap();
    let token = assemble(&claims, &[7u8; 64]).unwrap();
    assert_eq!(verify_token(&token, &store, NOW), Err(Error::BadSignature));
}

#[test]
fn key_of_another_pair_is_a_bad_signature() {
    let signer = KeyPair::generate().unwrap();
    let other = KeyPair::generate().unwrap();
    let store = store_with(&other);
    for value in ["hello", "", "something else entirely"] {
        let token = token_for(&signer, value, NOW, None);
        assert_eq!(verify_token(&token, &store, NOW), Err(Error::BadSignature));
    }
    let expired = token_for(&signer, "hello", NOW, Some(1));
    assert_eq!(verify_token(&expired, &store, NOW + 100), Err(Error::BadSignature));
}

#[test]
fn key_that_is_no_key_is_a_bad_signature() {
    let pair = KeyPair::generate().unwrap();
    let token = token_for(&pair, "hello", NOW, None);
    let mut store = KeyStore::new();
    store.insert("issuer-a", "kid-1", "not a key");
    assert_eq!(verify_token(&token, &store, NOW), Err(Error::BadSignature));
    let mut store = KeyStore::new();
    store.insert("issuer-a", "kid-1", &pair.export_private());
    assert_eq!(verify_token(&token, &store, NOW), Err(Error::BadSignature));
}

#[test]
fn token_valid_for_one_second_expires_after_it() {
    let pair = KeyPair::generate().unwrap();
    let store = store_with(&pair);
    let token = token_for(&pair, "hello", NOW, Some(1));
    assert_eq!(verify_token(&token, &store, NOW), Ok("hello".to_string()));
    assert_eq!(verify_token(&token, &store, NOW + 1), Ok("hello".to_string()));
    assert_eq!(verify_token(&token, &store, NOW + 2), Err(Error::Expired));
    assert_eq!(verify_token(&token, &store, u64::MAX), Err(Error::Expired));
}

#[test]
fn token_without_expiry_is_valid_forever() {
    let pair = KeyPair::generate().unwrap();
    let store = store_with(&pair);
    let token = token_for(&pair, "hello", NOW, None);
    assert_eq!(verify_token(&token, &store, u64::MAX), Ok("hello".to_string()));
}

#[test]
fn token_from_the_future_is_not_yet_valid() {
    let pair = KeyPair::generate().unwrap();
    let store = store_with(&pair);
    let token = token_for(&pair, "hello", NOW, None);
    assert_eq!(CLOCK_SKEW_SECS, 60);
    assert_eq!(verify_token(&token, &store, NOW - 60), Ok("hello".to_string()));
    assert_eq!(verify_token(&token, &store, NOW - 61), Err(Error::NotYetValid));
    assert_eq!(verify_token(&token, &store, 0), Err(Error::NotYetValid));
}

#[test]
fn token_of_the_other_implementation_is_accepted() {
    let now = std::time::SystemTime::now()
        .duration_since(std::time::UNIX_EPOCH)
        .unwrap()
        .as_secs();
    let pair = KeyPair::generate().unwrap();
    for value in ["value", "", "line\nbreak \"q\" \\ \u{1} \t ü \u{1F600}"] {
        let theirs = xqr::encode(&pair.export_private(), value, "https://example.com", None).unwrap();
        let p = parsed(&theirs.token);
        assert_eq!(p.issuer(), "https://example.com");
        assert_eq!(Some(p.key_id().to_string()), pair.thumbprint());
        assert_eq!(theirs.get_kid(), pair.thumbprint());
        let mut store = KeyStore::new();
        store.insert("https://example.com", p.key_id(), &pair.export_public());
        assert_eq!(verify_token(&theirs.token, &store, now), Ok(value.to_string()));
        assert_eq!(verify_token(&theirs.token, &store, now - 1000), Err(Error::NotYetValid));
        let stranger = KeyPair::generate().unwrap();
        let mut wrong = KeyStore::new();
        wrong.insert("https://example.com", p.key_id(), &stranger.export_public());
        assert_eq!(verify_token(&theirs.token, &wrong, now), Err(Error::BadSignature));
    }
}

#[test]
fn expiring_token_of_the_other_implementation_is_accepted_until_it_expires() {
    let now = std::time::SystemTime::now()
        .duration_since(std::time::UNIX_EPOCH)
        .unwrap()
        .as_secs();
    let pair = KeyPair::generate().unwrap();
    let theirs = xqr::encode(
        &pair.export_private(),
        "value",
        "https://example.com",
        Some(std::time::Duration::from_secs(60)),
    )
    .unwrap();
    let mut store = KeyStore::new();
    store.insert("https://example.com", &pair.thumbprint().unwrap(), &pair.export_public());
    assert_eq!(verify_token(&theirs.token, &store, now), Ok("value".to_string()));
    assert_eq!(verify_token(&theirs.token, &store, now + 1000), Err(Error::Expired));
}

#[test]
fn time_before_which_a_token_is_refused_is_kept() {
    let claims = encode("v", "i", "k", 100, None).unwrap();
    assert_eq!(check_time(&claims, Some(100), 100), None);
    assert_eq!(check_time(&claims, Some(200), 140), None);
    assert_eq!(check_time(&claims, Some(200), 139), Some(Rejection::NotYetValid));
    assert_eq!(check_time(&claims, Some(0), 100), None);
    assert_eq!(check_time(&claims, Some(u64::MAX), u64::MAX), None);
    let short = encode("v", "i", "k", 100, Some(10)).unwrap();
    assert_eq!(check_time(&short, Some(500), 111), Some(Rejection::Expired));
}

#[test]
fn clock_check_by_itself() {
    let no_expiry = encode("v", "i", "k", 100, None).unwrap();
    assert_eq!(check_time(&no_expiry, None, 100), None);
    assert_eq!(check_time(&no_expiry, None, 40), None);
    assert_eq!(check_time(&no_expiry, None, 39), Some(Rejection::NotYetValid));
    assert_eq!(check_time(&no_expiry, None, u64::MAX), None);
    let short = encode("v", "i", "k", 100, Some(10)).unwrap();
    assert_eq!(check_time(&short, None, 110), None);
    assert_eq!(check_time(&short, None, 111), Some(Rejection::Expired));
    let late = encode("v", "i", "k", u64::MAX, None).unwrap();
    assert_eq!(check_time(&late, None, u64::MAX - 60), None);
    assert_eq!(check_time(&late, None, u64::MAX - 61), Some(Rejection::NotYetValid));
}

#[test]
fn unknown_key_is_key_not_found() {
    let pair = KeyPair::generate().unwrap();
    let token = token_for(&pair, "hello", NOW, None);
    assert_eq!(verify_token(&token, &KeyStore::new(), NOW), Err(Error::KeyNotFound));
    let mut store = KeyStore::new();
    store.insert("issuer-b", "kid-1", &pair.export_public());
    store.insert("issuer-a", "kid-2", &pair.export_public());
    assert_eq!(verify_token(&token, &store, NOW), Err(Error::KeyNotFound));
}

#[test]
fn malformed_token_is_reported_before_any_key_is_looked_up() {
    let store = KeyStore::new();
    assert_eq!(verify_token("not a token", &store, NOW), Err(Error::MalformedToken));
    assert_eq!(verify_token("", &store, NOW), Err(Error::MalformedToken));
}

#[test]
fn failed_resolution_ends_in_key_unavailable() {
    let pair = KeyPair::generate().unwrap();
    let token = token_for(&pair, "hello", NOW, None);
    for failure in [
        Error::KeyNotFound,
        Error::ResolutionTimeout,
        Error::ResolutionTransportError,
    ] {
        assert_eq!(verify(parsed(&token), Err(failure), NOW), Err(Rejection::KeyUnavailable));
    }
}

#[test]
fn failed_resolution_is_not_followed_by_other_checks() {
    let pair = KeyPair::generate().unwrap();
    let expired_and_forged = {
        let claims = encode("hello", "issuer-a", "kid-1", NOW, Some(1)).unwrap();
        assemble(&claims, &[1u8; 64]).unwrap()
    };
    let v = Verifier::new(parsed(&expired_and_forged));
    let v = v.key_resolved(Err(Error::KeyNotFound));
    assert_eq!(v.current_stage(), Stage::Rejected(Rejection::KeyUnavailable));
    let v = v.signature_checked();
    assert_eq!(v.current_stage(), Stage::Rejected(Rejection::KeyUnavailable));
    let v = v.expiry_checked(NOW + 100);
    assert_eq!(v.current_stage(), Stage::Rejected(Rejection::KeyUnavailable));
    let v = v.released();
    assert_eq!(v.current_stage(), Stage::Rejected(Rejection::KeyUnavailable));
    assert_eq!(v.value(), None);
    assert_eq!(v.rejection(), Some(Rejection::KeyUnavailable));
    let late = v.key_resolved(Ok(public_key(&pair)));
    assert_eq!(late.current_stage(), Stage::Rejected(Rejection::KeyUnavailable));
}

#[test]
fn stages_follow_one_another() {
    let pair = KeyPair::generate().unwrap();
    let token = token_for(&pair, "hello", NOW, Some(30));
    let v = Verifier::new(parsed(&token));
    assert_eq!(v.current_stage(), Stage::Parsed);
    assert_eq!(v.issuer(), "issuer-a");
    assert_eq!(v.key_id(), "kid-1");
    assert_eq!(v.value(), None);
    let v = v.key_resolved(Ok(public_key(&pair)));
    assert_eq!(v.current_stage(), Stage::KeyResolved);
    assert_eq!(v.value(), None);
    let v = v.signature_checked();
    assert_eq!(v.current_stage(), Stage::SignatureChecked);
    assert_eq!(v.value(), None);
    let v = v.expiry_checked(NOW + 30);
    assert_eq!(v.current_stage(), Stage::ExpiryChecked);
    assert_eq!(v.value(), None);
    let v = v.released();
    assert_eq!(v.current_stage(), Stage::Verified);
    assert_eq!(v.value(), Some("hello".to_string()));
    assert_eq!(v.rejection(), None);
}

#[test]
fn steps_out_of_order_change_nothing() {
    let pair = KeyPair::generate().unwrap();
    let token = token_for(&pair, "hello", NOW, None);
    let v = Verifier::new(parsed(&token));
    let v = v.signature_checked().expiry_checked(NOW).released();
    assert_eq!(v.current_stage(), Stage::Parsed);
    assert_eq!(v.value(), None);
    let v = v.key_resolved(Ok(public_key(&pair))).expiry_checked(NOW).released();
    assert_eq!(v.current_stage(), Stage::KeyResolved);
    let v = v.signature_checked().released();
    assert_eq!(v.current_stage(), Stage::SignatureChecked);
    assert_eq!(v.value(), None);
}

#[test]
fn rejection_at_each_step() {
    let pair = KeyPair::generate().unwrap();
    let other = KeyPair::generate().unwrap();
    let token = token_for(&pair, "hello", NOW, Some(1));
    let v = Verifier::new(parsed(&token)).key_resolved(Ok(public_key(&other))).signature_checked();
    assert_eq!(v.current_stage(), Stage::Rejected(Rejection::BadSignature));
    let v = v.expiry_checked(NOW).released();
    assert_eq!(v.value(), None);
    let v = Verifier::new(parsed(&token))
        .key_resolved(Ok(public_key(&pair)))
        .signature_checked()
        .expiry_checked(NOW + 2);
    assert_eq!(v.current_stage(), Stage::Rejected(Rejection::Expired));
    assert_eq!(v.released().value(), None);
    let v = Verifier::new(parsed(&token))
        .key_resolved(Ok(public_key(&pair)))
        .signature_checked()
        .expiry_checked(NOW - 61);
    assert_eq!(v.current_stage(), Stage::Rejected(Rejection::NotYetValid));
}

#[test]
fn bad_signature_is_reported_before_expiry() {
    let pair = KeyPair::generate().unwrap();
    let other = KeyPair::generate().unwrap();
    let token = token_for(&pair, "hello", NOW, Some(1));
    assert_eq!(
        verify(parsed(&token), Ok(public_key(&other)), NOW + 100),
        Err(Rejection::BadSignature)
    );
    assert_eq!(verify(parsed(&token), Ok(public_key(&pair)), NOW + 100), Err(Rejection::Expired));
    assert_eq!(verify(parsed(&token), Ok(public_key(&pair)), NOW), Ok("hello".to_string()));
}

#[test]
fn signature_check_by_itself() {
    let pair = KeyPair::generate().unwrap();
    let other = KeyPair::generate().unwrap();
    let token = token_for(&pair, "hello", NOW, None);
    let p = parsed(&token);
    assert!(check_signature(&p, &public_key(&pair)));
    assert!(!check_signature(&p, &public_key(&other)));
    assert!(!check_signature(&p, &PublicKey { pem: String::new() }));
}

#[test]
fn public_key_that_claims_a_passphrase_asks_nobody() {
    let pair = KeyPair::generate().unwrap();
    let token = token_for(&pair, "hello", NOW, None);
    let public = pair.export_public();
    let body: String = public
        .lines()
        .filter(|line| !line.starts_with("-----"))
        .collect::<Vec<&str>>()
        .join("\n");
    let protected = format!(
        "-----BEGIN PUBLIC KEY-----\nProc-Type: 4,ENCRYPTED\nDEK-Info: AES-128-CBC,000102030405060708090A0B0C0D0E0F\n\n{}\n-----END PUBLIC KEY-----\n",
        body
    );
    let mut store = KeyStore::new();
    store.insert("issuer-a", "kid-1", &protected);
    assert_eq!(verify_token(&token, &store, NOW), Err(Error::BadSignature));
}

#[test]
fn public_key_in_other_wrapping_is_the_same_key() {
    let pair = KeyPair::generate().unwrap();
    let token = token_for(&pair, "hello", NOW, None);
    let spaced = pair.export_public().replace("\n", "\r\n");
    let mut store = KeyStore::new();
    store.insert("issuer-a", "kid-1", &spaced);
    assert_eq!(verify_token(&token, &store, NOW), Ok("hello".to_string()));
}
