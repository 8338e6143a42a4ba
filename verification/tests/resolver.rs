use xqr_core::error::Error;
use xqr_core::resolver::{KeyStore, Lookup, Resolver, Strategy};

#[test]
fn empty_store_knows_no_key() {
    let store = KeyStore::new();
    assert!(matches!(store.resolve("issuer-a", "kid-1"), Err(Error::KeyNotFound)));
}

#[test]
fn store_finds_what_was_inserted() {
    let mut store = KeyStore::new();
    store.insert("issuer-a", "kid-1", "PEM-A1");
    store.insert("issuer-a", "kid-2", "PEM-A2");
    store.insert("issuer-b", "kid-1", "PEM-B1");
    assert_eq!(store.resolve("issuer-a", "kid-1").unwrap().pem, "PEM-A1");
    assert_eq!(store.resolve("issuer-a", "kid-2").unwrap().pem, "PEM-A2");
    assert_eq!(store.resolve("issuer-b", "kid-1").unwrap().pem, "PEM-B1");
    assert!(matches!(store.resolve("issuer-b", "kid-2"), Err(Error::KeyNotFound)));
    assert!(matches!(store.resolve("", ""), Err(Error::KeyNotFound)));
}

#[test]
fn store_replaces_the_key_of_a_pair_that_is_known() {
    let mut store = KeyStore::new();
    store.insert("issuer-a", "kid-1", "OLD");
    store.insert("issuer-b", "kid-1", "OTHER");
    store.insert("issuer-a", "kid-1", "NEW");
    assert_eq!(store.resolve("issuer-a", "kid-1").unwrap().pem, "NEW");
    assert_eq!(store.resolve("issuer-b", "kid-1").unwrap().pem, "OTHER");
}

#[test]
fn store_tells_issuer_and_key_id_apart() {
    let mut store = KeyStore::new();
    store.insert("ab", "c", "ONE");
    assert!(matches!(store.resolve("a", "bc"), Err(Error::KeyNotFound)));
    assert!(matches!(store.resolve("c", "ab"), Err(Error::KeyNotFound)));
}

#[test]
fn local_strategy_never_asks_for_a_fetch() {
    let mut known = KeyStore::new();
    known.insert_local("kid-1", "PEM");
    let resolver = Resolver { strategy: Strategy::Local, known };
    assert!(matches!(resolver.lookup("issuer-a", "kid-1"), Lookup::Found(k) if k.pem == "PEM"));
    assert!(matches!(resolver.lookup("issuer-a", "kid-2"), Lookup::NotFound));
}

#[test]
fn local_strategy_goes_by_the_key_identifier_alone() {
    let mut known = KeyStore::new();
    known.insert_local("kid-1", "LOCAL");
    known.insert("issuer-a", "kid-2", "OF-ISSUER-A");
    let resolver = Resolver { strategy: Strategy::Local, known };
    assert!(matches!(resolver.lookup("issuer-a", "kid-1"), Lookup::Found(k) if k.pem == "LOCAL"));
    assert!(matches!(resolver.lookup("issuer-b", "kid-1"), Lookup::Found(k) if k.pem == "LOCAL"));
    assert!(matches!(resolver.lookup("issuer-a", "kid-2"), Lookup::NotFound));
    assert_eq!(resolver.known.resolve_local("kid-1").unwrap().pem, "LOCAL");
    assert!(matches!(resolver.known.resolve_local("kid-2"), Err(Error::KeyNotFound)));
}

#[test]
fn remote_strategy_goes_by_issuer_and_key_identifier() {
    let mut known = KeyStore::new();
    known.insert_local("kid-1", "LOCAL");
    known.insert("issuer-a", "kid-1", "OF-ISSUER-A");
    let resolver = Resolver { strategy: Strategy::Remote, known };
    assert!(matches!(
        resolver.lookup("issuer-a", "kid-1"),
        Lookup::Found(k) if k.pem == "OF-ISSUER-A"
    ));
    assert!(matches!(resolver.lookup("issuer-b", "kid-1"), Lookup::Fetch));
}

#[test]
fn remote_strategy_asks_for_what_it_lacks() {
    let resolver = Resolver { strategy: Strategy::Remote, known: KeyStore::new() };
    assert!(matches!(resolver.lookup("https://example.com", "kid-1"), Lookup::Fetch));
}

#[test]
fn fetched_key_is_remembered() {
    let mut resolver = Resolver { strategy: Strategy::Remote, known: KeyStore::new() };
    let r = resolver.fetched("https://example.com", "kid-1", Ok("PEM".to_string()));
    assert_eq!(r.unwrap().pem, "PEM");
    assert!(matches!(
        resolver.lookup("https://example.com", "kid-1"),
        Lookup::Found(k) if k.pem == "PEM"
    ));
    assert!(matches!(resolver.strategy, Strategy::Remote));
}

#[test]
fn failed_fetch_is_not_remembered() {
    let mut resolver = Resolver { strategy: Strategy::Remote, known: KeyStore::new() };
    let r = resolver.fetched("https://example.com", "kid-1", Err(Error::ResolutionTimeout));
    assert!(matches!(r, Err(Error::ResolutionTimeout)));
    assert!(matches!(resolver.lookup("https://example.com", "kid-1"), Lookup::Fetch));
    let r = resolver.fetched("https://example.com", "kid-1", Err(Error::ResolutionTransportError));
    assert!(matches!(r, Err(Error::ResolutionTransportError)));
    let r = resolver.fetched("https://example.com", "kid-1", Err(Error::KeyNotFound));
    assert!(matches!(r, Err(Error::KeyNotFound)));
    assert!(matches!(resolver.lookup("https://example.com", "kid-1"), Lookup::Fetch));
}

#[test]
fn forgotten_key_is_not_found_again() {
    let mut store = KeyStore::new();
    store.insert("issuer-a", "kid-1", "PEM-A1");
    store.insert("issuer-a", "kid-2", "PEM-A2");
    store.insert("issuer-b", "kid-1", "PEM-B1");
    store.forget("issuer-a", "kid-1");
    assert!(matches!(store.resolve("issuer-a", "kid-1"), Err(Error::KeyNotFound)));
    assert_eq!(store.resolve("issuer-a", "kid-2").unwrap().pem, "PEM-A2");
    assert_eq!(store.resolve("issuer-b", "kid-1").unwrap().pem, "PEM-B1");
    store.forget("issuer-a", "kid-1");
    store.forget("nobody", "nothing");
    assert_eq!(store.resolve("issuer-a", "kid-2").unwrap().pem, "PEM-A2");
    store.insert("issuer-a", "kid-1", "PEM-NEW");
    assert_eq!(store.resolve("issuer-a", "kid-1").unwrap().pem, "PEM-NEW");
}

#[test]
fn withdrawn_key_is_fetched_anew() {
    let mut resolver = Resolver { strategy: Strategy::Remote, known: KeyStore::new() };
    resolver.fetched("https://example.com", "kid-1", Ok("OLD".to_string())).unwrap();
    resolver.known.forget("https://example.com", "kid-1");
    assert!(matches!(resolver.lookup("https://example.com", "kid-1"), Lookup::Fetch));
    resolver.fetched("https://example.com", "kid-1", Ok("NEW".to_string())).unwrap();
    assert!(matches!(
        resolver.lookup("https://example.com", "kid-1"),
        Lookup::Found(k) if k.pem == "NEW"
    ));
}
