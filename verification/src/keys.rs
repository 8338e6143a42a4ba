//! Key material and the signature primitive: P-256 ECDSA with SHA-256
//! ("ES256"), done by OpenSSL through the `openssl`, `jwtk` and `xqr` crates.
//! Keys are handled as PEM text.
//!
//! A PEM text may be protected by a passphrase, and OpenSSL's plain readers
//! then ask the terminal for it. No text from outside reaches such a reader
//! here: it is first read with a passphrase that is handed over, the empty
//! one, and written again without protection. Only what OpenSSL wrote that
//! way is loaded as a key.

use vstd::prelude::*;
use vstd::utf8::encode_utf8;
use jwtk::ecdsa::{EcdsaPrivateKey, EcdsaPublicKey};
use jwtk::jwk::WithKid;
use jwtk::{SigningKey, VerificationKey};
use openssl::pkey::PKey;

verus! {

/// The longest PEM text that is handed to OpenSSL, whose memory reader takes
/// a length that fits a C `int`.
pub const MAX_PEM_BYTES: usize = 0x7fff_ffff;

/// Whether a PEM text is short enough to be handed to OpenSSL.
pub open spec fn pem_fits(pem: Seq<char>) -> bool {
    encode_utf8(pem).len() <= MAX_PEM_BYTES
}

/// The name of the one signature algorithm of tokens.
pub open spec fn es256() -> Seq<char> {
    "ES256"@
}

/// The passphrase that protected texts are tried with: the empty one.
pub open spec fn no_passphrase() -> Seq<u8> {
    Seq::<u8>::empty()
}

/// Whether a byte string can be handed over as a passphrase: it holds no
/// zero byte.
pub open spec fn is_passphrase(p: Seq<u8>) -> bool {
    forall|i: int| 0 <= i < p.len() ==> #[trigger] p[i] != 0
}

/// The private key that `text` holds under the passphrase, written again as
/// unprotected PKCS#8 PEM, if the text holds a private key that the
/// passphrase opens.
pub uninterp spec fn plain_private(text: Seq<char>, passphrase: Seq<u8>) -> Option<Seq<char>>;

/// Whether a text is a private key as OpenSSL writes it without protection.
pub open spec fn is_plain_private(pem: Seq<char>) -> bool {
    exists|text: Seq<char>, passphrase: Seq<u8>| #[trigger]
        plain_private(text, passphrase) == Some(pem)
}

/// The name of the algorithm that the private key in the unprotected text
/// `private_pem` signs with, if it is an elliptic-curve key that is supported.
pub uninterp spec fn signing_algorithm(private_pem: Seq<char>) -> Option<Seq<char>>;

/// The PEM text of the public half of the private key in the unprotected
/// text `private_pem`.
pub uninterp spec fn public_half(private_pem: Seq<char>) -> Option<Seq<char>>;

/// The thumbprint of the key in the unprotected text `private_pem`: a digest
/// of its public half, as text.
pub uninterp spec fn key_thumbprint(private_pem: Seq<char>) -> Option<Seq<char>>;

/// Whether the public key that `public_pem` holds under the passphrase
/// accepts `signature` as a signature of `message` under the named algorithm.
pub uninterp spec fn signature_accepted(
    public_pem: Seq<char>,
    passphrase: Seq<u8>,
    algorithm: Seq<char>,
    message: Seq<u8>,
    signature: Seq<u8>,
) -> bool;

/// `PKey::private_key_from_pem_passphrase` of `openssl`, which reads with the
/// passphrase it is given and asks nobody, then `private_key_to_pem_pkcs8` on
/// the key, and `String::from_utf8` on the bytes. Trusted: whether this
/// succeeds, and the text, are a function of the two arguments. The reader
/// panics on a text that is too long and on a zero byte in the passphrase,
/// which the two conditions exclude.
#[verifier::external_body]
fn plain_private_pem(text: &str, passphrase: &[u8]) -> (r: Option<String>)
    requires
        pem_fits(text@),
        is_passphrase(passphrase@),
    ensures
        match r {
            Some(pem) => plain_private(text@, passphrase@) == Some(pem@),
            None => plain_private(text@, passphrase@) is None,
        },
{
    match PKey::private_key_from_pem_passphrase(text.as_bytes(), passphrase) {
        Ok(key) => match key.private_key_to_pem_pkcs8() {
            Ok(bytes) => String::from_utf8(bytes).ok(),
            Err(_) => None,
        },
        Err(_) => None,
    }
}

/// `EcdsaPrivateKey::from_pem` of `jwtk`, then `SigningKey::alg` on the key.
/// It is given only a text that OpenSSL wrote without protection. Trusted:
/// whether the text loads, and the algorithm's name, are a function of the
/// text.
#[verifier::external_body]
fn private_key_algorithm(private_pem: &str) -> (r: Option<String>)
    requires
        pem_fits(private_pem@),
        is_plain_private(private_pem@),
    ensures
        match r {
            Some(name) => signing_algorithm(private_pem@) == Some(name@),
            None => signing_algorithm(private_pem@) is None,
        },
{
    match EcdsaPrivateKey::from_pem(private_pem.as_bytes()) {
        Ok(key) => Some(key.alg().to_string()),
        Err(_) => None,
    }
}

/// `EcdsaPrivateKey::from_pem` of `jwtk`, then `public_key_to_pem` on the
/// key. It is given only a text that OpenSSL wrote without protection.
/// Trusted: whether this succeeds, and the public PEM text, are a function of
/// the private text.
#[verifier::external_body]
fn derive_public_pem(private_pem: &str) -> (r: Option<String>)
    requires
        pem_fits(private_pem@),
        is_plain_private(private_pem@),
    ensures
        match r {
            Some(public) => public_half(private_pem@) == Some(public@),
            None => public_half(private_pem@) is None,
        },
{
    match EcdsaPrivateKey::from_pem(private_pem.as_bytes()) {
        Ok(key) => key.public_key_to_pem().ok(),
        Err(_) => None,
    }
}

/// `EcdsaPrivateKey::from_pem` of `jwtk`, then `WithKid::new_with_thumbprint_id`
/// on the key and `kid` on the result. It is given only a text that OpenSSL
/// wrote without protection. Trusted: whether this succeeds, and the
/// thumbprint, are a function of the text.
#[verifier::external_body]
fn thumbprint_of(private_pem: &str) -> (r: Option<String>)
    requires
        pem_fits(private_pem@),
        is_plain_private(private_pem@),
    ensures
        match r {
            Some(id) => key_thumbprint(private_pem@) == Some(id@),
            None => key_thumbprint(private_pem@) is None,
        },
{
    match EcdsaPrivateKey::from_pem(private_pem.as_bytes()) {
        Ok(key) => match WithKid::new_with_thumbprint_id(key) {
            Ok(named) => Some(named.kid().to_string()),
            Err(_) => None,
        },
        Err(_) => None,
    }
}

/// `generate_key` of `xqr`, a fresh P-256 key, then
/// `private_key_to_pem_pkcs8` on it. Nothing is promised of the outcome.
#[verifier::external_body]
fn fresh_private_pem() -> (r: Option<String>) {
    match xqr::generate_key() {
        Ok(key) => key.private_key_to_pem_pkcs8().ok(),
        Err(_) => None,
    }
}

/// `EcdsaPrivateKey::from_pem` of `jwtk`, then `SigningKey::sign` on the key.
/// It is given only a text that OpenSSL wrote without protection. The
/// signature differs from call to call. Trusted: where one is returned, the
/// text holds a key that signs, and the public half of that key, which is
/// written without protection and so opens under the empty passphrase,
/// accepts the signature for this message under the key's own algorithm.
#[verifier::external_body]
pub(crate) fn ecdsa_sign(private_pem: &str, message: &[u8]) -> (r: Option<Vec<u8>>)
    requires
        pem_fits(private_pem@),
        is_plain_private(private_pem@),
    ensures
        r is Some ==> signing_algorithm(private_pem@) is Some,
        r is Some && public_half(private_pem@) is Some ==> signature_accepted(
            public_half(private_pem@).unwrap(),
            no_passphrase(),
            signing_algorithm(private_pem@).unwrap(),
            message@,
            r.unwrap()@,
        ),
{
    match EcdsaPrivateKey::from_pem(private_pem.as_bytes()) {
        Ok(key) => match key.sign(message) {
            Ok(signature) => Some(signature.to_vec()),
            Err(_) => None,
        },
        Err(_) => None,
    }
}

/// `PKey::public_key_from_pem_passphrase` of `openssl`, which reads with the
/// passphrase it is given and asks nobody, then `public_key_to_pem` on the
/// key, `EcdsaPublicKey::from_pem` of `jwtk` on what was written, and
/// `VerificationKey::verify` on that key; a text that does not load counts as
/// not accepting. Trusted: the answer is a function of the five arguments.
#[verifier::external_body]
pub(crate) fn ecdsa_verify(
    public_pem: &str,
    passphrase: &[u8],
    algorithm: &str,
    message: &[u8],
    signature: &[u8],
) -> (ok: bool)
    requires
        pem_fits(public_pem@),
        is_passphrase(passphrase@),
    ensures
        ok == signature_accepted(public_pem@, passphrase@, algorithm@, message@, signature@),
{
    let plain = match PKey::public_key_from_pem_passphrase(public_pem.as_bytes(), passphrase) {
        Ok(key) => key.public_key_to_pem(),
        Err(e) => Err(e),
    };
    match plain {
        Ok(pem) => match EcdsaPublicKey::from_pem(&pem) {
            Ok(key) => key.verify(message, signature, algorithm).is_ok(),
            Err(_) => false,
        },
        Err(_) => false,
    }
}

/// Why a text was not taken as a key pair.
#[derive(Clone, Copy, Debug, PartialEq, Eq)]
pub enum LoadError {
    /// The text, or what was made of it, is longer than `MAX_PEM_BYTES`.
    TooLong,
    /// The text holds no private key that can be used without a passphrase.
    NotAKey,
    /// The key signs with another algorithm than ES256.
    WrongAlgorithm,
}

/// What a key pair holds: the private key as OpenSSL writes it without
/// protection, an ES256 key, and its public half, both of a length that can
/// be handed to OpenSSL.
pub open spec fn usable_pair(private_pem: Seq<char>, public_pem: Seq<char>) -> bool {
    &&& is_plain_private(private_pem)
    &&& pem_fits(private_pem)
    &&& signing_algorithm(private_pem) == Some(es256())
    &&& public_half(private_pem) == Some(public_pem)
    &&& pem_fits(public_pem)
}

/// Whether `text` is taken as a key pair: with which private and public
/// text, or why not.
pub open spec fn load_outcome(text: Seq<char>) -> Result<(Seq<char>, Seq<char>), LoadError> {
    if !pem_fits(text) {
        Err(LoadError::TooLong)
    } else {
        match plain_private(text, no_passphrase()) {
            None => Err(LoadError::NotAKey),
            Some(plain) => {
                if !pem_fits(plain) {
                    Err(LoadError::TooLong)
                } else {
                    match signing_algorithm(plain) {
                        None => Err(LoadError::NotAKey),
                        Some(name) => {
                            if name != es256() {
                                Err(LoadError::WrongAlgorithm)
                            } else {
                                match public_half(plain) {
                                    None => Err(LoadError::NotAKey),
                                    Some(public) => {
                                        if pem_fits(public) {
                                            Ok((plain, public))
                                        } else {
                                            Err(LoadError::TooLong)
                                        }
                                    },
                                }
                            }
                        },
                    }
                }
            },
        }
    }
}

/// Every text that is taken as a key pair gives a usable one.
pub proof fn lemma_loaded_is_usable(text: Seq<char>)
    requires
        load_outcome(text) is Ok,
    ensures
        usable_pair(load_outcome(text).unwrap().0, load_outcome(text).unwrap().1),
{
    assert(plain_private(text, no_passphrase()) == Some(load_outcome(text).unwrap().0));
}

/// An ES256 signing key with its public half, both as PEM text.
pub struct KeyPair {
    private_pem: String,
    public_pem: String,
}

impl KeyPair {
    #[verifier::type_invariant]
    spec fn usable(&self) -> bool {
        usable_pair(self.private_pem@, self.public_pem@)
    }

    pub closed spec fn private_text(&self) -> Seq<char> {
        self.private_pem@
    }

    pub closed spec fn public_text(&self) -> Seq<char> {
        self.public_pem@
    }

    /// Takes a private key in PEM text as a key pair. A key that is protected
    /// by a passphrase other than the empty one is not taken. The pair holds
    /// the key as OpenSSL writes it again, not the text that was given.
    pub fn load(text: String) -> (r: Result<KeyPair, LoadError>)
        ensures
            match r {
                Ok(pair) => load_outcome(text@) == Ok::<(Seq<char>, Seq<char>), LoadError>(
                    (pair.private_text(), pair.public_text()),
                ) && usable_pair(pair.private_text(), pair.public_text()),
                Err(e) => load_outcome(text@) == Err::<(Seq<char>, Seq<char>), LoadError>(e),
            },
    {
        if text.as_str().as_bytes().len() > MAX_PEM_BYTES {
            return Err(LoadError::TooLong);
        }
        let passphrase: Vec<u8> = Vec::new();
        let private_pem: String = match plain_private_pem(text.as_str(), passphrase.as_slice()) {
            Some(plain) => plain,
            None => {
                return Err(LoadError::NotAKey);
            },
        };
        assert(plain_private(text@, no_passphrase()) == Some(private_pem@));
        if private_pem.as_str().as_bytes().len() > MAX_PEM_BYTES {
            return Err(LoadError::TooLong);
        }
        let name: String = match private_key_algorithm(private_pem.as_str()) {
            Some(name) => name,
            None => {
                return Err(LoadError::NotAKey);
            },
        };
        let expected: String = "ES256".to_owned();
        if !(name == expected) {
            return Err(LoadError::WrongAlgorithm);
        }
        let public_pem: String = match derive_public_pem(private_pem.as_str()) {
            Some(public) => public,
            None => {
                return Err(LoadError::NotAKey);
            },
        };
        if public_pem.as_str().as_bytes().len() > MAX_PEM_BYTES {
            return Err(LoadError::TooLong);
        }
        Ok(KeyPair { private_pem: private_pem, public_pem: public_pem })
    }

    /// A fresh key pair, or nothing where the generator or the loading of what
    /// it made failed. A pair that comes back is a usable ES256 pair.
    pub fn generate() -> (r: Option<KeyPair>)
        ensures
            r matches Some(pair) ==> usable_pair(pair.private_text(), pair.public_text()),
    {
        match fresh_private_pem() {
            Some(pem) => match KeyPair::load(pem) {
                Ok(pair) => Some(pair),
                Err(_) => None,
            },
            None => None,
        }
    }

    /// The private key as PEM text, without protection.
    pub fn export_private(&self) -> (pem: String)
        ensures
            pem@ == self.private_text(),
            usable_pair(pem@, self.public_text()),
    {
        proof {
            use_type_invariant(self);
        }
        self.private_pem.clone()
    }

    /// The key identifier for a key that was given none: its thumbprint.
    pub fn thumbprint(&self) -> (r: Option<String>)
        ensures
            match r {
                Some(id) => key_thumbprint(self.private_text()) == Some(id@),
                None => key_thumbprint(self.private_text()) is None,
            },
    {
        proof {
            use_type_invariant(self);
        }
        thumbprint_of(self.private_pem.as_str())
    }

    pub(crate) fn private_pem(&self) -> (pem: &str)
        ensures
            pem@ == self.private_text(),
            usable_pair(self.private_text(), self.public_text()),
    {
        proof {
            use_type_invariant(self);
        }
        self.private_pem.as_str()
    }

    /// The public key as PEM text.
    pub fn export_public(&self) -> (pem: String)
        ensures
            pem@ == self.public_text(),
            usable_pair(self.private_text(), pem@),
    {
        proof {
            use_type_invariant(self);
        }
        self.public_pem.clone()
    }
}

} // verus!
