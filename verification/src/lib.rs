//! Signed claims for QR codes.
//!
//! A value is wrapped into a claim set (`claims`), which names its issuer,
//! the key it is signed with, the time of issue and, where wanted, an expiry.
//! The claim set is signed into a compact token of three segments (`signer`):
//! an encoded header, an encoded payload and the encoded ES256 signature over
//! the first two. Whoever receives a token takes it apart without trusting it
//! (`parser`), finds the public key for the issuer and key identifier that it
//! names (`resolver`), and checks signature and times (`verification`). Only a
//! token that passed all checks gives up its value.
//!
//! The bytes of header and payload are the library's own doing (`json`,
//! `wire`, `token`). The encoding of segments (`base64url`) and everything
//! about keys and signatures (`keys`) is done by other crates, behind
//! functions whose contracts are believed, not proved. What holds of issuing
//! and verifying together is stated in `laws`.
//!
//! Time is always an argument, in seconds since the Unix epoch: the library
//! never reads a clock.

pub mod base64url;
pub mod claims;
pub mod error;
pub mod json;
pub mod keys;
pub mod laws;
pub mod parser;
pub mod resolver;
pub mod signer;
pub mod text;
pub mod token;
pub mod verification;
pub mod wire;
