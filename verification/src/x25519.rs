//! X25519 key agreement, used to derive pairwise pads for the
//! multiplicative-to-additive conversion and as the base of the oblivious
//! transfer setup. The key and secret types are opaque; nothing is assumed
//! of the agreed bytes, and every function that consumes them takes them as
//! plain arguments, so it is verified for every value they might take.
use vstd::prelude::*;

verus! {

/// An X25519 secret usable for one agreement, opaque to this library.
#[verifier::external_type_specification]
#[verifier::external_body]
pub struct ExEphemeralSecret(x25519_dalek::EphemeralSecret);

/// A reusable X25519 secret, opaque to this library.
#[verifier::external_type_specification]
#[verifier::external_body]
pub struct ExStaticSecret(x25519_dalek::StaticSecret);

/// An X25519 public key, opaque to this library.
#[verifier::external_type_specification]
#[verifier::external_body]
pub struct ExPublicKey(x25519_dalek::PublicKey);

/// Samples a reusable X25519 secret from the operating system's RNG.
///
/// Relies on `x25519_dalek::StaticSecret::random_from_rng`; nothing is
/// assumed of the value.
#[verifier::external_body]
pub fn static_secret_random() -> x25519_dalek::StaticSecret {
    x25519_dalek::StaticSecret::random_from_rng(rand::rngs::OsRng)
}

/// The public key of a reusable secret.
///
/// Relies on `x25519_dalek::PublicKey::from`; the result is opaque, so
/// nothing is stated.
#[verifier::external_body]
pub fn static_public(s: &x25519_dalek::StaticSecret) -> x25519_dalek::PublicKey {
    x25519_dalek::PublicKey::from(s)
}

/// Reads an X25519 public key from its 32 bytes.
///
/// Relies on `x25519_dalek::PublicKey::from`, which accepts any 32 bytes.
#[verifier::external_body]
pub fn public_key_from_bytes(b: &[u8; 32]) -> x25519_dalek::PublicKey {
    x25519_dalek::PublicKey::from(*b)
}

/// The 32 bytes of an X25519 public key.
///
/// Relies on `x25519_dalek::PublicKey::as_bytes`; the result is the key's
/// wire form.
#[verifier::external_body]
pub fn public_key_to_bytes(p: &x25519_dalek::PublicKey) -> [u8; 32] {
    *p.as_bytes()
}

/// Agrees on a shared secret between a reusable secret and a public key.
///
/// Relies on `x25519_dalek::StaticSecret::diffie_hellman`; nothing is
/// assumed of the agreed bytes.
#[verifier::external_body]
pub fn static_dh(s: &x25519_dalek::StaticSecret, p: &x25519_dalek::PublicKey) -> [u8; 32] {
    *s.diffie_hellman(p).as_bytes()
}

/// Samples a one-use X25519 secret from the operating system's RNG.
///
/// Relies on `x25519_dalek::EphemeralSecret::random_from_rng`; nothing is
/// assumed of the value.
#[verifier::external_body]
pub fn ephemeral_secret_random() -> x25519_dalek::EphemeralSecret {
    x25519_dalek::EphemeralSecret::random_from_rng(rand::rngs::OsRng)
}

/// The public key of a one-use secret.
///
/// Relies on `x25519_dalek::PublicKey::from`; the result is opaque.
#[verifier::external_body]
pub fn ephemeral_public(s: &x25519_dalek::EphemeralSecret) -> x25519_dalek::PublicKey {
    x25519_dalek::PublicKey::from(s)
}

/// Agrees on a shared secret, consuming the one-use secret.
///
/// Relies on `x25519_dalek::EphemeralSecret::diffie_hellman`; nothing is
/// assumed of the agreed bytes.
#[verifier::external_body]
pub fn ephemeral_dh(s: x25519_dalek::EphemeralSecret, p: &x25519_dalek::PublicKey) -> [u8; 32] {
    *s.diffie_hellman(p).as_bytes()
}

} // verus!
