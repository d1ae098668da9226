//! Errors of the protocol engine. Every protocol step returns either
//! success or exactly one of these variants; no secret material is carried
//! in any of them.
use vstd::prelude::*;

verus! {

/// Errors that protocol execution can surface.
///
/// Verification and deserialization faults are fatal to a protocol run; the
/// peer that caused a verification fault is identified for offline dispute
/// resolution. Only `Retry` is recovered internally, by running the
/// protocol again with fresh randomness, a bounded number of times.
#[derive(Debug, Clone, Copy, PartialEq, Eq, Structural)]
pub enum Error {
    /// The party configuration is invalid: threshold out of range or
    /// duplicate parties.
    InvalidConfig,
    /// The signing set is smaller than the threshold.
    ThresholdNotMet { required: usize, actual: usize },
    /// This party is not in the configured set, or a party id is out of
    /// range.
    InvalidPartyId(usize),
    /// A peer's share did not match its commitment, or a peer sent an
    /// invalid point encoding; the payload identifies the peer.
    VerificationFailed(usize),
    /// A value could not be rendered for the wire.
    Serialization,
    /// A malformed wire message.
    Deserialization,
    /// A cryptographic operation failed: an inversion of zero, or a final
    /// signature the stock verifier rejects was assembled.
    Crypto,
    /// The relay could not carry a message.
    Relay,
    /// A collect deadline expired.
    Timeout,
    /// The signature scalar `r` or `s` came out zero; the run may be
    /// retried with fresh randomness.
    Retry,
    /// The assembled signature failed stock ECDSA verification.
    InvalidSignature,
    /// A derivation path is malformed or names a hardened index, which the
    /// threshold setting does not support.
    Derivation,
    /// The run was cancelled from outside.
    Cancelled,
}

} // verus!
