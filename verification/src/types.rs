//! Core data types: signatures, key shares, session configuration, and the
//! wire message envelope.
use vstd::prelude::*;

use crate::error::Error;
use crate::point::{point_valid, signature_to_der, der_of};
use crate::scalar::{be_val, scalar_valid};

use k256::elliptic_curve::sec1::FromEncodedPoint;
use k256::{AffinePoint, ProjectivePoint};

verus! {

/// Unique identifier of a party: an index below the number of parties.
pub type PartyId = usize;

/// Unique identifier of a protocol session.
pub type SessionId = [u8; 32];

/// Samples 32 uniformly random bytes from the operating system's RNG.
///
/// Relies on `rand::random`; nothing is assumed of the value.
#[verifier::external_body]
pub fn random_bytes32() -> (r: [u8; 32]) {
    rand::random()
}

/// An ECDSA signature in `(r, s, v)` form, with `s` in low form.
#[derive(Debug, Clone, Copy, PartialEq, Eq)]
pub struct Signature {
    /// The `r` component, 32 bytes big-endian.
    pub r: [u8; 32],
    /// The `s` component, 32 bytes big-endian, normalised to at most half
    /// the group order.
    pub s: [u8; 32],
    /// The recovery id: the parity of the nonce point's Y coordinate,
    /// flipped when `s` was normalised.
    pub recovery_id: u8,
}

impl Signature {
    /// Packs the components of a signature.
    pub fn new(r: [u8; 32], s: [u8; 32], recovery_id: u8) -> (sig: Signature)
        ensures
            sig.r == r,
            sig.s == s,
            sig.recovery_id == recovery_id,
    {
        Signature { r, s, recovery_id }
    }

    /// Renders the signature in ASN.1 DER. The components must be canonical
    /// non-zero scalars, which every signature this library produces
    /// satisfies.
    pub fn to_der(&self) -> (d: Vec<u8>)
        requires
            scalar_valid(self.r@),
            scalar_valid(self.s@),
            be_val(self.r@) != 0,
            be_val(self.s@) != 0,
        ensures
            d@ == der_of(self.r@, self.s@),
    {
        signature_to_der(&self.r, &self.s)
    }

    /// Renders the signature as the 64 bytes `r || s`.
    pub fn to_bytes(&self) -> (out: [u8; 64])
        ensures
            out@ == self.r@ + self.s@,
    {
        let mut out = [0u8; 64];
        let mut i: usize = 0;
        while i < 32
            invariant
                i <= 32,
                out@.len() == 64,
                forall|j: int| 0 <= j < i ==> out@[j] == self.r@[j],
            decreases 32 - i,
        {
            out[i] = self.r[i];
            i += 1;
        }
        let mut k: usize = 0;
        while k < 32
            invariant
                k <= 32,
                out@.len() == 64,
                forall|j: int| 0 <= j < 32 ==> out@[j] == self.r@[j],
                forall|j: int| 0 <= j < k ==> out@[32 + j] == self.s@[j],
            decreases 32 - k,
        {
            out[32 + k] = self.s[k];
            k += 1;
        }
        proof {
            assert(out@ =~= self.r@ + self.s@);
        }
        out
    }
}

/// The persistent artifact of key generation: one party's share of the
/// jointly held key, together with the public material every party agrees
/// on. The secret share must never appear in logs or error values.
#[derive(Debug, Clone)]
pub struct KeyShare {
    /// This party's id.
    pub party_id: PartyId,
    /// Total number of parties.
    pub n_parties: usize,
    /// The signing threshold.
    pub threshold: usize,
    /// This party's secret share, a canonical scalar encoding.
    pub secret_share: [u8; 32],
    /// The joint public key, SEC1 compressed, 33 bytes.
    pub public_key: Vec<u8>,
    /// The public share of every party, SEC1 compressed.
    pub public_shares: Vec<Vec<u8>>,
    /// Entropy for child key derivation.
    pub chain_code: [u8; 32],
}

impl KeyShare {
    /// Well-formedness: established by key generation, preserved by refresh
    /// and derivation.
    pub open spec fn wf(&self) -> bool {
        &&& 2 <= self.threshold <= self.n_parties <= 0xFFFF
        &&& self.party_id < self.n_parties
        &&& scalar_valid(self.secret_share@)
        &&& self.public_key@.len() == 33
        &&& point_valid(self.public_key@)
        &&& self.public_shares@.len() == self.n_parties
        &&& forall|i: int|
            0 <= i < self.public_shares@.len() ==> point_valid(#[trigger] self.public_shares@[i]@)
    }

    /// Tests well-formedness executably, deciding exactly [`KeyShare::wf`]:
    /// what a caller that obtained a share from outside, such as a file,
    /// checks before handing it to the protocol functions.
    pub fn check_wf(&self) -> (r: bool)
        ensures
            r == self.wf(),
    {
        if !(2 <= self.threshold && self.threshold <= self.n_parties && self.n_parties <= 0xFFFF) {
            return false;
        }
        if self.party_id >= self.n_parties {
            return false;
        }
        if !crate::scalar::scalar_check(&self.secret_share) {
            return false;
        }
        if self.public_key.len() != 33 || !crate::point::point_check(&self.public_key) {
            return false;
        }
        if self.public_shares.len() != self.n_parties {
            return false;
        }
        let mut i: usize = 0;
        while i < self.public_shares.len()
            invariant
                i <= self.public_shares@.len(),
                forall|k: int| 0 <= k < i ==> point_valid(#[trigger] self.public_shares@[k]@),
        decreases self.public_shares@.len() - i,
        {
            if !crate::point::point_check(&self.public_shares[i]) {
                return false;
            }
            i += 1;
        }
        true
    }

    /// Decodes the public key to a curve point where the encoding is
    /// valid, which every well-formed key share satisfies; `None` exactly
    /// when it is not.
    pub fn try_public_key_point(&self) -> (r: Option<ProjectivePoint>)
        ensures
            (r is Some) == point_valid(self.public_key@),
    {
        if crate::point::point_check(&self.public_key) {
            Some(self.public_key_point())
        } else {
            None
        }
    }

    /// Decodes the public key to a curve point.
    ///
    /// Relies on the SEC1 decoding of `k256`; the contract requires a valid
    /// encoding because the decoding panics on any other input.
    #[verifier::external_body]
    pub fn public_key_point(&self) -> ProjectivePoint
        requires
            point_valid(self.public_key@),
    {
        let encoded = k256::EncodedPoint::from_bytes(&self.public_key).expect("valid point");
        let affine: AffinePoint =
            Option::<AffinePoint>::from(AffinePoint::from_encoded_point(&encoded))
                .expect("valid point");
        ProjectivePoint::from(affine)
    }
}

/// Configuration of one protocol run.
#[derive(Debug, Clone)]
pub struct SessionConfig {
    /// Fresh random identifier of the run.
    pub session_id: SessionId,
    /// Number of participating parties.
    pub n_parties: usize,
    /// The signing threshold.
    pub threshold: usize,
    /// This party's id.
    pub party_id: PartyId,
    /// The participating party ids, without duplicates, this party among
    /// them.
    pub parties: Vec<PartyId>,
}

impl SessionConfig {
    /// Well-formedness of a session configuration.
    pub open spec fn wf(&self) -> bool {
        &&& 2 <= self.threshold <= self.n_parties <= 0xFFFF
        &&& self.parties@.len() == self.n_parties
        &&& forall|i: int| 0 <= i < self.parties@.len() ==> (#[trigger] self.parties@[i]) < 0x10000
        &&& forall|i: int, j: int|
            0 <= i < j < self.parties@.len() ==> self.parties@[i] != self.parties@[j]
        &&& exists|i: int| 0 <= i < self.parties@.len() && self.parties@[i] == self.party_id
    }

    /// Creates a configuration for `n_parties` parties numbered from zero,
    /// a threshold, and this party's id, with a fresh random session
    /// identifier. Rejects a threshold outside `2..=n_parties`, a party
    /// count beyond the machine bound, and a party id outside the set.
    pub fn new(n_parties: usize, threshold: usize, party_id: PartyId) -> (r: Result<
        SessionConfig,
        Error,
    >)
        ensures
            (r is Ok) == (2 <= threshold <= n_parties <= 0xFFFF && party_id < n_parties),
            r matches Ok(c) ==> {
                &&& c.wf()
                &&& c.n_parties == n_parties
                &&& c.threshold == threshold
                &&& c.party_id == party_id
                &&& c.parties@.len() == n_parties
                &&& forall|i: int| 0 <= i < n_parties ==> c.parties@[i] == i
            },
            r matches Err(e) ==> e == if threshold > n_parties || threshold < 2 || n_parties
                > 0xFFFF {
                Error::InvalidConfig
            } else {
                Error::InvalidPartyId(party_id)
            },
    {
        if threshold > n_parties || threshold < 2 || n_parties > 0xFFFF {
            return Err(Error::InvalidConfig);
        }
        if party_id >= n_parties {
            return Err(Error::InvalidPartyId(party_id));
        }
        let session_id = random_bytes32();
        let mut parties: Vec<PartyId> = Vec::new();
        let mut i: usize = 0;
        while i < n_parties
            invariant
                i <= n_parties,
                parties@.len() == i,
                forall|j: int| 0 <= j < i ==> parties@[j] == j,
            decreases n_parties - i,
        {
            parties.push(i);
            i += 1;
        }
        let config = SessionConfig { session_id, n_parties, threshold, party_id, parties };
        proof {
            assert(config.parties@[party_id as int] == party_id);
        }
        Ok(config)
    }
}

/// A message exchanged during protocol execution.
#[derive(Debug, Clone)]
pub enum Message {
    /// A message addressed to every party.
    Broadcast { from: PartyId, round: u32, data: Vec<u8> },
    /// A message addressed to one party.
    Direct { from: PartyId, to: PartyId, round: u32, data: Vec<u8> },
}

/// The sender of a message, in spec form.
pub open spec fn message_sender(m: &Message) -> PartyId {
    match m {
        Message::Broadcast { from, .. } => *from,
        Message::Direct { from, .. } => *from,
    }
}

/// The round of a message, in spec form.
pub open spec fn message_round(m: &Message) -> u32 {
    match m {
        Message::Broadcast { round, .. } => *round,
        Message::Direct { round, .. } => *round,
    }
}

impl Message {
    /// The sender of this message.
    pub fn sender(&self) -> (r: PartyId)
        ensures
            r == message_sender(self),
    {
        match self {
            Message::Broadcast { from, .. } => *from,
            Message::Direct { from, .. } => *from,
        }
    }

    /// The round this message belongs to.
    pub fn round(&self) -> (r: u32)
        ensures
            r == message_round(self),
    {
        match self {
            Message::Broadcast { round, .. } => *round,
            Message::Direct { round, .. } => *round,
        }
    }
}

} // verus!
