//! Distributed signature generation in three rounds, plus combination.
//!
//! Every party enters with the effective share `w_i`, its secret share
//! scaled by the Lagrange coefficient of the signing set, so the effective
//! shares sum to the key. Round one broadcasts nonce commitments `k_i*G`,
//! `gamma_i*G` and a key-agreement key. Round two runs pairwise
//! multiplicative-to-additive conversions and broadcasts the opening
//! `delta_i`; the conversions give additive shares of `k*gamma` and of
//! `gamma*x`, so each party obtains `k_inv_share = gamma_i/delta` and
//! `chi_share = nu_i/delta`, which sum to `1/k` and `x/k`. Round three
//! publishes the partial signature `sigma_i = k_inv_share*m +
//! r*chi_share`; the combiner sums them, normalises `s` to its low form,
//! and accepts only what the stock ECDSA verifier accepts.
//!
//! A warning on the conversion step. It is realised as masked disclosures
//! under pads that both ends of a pair derive from one X25519 agreement, so
//! the responder recovers the initiator's nonce and blinding scalars in the
//! clear: the masking hides them from outside observers only, never from
//! the counterparty. A curious co-signer who gathers every pair's
//! disclosures learns the joint nonce and, from any published signature,
//! the private key. This is not a maliciously secure
//! multiplicative-to-additive protocol; it fixes only the arithmetic shape
//! of the shares (see [`lemma_mta_shares`]) and must be replaced by an
//! oblivious-transfer-based conversion before use against an adversarial
//! co-signer.
use vstd::prelude::*;

use crate::encoding::{
    arr32_to_vec, arr33_tail, be32_of, blake3_hash, blake3_of, u32_to_be_bytes, vec_to_arr32,
    vec_to_arr33,
};
use crate::error::Error;
use crate::point::{
    ecdsa_verifies, ecdsa_verify, gen_mul, generator_mul, identity_encoding, point_add,
    point_valid, pt_add,
};
use crate::scalar::{
    be_bytes_of, be_val, group_order, lemma_be_bytes_roundtrip, scalar_add, scalar_from_u64,
    scalar_invert, scalar_is_high, scalar_is_zero, scalar_mul, scalar_neg, scalar_random,
    scalar_reduce, scalar_valid,
};
use crate::types::{KeyShare, PartyId, SessionConfig, SessionId, Signature, random_bytes32};
use crate::x25519::{public_key_from_bytes, public_key_to_bytes, static_dh, static_public,
    static_secret_random};

verus! {

/// Round-one broadcast: nonce commitments and a key-agreement key.
#[derive(Debug, Clone)]
pub struct DsgRound1Message {
    /// Sender party id.
    pub party_id: PartyId,
    /// Commitment `k_i * G`, SEC1 compressed.
    pub k_commitment: Vec<u8>,
    /// Commitment `gamma_i * G`, SEC1 compressed.
    pub gamma_commitment: Vec<u8>,
    /// The sender's X25519 public key for pairwise pads.
    pub enc_key: [u8; 32],
}

/// A multiplicative-to-additive request, sent directly from an initiator to
/// a responder: the initiator's nonce scalars under pairwise pads.
#[derive(Debug, Clone)]
pub struct DsgMtaRequest {
    /// Initiator party id.
    pub from: PartyId,
    /// Responder party id.
    pub to: PartyId,
    /// `k_from` plus the first pad, modulo the group order.
    pub masked_k: [u8; 32],
    /// `gamma_from` plus the second pad, modulo the group order.
    pub masked_gamma: [u8; 32],
}

/// A multiplicative-to-additive response, sent directly from the responder
/// back to the initiator: the initiator's additive shares, under pads.
#[derive(Debug, Clone)]
pub struct DsgMtaResponse {
    /// Responder party id.
    pub from: PartyId,
    /// Initiator party id.
    pub to: PartyId,
    /// `k_init * gamma_resp - beta_k` plus the third pad.
    pub alpha_k: [u8; 32],
    /// `gamma_init * w_resp - beta_chi` plus the fourth pad.
    pub alpha_chi: [u8; 32],
}

/// Round-two broadcast: the sender's additive share of `k * gamma`.
#[derive(Debug, Clone)]
pub struct DsgRound2Message {
    /// Sender party id.
    pub party_id: PartyId,
    /// The opening `delta_i`, a 32-byte big-endian scalar.
    pub delta_share: Vec<u8>,
}

/// Round-three broadcast: the sender's partial signature.
#[derive(Debug, Clone)]
pub struct DsgPartialMessage {
    /// Sender party id.
    pub party_id: PartyId,
    /// The share `sigma_i`, a 32-byte big-endian scalar.
    pub sigma_share: Vec<u8>,
}

/// The state after the two message-independent rounds: everything needed to
/// sign any 32-byte digest with the chosen signing set. Single-use: the
/// `consumed` flag is set when a partial signature is created from it.
#[derive(Debug, Clone)]
pub struct PreSignature {
    /// The session this pre-signature belongs to.
    pub session_id: SessionId,
    /// The signing set.
    pub parties: Vec<PartyId>,
    /// The nonce point `R = (sum k_i) * G`, SEC1 compressed.
    pub r_point: [u8; 33],
    /// This party's additive share of `k^-1`.
    pub k_inv_share: Vec<u8>,
    /// This party's additive share of `x * k^-1`.
    pub chi_share: Vec<u8>,
    /// Whether a partial signature was already created from this state.
    pub consumed: bool,
}

/// One party's share of the final signature scalar.
#[derive(Debug, Clone)]
pub struct PartialSignature {
    /// The party the share belongs to.
    pub party_id: PartyId,
    /// The share `sigma_i`, a 32-byte big-endian scalar.
    pub sigma_share: Vec<u8>,
}

/// This party's secret state after round one of signing.
pub struct DsgState1 {
    /// The nonce share `k_i`.
    pub k: [u8; 32],
    /// The blinding share `gamma_i`.
    pub gamma: [u8; 32],
    /// The effective secret `w_i`, the secret share scaled by the Lagrange
    /// coefficient of the signing set.
    pub w: [u8; 32],
    /// The X25519 secret behind the broadcast key-agreement key.
    pub enc_secret: x25519_dalek::StaticSecret,
}

/// The additive shares a responder keeps from the conversions it answered.
#[derive(Debug, Clone)]
pub struct DsgMtaBeta {
    /// The initiator these shares pair with.
    pub peer: PartyId,
    /// The responder's share of `k_peer * gamma_self`.
    pub beta_k: [u8; 32],
    /// The responder's share of `gamma_peer * w_self`.
    pub beta_chi: [u8; 32],
}

/// The additive shares an initiator recovers from the responses, unmasked.
#[derive(Debug, Clone)]
pub struct DsgMtaAlpha {
    /// The responder these shares pair with.
    pub peer: PartyId,
    /// The initiator's share of `k_self * gamma_peer`.
    pub alpha_k: [u8; 32],
    /// The initiator's share of `gamma_self * w_peer`.
    pub alpha_chi: [u8; 32],
}

/// The product of `(j + 1)` over the signing set, `j` ranging over the
/// parties other than `i`, modulo the group order: the numerator of the
/// Lagrange coefficient of party `i`.
pub open spec fn lagrange_num(parties: Seq<usize>, i: nat) -> nat
    decreases parties.len(),
{
    if parties.len() == 0 {
        1
    } else {
        let rest = lagrange_num(parties.drop_last(), i);
        let j = parties.last() as nat;
        if j == i {
            rest
        } else {
            (rest * (j + 1)) % group_order()
        }
    }
}

/// One factor of the Lagrange denominator: `(j - i)` as a scalar, the
/// negation of `(i - j)` when `j` is below `i`.
pub open spec fn lagrange_den_term(j: nat, i: nat) -> nat {
    if j > i {
        (j - i) as nat
    } else {
        (((group_order() - ((i - j) as nat)) % (group_order() as int)) as nat)
    }
}

/// The product of `(j - i)` over the signing set, `j` ranging over the
/// parties other than `i`, modulo the group order: the denominator of the
/// Lagrange coefficient of party `i`.
pub open spec fn lagrange_den(parties: Seq<usize>, i: nat) -> nat
    decreases parties.len(),
{
    if parties.len() == 0 {
        1
    } else {
        let rest = lagrange_den(parties.drop_last(), i);
        let j = parties.last() as nat;
        if j == i {
            rest
        } else {
            (rest * lagrange_den_term(j, i)) % group_order()
        }
    }
}

/// What it means for `lam` to be the Lagrange coefficient of party `i` in
/// the signing set: it solves `lam * den = num` modulo the group order, or
/// equals the bare numerator in the degenerate case of a vanishing
/// denominator, which distinct bounded parties never produce.
pub open spec fn lagrange_ok(parties: Seq<usize>, i: nat, lam: nat) -> bool {
    if lagrange_den(parties, i) != 0 {
        (lam * lagrange_den(parties, i)) % group_order() == lagrange_num(parties, i)
    } else {
        lam == lagrange_num(parties, i)
    }
}

/// Computes the Lagrange coefficient of party `i` for the signing set: the
/// scalar `lam` with `lam * prod(j - i) = prod(j + 1)` over the other
/// parties, so that the scaled shares of the set sum to the joint secret.
pub fn compute_lagrange_coefficient(party_id: PartyId, parties: &Vec<PartyId>) -> (r: [u8; 32])
    requires
        party_id < 0x10000,
        forall|k: int| 0 <= k < parties@.len() ==> (#[trigger] parties@[k]) < 0x10000,
    ensures
        scalar_valid(r@),
        lagrange_ok(parties@, party_id as nat, be_val(r@)),
{
    let one = scalar_from_u64(1);
    let mut numerator = one;
    let mut denominator = scalar_from_u64(1);
    let mut idx: usize = 0;
    proof {
        assert(parties@.take(0) =~= Seq::<usize>::empty());
    }
    while idx < parties.len()
        invariant
            idx <= parties@.len(),
            party_id < 0x10000,
            forall|k: int| 0 <= k < parties@.len() ==> (#[trigger] parties@[k]) < 0x10000,
            scalar_valid(numerator@),
            be_val(numerator@) == lagrange_num(parties@.take(idx as int), party_id as nat),
            scalar_valid(denominator@),
            be_val(denominator@) == lagrange_den(parties@.take(idx as int), party_id as nat),
        decreases parties@.len() - idx,
    {
        let j = parties[idx];
        if j != party_id {
            let j_point = scalar_from_u64((j as u64) + 1);
            let new_num = scalar_mul(&numerator, &j_point);
            let diff = if j > party_id {
                scalar_from_u64((j - party_id) as u64)
            } else {
                scalar_neg(&scalar_from_u64((party_id - j) as u64))
            };
            let new_den = scalar_mul(&denominator, &diff);
            proof {
                assert(be_val(diff@) == lagrange_den_term(j as nat, party_id as nat));
            }
            numerator = new_num;
            denominator = new_den;
        }
        proof {
            assert(parties@.take(idx + 1).drop_last() =~= parties@.take(idx as int));
            assert(parties@.take(idx + 1).last() == parties@[idx as int]);
        }
        idx += 1;
    }
    proof {
        assert(parties@.take(parties@.len() as int) =~= parties@);
    }
    let ghost num_v = be_val(numerator@);
    let ghost den_v = be_val(denominator@);
    match scalar_invert(&denominator) {
        Some(den_inv) => {
            let r = scalar_mul(&numerator, &den_inv);
            proof {
                let q = group_order() as int;
                let rv = be_val(r@) as int;
                let nv = num_v as int;
                let dv = den_v as int;
                let iv = be_val(den_inv@) as int;
                assert(rv == (nv * iv) % q);
                assert((dv * iv) % q == 1);
                assert((rv * dv) % q == ((nv * iv) % q * dv) % q);
                vstd::arithmetic::div_mod::lemma_mul_mod_noop_left(nv * iv, dv, q);
                assert(((nv * iv) % q * dv) % q == (nv * iv * dv) % q);
                assert(nv * iv * dv == nv * (dv * iv)) by (nonlinear_arith);
                vstd::arithmetic::div_mod::lemma_mul_mod_noop_right(nv, dv * iv, q);
                assert((nv * (dv * iv)) % q == (nv * ((dv * iv) % q)) % q);
                assert((nv * ((dv * iv) % q)) % q == (nv * 1) % q);
                assert(nv * 1 == nv) by (nonlinear_arith);
                assert(num_v < group_order());
                vstd::arithmetic::div_mod::lemma_small_mod(num_v, group_order());
                assert(nv % q == nv);
                assert((rv * dv) % q == nv);
            }
            r
        },
        None => numerator,
    }
}

/// The bytes hashed into a pairwise pad: the agreed secret, the session
/// id, the initiator and responder ids, and a tag separating the four pads
/// of one ordered pair.
pub open spec fn pad_input(ss: Seq<u8>, sid: Seq<u8>, from: u32, to: u32, tag: u8) -> Seq<u8> {
    ss + sid + be32_of(from) + be32_of(to) + seq![tag]
}

/// The value of a pairwise pad: the BLAKE3 digest of [`pad_input`], read
/// big-endian and reduced modulo the group order.
pub open spec fn pad_val(ss: Seq<u8>, sid: Seq<u8>, from: u32, to: u32, tag: u8) -> nat {
    be_val(blake3_of(pad_input(ss, sid, from, to, tag))) % group_order()
}

/// Derives one pairwise pad from an agreed secret.
pub fn derive_pad(ss: &[u8; 32], sid: &[u8; 32], from: u32, to: u32, tag: u8) -> (r: [u8; 32])
    ensures
        scalar_valid(r@),
        be_val(r@) == pad_val(ss@, sid@, from, to, tag),
{
    let mut input: Vec<u8> = Vec::new();
    input.extend_from_slice(ss.as_slice());
    input.extend_from_slice(sid.as_slice());
    let from_bytes = u32_to_be_bytes(from);
    input.extend_from_slice(from_bytes.as_slice());
    let to_bytes = u32_to_be_bytes(to);
    input.extend_from_slice(to_bytes.as_slice());
    input.push(tag);
    proof {
        assert(input@ =~= pad_input(ss@, sid@, from, to, tag));
    }
    let digest = blake3_hash(input.as_slice());
    scalar_reduce(&digest)
}

/// The additive inverse modulo the group order, mirroring negation of a
/// canonical scalar.
pub open spec fn neg_mod(x: nat) -> nat {
    (((group_order() - x) % (group_order() as int)) as nat)
}

/// Subtraction modulo the group order, as addition of the negation.
pub open spec fn sub_mod(x: nat, y: nat) -> nat {
    (x + neg_mod(y)) % group_order()
}

/// The masked additive share a responder computes: unmask the initiator's
/// scalar with the inbound pad, multiply by the responder's own scalar,
/// subtract the fresh share `beta`, and mask with the outbound pad.
pub open spec fn mta_alpha(masked: nat, pad_in: nat, own: nat, beta: nat, pad_out: nat) -> nat {
    (((sub_mod(masked, pad_in) * own) % group_order() + neg_mod(beta)) % group_order() + pad_out)
        % group_order()
}


/// Whether the round-one messages are exactly one per signing-set member,
/// in set order.
pub open spec fn dsg_round1_well_indexed(ms: Seq<DsgRound1Message>, parties: Seq<usize>) -> bool {
    &&& ms.len() == parties.len()
    &&& forall|i: int| 0 <= i < ms.len() ==> (#[trigger] ms[i].party_id) == parties[i]
}

/// Whether the round-two messages are exactly one per signing-set member,
/// in set order, each carrying a 32-byte share.
pub open spec fn dsg_round2_well_indexed(ms: Seq<DsgRound2Message>, parties: Seq<usize>) -> bool {
    &&& ms.len() == parties.len()
    &&& forall|i: int|
        0 <= i < ms.len() ==> (#[trigger] ms[i].party_id) == parties[i] && ms[i].delta_share@.len()
            == 32
}

/// Whether the partial-signature messages are exactly one per signing-set
/// member, in set order, each carrying a 32-byte share.
pub open spec fn partials_well_indexed(ps: Seq<PartialSignature>, parties: Seq<usize>) -> bool {
    &&& ps.len() == parties.len()
    &&& forall|i: int|
        0 <= i < ps.len() ==> (#[trigger] ps[i].party_id) == parties[i] && ps[i].sigma_share@.len()
            == 32
}

/// The position of this party in the signing set.
pub open spec fn self_pos(parties: Seq<usize>, self_id: usize) -> int {
    choose|i: int| 0 <= i < parties.len() && parties[i] == self_id
}

/// The member of the signing set at position `idx` once this party's own
/// position is skipped.
pub open spec fn peer_at(parties: Seq<usize>, self_id: usize, idx: int) -> usize {
    if idx < self_pos(parties, self_id) {
        parties[idx]
    } else {
        parties[idx + 1]
    }
}

/// The position in the signing set of the peer at skip-position `idx`.
pub open spec fn peer_pos(parties: Seq<usize>, self_id: usize, idx: int) -> int {
    if idx < self_pos(parties, self_id) {
        idx
    } else {
        idx + 1
    }
}

/// The sum of unmasked `alpha_k` shares onto an initial value, modulo the
/// group order.
pub open spec fn sum_alpha_k(xs: Seq<DsgMtaAlpha>, init: nat) -> nat
    decreases xs.len(),
{
    if xs.len() == 0 {
        init
    } else {
        (sum_alpha_k(xs.drop_last(), init) + be_val(xs.last().alpha_k@)) % group_order()
    }
}

/// The sum of unmasked `alpha_chi` shares onto an initial value.
pub open spec fn sum_alpha_chi(xs: Seq<DsgMtaAlpha>, init: nat) -> nat
    decreases xs.len(),
{
    if xs.len() == 0 {
        init
    } else {
        (sum_alpha_chi(xs.drop_last(), init) + be_val(xs.last().alpha_chi@)) % group_order()
    }
}

/// The sum of retained `beta_k` shares onto an initial value.
pub open spec fn sum_beta_k(xs: Seq<DsgMtaBeta>, init: nat) -> nat
    decreases xs.len(),
{
    if xs.len() == 0 {
        init
    } else {
        (sum_beta_k(xs.drop_last(), init) + be_val(xs.last().beta_k@)) % group_order()
    }
}

/// The sum of retained `beta_chi` shares onto an initial value.
pub open spec fn sum_beta_chi(xs: Seq<DsgMtaBeta>, init: nat) -> nat
    decreases xs.len(),
{
    if xs.len() == 0 {
        init
    } else {
        (sum_beta_chi(xs.drop_last(), init) + be_val(xs.last().beta_chi@)) % group_order()
    }
}

/// The sum of the broadcast `delta_i` openings, each reduced, modulo the
/// group order.
pub open spec fn delta_sum(ms: Seq<DsgRound2Message>) -> nat
    decreases ms.len(),
{
    if ms.len() == 0 {
        0
    } else {
        (delta_sum(ms.drop_last()) + be_val(ms.last().delta_share@) % group_order())
            % group_order()
    }
}

/// The sum of the partial signature shares, each reduced, modulo the group
/// order.
pub open spec fn sigma_sum(ps: Seq<PartialSignature>) -> nat
    decreases ps.len(),
{
    if ps.len() == 0 {
        0
    } else {
        (sigma_sum(ps.drop_last()) + be_val(ps.last().sigma_share@) % group_order())
            % group_order()
    }
}

/// The nonce point: the sum of the round-one `k` commitments.
pub open spec fn sum_k_commitments(ms: Seq<DsgRound1Message>) -> Seq<u8>
    decreases ms.len(),
{
    if ms.len() == 0 {
        seq![0u8]
    } else {
        pt_add(sum_k_commitments(ms.drop_last()), ms.last().k_commitment@)
    }
}

/// Masking and unmasking with the same pad round-trips: subtracting the
/// pad from the masked value gives back the original.
pub proof fn lemma_mask_unmask(x: nat, p: nat)
    requires
        x < group_order(),
        p < group_order(),
    ensures
        sub_mod((x + p) % group_order(), p) == x,
{
    let q = group_order() as int;
    let m = ((x + p) % group_order()) as int;
    if p == 0 {
        vstd::arithmetic::div_mod::lemma_mod_self_0(q);
        assert(neg_mod(p) == 0);
        vstd::arithmetic::div_mod::lemma_small_mod(x, group_order());
        assert(m == x as int);
        assert(sub_mod(m as nat, p) == (x + 0) % group_order());
    } else {
        vstd::arithmetic::div_mod::lemma_small_mod((group_order() - p) as nat, group_order());
        assert(neg_mod(p) == group_order() - p);
        vstd::arithmetic::div_mod::lemma_add_mod_noop((x + p) as int, q - p, q);
        vstd::arithmetic::div_mod::lemma_small_mod((group_order() - p) as nat, group_order());
        assert((m + (q - p) % q) % q == ((x + p) + (q - p)) % q);
        assert((x + p) + (q - p) == x + q);
        vstd::arithmetic::div_mod::lemma_mod_add_multiples_vanish(x as int, q);
        vstd::arithmetic::div_mod::lemma_small_mod(x, group_order());
    }
}

/// Subtracting and then adding back the same value round-trips modulo the
/// group order.
pub proof fn lemma_sub_then_add(x: nat, y: nat)
    requires
        x < group_order(),
        y < group_order(),
    ensures
        (sub_mod(x, y) + y) % group_order() == x,
{
    let q = group_order() as int;
    if y == 0 {
        vstd::arithmetic::div_mod::lemma_mod_self_0(q);
        assert(neg_mod(y) == 0);
        vstd::arithmetic::div_mod::lemma_small_mod(x, group_order());
        assert(sub_mod(x, y) == x);
    } else {
        vstd::arithmetic::div_mod::lemma_small_mod((group_order() - y) as nat, group_order());
        assert(neg_mod(y) == group_order() - y);
        let s = sub_mod(x, y) as int;
        assert(s == (x + (q - y)) % q);
        vstd::arithmetic::div_mod::lemma_small_mod(y, group_order());
        vstd::arithmetic::div_mod::lemma_add_mod_noop((x + (q - y)) as int, y as int, q);
        assert((s + (y as int) % q) % q == ((x + (q - y)) + y) % q);
        assert((x + (q - y)) + y == x + q);
        vstd::arithmetic::div_mod::lemma_mod_add_multiples_vanish(x as int, q);
        vstd::arithmetic::div_mod::lemma_small_mod(x, group_order());
    }
}

/// The conversion contract behind the masked exchange: when both sides
/// derive the same pads, the share the initiator unmasks from the response
/// and the share the responder retained are additive shares of the product
/// of the initiator's scalar and the responder's scalar.
pub proof fn lemma_mta_shares(a: nat, b: nat, beta: nat, pad_in: nat, pad_out: nat)
    requires
        a < group_order(),
        b < group_order(),
        beta < group_order(),
        pad_in < group_order(),
        pad_out < group_order(),
    ensures
        (sub_mod(mta_alpha((a + pad_in) % group_order(), pad_in, b, beta, pad_out), pad_out)
            + beta) % group_order() == (a * b) % group_order(),
{
    let q = group_order();
    lemma_mask_unmask(a, pad_in);
    assert(sub_mod((a + pad_in) % q, pad_in) == a);
    let prod = (a * b) % q;
    vstd::arithmetic::div_mod::lemma_mod_bound((a * b) as int, q as int);
    let t = sub_mod(prod, beta);
    vstd::arithmetic::div_mod::lemma_mod_bound((prod + neg_mod(beta)) as int, q as int);
    let alpha = mta_alpha((a + pad_in) % q, pad_in, b, beta, pad_out);
    assert(alpha == (t + pad_out) % q);
    lemma_mask_unmask(t, pad_out);
    assert(sub_mod(alpha, pad_out) == t);
    lemma_sub_then_add(prod, beta);
}


/// Builds the session configuration of one signing run: the signing set
/// must reach the threshold, stay within the key's parties, contain this
/// party, and hold no duplicates.
pub fn signing_config(key_share: &KeyShare, parties: &Vec<PartyId>) -> (r: Result<
    SessionConfig,
    Error,
>)
    requires
        key_share.wf(),
    ensures
        (r is Ok) == (parties@.len() >= key_share.threshold && parties@.len() <= 0xFFFF && (forall|
            i: int,
        |
            0 <= i < parties@.len() ==> (#[trigger] parties@[i]) < key_share.n_parties) && (forall|
            i: int,
            j: int,
        |
            0 <= i < j < parties@.len() ==> parties@[i] != parties@[j]) && (exists|i: int|
            0 <= i < parties@.len() && parties@[i] == key_share.party_id)),
        r matches Ok(c) ==> {
            &&& c.wf()
            &&& c.n_parties == parties@.len()
            &&& c.threshold == key_share.threshold
            &&& c.party_id == key_share.party_id
            &&& c.parties@ == parties@
        },
        r matches Err(e) ==> (e matches Error::ThresholdNotMet { .. } || e
            matches Error::InvalidPartyId(_) || e == Error::InvalidConfig),
        (r == Result::<SessionConfig, Error>::Err(Error::ThresholdNotMet {
            required: key_share.threshold,
            actual: parties@.len() as usize,
        })) == (parties@.len() < key_share.threshold),
        parties@.len() >= key_share.threshold ==> ((r == Result::<SessionConfig, Error>::Err(
            Error::InvalidPartyId(key_share.party_id),
        )) == !(exists|i: int| 0 <= i < parties@.len() && parties@[i] == key_share.party_id)),
        r matches Err(Error::InvalidPartyId(p)) ==> (p == key_share.party_id || (exists|i: int|
            0 <= i < parties@.len() && (#[trigger] parties@[i]) == p) && p
            >= key_share.n_parties),
        r == Result::<SessionConfig, Error>::Err(Error::InvalidConfig) ==> (parties@.len()
            > 0xFFFF || exists|i: int, j: int|
            0 <= i < j < parties@.len() && parties@[i] == parties@[j]),
{
    if parties.len() < key_share.threshold {
        return Err(Error::ThresholdNotMet { required: key_share.threshold, actual: parties.len() });
    }
    let n = parties.len();
    let mut found = false;
    let mut i: usize = 0;
    while i < n
        invariant
            i <= n,
            parties@.len() == n,
            found == exists|k: int| 0 <= k < i && parties@[k] == key_share.party_id,
        decreases n - i,
    {
        if parties[i] == key_share.party_id {
            found = true;
        }
        i += 1;
    }
    if !found {
        return Err(Error::InvalidPartyId(key_share.party_id));
    }
    if parties.len() > 0xFFFF {
        return Err(Error::InvalidConfig);
    }
    let mut i: usize = 0;
    while i < n
        invariant
            i <= n,
            parties@.len() == n,
            n >= key_share.threshold,
            exists|k: int| 0 <= k < n && parties@[k] == key_share.party_id,
            key_share.wf(),
            forall|k: int| 0 <= k < i ==> (#[trigger] parties@[k]) < key_share.n_parties,
        decreases n - i,
    {
        if parties[i] >= key_share.n_parties {
            proof {
                assert(key_share.party_id < key_share.n_parties);
            }
            return Err(Error::InvalidPartyId(parties[i]));
        }
        i += 1;
    }
    let mut i: usize = 0;
    while i < n
        invariant
            i <= n,
            parties@.len() == n,
            n >= key_share.threshold,
            n <= 0xFFFF,
            exists|k: int| 0 <= k < n && parties@[k] == key_share.party_id,
            key_share.wf(),
            forall|a: int, b: int| 0 <= a < b < n && a < i ==> parties@[a] != parties@[b],
        decreases n - i,
    {
        let mut j: usize = i + 1;
        while j < n
            invariant
                i < j <= n,
                parties@.len() == n,
                n >= key_share.threshold,
                n <= 0xFFFF,
                exists|k: int| 0 <= k < n && parties@[k] == key_share.party_id,
                key_share.wf(),
                forall|b: int| i < b < j ==> parties@[i as int] != parties@[b],
            decreases n - j,
        {
            if parties[i] == parties[j] {
                return Err(Error::InvalidConfig);
            }
            j += 1;
        }
        i += 1;
    }
    let session_id = random_bytes32();
    let mut set: Vec<PartyId> = Vec::new();
    let mut i: usize = 0;
    while i < n
        invariant
            i <= n,
            parties@.len() == n,
            set@.len() == i,
            forall|k: int| 0 <= k < i ==> set@[k] == parties@[k],
        decreases n - i,
    {
        set.push(parties[i]);
        i += 1;
    }
    proof {
        assert(set@ =~= parties@);
    }
    let config = SessionConfig {
        session_id,
        n_parties: n,
        threshold: key_share.threshold,
        party_id: key_share.party_id,
        parties: set,
    };
    Ok(config)
}

/// The position of this party in the signing set, found by scan; unique
/// because the set holds no duplicates.
pub fn find_self_pos(config: &SessionConfig) -> (r: usize)
    requires
        config.wf(),
    ensures
        r < config.parties@.len(),
        config.parties@[r as int] == config.party_id,
        r as int == self_pos(config.parties@, config.party_id),
{
    let n = config.parties.len();
    let mut j: usize = 0;
    while j < n
        invariant
            j <= n,
            config.wf(),
            config.parties@.len() == n,
            forall|k: int| 0 <= k < j ==> (#[trigger] config.parties@[k]) != config.party_id,
        decreases n - j,
    {
        if config.parties[j] == config.party_id {
            proof {
                let cp = self_pos(config.parties@, config.party_id);
                assert(0 <= cp < config.parties@.len() && config.parties@[cp]
                    == config.party_id);
                assert(cp == j as int);
            }
            return j;
        }
        j += 1;
    }
    proof {
        let w = choose|k: int|
            0 <= k < config.parties@.len() && config.parties@[k] == config.party_id;
        assert(config.parties@[w] != config.party_id);
        assert(false);
    }
    0
}

/// Round one of signing: scales the secret share by the Lagrange
/// coefficient of the signing set, samples the nonce and blinding shares,
/// and packs the commitment broadcast together with a fresh key-agreement
/// key.
pub fn dsg_round1(key_share: &KeyShare, config: &SessionConfig) -> (r: (
    DsgState1,
    DsgRound1Message,
))
    requires
        key_share.wf(),
        config.wf(),
        config.party_id == key_share.party_id,
    ensures
        scalar_valid(r.0.k@),
        scalar_valid(r.0.gamma@),
        scalar_valid(r.0.w@),
        r.1.party_id == config.party_id,
        r.1.k_commitment@ == gen_mul(be_val(r.0.k@)),
        point_valid(r.1.k_commitment@),
        r.1.gamma_commitment@ == gen_mul(be_val(r.0.gamma@)),
        point_valid(r.1.gamma_commitment@),
        exists|lam: nat|
            #[trigger] lagrange_ok(config.parties@, config.party_id as nat, lam) && be_val(r.0.w@)
                == (lam * be_val(key_share.secret_share@)) % group_order(),
{
    proof {
        let cp = self_pos(config.parties@, config.party_id);
        assert(0 <= cp < config.parties@.len() && config.parties@[cp] == config.party_id);
        assert(config.party_id < 0x10000);
    }
    let lambda = compute_lagrange_coefficient(config.party_id, &config.parties);
    let w = scalar_mul(&lambda, &key_share.secret_share);
    let k = scalar_random();
    let gamma = scalar_random();
    let enc_secret = static_secret_random();
    let enc_key = public_key_to_bytes(&static_public(&enc_secret));
    let k_commitment = generator_mul(&k);
    let gamma_commitment = generator_mul(&gamma);
    let msg = DsgRound1Message {
        party_id: config.party_id,
        k_commitment,
        gamma_commitment,
        enc_key,
    };
    let state = DsgState1 { k, gamma, w, enc_secret };
    proof {
        let lam = be_val(lambda@);
        assert(lagrange_ok(config.parties@, config.party_id as nat, lam) && be_val(state.w@) == (
        lam * be_val(key_share.secret_share@)) % group_order());
    }
    (state, msg)
}

/// Agrees a shared secret with every other member of the signing set from
/// their round-one key-agreement keys, aligned with the set; this party's
/// own slot is zero. Nothing is assumed of the agreed bytes: everything
/// derived from them is verified for every value they take.
pub fn dsg_ecdh_secrets(
    enc_secret: &x25519_dalek::StaticSecret,
    config: &SessionConfig,
    round1_msgs: &Vec<DsgRound1Message>,
) -> (r: Result<Vec<[u8; 32]>, Error>)
    requires
        config.wf(),
    ensures
        (r is Ok) == dsg_round1_well_indexed(round1_msgs@, config.parties@),
        r matches Ok(v) ==> v@.len() == config.parties@.len(),
        r matches Err(e) ==> e == Error::Deserialization,
{
    let n = config.parties.len();
    if round1_msgs.len() != n {
        return Err(Error::Deserialization);
    }
    let mut secrets: Vec<[u8; 32]> = Vec::new();
    let mut j: usize = 0;
    while j < n
        invariant
            j <= n,
            config.wf(),
            config.parties@.len() == n,
            round1_msgs@.len() == n,
            secrets@.len() == j,
            forall|k: int|
                0 <= k < j ==> (#[trigger] round1_msgs@[k].party_id) == config.parties@[k],
        decreases n - j,
    {
        if round1_msgs[j].party_id != config.parties[j] {
            return Err(Error::Deserialization);
        }
        if config.parties[j] == config.party_id {
            secrets.push([0u8; 32]);
        } else {
            let peer_key = public_key_from_bytes(&round1_msgs[j].enc_key);
            secrets.push(static_dh(enc_secret, &peer_key));
        }
        j += 1;
    }
    Ok(secrets)
}

/// Whether one conversion request carries this party's scalars to the given
/// peer under the pads of the agreed secret.
pub open spec fn mta_request_ok(
    req: DsgMtaRequest,
    self_id: usize,
    peer: usize,
    k: nat,
    gamma: nat,
    ss: Seq<u8>,
    sid: Seq<u8>,
) -> bool {
    &&& req.from == self_id
    &&& req.to == peer
    &&& scalar_valid(req.masked_k@)
    &&& be_val(req.masked_k@) == (k + pad_val(ss, sid, self_id as u32, peer as u32, 1))
        % group_order()
    &&& scalar_valid(req.masked_gamma@)
    &&& be_val(req.masked_gamma@) == (gamma + pad_val(ss, sid, self_id as u32, peer as u32, 2))
        % group_order()
}

/// Builds the conversion requests of this party, one per other member of
/// the signing set, in set order with this party's own position skipped:
/// the nonce and blinding shares under the pads agreed with each peer.
pub fn dsg_mta_requests(
    config: &SessionConfig,
    state: &DsgState1,
    secrets: &Vec<[u8; 32]>,
) -> (r: Vec<DsgMtaRequest>)
    requires
        config.wf(),
        scalar_valid(state.k@),
        scalar_valid(state.gamma@),
        secrets@.len() == config.parties@.len(),
    ensures
        r@.len() == config.parties@.len() - 1,
        forall|idx: int|
            0 <= idx < r@.len() ==> mta_request_ok(
                #[trigger] r@[idx],
                config.party_id,
                peer_at(config.parties@, config.party_id, idx),
                be_val(state.k@),
                be_val(state.gamma@),
                secrets@[peer_pos(config.parties@, config.party_id, idx)]@,
                config.session_id@,
            ),
{
    let n = config.parties.len();
    let sp = find_self_pos(config);
    let mut out: Vec<DsgMtaRequest> = Vec::new();
    let mut idx: usize = 0;
    while idx < n - 1
        invariant
            idx <= n - 1,
            config.wf(),
            scalar_valid(state.k@),
            scalar_valid(state.gamma@),
            secrets@.len() == n,
            config.parties@.len() == n,
            sp < n,
            sp as int == self_pos(config.parties@, config.party_id),
            out@.len() == idx,
            forall|q: int|
                0 <= q < idx ==> mta_request_ok(
                    #[trigger] out@[q],
                    config.party_id,
                    peer_at(config.parties@, config.party_id, q),
                    be_val(state.k@),
                    be_val(state.gamma@),
                    secrets@[peer_pos(config.parties@, config.party_id, q)]@,
                    config.session_id@,
                ),
        decreases n - 1 - idx,
    {
        let jj = if idx < sp {
            idx
        } else {
            idx + 1
        };
        let peer = config.parties[jj];
        let pad1 = derive_pad(
            &secrets[jj],
            &config.session_id,
            config.party_id as u32,
            peer as u32,
            1,
        );
        let pad2 = derive_pad(
            &secrets[jj],
            &config.session_id,
            config.party_id as u32,
            peer as u32,
            2,
        );
        let masked_k = scalar_add(&state.k, &pad1);
        let masked_gamma = scalar_add(&state.gamma, &pad2);
        let req = DsgMtaRequest { from: config.party_id, to: peer, masked_k, masked_gamma };
        out.push(req);
        idx += 1;
    }
    out
}

/// Whether the conversion requests gathered by a responder are exactly one
/// per other member of the signing set, in set order, each addressed to
/// this party.
pub open spec fn mta_requests_expected(
    rs: Seq<DsgMtaRequest>,
    parties: Seq<usize>,
    self_id: usize,
) -> bool {
    &&& rs.len() == parties.len() - 1
    &&& forall|i: int|
        0 <= i < rs.len() ==> (#[trigger] rs[i]).from == peer_at(parties, self_id, i) && rs[i].to
            == self_id
}

/// Whether one conversion answer pairs the retained shares with the
/// response sent back, for the given request and pads.
pub open spec fn mta_response_ok(
    resp: DsgMtaResponse,
    beta: DsgMtaBeta,
    req: DsgMtaRequest,
    self_id: usize,
    gamma: nat,
    w: nat,
    ss: Seq<u8>,
    sid: Seq<u8>,
) -> bool {
    &&& resp.from == self_id
    &&& resp.to == req.from
    &&& beta.peer == req.from
    &&& scalar_valid(beta.beta_k@)
    &&& scalar_valid(beta.beta_chi@)
    &&& scalar_valid(resp.alpha_k@)
    &&& scalar_valid(resp.alpha_chi@)
    &&& be_val(resp.alpha_k@) == mta_alpha(
        be_val(req.masked_k@) % group_order(),
        pad_val(ss, sid, req.from as u32, self_id as u32, 1),
        gamma,
        be_val(beta.beta_k@),
        pad_val(ss, sid, req.from as u32, self_id as u32, 3),
    )
    &&& be_val(resp.alpha_chi@) == mta_alpha(
        be_val(req.masked_gamma@) % group_order(),
        pad_val(ss, sid, req.from as u32, self_id as u32, 2),
        w,
        be_val(beta.beta_chi@),
        pad_val(ss, sid, req.from as u32, self_id as u32, 4),
    )
}

/// Answers the conversion requests of the other members: unmasks each
/// initiator's scalars, multiplies by this party's own scalars, splits off
/// fresh additive shares, and masks the remainders for the way back.
///
/// The unmasking recovers the initiator's nonce and blinding scalars: this
/// realisation discloses them to the responder (see the module notes) and
/// is secure only against outside observers.
pub fn dsg_mta_respond(
    config: &SessionConfig,
    state: &DsgState1,
    secrets: &Vec<[u8; 32]>,
    requests: &Vec<DsgMtaRequest>,
) -> (r: Result<(Vec<DsgMtaBeta>, Vec<DsgMtaResponse>), Error>)
    requires
        config.wf(),
        scalar_valid(state.gamma@),
        scalar_valid(state.w@),
        secrets@.len() == config.parties@.len(),
    ensures
        (r is Ok) == mta_requests_expected(requests@, config.parties@, config.party_id),
        r matches Err(e) ==> e == Error::Deserialization,
        r matches Ok(v) ==> {
            &&& v.0@.len() == config.parties@.len() - 1
            &&& v.1@.len() == config.parties@.len() - 1
            &&& forall|idx: int|
                0 <= idx < v.1@.len() ==> mta_response_ok(
                    #[trigger] v.1@[idx],
                    v.0@[idx],
                    requests@[idx],
                    config.party_id,
                    be_val(state.gamma@),
                    be_val(state.w@),
                    secrets@[peer_pos(config.parties@, config.party_id, idx)]@,
                    config.session_id@,
                )
        },
{
    let n = config.parties.len();
    let sp = find_self_pos(config);
    if requests.len() != n - 1 {
        return Err(Error::Deserialization);
    }
    let mut betas: Vec<DsgMtaBeta> = Vec::new();
    let mut responses: Vec<DsgMtaResponse> = Vec::new();
    let mut idx: usize = 0;
    while idx < n - 1
        invariant
            idx <= n - 1,
            config.wf(),
            scalar_valid(state.gamma@),
            scalar_valid(state.w@),
            secrets@.len() == n,
            config.parties@.len() == n,
            requests@.len() == n - 1,
            sp < n,
            sp as int == self_pos(config.parties@, config.party_id),
            betas@.len() == idx,
            responses@.len() == idx,
            forall|q: int|
                0 <= q < idx ==> (#[trigger] requests@[q]).from == peer_at(
                    config.parties@,
                    config.party_id,
                    q,
                ) && requests@[q].to == config.party_id,
            forall|q: int|
                0 <= q < idx ==> mta_response_ok(
                    #[trigger] responses@[q],
                    betas@[q],
                    requests@[q],
                    config.party_id,
                    be_val(state.gamma@),
                    be_val(state.w@),
                    secrets@[peer_pos(config.parties@, config.party_id, q)]@,
                    config.session_id@,
                ),
        decreases n - 1 - idx,
    {
        let jj = if idx < sp {
            idx
        } else {
            idx + 1
        };
        let peer = config.parties[jj];
        let req = &requests[idx];
        if req.from != peer || req.to != config.party_id {
            return Err(Error::Deserialization);
        }
        let pad1 = derive_pad(
            &secrets[jj],
            &config.session_id,
            peer as u32,
            config.party_id as u32,
            1,
        );
        let pad2 = derive_pad(
            &secrets[jj],
            &config.session_id,
            peer as u32,
            config.party_id as u32,
            2,
        );
        let pad3 = derive_pad(
            &secrets[jj],
            &config.session_id,
            peer as u32,
            config.party_id as u32,
            3,
        );
        let pad4 = derive_pad(
            &secrets[jj],
            &config.session_id,
            peer as u32,
            config.party_id as u32,
            4,
        );
        let beta_k = scalar_random();
        let beta_chi = scalar_random();
        let mk = scalar_reduce(&req.masked_k);
        let unmasked_k = scalar_add(&mk, &scalar_neg(&pad1));
        let prod_k = scalar_mul(&unmasked_k, &state.gamma);
        let alpha_k = scalar_add(&scalar_add(&prod_k, &scalar_neg(&beta_k)), &pad3);
        let mg = scalar_reduce(&req.masked_gamma);
        let unmasked_gamma = scalar_add(&mg, &scalar_neg(&pad2));
        let prod_chi = scalar_mul(&unmasked_gamma, &state.w);
        let alpha_chi = scalar_add(&scalar_add(&prod_chi, &scalar_neg(&beta_chi)), &pad4);
        let beta = DsgMtaBeta { peer, beta_k, beta_chi };
        let resp = DsgMtaResponse {
            from: config.party_id,
            to: peer,
            alpha_k,
            alpha_chi,
        };
        betas.push(beta);
        responses.push(resp);
        idx += 1;
    }
    Ok((betas, responses))
}

/// Whether the conversion responses gathered by an initiator are exactly
/// one per other member of the signing set, in set order, each addressed
/// to this party.
pub open spec fn mta_responses_expected(
    rs: Seq<DsgMtaResponse>,
    parties: Seq<usize>,
    self_id: usize,
) -> bool {
    &&& rs.len() == parties.len() - 1
    &&& forall|i: int|
        0 <= i < rs.len() ==> (#[trigger] rs[i]).from == peer_at(parties, self_id, i) && rs[i].to
            == self_id
}

/// Unmasks the conversion responses into this party's additive shares.
pub fn dsg_collect_alphas(
    config: &SessionConfig,
    secrets: &Vec<[u8; 32]>,
    responses: &Vec<DsgMtaResponse>,
) -> (r: Result<Vec<DsgMtaAlpha>, Error>)
    requires
        config.wf(),
        secrets@.len() == config.parties@.len(),
    ensures
        (r is Ok) == mta_responses_expected(responses@, config.parties@, config.party_id),
        r matches Err(e) ==> e == Error::Deserialization,
        r matches Ok(v) ==> {
            &&& v@.len() == config.parties@.len() - 1
            &&& forall|idx: int|
                0 <= idx < v@.len() ==> {
                    let ss = secrets@[peer_pos(config.parties@, config.party_id, idx)]@;
                    let peer = peer_at(config.parties@, config.party_id, idx);
                    &&& (#[trigger] v@[idx]).peer == peer
                    &&& scalar_valid(v@[idx].alpha_k@)
                    &&& be_val(v@[idx].alpha_k@) == sub_mod(
                        be_val(responses@[idx].alpha_k@) % group_order(),
                        pad_val(ss, config.session_id@, config.party_id as u32, peer as u32, 3),
                    )
                    &&& scalar_valid(v@[idx].alpha_chi@)
                    &&& be_val(v@[idx].alpha_chi@) == sub_mod(
                        be_val(responses@[idx].alpha_chi@) % group_order(),
                        pad_val(ss, config.session_id@, config.party_id as u32, peer as u32, 4),
                    )
                }
        },
{
    let n = config.parties.len();
    let sp = find_self_pos(config);
    if responses.len() != n - 1 {
        return Err(Error::Deserialization);
    }
    let mut alphas: Vec<DsgMtaAlpha> = Vec::new();
    let mut idx: usize = 0;
    while idx < n - 1
        invariant
            idx <= n - 1,
            config.wf(),
            secrets@.len() == n,
            config.parties@.len() == n,
            responses@.len() == n - 1,
            sp < n,
            sp as int == self_pos(config.parties@, config.party_id),
            alphas@.len() == idx,
            forall|q: int|
                0 <= q < idx ==> (#[trigger] responses@[q]).from == peer_at(
                    config.parties@,
                    config.party_id,
                    q,
                ) && responses@[q].to == config.party_id,
            forall|q: int|
                0 <= q < idx ==> {
                    let ss = secrets@[peer_pos(config.parties@, config.party_id, q)]@;
                    let peer = peer_at(config.parties@, config.party_id, q);
                    &&& (#[trigger] alphas@[q]).peer == peer
                    &&& scalar_valid(alphas@[q].alpha_k@)
                    &&& be_val(alphas@[q].alpha_k@) == sub_mod(
                        be_val(responses@[q].alpha_k@) % group_order(),
                        pad_val(ss, config.session_id@, config.party_id as u32, peer as u32, 3),
                    )
                    &&& scalar_valid(alphas@[q].alpha_chi@)
                    &&& be_val(alphas@[q].alpha_chi@) == sub_mod(
                        be_val(responses@[q].alpha_chi@) % group_order(),
                        pad_val(ss, config.session_id@, config.party_id as u32, peer as u32, 4),
                    )
                },
        decreases n - 1 - idx,
    {
        let jj = if idx < sp {
            idx
        } else {
            idx + 1
        };
        let peer = config.parties[jj];
        let resp = &responses[idx];
        if resp.from != peer || resp.to != config.party_id {
            return Err(Error::Deserialization);
        }
        let pad3 = derive_pad(
            &secrets[jj],
            &config.session_id,
            config.party_id as u32,
            peer as u32,
            3,
        );
        let pad4 = derive_pad(
            &secrets[jj],
            &config.session_id,
            config.party_id as u32,
            peer as u32,
            4,
        );
        let ak = scalar_reduce(&resp.alpha_k);
        let ac = scalar_reduce(&resp.alpha_chi);
        let alpha_k = scalar_add(&ak, &scalar_neg(&pad3));
        let alpha_chi = scalar_add(&ac, &scalar_neg(&pad4));
        alphas.push(DsgMtaAlpha { peer, alpha_k, alpha_chi });
        idx += 1;
    }
    Ok(alphas)
}

/// Combines this party's conversion shares into its opening `delta_i` of
/// `k * gamma` and its share `nu_i` of `gamma * x`.
pub fn dsg_delta_share(
    state: &DsgState1,
    alphas: &Vec<DsgMtaAlpha>,
    betas: &Vec<DsgMtaBeta>,
) -> (r: ([u8; 32], [u8; 32]))
    requires
        scalar_valid(state.k@),
        scalar_valid(state.gamma@),
        scalar_valid(state.w@),
        forall|i: int|
            0 <= i < alphas@.len() ==> scalar_valid((#[trigger] alphas@[i]).alpha_k@)
                && scalar_valid(alphas@[i].alpha_chi@),
        forall|i: int|
            0 <= i < betas@.len() ==> scalar_valid((#[trigger] betas@[i]).beta_k@) && scalar_valid(
                betas@[i].beta_chi@,
            ),
    ensures
        scalar_valid(r.0@),
        be_val(r.0@) == sum_beta_k(
            betas@,
            sum_alpha_k(alphas@, (be_val(state.k@) * be_val(state.gamma@)) % group_order()),
        ),
        scalar_valid(r.1@),
        be_val(r.1@) == sum_beta_chi(
            betas@,
            sum_alpha_chi(alphas@, (be_val(state.gamma@) * be_val(state.w@)) % group_order()),
        ),
{
    let mut delta = scalar_mul(&state.k, &state.gamma);
    let mut nu = scalar_mul(&state.gamma, &state.w);
    let mut i: usize = 0;
    proof {
        assert(alphas@.take(0) =~= Seq::<DsgMtaAlpha>::empty());
    }
    while i < alphas.len()
        invariant
            i <= alphas@.len(),
            forall|k: int|
                0 <= k < alphas@.len() ==> scalar_valid((#[trigger] alphas@[k]).alpha_k@)
                    && scalar_valid(alphas@[k].alpha_chi@),
            scalar_valid(delta@),
            be_val(delta@) == sum_alpha_k(
                alphas@.take(i as int),
                (be_val(state.k@) * be_val(state.gamma@)) % group_order(),
            ),
            scalar_valid(nu@),
            be_val(nu@) == sum_alpha_chi(
                alphas@.take(i as int),
                (be_val(state.gamma@) * be_val(state.w@)) % group_order(),
            ),
        decreases alphas@.len() - i,
    {
        let new_delta = scalar_add(&delta, &alphas[i].alpha_k);
        let new_nu = scalar_add(&nu, &alphas[i].alpha_chi);
        proof {
            assert(alphas@.take(i + 1).drop_last() =~= alphas@.take(i as int));
            assert(alphas@.take(i + 1).last() == alphas@[i as int]);
        }
        delta = new_delta;
        nu = new_nu;
        i += 1;
    }
    proof {
        assert(alphas@.take(alphas@.len() as int) =~= alphas@);
        assert(betas@.take(0) =~= Seq::<DsgMtaBeta>::empty());
    }
    let ghost alpha_k_total = be_val(delta@);
    let ghost alpha_chi_total = be_val(nu@);
    let mut i: usize = 0;
    while i < betas.len()
        invariant
            i <= betas@.len(),
            forall|k: int|
                0 <= k < betas@.len() ==> scalar_valid((#[trigger] betas@[k]).beta_k@)
                    && scalar_valid(betas@[k].beta_chi@),
            scalar_valid(delta@),
            be_val(delta@) == sum_beta_k(betas@.take(i as int), alpha_k_total),
            scalar_valid(nu@),
            be_val(nu@) == sum_beta_chi(betas@.take(i as int), alpha_chi_total),
        decreases betas@.len() - i,
    {
        let new_delta = scalar_add(&delta, &betas[i].beta_k);
        let new_nu = scalar_add(&nu, &betas[i].beta_chi);
        proof {
            assert(betas@.take(i + 1).drop_last() =~= betas@.take(i as int));
            assert(betas@.take(i + 1).last() == betas@[i as int]);
        }
        delta = new_delta;
        nu = new_nu;
        i += 1;
    }
    proof {
        assert(betas@.take(betas@.len() as int) =~= betas@);
    }
    (delta, nu)
}


/// Whether `dinv` inverts `d` and divides this party\'s shares: the witness
/// behind a finished pre-signature.
pub open spec fn inverse_shares_ok(
    d: nat,
    gamma: nat,
    nu: nat,
    k_inv: nat,
    chi: nat,
    dinv: nat,
) -> bool {
    &&& dinv < group_order()
    &&& (d * dinv) % group_order() == 1
    &&& k_inv == (gamma * dinv) % group_order()
    &&& chi == (nu * dinv) % group_order()
}

/// Finishes the message-independent part of signing: sums the broadcast
/// openings into `delta = k * gamma`, divides this party's `gamma_i` and
/// `nu_i` by it to obtain its shares of `k^-1` and `x * k^-1`, and sums the
/// round-one `k` commitments into the nonce point `R`.
pub fn dsg_presignature(
    config: &SessionConfig,
    state: &DsgState1,
    nu: &[u8; 32],
    round1_msgs: &Vec<DsgRound1Message>,
    round2_msgs: &Vec<DsgRound2Message>,
) -> (r: Result<PreSignature, Error>)
    requires
        config.wf(),
        scalar_valid(state.gamma@),
        scalar_valid(nu@),
    ensures
        (r is Ok) == ({
            &&& dsg_round1_well_indexed(round1_msgs@, config.parties@)
            &&& dsg_round2_well_indexed(round2_msgs@, config.parties@)
            &&& forall|i: int|
                0 <= i < round1_msgs@.len() ==> point_valid(
                    (#[trigger] round1_msgs@[i]).k_commitment@,
                )
            &&& delta_sum(round2_msgs@) != 0
            &&& sum_k_commitments(round1_msgs@).len() == 33
        }),
        r matches Ok(ps) ==> {
            &&& ps.session_id == config.session_id
            &&& ps.parties@ == config.parties@
            &&& !ps.consumed
            &&& ps.r_point@ == sum_k_commitments(round1_msgs@)
            &&& ps.k_inv_share@.len() == 32
            &&& scalar_valid(ps.k_inv_share@)
            &&& ps.chi_share@.len() == 32
            &&& scalar_valid(ps.chi_share@)
            &&& exists|dinv: nat|
                #[trigger] inverse_shares_ok(
                    delta_sum(round2_msgs@),
                    be_val(state.gamma@),
                    be_val(nu@),
                    be_val(ps.k_inv_share@),
                    be_val(ps.chi_share@),
                    dinv,
                )
        },
        r matches Err(e) ==> (e == Error::Deserialization || e
            matches Error::VerificationFailed(_) || e == Error::Crypto),
{
    let n = config.parties.len();
    if round1_msgs.len() != n {
        return Err(Error::Deserialization);
    }
    if round2_msgs.len() != n {
        return Err(Error::Deserialization);
    }
    let mut i: usize = 0;
    while i < n
        invariant
            i <= n,
            config.parties@.len() == n,
            round1_msgs@.len() == n,
            round2_msgs@.len() == n,
            forall|k: int|
                0 <= k < i ==> (#[trigger] round1_msgs@[k].party_id) == config.parties@[k],
            forall|k: int|
                0 <= k < i ==> (#[trigger] round2_msgs@[k].party_id) == config.parties@[k],
            forall|k: int| 0 <= k < i ==> (#[trigger] round2_msgs@[k].delta_share@).len() == 32,
        decreases n - i,
    {
        if round1_msgs[i].party_id != config.parties[i] {
            return Err(Error::Deserialization);
        }
        if round2_msgs[i].party_id != config.parties[i] {
            return Err(Error::Deserialization);
        }
        if round2_msgs[i].delta_share.len() != 32 {
            return Err(Error::Deserialization);
        }
        i += 1;
    }
    let mut delta = scalar_from_u64(0);
    let mut i: usize = 0;
    proof {
        assert(round2_msgs@.take(0) =~= Seq::<DsgRound2Message>::empty());
    }
    while i < n
        invariant
            i <= n,
            round2_msgs@.len() == n,
            forall|k: int|
                0 <= k < n ==> (#[trigger] round2_msgs@[k].delta_share@).len() == 32,
            scalar_valid(delta@),
            be_val(delta@) == delta_sum(round2_msgs@.take(i as int)),
        decreases n - i,
    {
        let arr = match vec_to_arr32(&round2_msgs[i].delta_share) {
            Some(a) => a,
            None => {
                return Err(Error::Deserialization);
            },
        };
        let reduced = scalar_reduce(&arr);
        let new_delta = scalar_add(&delta, &reduced);
        proof {
            assert(round2_msgs@.take(i + 1).drop_last() =~= round2_msgs@.take(i as int));
            assert(round2_msgs@.take(i + 1).last() == round2_msgs@[i as int]);
        }
        delta = new_delta;
        i += 1;
    }
    proof {
        assert(round2_msgs@.take(round2_msgs@.len() as int) =~= round2_msgs@);
    }
    if scalar_is_zero(&delta) {
        return Err(Error::Crypto);
    }
    let delta_inv = match scalar_invert(&delta) {
        Some(v) => v,
        None => {
            return Err(Error::Crypto);
        },
    };
    let k_inv_share = scalar_mul(&state.gamma, &delta_inv);
    let chi_share = scalar_mul(nu, &delta_inv);
    let mut r_acc = identity_encoding();
    let mut i: usize = 0;
    proof {
        assert(round1_msgs@.take(0) =~= Seq::<DsgRound1Message>::empty());
    }
    while i < n
        invariant
            i <= n,
            round1_msgs@.len() == n,
            point_valid(r_acc@),
            r_acc@ == sum_k_commitments(round1_msgs@.take(i as int)),
            forall|k: int|
                0 <= k < i ==> point_valid((#[trigger] round1_msgs@[k]).k_commitment@),
        decreases n - i,
    {
        let new_acc = match point_add(&r_acc, &round1_msgs[i].k_commitment) {
            Some(a) => a,
            None => {
                return Err(Error::VerificationFailed(round1_msgs[i].party_id));
            },
        };
        proof {
            assert(round1_msgs@.take(i + 1).drop_last() =~= round1_msgs@.take(i as int));
            assert(round1_msgs@.take(i + 1).last() == round1_msgs@[i as int]);
        }
        r_acc = new_acc;
        i += 1;
    }
    proof {
        assert(round1_msgs@.take(round1_msgs@.len() as int) =~= round1_msgs@);
    }
    let r_point = match vec_to_arr33(&r_acc) {
        Some(a) => a,
        None => {
            return Err(Error::Crypto);
        },
    };
    let mut set: Vec<PartyId> = Vec::new();
    let mut i: usize = 0;
    while i < n
        invariant
            i <= n,
            config.parties@.len() == n,
            set@.len() == i,
            forall|k: int| 0 <= k < i ==> set@[k] == config.parties@[k],
        decreases n - i,
    {
        set.push(config.parties[i]);
        i += 1;
    }
    proof {
        assert(set@ =~= config.parties@);
    }
    let pre_sig = PreSignature {
        session_id: config.session_id,
        parties: set,
        r_point,
        k_inv_share: arr32_to_vec(&k_inv_share),
        chi_share: arr32_to_vec(&chi_share),
        consumed: false,
    };
    proof {
        let dinv = be_val(delta_inv@);
        assert(inverse_shares_ok(
            delta_sum(round2_msgs@),
            be_val(state.gamma@),
            be_val(nu@),
            be_val(pre_sig.k_inv_share@),
            be_val(pre_sig.chi_share@),
            dinv,
        ));
    }
    Ok(pre_sig)
}

/// Creates this party's partial signature over a 32-byte digest from a
/// pre-signature, consuming it: `sigma_i = k_inv_share * m + r *
/// chi_share`, with `r` the X coordinate of the nonce point reduced modulo
/// the group order. A pre-signature is single-use; its `consumed` flag is
/// set on success and it cannot be presented again.
pub fn create_partial_signature(
    key_share: &KeyShare,
    pre_sig: &mut PreSignature,
    message: &[u8; 32],
) -> (r: Result<PartialSignature, Error>)
    requires
        !old(pre_sig).consumed,
    ensures
        final(pre_sig).session_id == old(pre_sig).session_id,
        final(pre_sig).parties@ == old(pre_sig).parties@,
        final(pre_sig).r_point == old(pre_sig).r_point,
        final(pre_sig).k_inv_share@ == old(pre_sig).k_inv_share@,
        final(pre_sig).chi_share@ == old(pre_sig).chi_share@,
        final(pre_sig).consumed == (r is Ok),
        (r is Ok) == (old(pre_sig).k_inv_share@.len() == 32 && old(pre_sig).chi_share@.len()
            == 32),
        r matches Err(e) ==> e == Error::Deserialization,
        r matches Ok(p) ==> {
            &&& p.party_id == key_share.party_id
            &&& p.sigma_share@.len() == 32
            &&& scalar_valid(p.sigma_share@)
            &&& be_val(p.sigma_share@) == ((be_val(old(pre_sig).k_inv_share@) % group_order()) * (
            be_val(message@) % group_order()) % group_order() + (be_val(
                old(pre_sig).r_point@.subrange(1, 33),
            ) % group_order()) * (be_val(old(pre_sig).chi_share@) % group_order()) % group_order())
                % group_order()
        },
{
    let k_inv_arr = match vec_to_arr32(&pre_sig.k_inv_share) {
        Some(a) => a,
        None => {
            return Err(Error::Deserialization);
        },
    };
    let chi_arr = match vec_to_arr32(&pre_sig.chi_share) {
        Some(a) => a,
        None => {
            return Err(Error::Deserialization);
        },
    };
    let k_inv = scalar_reduce(&k_inv_arr);
    let chi = scalar_reduce(&chi_arr);
    let r_coord = arr33_tail(&pre_sig.r_point);
    let r_scalar = scalar_reduce(&r_coord);
    let m = scalar_reduce(message);
    let sigma = scalar_add(&scalar_mul(&k_inv, &m), &scalar_mul(&r_scalar, &chi));
    pre_sig.consumed = true;
    Ok(PartialSignature { party_id: key_share.party_id, sigma_share: arr32_to_vec(&sigma) })
}

/// Whether every partial signature carries a 32-byte share.
pub open spec fn partial_lens_ok(ps: Seq<PartialSignature>) -> bool {
    forall|i: int| 0 <= i < ps.len() ==> (#[trigger] ps[i].sigma_share@).len() == 32
}

/// Combines the parties\' partial signatures over a digest into the final
/// signature: sums the shares into `s`, takes `r` from the nonce point,
/// normalises `s` to its low form, derives the recovery id from the nonce
/// point\'s parity, flipped when `s` was normalised, and accepts only what
/// the stock ECDSA verifier accepts under the given public key.
///
/// A zero `r` or `s` asks for a retry with fresh randomness; the caller
/// retries a bounded number of times.
pub fn combine_partial_signatures(
    pre_sig: &PreSignature,
    partials: &Vec<PartialSignature>,
    message: &[u8; 32],
    public_key: &Vec<u8>,
) -> (r: Result<Signature, Error>)
    ensures
        (r matches Err(e) && e == Error::Deserialization) == !partial_lens_ok(partials@),
        partial_lens_ok(partials@) ==> ((r matches Err(e) && e == Error::Retry) == (be_val(
            pre_sig.r_point@.subrange(1, 33),
        ) % group_order() == 0 || sigma_sum(partials@) == 0)),
        r matches Err(e) ==> (e == Error::Deserialization || e == Error::Retry || e
            == Error::InvalidSignature),
        ({
            let s0 = sigma_sum(partials@);
            let rv = be_val(pre_sig.r_point@.subrange(1, 33)) % group_order();
            let s_norm = if 2 * s0 > group_order() {
                neg_mod(s0)
            } else {
                s0
            };
            partial_lens_ok(partials@) && rv != 0 && s0 != 0 ==> ((r is Ok) == ecdsa_verifies(
                public_key@,
                message@,
                be_bytes_of(rv, 32),
                be_bytes_of(s_norm, 32),
            ))
        }),
        r matches Ok(sig) ==> {
            let s0 = sigma_sum(partials@);
            &&& partial_lens_ok(partials@)
            &&& be_val(sig.r@) == be_val(pre_sig.r_point@.subrange(1, 33)) % group_order()
            &&& scalar_valid(sig.r@)
            &&& be_val(sig.r@) != 0
            &&& be_val(sig.s@) == (if 2 * s0 > group_order() {
                neg_mod(s0)
            } else {
                s0
            })
            &&& scalar_valid(sig.s@)
            &&& be_val(sig.s@) != 0
            &&& 2 * be_val(sig.s@) <= group_order()
            &&& sig.recovery_id == (if ((pre_sig.r_point@[0] == 3) != (2 * s0 > group_order())) {
                1u8
            } else {
                0u8
            })
            &&& ecdsa_verifies(public_key@, message@, sig.r@, sig.s@)
        },
{
    let mut s = scalar_from_u64(0);
    let mut i: usize = 0;
    proof {
        assert(partials@.take(0) =~= Seq::<PartialSignature>::empty());
    }
    while i < partials.len()
        invariant
            i <= partials@.len(),
            scalar_valid(s@),
            be_val(s@) == sigma_sum(partials@.take(i as int)),
            forall|k: int| 0 <= k < i ==> (#[trigger] partials@[k].sigma_share@).len() == 32,
        decreases partials@.len() - i,
    {
        let arr = match vec_to_arr32(&partials[i].sigma_share) {
            Some(a) => a,
            None => {
                return Err(Error::Deserialization);
            },
        };
        let reduced = scalar_reduce(&arr);
        let new_s = scalar_add(&s, &reduced);
        proof {
            assert(partials@.take(i + 1).drop_last() =~= partials@.take(i as int));
            assert(partials@.take(i + 1).last() == partials@[i as int]);
        }
        s = new_s;
        i += 1;
    }
    proof {
        assert(partials@.take(partials@.len() as int) =~= partials@);
    }
    let r_coord = arr33_tail(&pre_sig.r_point);
    let r_scalar = scalar_reduce(&r_coord);
    if scalar_is_zero(&r_scalar) {
        return Err(Error::Retry);
    }
    if scalar_is_zero(&s) {
        return Err(Error::Retry);
    }
    let ghost s0 = be_val(s@);
    let high = scalar_is_high(&s);
    let s_final = if high {
        scalar_neg(&s)
    } else {
        s
    };
    proof {
        if high {
            vstd::arithmetic::div_mod::lemma_small_mod(
                (group_order() - s0) as nat,
                group_order(),
            );
        }
    }
    let base: u8 = if pre_sig.r_point[0] == 3 {
        1
    } else {
        0
    };
    let recovery_id: u8 = if high {
        1 - base
    } else {
        base
    };
    proof {
        lemma_be_bytes_roundtrip(r_scalar@);
        lemma_be_bytes_roundtrip(s_final@);
    }
    if !ecdsa_verify(public_key, message, &r_scalar, &s_final) {
        return Err(Error::InvalidSignature);
    }
    Ok(Signature::new(r_scalar, s_final, recovery_id))
}

} // verus!



