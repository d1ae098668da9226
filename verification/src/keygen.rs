//! Distributed key generation with Feldman-verifiable secret sharing, in
//! three rounds.
//!
//! Round one: every party samples a secret polynomial of degree one less
//! than the threshold and broadcasts commitments to its coefficients.
//! Round two: every party sends each counterparty its evaluation of the
//! polynomial at that party's Shamir point. Round three: every party
//! verifies each received share against the sender's commitments, and
//! combines its own evaluation with the received shares into its secret
//! share; the public key and the public shares are sums over the broadcast
//! commitments, so all parties agree on them.
use vstd::prelude::*;

use crate::encoding::{be32_of, blake3_hash, blake3_of, bytes_eq, u32_to_be_bytes, vec_to_arr32};
use crate::error::Error;
use crate::point::{
    gen_mul, generator_mul, identity_encoding, point_add, point_mul, point_valid, pt_add, pt_mul,
};
use crate::scalar::{
    be_val, group_order, scalar_add, scalar_from_u64, scalar_mul, scalar_random, scalar_reduce,
    scalar_valid,
};
use crate::types::{KeyShare, PartyId, SessionConfig};

verus! {

/// Round-one broadcast: commitments to the coefficients of the sender's
/// secret polynomial.
#[derive(Debug, Clone)]
pub struct DkgRound1Message {
    /// Sender party id.
    pub party_id: PartyId,
    /// One commitment per polynomial coefficient, SEC1 compressed.
    pub commitments: Vec<Vec<u8>>,
}

/// Round-two direct message: the sender's polynomial evaluated at the
/// receiver's Shamir point.
#[derive(Debug, Clone)]
pub struct DkgRound2Message {
    /// Sender party id.
    pub from: PartyId,
    /// Receiver party id.
    pub to: PartyId,
    /// The share, a 32-byte big-endian scalar.
    pub share: Vec<u8>,
}

/// Round-three broadcast: acknowledgement carrying the sender's public
/// share.
#[derive(Debug, Clone)]
pub struct DkgRound3Message {
    /// Sender party id.
    pub party_id: PartyId,
    /// The sender's public share, SEC1 compressed.
    pub public_share: Vec<u8>,
}

/// The power `x^k` under iterated multiplication modulo the group order.
pub open spec fn pow_mod(x: nat, k: nat) -> nat
    decreases k,
{
    if k == 0 {
        1
    } else {
        (x * pow_mod(x, (k - 1) as nat)) % group_order()
    }
}

/// The value of the polynomial with the given coefficients, constant term
/// first, at the point `x`, modulo the group order.
pub open spec fn poly_eval(c: Seq<nat>, x: nat) -> nat
    decreases c.len(),
{
    if c.len() == 0 {
        0
    } else {
        (poly_eval(c.drop_last(), x) + (c.last() * pow_mod(x, (c.len() - 1) as nat))
            % group_order()) % group_order()
    }
}

/// The values of a sequence of scalar encodings.
pub open spec fn scalar_seq_vals(s: Seq<[u8; 32]>) -> Seq<nat> {
    s.map_values(|a: [u8; 32]| be_val(a@))
}

/// The views of a sequence of byte vectors.
pub open spec fn byte_views(s: Seq<Vec<u8>>) -> Seq<Seq<u8>> {
    s.map_values(|v: Vec<u8>| v@)
}

/// The point `sum_k x^k * C_k` over a sequence of commitment encodings:
/// what a Feldman share at point `x` must commit to.
pub open spec fn commit_eval(cs: Seq<Seq<u8>>, x: nat) -> Seq<u8>
    decreases cs.len(),
{
    if cs.len() == 0 {
        seq![0u8]
    } else {
        pt_add(commit_eval(cs.drop_last(), x), pt_mul(pow_mod(x, (cs.len() - 1) as nat), cs.last()))
    }
}

/// Whether every commitment in every round-one message is a valid point
/// encoding.
pub open spec fn all_commitments_valid(ms: Seq<DkgRound1Message>) -> bool {
    forall|j: int, k: int|
        0 <= j < ms.len() && 0 <= k < ms[j].commitments@.len() ==> point_valid(
            #[trigger] ms[j].commitments@[k]@,
        )
}

/// The sum of the constant-term commitments over the round-one messages:
/// the joint public key.
pub open spec fn sum_first_commitments(ms: Seq<DkgRound1Message>) -> Seq<u8>
    decreases ms.len(),
{
    if ms.len() == 0 {
        seq![0u8]
    } else {
        pt_add(sum_first_commitments(ms.drop_last()), ms.last().commitments@[0]@)
    }
}

/// The public share of the party with Shamir point `x`: the sum over all
/// senders of their commitments evaluated at `x`.
pub open spec fn party_share_point(ms: Seq<DkgRound1Message>, x: nat) -> Seq<u8>
    decreases ms.len(),
{
    if ms.len() == 0 {
        seq![0u8]
    } else {
        pt_add(
            party_share_point(ms.drop_last(), x),
            commit_eval(byte_views(ms.last().commitments@), x),
        )
    }
}

/// The received shares, each reduced modulo the group order, summed onto an
/// initial value.
pub open spec fn shares_sum(rs: Seq<DkgRound2Message>, init: nat) -> nat
    decreases rs.len(),
{
    if rs.len() == 0 {
        init
    } else {
        (shares_sum(rs.drop_last(), init) + be_val(rs.last().share@) % group_order())
            % group_order()
    }
}

/// The bytes hashed into the chain code: a fixed tag, the public key, and
/// the party ids, each as four big-endian bytes, in configuration order.
pub open spec fn chain_code_input(pk: Seq<u8>, parties: Seq<PartyId>) -> Seq<u8> {
    seq![99u8, 107u8, 100u8] + pk + ids_bytes(parties)
}

/// The party ids rendered as four big-endian bytes each, in order.
pub open spec fn ids_bytes(parties: Seq<PartyId>) -> Seq<u8>
    decreases parties.len(),
{
    if parties.len() == 0 {
        Seq::empty()
    } else {
        ids_bytes(parties.drop_last()) + be32_of(parties.last() as u32)
    }
}

/// Whether the round-one messages are exactly one per party, in party
/// order.
pub open spec fn round1_well_indexed(ms: Seq<DkgRound1Message>, n: nat) -> bool {
    &&& ms.len() == n
    &&& forall|i: int| 0 <= i < ms.len() ==> (#[trigger] ms[i].party_id) == i
}

/// Whether the round-two messages are exactly one per counterparty of
/// `self_id`, in sender order.
pub open spec fn round2_well_indexed(rs: Seq<DkgRound2Message>, n: nat, self_id: nat) -> bool {
    &&& rs.len() == n - 1
    &&& forall|i: int|
        0 <= i < rs.len() ==> (#[trigger] rs[i].from) == if i < self_id {
            i as nat
        } else {
            (i + 1) as nat
        }
}

/// Whether a round-two share is consistent with the sender's commitments:
/// it is 32 bytes, and its multiple of the generator equals the
/// commitments evaluated at the receiver's Shamir point.
pub open spec fn share_matches(msg: DkgRound2Message, commits: Seq<Seq<u8>>, x: nat) -> bool {
    &&& msg.share@.len() == 32
    &&& gen_mul(be_val(msg.share@) % group_order()) == commit_eval(commits, x)
}

/// A running distributed key generation, counting its rounds.
pub struct DkgSession {
    /// The configuration of the run.
    pub config: SessionConfig,
    /// The rounds completed so far.
    pub round: u32,
    /// The commitments gathered in round one.
    pub commitments: Vec<Vec<u8>>,
    /// The shares gathered in round two.
    pub shares: Vec<Vec<u8>>,
}

impl DkgSession {
    /// Starts a session at round zero with nothing gathered.
    pub fn new(config: SessionConfig) -> (s: DkgSession)
        ensures
            s.config == config,
            s.round == 0,
            s.commitments@.len() == 0,
            s.shares@.len() == 0,
    {
        DkgSession { config, round: 0, commitments: Vec::new(), shares: Vec::new() }
    }

    /// The rounds completed so far.
    pub fn round(&self) -> (r: u32)
        ensures
            r == self.round,
    {
        self.round
    }

    /// Whether all three rounds have completed.
    pub fn is_complete(&self) -> (r: bool)
        ensures
            r == (self.round >= 3),
    {
        self.round >= 3
    }
}

/// Samples a secret polynomial of degree one less than the threshold,
/// returning its coefficients, constant term first, and a commitment to
/// each coefficient.
pub fn generate_secret_polynomial(config: &SessionConfig) -> (r: (Vec<[u8; 32]>, Vec<Vec<u8>>))
    ensures
        r.0@.len() == config.threshold,
        r.1@.len() == config.threshold,
        forall|i: int| 0 <= i < r.0@.len() ==> scalar_valid(#[trigger] r.0@[i]@),
        forall|i: int|
            0 <= i < r.1@.len() ==> (#[trigger] r.1@[i]@) == gen_mul(be_val(r.0@[i]@))
                && point_valid(r.1@[i]@),
{
    let mut coefficients: Vec<[u8; 32]> = Vec::new();
    let mut commitments: Vec<Vec<u8>> = Vec::new();
    let mut i: usize = 0;
    while i < config.threshold
        invariant
            i <= config.threshold,
            coefficients@.len() == i,
            commitments@.len() == i,
            forall|j: int| 0 <= j < i ==> scalar_valid(#[trigger] coefficients@[j]@),
            forall|j: int|
                0 <= j < i ==> (#[trigger] commitments@[j]@) == gen_mul(be_val(coefficients@[j]@))
                    && point_valid(commitments@[j]@),
        decreases config.threshold - i,
    {
        let coef = scalar_random();
        let commitment = generator_mul(&coef);
        coefficients.push(coef);
        commitments.push(commitment);
        i += 1;
    }
    (coefficients, commitments)
}

/// Samples a masking polynomial for key refresh: the same shape as a secret
/// polynomial, but with constant term zero, so that the masked key is
/// unchanged. Its first commitment is the identity encoding.
pub fn generate_masking_polynomial(config: &SessionConfig) -> (r: (Vec<[u8; 32]>, Vec<Vec<u8>>))
    requires
        config.wf(),
    ensures
        r.0@.len() == config.threshold,
        r.1@.len() == config.threshold,
        forall|i: int| 0 <= i < r.0@.len() ==> scalar_valid(#[trigger] r.0@[i]@),
        be_val(r.0@[0]@) == 0,
        r.1@[0]@ == seq![0u8],
        forall|i: int|
            1 <= i < r.1@.len() ==> (#[trigger] r.1@[i]@) == gen_mul(be_val(r.0@[i]@))
                && point_valid(r.1@[i]@),
        point_valid(r.1@[0]@),
{
    let mut coefficients: Vec<[u8; 32]> = Vec::new();
    let mut commitments: Vec<Vec<u8>> = Vec::new();
    coefficients.push(scalar_from_u64(0));
    commitments.push(identity_encoding());
    let mut i: usize = 1;
    while i < config.threshold
        invariant
            1 <= i <= config.threshold,
            coefficients@.len() == i,
            commitments@.len() == i,
            forall|j: int| 0 <= j < i ==> scalar_valid(#[trigger] coefficients@[j]@),
            be_val(coefficients@[0]@) == 0,
            commitments@[0]@ == seq![0u8],
            point_valid(commitments@[0]@),
            forall|j: int|
                1 <= j < i ==> (#[trigger] commitments@[j]@) == gen_mul(be_val(coefficients@[j]@))
                    && point_valid(commitments@[j]@),
        decreases config.threshold - i,
    {
        let coef = scalar_random();
        let commitment = generator_mul(&coef);
        coefficients.push(coef);
        commitments.push(commitment);
        i += 1;
    }
    (coefficients, commitments)
}

/// Evaluates a polynomial, coefficients constant term first, at the point
/// `x`, modulo the group order, by ascending-power accumulation.
pub fn evaluate_polynomial(coefficients: &Vec<[u8; 32]>, x: u64) -> (r: [u8; 32])
    requires
        forall|i: int| 0 <= i < coefficients@.len() ==> scalar_valid(#[trigger] coefficients@[i]@),
    ensures
        scalar_valid(r@),
        be_val(r@) == poly_eval(scalar_seq_vals(coefficients@), x as nat),
{
    let ghost vals = scalar_seq_vals(coefficients@);
    let xs = scalar_from_u64(x);
    let mut acc = scalar_from_u64(0);
    let mut xp = scalar_from_u64(1);
    let mut i: usize = 0;
    proof {
        assert(vals.take(0) =~= Seq::<nat>::empty());
    }
    while i < coefficients.len()
        invariant
            i <= coefficients@.len(),
            forall|k: int|
                0 <= k < coefficients@.len() ==> scalar_valid(#[trigger] coefficients@[k]@),
            vals == scalar_seq_vals(coefficients@),
            scalar_valid(xs@),
            be_val(xs@) == x as nat,
            scalar_valid(acc@),
            be_val(acc@) == poly_eval(vals.take(i as int), x as nat),
            scalar_valid(xp@),
            be_val(xp@) == pow_mod(x as nat, i as nat),
        decreases coefficients@.len() - i,
    {
        let term = scalar_mul(&coefficients[i], &xp);
        let new_acc = scalar_add(&acc, &term);
        proof {
            assert(vals.take(i + 1).drop_last() =~= vals.take(i as int));
            assert(vals.take(i + 1).last() == vals[i as int]);
            assert(vals[i as int] == be_val(coefficients@[i as int]@));
        }
        acc = new_acc;
        xp = scalar_mul(&xp, &xs);
        proof {
            assert(pow_mod(x as nat, (i + 1) as nat) == (x as nat * pow_mod(
                x as nat,
                i as nat,
            )) % group_order());
        }
        i += 1;
    }
    proof {
        assert(vals.take(coefficients@.len() as int) =~= vals);
    }
    acc
}

/// Evaluates a sequence of commitments at the point `x`: the sum over `k`
/// of `x^k` times the `k`-th committed point. Fails exactly when some
/// commitment is not a valid point encoding.
pub fn eval_commitments(commitments: &Vec<Vec<u8>>, x: u64) -> (r: Option<Vec<u8>>)
    ensures
        (r is Some) == (forall|k: int|
            0 <= k < commitments@.len() ==> point_valid(#[trigger] commitments@[k]@)),
        r matches Some(c) ==> c@ == commit_eval(byte_views(commitments@), x as nat) && point_valid(
            c@,
        ),
{
    let ghost views = byte_views(commitments@);
    let xs = scalar_from_u64(x);
    let mut acc = identity_encoding();
    let mut xp = scalar_from_u64(1);
    let mut i: usize = 0;
    proof {
        assert(views.take(0) =~= Seq::<Seq<u8>>::empty());
    }
    while i < commitments.len()
        invariant
            i <= commitments@.len(),
            views == byte_views(commitments@),
            scalar_valid(xs@),
            be_val(xs@) == x as nat,
            scalar_valid(xp@),
            be_val(xp@) == pow_mod(x as nat, i as nat),
            point_valid(acc@),
            acc@ == commit_eval(views.take(i as int), x as nat),
            forall|k: int| 0 <= k < i ==> point_valid(#[trigger] commitments@[k]@),
        decreases commitments@.len() - i,
    {
        let term = match point_mul(&xp, &commitments[i]) {
            Some(t) => t,
            None => {
                return None;
            },
        };
        let new_acc = match point_add(&acc, &term) {
            Some(a) => a,
            None => {
                return None;
            },
        };
        proof {
            assert(views.take(i + 1).drop_last() =~= views.take(i as int));
            assert(views.take(i + 1).last() == views[i as int]);
            assert(views[i as int] == commitments@[i as int]@);
        }
        acc = new_acc;
        xp = scalar_mul(&xp, &xs);
        proof {
            assert(pow_mod(x as nat, (i + 1) as nat) == (x as nat * pow_mod(
                x as nat,
                i as nat,
            )) % group_order());
        }
        i += 1;
    }
    proof {
        assert(views.take(commitments@.len() as int) =~= views);
    }
    Some(acc)
}

/// Verifies a round-two share against the sender's commitments: the share
/// times the generator must equal the commitments evaluated at this
/// party's Shamir point. A share of the wrong length is a deserialization
/// fault; a mismatch or an invalid commitment encoding is a verification
/// fault charged to the sender.
pub fn verify_share(share_msg: &DkgRound2Message, commitments: &Vec<Vec<u8>>, my_id: usize) -> (r:
    Result<(), Error>)
    requires
        my_id < 0xFFFF,
    ensures
        (r is Ok) == ((forall|k: int|
            0 <= k < commitments@.len() ==> point_valid(#[trigger] commitments@[k]@))
            && share_matches(*share_msg, byte_views(commitments@), (my_id + 1) as nat)),
        r matches Err(e) ==> e == if share_msg.share@.len() != 32 {
            Error::Deserialization
        } else {
            Error::VerificationFailed(share_msg.from)
        },
{
    let share_arr = match vec_to_arr32(&share_msg.share) {
        Some(a) => a,
        None => {
            return Err(Error::Deserialization);
        },
    };
    let share = scalar_reduce(&share_arr);
    let expected = generator_mul(&share);
    let actual = match eval_commitments(commitments, (my_id as u64) + 1) {
        Some(a) => a,
        None => {
            return Err(Error::VerificationFailed(share_msg.from));
        },
    };
    if bytes_eq(&expected, &actual) {
        Ok(())
    } else {
        Err(Error::VerificationFailed(share_msg.from))
    }
}

/// Sums the constant-term commitments of the round-one messages into the
/// joint public key. Fails when a party sent no commitments or an invalid
/// first commitment, charging that party.
pub fn compute_public_key(all_commitments: &Vec<DkgRound1Message>) -> (r: Result<Vec<u8>, Error>)
    ensures
        (r is Ok) == (forall|j: int|
            0 <= j < all_commitments@.len() ==> (#[trigger] all_commitments@[j]).commitments@.len()
                > 0 && point_valid(all_commitments@[j].commitments@[0]@)),
        r matches Ok(pk) ==> pk@ == sum_first_commitments(all_commitments@) && point_valid(pk@),
        r matches Err(e) ==> exists|j: int|
            0 <= j < all_commitments@.len() && e == Error::VerificationFailed(
                (#[trigger] all_commitments@[j]).party_id,
            ) && !(all_commitments@[j].commitments@.len() > 0 && point_valid(
                all_commitments@[j].commitments@[0]@,
            )),
{
    let mut acc = identity_encoding();
    let mut j: usize = 0;
    proof {
        assert(all_commitments@.take(0) =~= Seq::<DkgRound1Message>::empty());
    }
    while j < all_commitments.len()
        invariant
            j <= all_commitments@.len(),
            point_valid(acc@),
            acc@ == sum_first_commitments(all_commitments@.take(j as int)),
            forall|k: int|
                0 <= k < j ==> (#[trigger] all_commitments@[k]).commitments@.len() > 0
                    && point_valid(all_commitments@[k].commitments@[0]@),
        decreases all_commitments@.len() - j,
    {
        let msg = &all_commitments[j];
        if msg.commitments.len() == 0 {
            return Err(Error::VerificationFailed(msg.party_id));
        }
        let new_acc = match point_add(&acc, &msg.commitments[0]) {
            Some(a) => a,
            None => {
                return Err(Error::VerificationFailed(msg.party_id));
            },
        };
        proof {
            assert(all_commitments@.take(j + 1).drop_last() =~= all_commitments@.take(j as int));
            assert(all_commitments@.take(j + 1).last() == all_commitments@[j as int]);
        }
        acc = new_acc;
        j += 1;
    }
    proof {
        assert(all_commitments@.take(all_commitments@.len() as int) =~= all_commitments@);
    }
    Ok(acc)
}

/// Computes every party's public share: for party `p`, the sum over all
/// senders of their commitments evaluated at `p`'s Shamir point. Fails
/// when some commitment encoding is invalid, charging its sender.
pub fn compute_public_shares(all_commitments: &Vec<DkgRound1Message>, n_parties: usize) -> (r:
    Result<Vec<Vec<u8>>, Error>)
    requires
        1 <= n_parties <= 0xFFFF,
    ensures
        (r is Ok) == all_commitments_valid(all_commitments@),
        r matches Ok(v) ==> v@.len() == n_parties && forall|p: int|
            0 <= p < n_parties ==> (#[trigger] v@[p]@) == party_share_point(
                all_commitments@,
                (p + 1) as nat,
            ) && point_valid(v@[p]@),
        r matches Err(e) ==> !all_commitments_valid(all_commitments@) && exists|j: int|
            0 <= j < all_commitments@.len() && e == Error::VerificationFailed(
                (#[trigger] all_commitments@[j]).party_id,
            ),
{
    let mut shares: Vec<Vec<u8>> = Vec::new();
    let mut p: usize = 0;
    while p < n_parties
        invariant
            p <= n_parties,
            n_parties <= 0xFFFF,
            shares@.len() == p,
            forall|q: int|
                0 <= q < p ==> (#[trigger] shares@[q]@) == party_share_point(
                    all_commitments@,
                    (q + 1) as nat,
                ) && point_valid(shares@[q]@),
            p > 0 ==> all_commitments_valid(all_commitments@),
        decreases n_parties - p,
    {
        let x = (p as u64) + 1;
        let mut acc = identity_encoding();
        let mut j: usize = 0;
        proof {
            assert(all_commitments@.take(0) =~= Seq::<DkgRound1Message>::empty());
        }
        while j < all_commitments.len()
            invariant
                j <= all_commitments@.len(),
                x == p + 1,
                p < n_parties <= 0xFFFF,
                point_valid(acc@),
                acc@ == party_share_point(all_commitments@.take(j as int), x as nat),
                forall|jj: int, k: int|
                    0 <= jj < j && 0 <= k < all_commitments@[jj].commitments@.len() ==> point_valid(
                        #[trigger] all_commitments@[jj].commitments@[k]@,
                    ),
            decreases all_commitments@.len() - j,
        {
            let msg = &all_commitments[j];
            let e = match eval_commitments(&msg.commitments, x) {
                Some(v) => v,
                None => {
                    return Err(Error::VerificationFailed(msg.party_id));
                },
            };
            let new_acc = match point_add(&acc, &e) {
                Some(a) => a,
                None => {
                    return Err(Error::VerificationFailed(msg.party_id));
                },
            };
            proof {
                assert(all_commitments@.take(j + 1).drop_last() =~= all_commitments@.take(
                    j as int,
                ));
                assert(all_commitments@.take(j + 1).last() == all_commitments@[j as int]);
            }
            acc = new_acc;
            j += 1;
        }
        proof {
            assert(all_commitments@.take(all_commitments@.len() as int) =~= all_commitments@);
        }
        shares.push(acc);
        p += 1;
    }
    Ok(shares)
}

/// Derives the chain code from the public key and the party set: the
/// BLAKE3 digest of a fixed tag, the public key bytes, and the party ids.
/// Deterministic, so every party that agrees on the public key agrees on
/// the chain code.
pub fn derive_chain_code(public_key: &Vec<u8>, parties: &Vec<PartyId>) -> (r: [u8; 32])
    requires
        forall|i: int| 0 <= i < parties@.len() ==> (#[trigger] parties@[i]) < 0x10000,
    ensures
        r@ == blake3_of(chain_code_input(public_key@, parties@)),
{
    let mut input: Vec<u8> = Vec::new();
    input.push(99u8);
    input.push(107u8);
    input.push(100u8);
    input.extend_from_slice(public_key.as_slice());
    proof {
        assert(input@ =~= seq![99u8, 107u8, 100u8] + public_key@);
        assert(ids_bytes(parties@.take(0)) =~= Seq::<u8>::empty());
        assert(input@ =~= seq![99u8, 107u8, 100u8] + public_key@ + ids_bytes(parties@.take(0)));
    }
    let mut i: usize = 0;
    while i < parties.len()
        invariant
            i <= parties@.len(),
            forall|k: int| 0 <= k < parties@.len() ==> (#[trigger] parties@[k]) < 0x10000,
            input@ == seq![99u8, 107u8, 100u8] + public_key@ + ids_bytes(parties@.take(i as int)),
        decreases parties@.len() - i,
    {
        let id_bytes = u32_to_be_bytes(parties[i] as u32);
        input.extend_from_slice(id_bytes.as_slice());
        proof {
            assert(parties@.take(i + 1).drop_last() =~= parties@.take(i as int));
            assert(parties@.take(i + 1).last() == parties@[i as int]);
            assert(input@ =~= seq![99u8, 107u8, 100u8] + public_key@ + ids_bytes(
                parties@.take(i + 1),
            ));
        }
        i += 1;
    }
    proof {
        assert(parties@.take(parties@.len() as int) =~= parties@);
    }
    blake3_hash(input.as_slice())
}

/// Two parties that finish key generation over the same round-one
/// commitment messages and party set obtain byte-identical public keys,
/// public shares and chain codes: the public output is a function of the
/// broadcast commitments and the party set alone.
pub proof fn lemma_dkg_public_agreement(
    a: KeyShare,
    b: KeyShare,
    ms: Seq<DkgRound1Message>,
    parties: Seq<PartyId>,
)
    requires
        a.public_key@ == sum_first_commitments(ms),
        b.public_key@ == sum_first_commitments(ms),
        a.chain_code@ == blake3_of(chain_code_input(sum_first_commitments(ms), parties)),
        b.chain_code@ == blake3_of(chain_code_input(sum_first_commitments(ms), parties)),
        a.public_shares@.len() == b.public_shares@.len(),
        forall|p: int|
            0 <= p < a.public_shares@.len() ==> (#[trigger] a.public_shares@[p]@)
                == party_share_point(ms, (p + 1) as nat),
        forall|p: int|
            0 <= p < b.public_shares@.len() ==> (#[trigger] b.public_shares@[p]@)
                == party_share_point(ms, (p + 1) as nat),
    ensures
        a.public_key@ == b.public_key@,
        a.chain_code@ == b.chain_code@,
        forall|p: int|
            0 <= p < a.public_shares@.len() ==> (#[trigger] a.public_shares@[p]@)
                == b.public_shares@[p]@,
{
}

/// Whether finishing key generation accepts the gathered messages: one
/// round-one message per party in order, one round-two message per
/// counterparty in sender order, every commitment a valid non-empty point
/// list, every received share consistent with its sender's commitments, and
/// an ordinary (non-identity) joint public key.
pub open spec fn dkg_inputs_accepted(
    config: SessionConfig,
    all: Seq<DkgRound1Message>,
    rcv: Seq<DkgRound2Message>,
) -> bool {
    &&& round1_well_indexed(all, config.n_parties as nat)
    &&& round2_well_indexed(rcv, config.n_parties as nat, config.party_id as nat)
    &&& all_commitments_valid(all)
    &&& forall|i: int|
        0 <= i < rcv.len() ==> share_matches(
            #[trigger] rcv[i],
            byte_views(all[rcv[i].from as int].commitments@),
            (config.party_id + 1) as nat,
        )
    &&& forall|j: int| 0 <= j < all.len() ==> (#[trigger] all[j]).commitments@.len() > 0
    &&& sum_first_commitments(all).len() == 33
}

/// Round one of key generation: samples this party's secret polynomial and
/// packs the commitment broadcast.
pub fn dkg_round1(config: &SessionConfig) -> (r: (Vec<[u8; 32]>, DkgRound1Message))
    ensures
        r.0@.len() == config.threshold,
        forall|i: int| 0 <= i < r.0@.len() ==> scalar_valid(#[trigger] r.0@[i]@),
        r.1.party_id == config.party_id,
        r.1.commitments@.len() == config.threshold,
        forall|i: int|
            0 <= i < r.1.commitments@.len() ==> (#[trigger] r.1.commitments@[i]@) == gen_mul(
                be_val(r.0@[i]@),
            ) && point_valid(r.1.commitments@[i]@),
{
    let (coefficients, commitments) = generate_secret_polynomial(config);
    let msg = DkgRound1Message { party_id: config.party_id, commitments };
    (coefficients, msg)
}

/// Round two of key generation: this party's polynomial evaluated at every
/// counterparty's Shamir point, one direct message each, in party order.
pub fn dkg_round2_shares(config: &SessionConfig, coefficients: &Vec<[u8; 32]>) -> (r: Vec<
    DkgRound2Message,
>)
    requires
        config.wf(),
        forall|i: int| 0 <= i < coefficients@.len() ==> scalar_valid(#[trigger] coefficients@[i]@),
    ensures
        forall|i: int|
            0 <= i < r@.len() ==> (#[trigger] r@[i]).from == config.party_id && r@[i].to
                != config.party_id && r@[i].share@.len() == 32 && be_val(r@[i].share@) == poly_eval(
                scalar_seq_vals(coefficients@),
                (r@[i].to + 1) as nat,
            ),
        forall|j: int|
            0 <= j < config.parties@.len() && (#[trigger] config.parties@[j]) != config.party_id
                ==> exists|i: int| 0 <= i < r@.len() && (#[trigger] r@[i]).to
                == config.parties@[j],
{
    let mut out: Vec<DkgRound2Message> = Vec::new();
    let mut j: usize = 0;
    while j < config.parties.len()
        invariant
            j <= config.parties@.len(),
            config.wf(),
            forall|k: int|
                0 <= k < coefficients@.len() ==> scalar_valid(#[trigger] coefficients@[k]@),
            forall|i: int|
                0 <= i < out@.len() ==> (#[trigger] out@[i]).from == config.party_id && out@[i].to
                    != config.party_id && out@[i].share@.len() == 32 && be_val(out@[i].share@)
                    == poly_eval(scalar_seq_vals(coefficients@), (out@[i].to + 1) as nat),
            forall|jj: int|
                0 <= jj < j && (#[trigger] config.parties@[jj]) != config.party_id ==> exists|
                    i: int,
                |
                    0 <= i < out@.len() && (#[trigger] out@[i]).to == config.parties@[jj],
        decreases config.parties@.len() - j,
    {
        let p = config.parties[j];
        let ghost prior = out@;
        if p != config.party_id {
            let share = evaluate_polynomial(coefficients, (p as u64) + 1);
            let mut share_bytes: Vec<u8> = Vec::new();
            share_bytes.extend_from_slice(share.as_slice());
            proof {
                assert(share_bytes@ =~= share@);
            }
            let msg = DkgRound2Message { from: config.party_id, to: p, share: share_bytes };
            out.push(msg);
            proof {
                assert(out@[out@.len() - 1].to == p);
            }
        }
        proof {
            assert forall|jj: int|
                0 <= jj < j + 1 && (#[trigger] config.parties@[jj])
                    != config.party_id implies exists|i: int|
                0 <= i < out@.len() && (#[trigger] out@[i]).to == config.parties@[jj] by {
                if jj < j {
                    let w = choose|i: int|
                        0 <= i < prior.len() && (#[trigger] prior[i]).to == config.parties@[jj];
                    assert(out@[w] == prior[w]);
                    assert(out@[w].to == config.parties@[jj]);
                } else {
                    assert(out@[out@.len() - 1].to == config.parties@[jj]);
                }
            }
        }
        j += 1;
    }
    out
}

/// Round three of key generation: verifies every received share against its
/// sender's broadcast commitments and combines the key share.
///
/// The secret share is this party's own evaluation plus the sum of the
/// received shares; the public key is the sum of the constant-term
/// commitments; each party's public share is the commitment sum evaluated
/// at its Shamir point; the chain code is derived from the public key and
/// the party set, so every accepting party derives the same one.
pub fn dkg_finish(
    config: &SessionConfig,
    coefficients: &Vec<[u8; 32]>,
    all_commitments: &Vec<DkgRound1Message>,
    received: &Vec<DkgRound2Message>,
) -> (r: Result<KeyShare, Error>)
    requires
        config.wf(),
        forall|i: int| 0 <= i < config.parties@.len() ==> (#[trigger] config.parties@[i]) == i,
        coefficients@.len() == config.threshold,
        forall|i: int| 0 <= i < coefficients@.len() ==> scalar_valid(#[trigger] coefficients@[i]@),
    ensures
        (r is Ok) == dkg_inputs_accepted(*config, all_commitments@, received@),
        r matches Ok(ks) ==> {
            &&& ks.wf()
            &&& ks.party_id == config.party_id
            &&& ks.n_parties == config.n_parties
            &&& ks.threshold == config.threshold
            &&& ks.public_key@ == sum_first_commitments(all_commitments@)
            &&& be_val(ks.secret_share@) == shares_sum(
                received@,
                poly_eval(scalar_seq_vals(coefficients@), (config.party_id + 1) as nat),
            )
            &&& ks.public_shares@.len() == config.n_parties
            &&& forall|p: int|
                0 <= p < config.n_parties ==> (#[trigger] ks.public_shares@[p]@)
                    == party_share_point(all_commitments@, (p + 1) as nat)
            &&& ks.chain_code@ == blake3_of(
                chain_code_input(sum_first_commitments(all_commitments@), config.parties@),
            )
        },
        r matches Err(e) ==> (e == Error::Deserialization || e matches Error::VerificationFailed(_)
            || e == Error::Crypto),
        r == Result::<KeyShare, Error>::Err(Error::Deserialization) ==> (!(round1_well_indexed(
            all_commitments@,
            config.n_parties as nat,
        ) && round2_well_indexed(received@, config.n_parties as nat, config.party_id as nat))
            || exists|i: int|
            0 <= i < received@.len() && (#[trigger] received@[i].share@).len() != 32),
        r matches Err(Error::VerificationFailed(p)) ==> p < config.n_parties,
        r == Result::<KeyShare, Error>::Err(Error::Crypto) ==> sum_first_commitments(
            all_commitments@,
        ).len() != 33,
{
    let n = config.n_parties;
    if all_commitments.len() != n {
        return Err(Error::Deserialization);
    }
    let mut i: usize = 0;
    while i < n
        invariant
            i <= n,
            n == config.n_parties,
            all_commitments@.len() == n,
            forall|k: int| 0 <= k < i ==> (#[trigger] all_commitments@[k].party_id) == k,
        decreases n - i,
    {
        if all_commitments[i].party_id != i {
            return Err(Error::Deserialization);
        }
        i += 1;
    }
    if received.len() != n - 1 {
        return Err(Error::Deserialization);
    }
    let mut i: usize = 0;
    while i < received.len()
        invariant
            i <= received@.len(),
            received@.len() == n - 1,
            n == config.n_parties,
            config.wf(),
            forall|k: int|
                0 <= k < i ==> (#[trigger] received@[k].from) == if k < config.party_id {
                    k as nat
                } else {
                    (k + 1) as nat
                },
        decreases received@.len() - i,
    {
        let expected_from = if i < config.party_id {
            i
        } else {
            i + 1
        };
        if received[i].from != expected_from {
            return Err(Error::Deserialization);
        }
        i += 1;
    }
    proof {
        let cp = choose|k: int|
            0 <= k < config.parties@.len() && config.parties@[k] == config.party_id;
        assert(config.parties@[cp] == cp);
        assert(config.party_id < n);
    }
    let mut i: usize = 0;
    while i < received.len()
        invariant
            i <= received@.len(),
            received@.len() == n - 1,
            n == config.n_parties,
            config.wf(),
            config.party_id < n,
            all_commitments@.len() == n,
            round2_well_indexed(received@, n as nat, config.party_id as nat),
            forall|k: int|
                0 <= k < i ==> share_matches(
                    #[trigger] received@[k],
                    byte_views(all_commitments@[received@[k].from as int].commitments@),
                    (config.party_id + 1) as nat,
                ),
            forall|k: int, c: int|
                0 <= k < i && 0 <= c
                    < all_commitments@[received@[k].from as int].commitments@.len()
                    ==> point_valid(
                    #[trigger] all_commitments@[received@[k].from as int].commitments@[c]@,
                ),
        decreases received@.len() - i,
    {
        let msg = &received[i];
        proof {
            assert(received@[i as int].from < n);
        }
        match verify_share(msg, &all_commitments[msg.from].commitments, config.party_id) {
            Ok(()) => {},
            Err(e) => {
                proof {
                    assert(!dkg_inputs_accepted(*config, all_commitments@, received@));
                }
                return Err(e);
            },
        }
        i += 1;
    }
    let public_key = match compute_public_key(all_commitments) {
        Ok(pk) => pk,
        Err(e) => {
            proof {
                assert(!dkg_inputs_accepted(*config, all_commitments@, received@));
            }
            return Err(e);
        },
    };
    if public_key.len() != 33 {
        return Err(Error::Crypto);
    }
    let public_shares = match compute_public_shares(all_commitments, n) {
        Ok(v) => v,
        Err(e) => {
            proof {
                assert(!dkg_inputs_accepted(*config, all_commitments@, received@));
            }
            return Err(e);
        },
    };
    let own_eval = evaluate_polynomial(coefficients, (config.party_id as u64) + 1);
    let mut secret = own_eval;
    let ghost init = poly_eval(scalar_seq_vals(coefficients@), (config.party_id + 1) as nat);
    let mut i: usize = 0;
    proof {
        assert(received@.take(0) =~= Seq::<DkgRound2Message>::empty());
    }
    while i < received.len()
        invariant
            i <= received@.len(),
            scalar_valid(secret@),
            be_val(secret@) == shares_sum(received@.take(i as int), init),
            forall|k: int|
                0 <= k < received@.len() ==> (#[trigger] received@[k].share@).len() == 32,
        decreases received@.len() - i,
    {
        let arr = match vec_to_arr32(&received[i].share) {
            Some(a) => a,
            None => {
                return Err(Error::Deserialization);
            },
        };
        let reduced = scalar_reduce(&arr);
        let new_secret = scalar_add(&secret, &reduced);
        proof {
            assert(received@.take(i + 1).drop_last() =~= received@.take(i as int));
            assert(received@.take(i + 1).last() == received@[i as int]);
        }
        secret = new_secret;
        i += 1;
    }
    proof {
        assert(received@.take(received@.len() as int) =~= received@);
    }
    let chain_code = derive_chain_code(&public_key, &config.parties);
    let key_share = KeyShare {
        party_id: config.party_id,
        n_parties: config.n_parties,
        threshold: config.threshold,
        secret_share: secret,
        public_key,
        public_shares,
        chain_code,
    };
    Ok(key_share)
}

} // verus!
