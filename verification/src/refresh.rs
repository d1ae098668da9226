//! Proactive key refresh: structurally the three rounds of key generation,
//! but every party's polynomial has constant term zero, so the joint public
//! key is unchanged while every secret share is re-randomised.
//!
//! Each peer's first commitment must be the identity encoding — the
//! commitment to the zero constant term — and any other value fails
//! verification, so an accepting refresh cannot move the public key. On any
//! failure the prior share is kept and no partial state is produced.
use vstd::prelude::*;

use crate::encoding::vec_to_arr32;
use crate::error::Error;
use crate::keygen::{
    all_commitments_valid, byte_views, generate_masking_polynomial, party_share_point,
    poly_eval, round1_well_indexed, round2_well_indexed, scalar_seq_vals, share_matches,
    shares_sum, verify_share, compute_public_shares, evaluate_polynomial, DkgRound1Message,
    DkgRound2Message,
};
use crate::point::{point_add, point_valid, pt_add};
use crate::scalar::{be_val, group_order, scalar_add, scalar_reduce, scalar_valid};
use crate::types::{KeyShare, SessionConfig};

verus! {

/// Whether finishing a refresh accepts the gathered messages: the same
/// shape and share checks as key generation, and additionally every
/// sender's first commitment is the identity encoding, the commitment to a
/// zero constant term.
pub open spec fn refresh_inputs_accepted(
    config: SessionConfig,
    all: Seq<DkgRound1Message>,
    rcv: Seq<DkgRound2Message>,
) -> bool {
    &&& round1_well_indexed(all, config.n_parties as nat)
    &&& round2_well_indexed(rcv, config.n_parties as nat, config.party_id as nat)
    &&& all_commitments_valid(all)
    &&& forall|i: int|
        0 <= i < rcv.len() ==> share_matches(
            #[trigger] rcv[i],
            byte_views(all[rcv[i].from as int].commitments@),
            (config.party_id + 1) as nat,
        )
    &&& forall|j: int|
        0 <= j < all.len() ==> (#[trigger] all[j]).commitments@.len() > 0
            && all[j].commitments@[0]@ == seq![0u8]
}

/// Round one of key refresh: samples this party's masking polynomial, whose
/// constant term is zero, and packs the commitment broadcast.
pub fn refresh_round1(config: &SessionConfig) -> (r: (Vec<[u8; 32]>, DkgRound1Message))
    requires
        config.wf(),
    ensures
        r.0@.len() == config.threshold,
        forall|i: int| 0 <= i < r.0@.len() ==> scalar_valid(#[trigger] r.0@[i]@),
        be_val(r.0@[0]@) == 0,
        r.1.party_id == config.party_id,
        r.1.commitments@.len() == config.threshold,
        r.1.commitments@[0]@ == seq![0u8],
{
    let (coefficients, commitments) = generate_masking_polynomial(config);
    let msg = DkgRound1Message { party_id: config.party_id, commitments };
    (coefficients, msg)
}

/// Round three of key refresh: verifies every received masking share, then
/// rotates the secret share and re-randomises the public shares.
///
/// The new secret share is the old one plus this party's own masking
/// evaluation plus the sum of the received masking shares. The public key
/// is byte-identical to the old one. Each public share moves by the masking
/// commitments evaluated at that party's Shamir point. The chain code and
/// the configuration fields are kept.
pub fn refresh_finish(
    config: &SessionConfig,
    old_share: &KeyShare,
    coefficients: &Vec<[u8; 32]>,
    all_commitments: &Vec<DkgRound1Message>,
    received: &Vec<DkgRound2Message>,
) -> (r: Result<KeyShare, Error>)
    requires
        config.wf(),
        forall|i: int| 0 <= i < config.parties@.len() ==> (#[trigger] config.parties@[i]) == i,
        old_share.wf(),
        old_share.party_id == config.party_id,
        old_share.n_parties == config.n_parties,
        old_share.threshold == config.threshold,
        coefficients@.len() == config.threshold,
        forall|i: int| 0 <= i < coefficients@.len() ==> scalar_valid(#[trigger] coefficients@[i]@),
    ensures
        (r is Ok) == refresh_inputs_accepted(*config, all_commitments@, received@),
        r matches Ok(ks) ==> {
            &&& ks.wf()
            &&& ks.party_id == old_share.party_id
            &&& ks.n_parties == old_share.n_parties
            &&& ks.threshold == old_share.threshold
            &&& ks.public_key@ == old_share.public_key@
            &&& ks.chain_code@ == old_share.chain_code@
            &&& be_val(ks.secret_share@) == shares_sum(
                received@,
                (be_val(old_share.secret_share@) + poly_eval(
                    scalar_seq_vals(coefficients@),
                    (config.party_id + 1) as nat,
                )) % group_order(),
            )
            &&& ks.public_shares@.len() == old_share.public_shares@.len()
            &&& forall|p: int|
                0 <= p < ks.public_shares@.len() ==> (#[trigger] ks.public_shares@[p]@) == pt_add(
                    old_share.public_shares@[p]@,
                    party_share_point(all_commitments@, (p + 1) as nat),
                )
        },
        r matches Err(e) ==> (e == Error::Deserialization || e matches Error::VerificationFailed(_)
            || e == Error::Crypto),
        r == Result::<KeyShare, Error>::Err(Error::Deserialization) ==> (!(round1_well_indexed(
            all_commitments@,
            config.n_parties as nat,
        ) && round2_well_indexed(received@, config.n_parties as nat, config.party_id as nat))
            || exists|i: int|
            0 <= i < received@.len() && (#[trigger] received@[i].share@).len() != 32),
        r matches Err(Error::VerificationFailed(p)) ==> p < config.n_parties,
{
    let n = config.n_parties;
    if all_commitments.len() != n {
        return Err(Error::Deserialization);
    }
    let mut i: usize = 0;
    while i < n
        invariant
            i <= n,
            n == config.n_parties,
            all_commitments@.len() == n,
            forall|k: int| 0 <= k < i ==> (#[trigger] all_commitments@[k].party_id) == k,
            forall|k: int|
                0 <= k < i ==> (#[trigger] all_commitments@[k]).commitments@.len() > 0
                    && all_commitments@[k].commitments@[0]@ == seq![0u8],
        decreases n - i,
    {
        if all_commitments[i].party_id != i {
            return Err(Error::Deserialization);
        }
        if all_commitments[i].commitments.len() == 0 {
            return Err(Error::VerificationFailed(i));
        }
        let first = &all_commitments[i].commitments[0];
        if first.len() != 1 {
            return Err(Error::VerificationFailed(i));
        }
        if first[0] != 0 {
            proof {
                assert(all_commitments@[i as int].commitments@[0]@ != seq![0u8]);
            }
            return Err(Error::VerificationFailed(i));
        }
        proof {
            assert(all_commitments@[i as int].commitments@[0]@ =~= seq![0u8]);
        }
        i += 1;
    }
    if received.len() != n - 1 {
        return Err(Error::Deserialization);
    }
    let mut i: usize = 0;
    while i < received.len()
        invariant
            i <= received@.len(),
            received@.len() == n - 1,
            n == config.n_parties,
            config.wf(),
            forall|k: int|
                0 <= k < i ==> (#[trigger] received@[k].from) == if k < config.party_id {
                    k as nat
                } else {
                    (k + 1) as nat
                },
        decreases received@.len() - i,
    {
        let expected_from = if i < config.party_id {
            i
        } else {
            i + 1
        };
        if received[i].from != expected_from {
            return Err(Error::Deserialization);
        }
        i += 1;
    }
    proof {
        let k = choose|k: int|
            0 <= k < config.parties@.len() && config.parties@[k] == config.party_id;
        assert(config.parties@[k] == k);
        assert(config.party_id < n);
    }
    let mut i: usize = 0;
    while i < received.len()
        invariant
            i <= received@.len(),
            received@.len() == n - 1,
            n == config.n_parties,
            config.wf(),
            config.party_id < n,
            all_commitments@.len() == n,
            round2_well_indexed(received@, n as nat, config.party_id as nat),
            forall|k: int|
                0 <= k < i ==> share_matches(
                    #[trigger] received@[k],
                    byte_views(all_commitments@[received@[k].from as int].commitments@),
                    (config.party_id + 1) as nat,
                ),
            forall|k: int, c: int|
                0 <= k < i && 0 <= c
                    < all_commitments@[received@[k].from as int].commitments@.len()
                    ==> point_valid(
                    #[trigger] all_commitments@[received@[k].from as int].commitments@[c]@,
                ),
        decreases received@.len() - i,
    {
        let msg = &received[i];
        proof {
            assert(received@[i as int].from < n);
        }
        match verify_share(msg, &all_commitments[msg.from].commitments, config.party_id) {
            Ok(()) => {},
            Err(e) => {
                proof {
                    assert(!refresh_inputs_accepted(*config, all_commitments@, received@));
                }
                return Err(e);
            },
        }
        i += 1;
    }
    let deltas = match compute_public_shares(all_commitments, n) {
        Ok(v) => v,
        Err(e) => {
            proof {
                assert(!refresh_inputs_accepted(*config, all_commitments@, received@));
            }
            return Err(e);
        },
    };
    let mut new_shares: Vec<Vec<u8>> = Vec::new();
    let mut p: usize = 0;
    while p < n
        invariant
            p <= n,
            n == config.n_parties,
            old_share.wf(),
            old_share.n_parties == n,
            deltas@.len() == n,
            forall|q: int|
                0 <= q < n ==> (#[trigger] deltas@[q]@) == party_share_point(
                    all_commitments@,
                    (q + 1) as nat,
                ) && point_valid(deltas@[q]@),
            new_shares@.len() == p,
            forall|q: int|
                0 <= q < p ==> (#[trigger] new_shares@[q]@) == pt_add(
                    old_share.public_shares@[q]@,
                    party_share_point(all_commitments@, (q + 1) as nat),
                ) && point_valid(new_shares@[q]@),
        decreases n - p,
    {
        let moved = match point_add(&old_share.public_shares[p], &deltas[p]) {
            Some(v) => v,
            None => {
                return Err(Error::Crypto);
            },
        };
        new_shares.push(moved);
        p += 1;
    }
    let own_eval = evaluate_polynomial(coefficients, (config.party_id as u64) + 1);
    let mut secret = scalar_add(&old_share.secret_share, &own_eval);
    let ghost init = (be_val(old_share.secret_share@) + poly_eval(
        scalar_seq_vals(coefficients@),
        (config.party_id + 1) as nat,
    )) % group_order();
    let mut i: usize = 0;
    proof {
        assert(received@.take(0) =~= Seq::<DkgRound2Message>::empty());
    }
    while i < received.len()
        invariant
            i <= received@.len(),
            scalar_valid(secret@),
            be_val(secret@) == shares_sum(received@.take(i as int), init),
            forall|k: int|
                0 <= k < received@.len() ==> (#[trigger] received@[k].share@).len() == 32,
        decreases received@.len() - i,
    {
        let arr = match vec_to_arr32(&received[i].share) {
            Some(a) => a,
            None => {
                return Err(Error::Deserialization);
            },
        };
        let reduced = scalar_reduce(&arr);
        let new_secret = scalar_add(&secret, &reduced);
        proof {
            assert(received@.take(i + 1).drop_last() =~= received@.take(i as int));
            assert(received@.take(i + 1).last() == received@[i as int]);
        }
        secret = new_secret;
        i += 1;
    }
    proof {
        assert(received@.take(received@.len() as int) =~= received@);
    }
    let mut public_key: Vec<u8> = Vec::new();
    public_key.extend_from_slice(old_share.public_key.as_slice());
    proof {
        assert(public_key@ =~= old_share.public_key@);
    }
    let key_share = KeyShare {
        party_id: config.party_id,
        n_parties: config.n_parties,
        threshold: config.threshold,
        secret_share: secret,
        public_key,
        public_shares: new_shares,
        chain_code: old_share.chain_code,
    };
    Ok(key_share)
}

} // verus!
