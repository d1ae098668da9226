//! End-to-end protocol runs: key generation, refresh, signing, and
//! derivation, with every party driven in-process and messages handed over
//! by hand.
use dkls23::derive::derive_public_only;
use dkls23::error::Error;
use dkls23::keygen::{dkg_finish, dkg_round1, dkg_round2_shares, DkgRound1Message,
    DkgRound2Message};
use dkls23::refresh::{refresh_finish, refresh_round1};
use dkls23::sign::{combine_partial_signatures, create_partial_signature, dsg_collect_alphas,
    dsg_delta_share, dsg_ecdh_secrets, dsg_mta_requests, dsg_mta_respond, dsg_presignature,
    dsg_round1, signing_config, DsgMtaRequest, DsgMtaResponse, DsgRound2Message,
    PartialSignature};
use dkls23::types::{KeyShare, SessionConfig, Signature};
use k256::ecdsa::signature::hazmat::PrehashVerifier;

fn run_dkg_all(n: usize, t: usize) -> Vec<KeyShare> {
    let configs: Vec<SessionConfig> =
        (0..n).map(|p| SessionConfig::new(n, t, p).unwrap()).collect();
    let mut coeffs = Vec::new();
    let mut round1: Vec<DkgRound1Message> = Vec::new();
    for p in 0..n {
        let (c, m) = dkg_round1(&configs[p]);
        coeffs.push(c);
        round1.push(m);
    }
    let outgoing: Vec<Vec<DkgRound2Message>> =
        (0..n).map(|p| dkg_round2_shares(&configs[p], &coeffs[p])).collect();
    let mut shares = Vec::new();
    for p in 0..n {
        let mut received: Vec<DkgRound2Message> = Vec::new();
        for q in 0..n {
            if q == p {
                continue;
            }
            let msg = outgoing[q].iter().find(|m| m.to == p).unwrap().clone();
            received.push(msg);
        }
        let ks = dkg_finish(&configs[p], &coeffs[p], &round1, &received).unwrap();
        shares.push(ks);
    }
    shares
}

fn sign_all(shares: &[KeyShare], signers: &[usize], message: &[u8; 32]) -> Signature {
    let n = signers.len();
    let session_id = [7u8; 32];
    let parties: Vec<usize> = signers.to_vec();
    let configs: Vec<SessionConfig> = signers
        .iter()
        .map(|&s| SessionConfig {
            session_id,
            n_parties: n,
            threshold: shares[s].threshold,
            party_id: s,
            parties: parties.clone(),
        })
        .collect();

    let mut states = Vec::new();
    let mut round1 = Vec::new();
    for (i, &s) in signers.iter().enumerate() {
        let (st, m) = dsg_round1(&shares[s], &configs[i]);
        states.push(st);
        round1.push(m);
    }

    let secrets: Vec<Vec<[u8; 32]>> = (0..n)
        .map(|i| dsg_ecdh_secrets(&states[i].enc_secret, &configs[i], &round1).unwrap())
        .collect();

    let requests: Vec<Vec<DsgMtaRequest>> =
        (0..n).map(|i| dsg_mta_requests(&configs[i], &states[i], &secrets[i])).collect();

    // Deliver requests: responder i gets one request per other signer, in
    // set order with its own position skipped.
    let mut betas = Vec::new();
    let mut responses: Vec<Vec<DsgMtaResponse>> = Vec::new();
    for i in 0..n {
        let me = signers[i];
        let mut inbound = Vec::new();
        for j in 0..n {
            if j == i {
                continue;
            }
            let req = requests[j].iter().find(|r| r.to == me).unwrap().clone();
            inbound.push(req);
        }
        let (b, resp) = dsg_mta_respond(&configs[i], &states[i], &secrets[i], &inbound).unwrap();
        betas.push(b);
        responses.push(resp);
    }

    let mut round2: Vec<DsgRound2Message> = Vec::new();
    let mut nus = Vec::new();
    for i in 0..n {
        let me = signers[i];
        let mut inbound = Vec::new();
        for j in 0..n {
            if j == i {
                continue;
            }
            let resp = responses[j].iter().find(|r| r.to == me).unwrap().clone();
            inbound.push(resp);
        }
        let alphas = dsg_collect_alphas(&configs[i], &secrets[i], &inbound).unwrap();
        let (delta, nu) = dsg_delta_share(&states[i], &alphas, &betas[i]);
        round2.push(DsgRound2Message { party_id: me, delta_share: delta.to_vec() });
        nus.push(nu);
    }

    let mut partials: Vec<PartialSignature> = Vec::new();
    let mut pre_sig0 = None;
    for i in 0..n {
        let me = signers[i];
        let mut ps =
            dsg_presignature(&configs[i], &states[i], &nus[i], &round1, &round2).unwrap();
        let partial = create_partial_signature(&shares[me], &mut ps, message).unwrap();
        assert!(ps.consumed);
        partials.push(partial);
        if i == 0 {
            pre_sig0 = Some(ps);
        }
    }

    let pk = shares[signers[0]].public_key.clone();
    combine_partial_signatures(&pre_sig0.unwrap(), &partials, message, &pk).unwrap()
}

fn verify_with_stock_ecdsa(public_key: &[u8], message: &[u8; 32], sig: &Signature) -> bool {
    let key = k256::ecdsa::VerifyingKey::from_sec1_bytes(public_key).unwrap();
    let signature = k256::ecdsa::Signature::from_scalars(
        k256::FieldBytes::from(sig.r),
        k256::FieldBytes::from(sig.s),
    )
    .unwrap();
    key.verify_prehash(message, &signature).is_ok()
}

#[test]
fn dkg_parties_agree_on_public_material() {
    let shares = run_dkg_all(3, 2);
    for p in 1..3 {
        assert_eq!(shares[0].public_key, shares[p].public_key);
        assert_eq!(shares[0].chain_code, shares[p].chain_code);
        assert_eq!(shares[0].public_shares, shares[p].public_shares);
    }
    assert_eq!(shares[0].public_key.len(), 33);
    assert_eq!(shares[0].public_shares.len(), 3);
}

#[test]
fn two_of_three_sign() {
    let shares = run_dkg_all(3, 2);
    let message = [0u8; 32];
    let sig = sign_all(&shares, &[0, 1], &message);
    assert!(verify_with_stock_ecdsa(&shares[0].public_key, &message, &sig));
}

#[test]
fn full_quorum_sign_low_s() {
    let shares = run_dkg_all(3, 2);
    let message = [0x11u8; 32];
    let sig = sign_all(&shares, &[0, 1, 2], &message);
    assert!(verify_with_stock_ecdsa(&shares[0].public_key, &message, &sig));
    let s_scalar = <k256::Scalar as k256::elliptic_curve::ops::Reduce<
        k256::elliptic_curve::bigint::U256,
    >>::reduce_bytes(&sig.s.into());
    assert!(!bool::from(k256::elliptic_curve::scalar::IsHigh::is_high(&s_scalar)));
}

#[test]
fn bad_share_is_caught() {
    let n = 3;
    let t = 2;
    let configs: Vec<SessionConfig> =
        (0..n).map(|p| SessionConfig::new(n, t, p).unwrap()).collect();
    let mut coeffs = Vec::new();
    let mut round1 = Vec::new();
    for p in 0..n {
        let (c, m) = dkg_round1(&configs[p]);
        coeffs.push(c);
        round1.push(m);
    }
    let outgoing: Vec<Vec<DkgRound2Message>> =
        (0..n).map(|p| dkg_round2_shares(&configs[p], &coeffs[p])).collect();
    // Party 1 replaces its share to party 0 with a random scalar.
    let mut received0 = Vec::new();
    for q in 1..n {
        let mut msg = outgoing[q].iter().find(|m| m.to == 0).unwrap().clone();
        if q == 1 {
            msg.share = rand::random::<[u8; 32]>().to_vec();
        }
        received0.push(msg);
    }
    let result = dkg_finish(&configs[0], &coeffs[0], &round1, &received0);
    assert!(matches!(result, Err(Error::VerificationFailed(1))));
}

#[test]
fn refresh_keeps_public_key_and_rotates_shares() {
    let n = 3;
    let t = 2;
    let shares = run_dkg_all(n, t);
    let configs: Vec<SessionConfig> =
        (0..n).map(|p| SessionConfig::new(n, t, p).unwrap()).collect();
    let mut coeffs = Vec::new();
    let mut round1 = Vec::new();
    for p in 0..n {
        let (c, m) = refresh_round1(&configs[p]);
        coeffs.push(c);
        round1.push(m);
    }
    let outgoing: Vec<Vec<DkgRound2Message>> =
        (0..n).map(|p| dkg_round2_shares(&configs[p], &coeffs[p])).collect();
    let mut refreshed = Vec::new();
    for p in 0..n {
        let mut received = Vec::new();
        for q in 0..n {
            if q == p {
                continue;
            }
            received.push(outgoing[q].iter().find(|m| m.to == p).unwrap().clone());
        }
        let ks =
            refresh_finish(&configs[p], &shares[p], &coeffs[p], &round1, &received).unwrap();
        refreshed.push(ks);
    }
    for p in 0..n {
        assert_eq!(refreshed[p].public_key, shares[p].public_key);
        assert_eq!(refreshed[p].chain_code, shares[p].chain_code);
        assert_ne!(refreshed[p].secret_share, shares[p].secret_share);
    }
    // The refreshed shares still produce a signature that verifies under
    // the unchanged public key.
    let message = [0x22u8; 32];
    let sig = sign_all(&refreshed, &[0, 2], &message);
    assert!(verify_with_stock_ecdsa(&shares[0].public_key, &message, &sig));
}

#[test]
fn derivation_then_sign() {
    let shares = run_dkg_all(3, 2);
    let path = "m/0/1/42";
    let derived: Vec<KeyShare> =
        (0..3).map(|p| shares[p].derive_child(path).unwrap()).collect();
    // Public-only derivation lands on the same public key and chain code.
    let (pk_only, cc_only) =
        derive_public_only(&shares[0].public_key, &shares[0].chain_code, path).unwrap();
    for p in 0..3 {
        assert_eq!(derived[p].public_key, pk_only);
        assert_eq!(derived[p].chain_code, cc_only);
        assert_ne!(derived[p].public_key, shares[p].public_key);
    }
    // Signing with the derived shares verifies under the derived key.
    let message = *blake3::hash(b"hello").as_bytes();
    let sig = sign_all(&derived, &[1, 2], &message);
    assert!(verify_with_stock_ecdsa(&pk_only, &message, &sig));
}

#[test]
fn signing_config_guards() {
    let shares = run_dkg_all(3, 2);
    let err = signing_config(&shares[0], &vec![0]).unwrap_err();
    assert!(matches!(err, Error::ThresholdNotMet { required: 2, actual: 1 }));
    let err = signing_config(&shares[0], &vec![1, 2]).unwrap_err();
    assert!(matches!(err, Error::InvalidPartyId(0)));
    let err = signing_config(&shares[0], &vec![0, 1, 7]).unwrap_err();
    assert!(matches!(err, Error::InvalidPartyId(7)));
    let err = signing_config(&shares[0], &vec![0, 1, 1]).unwrap_err();
    assert!(matches!(err, Error::InvalidConfig));
    let cfg = signing_config(&shares[0], &vec![0, 2]).unwrap();
    assert_eq!(cfg.n_parties, 2);
    assert_eq!(cfg.threshold, 2);
    assert_eq!(cfg.party_id, 0);
}
