//! Non-hardened child key derivation over threshold shares: each index
//! derives a tweak from the chain code and public key by HMAC-SHA512, every
//! party adds the tweak to its secret share locally, and the public
//! material moves by the tweak times the generator, so the sum of tweaked
//! shares still reconstructs the tweaked key. Hardened indices need the
//! parent secret itself and are rejected. Derivation is purely local.
use vstd::prelude::*;

use crate::encoding::{be32_of, dec_chars_of, hmac_sha512, hmac_sha512_of, u32_to_be_bytes,
    u64_to_dec};
use crate::error::Error;
use crate::point::{gen_mul, generator_mul, point_add, point_valid, pt_add};
use crate::scalar::{be_val, group_order, scalar_add, scalar_reduce, scalar_valid};
use crate::types::KeyShare;
use vstd::string::StrSliceExecFns;

verus! {

/// The canonical rendering of a derivation path: `m`, then each index in
/// decimal behind a slash.
pub open spec fn render_path_chars(idxs: Seq<u32>) -> Seq<char>
    decreases idxs.len(),
{
    if idxs.len() == 0 {
        seq!['m']
    } else {
        render_path_chars(idxs.drop_last()) + seq!['/'] + dec_chars_of(idxs.last() as nat)
    }
}

/// Parses a derivation path of non-hardened indices in canonical decimal.
/// Anything else — a missing `m`, an empty or padded index, a hardened
/// marker, an index of 2^31 or beyond — is a derivation fault.
pub fn parse_path(path: &str) -> (r: Result<Vec<u32>, Error>)
    ensures
        r matches Ok(v) ==> path@ == render_path_chars(v@) && forall|i: int|
            0 <= i < v@.len() ==> (#[trigger] v@[i]) < 0x80000000,
        r matches Err(e) ==> e == Error::Derivation,
{
    let n = path.unicode_len();
    if n == 0 || n > 4096 {
        return Err(Error::Derivation);
    }
    if path.get_char(0) != 'm' {
        return Err(Error::Derivation);
    }
    let mut idxs: Vec<u32> = Vec::new();
    let mut pos: usize = 1;
    proof {
        assert(path@.subrange(0, 1) =~= render_path_chars(idxs@));
    }
    while pos < n
        invariant
            1 <= pos <= n,
            n == path@.len(),
            n <= 4096,
            path@.subrange(0, pos as int) == render_path_chars(idxs@),
            forall|i: int| 0 <= i < idxs@.len() ==> (#[trigger] idxs@[i]) < 0x80000000,
        decreases n - pos,
    {
        if path.get_char(pos) != '/' {
            return Err(Error::Derivation);
        }
        let slash_pos = pos;
        pos += 1;
        let seg_start = pos;
        let mut scanning = true;
        while scanning && pos < n
            invariant
                seg_start <= pos <= n,
                n == path@.len(),
            decreases n - pos, (if scanning { 1int } else { 0int }),
        {
            let u = path.get_char(pos) as u32;
            if 48 <= u && u <= 57 {
                pos += 1;
            } else {
                scanning = false;
            }
        }
        if pos == seg_start {
            return Err(Error::Derivation);
        }
        let mut val: u64 = 0;
        let mut sp = seg_start;
        while sp < pos
            invariant
                seg_start <= sp <= pos <= n,
                n == path@.len(),
                val < 0x80000000,
            decreases pos - sp,
        {
            let u = path.get_char(sp) as u32;
            if u < 48 || u > 57 {
                return Err(Error::Derivation);
            }
            val = val * 10 + ((u - 48) as u64);
            if val >= 0x80000000 {
                return Err(Error::Derivation);
            }
            sp += 1;
        }
        let rendered = u64_to_dec(val);
        let rlen = rendered.unicode_len();
        if rlen != pos - seg_start {
            return Err(Error::Derivation);
        }
        let mut t: usize = 0;
        while t < rlen
            invariant
                t <= rlen,
                rlen == rendered@.len(),
                n == path@.len(),
                seg_start + rlen == pos <= n,
                forall|q: int| 0 <= q < t ==> rendered@[q] == path@[seg_start + q],
            decreases rlen - t,
        {
            if rendered.get_char(t) != path.get_char(seg_start + t) {
                return Err(Error::Derivation);
            }
            t += 1;
        }
        let ghost prior = idxs@;
        idxs.push(val as u32);
        proof {
            assert(rendered@ =~= path@.subrange(seg_start as int, pos as int));
            assert(idxs@.drop_last() =~= prior);
            assert(idxs@.last() == val as u32);
            assert(dec_chars_of((val as u32) as nat) == rendered@);
            assert(path@.subrange(0, pos as int) =~= path@.subrange(0, slash_pos as int) + seq![
                '/',
            ] + path@.subrange(seg_start as int, pos as int));
            assert(path@.subrange(0, pos as int) =~= render_path_chars(idxs@));
        }
    }
    proof {
        assert(path@.subrange(0, n as int) =~= path@);
    }
    Ok(idxs)
}

/// The tweak of one derivation step: the first half of
/// HMAC-SHA512(chain code, public key and the index big-endian), read as a
/// scalar.
pub open spec fn tweak_of(pk: Seq<u8>, cc: Seq<u8>, idx: u32) -> nat {
    be_val(hmac_sha512_of(cc, pk + be32_of(idx)).subrange(0, 32)) % group_order()
}

/// The chain code after one derivation step: the second half of the same
/// authenticator.
pub open spec fn step_cc(pk: Seq<u8>, cc: Seq<u8>, idx: u32) -> Seq<u8> {
    hmac_sha512_of(cc, pk + be32_of(idx)).subrange(32, 64)
}

/// The public key after deriving along a path: each step adds the tweak
/// times the generator.
pub open spec fn derived_pk(pk: Seq<u8>, cc: Seq<u8>, idxs: Seq<u32>) -> Seq<u8>
    decreases idxs.len(),
{
    if idxs.len() == 0 {
        pk
    } else {
        derived_pk(
            pt_add(pk, gen_mul(tweak_of(pk, cc, idxs[0]))),
            step_cc(pk, cc, idxs[0]),
            idxs.drop_first(),
        )
    }
}

/// The chain code after deriving along a path.
pub open spec fn derived_cc(pk: Seq<u8>, cc: Seq<u8>, idxs: Seq<u32>) -> Seq<u8>
    decreases idxs.len(),
{
    if idxs.len() == 0 {
        cc
    } else {
        derived_cc(
            pt_add(pk, gen_mul(tweak_of(pk, cc, idxs[0]))),
            step_cc(pk, cc, idxs[0]),
            idxs.drop_first(),
        )
    }
}

/// The secret share after deriving along a path: each step adds the tweak,
/// modulo the group order.
pub open spec fn derived_secret(secret: nat, pk: Seq<u8>, cc: Seq<u8>, idxs: Seq<u32>) -> nat
    decreases idxs.len(),
{
    if idxs.len() == 0 {
        secret
    } else {
        derived_secret(
            (secret + tweak_of(pk, cc, idxs[0])) % group_order(),
            pt_add(pk, gen_mul(tweak_of(pk, cc, idxs[0]))),
            step_cc(pk, cc, idxs[0]),
            idxs.drop_first(),
        )
    }
}

/// A public share after deriving along a path: each step adds the joint
/// tweak times the generator, the tweak being driven by the joint public
/// key and chain code.
pub open spec fn derived_share(sh: Seq<u8>, pk: Seq<u8>, cc: Seq<u8>, idxs: Seq<u32>) -> Seq<u8>
    decreases idxs.len(),
{
    if idxs.len() == 0 {
        sh
    } else {
        derived_share(
            pt_add(sh, gen_mul(tweak_of(pk, cc, idxs[0]))),
            pt_add(pk, gen_mul(tweak_of(pk, cc, idxs[0]))),
            step_cc(pk, cc, idxs[0]),
            idxs.drop_first(),
        )
    }
}

/// Whether every derivation step along the path lands on an ordinary
/// point: each step's sum of the parent key and the tweak point re-encodes
/// in the 33 compressed bytes a well-formed key share requires. This is the
/// exact success condition of derivation over a parsed index list.
pub open spec fn derive_steps_ok(pk: Seq<u8>, cc: Seq<u8>, idxs: Seq<u32>) -> bool
    decreases idxs.len(),
{
    if idxs.len() == 0 {
        true
    } else {
        let next = pt_add(pk, gen_mul(tweak_of(pk, cc, idxs[0])));
        next.len() == 33 && derive_steps_ok(next, step_cc(pk, cc, idxs[0]), idxs.drop_first())
    }
}

/// One derivation step: the tweak scalar and the next chain code from the
/// parent public key and chain code.
fn derive_step(public_key: &Vec<u8>, chain_code: &[u8; 32], index: u32) -> (r: ([u8; 32], [u8; 32]))
    ensures
        scalar_valid(r.0@),
        be_val(r.0@) == tweak_of(public_key@, chain_code@, index),
        r.1@ == step_cc(public_key@, chain_code@, index),
{
    let mut data: Vec<u8> = Vec::new();
    data.extend_from_slice(public_key.as_slice());
    let idx_bytes = u32_to_be_bytes(index);
    data.extend_from_slice(idx_bytes.as_slice());
    proof {
        assert(data@ =~= public_key@ + be32_of(index));
    }
    let digest = hmac_sha512(chain_code.as_slice(), data.as_slice());
    let mut left = [0u8; 32];
    let mut right = [0u8; 32];
    let mut i: usize = 0;
    while i < 32
        invariant
            i <= 32,
            digest@.len() == 64,
            left@.len() == 32,
            right@.len() == 32,
            forall|j: int| 0 <= j < i ==> left@[j] == digest@[j],
            forall|j: int| 0 <= j < i ==> right@[j] == digest@[32 + j],
        decreases 32 - i,
    {
        left[i] = digest[i];
        right[i] = digest[32 + i];
        i += 1;
    }
    proof {
        assert(left@ =~= digest@.subrange(0, 32));
        assert(right@ =~= digest@.subrange(32, 64));
    }
    let tweak = scalar_reduce(&left);
    (tweak, right)
}

impl KeyShare {
    /// Derives the child key share along a path of non-hardened indices
    /// given as text. Every field moves together: the secret share by the
    /// tweaks, the public key and every public share by the tweaks times
    /// the generator, and the chain code along the authenticator chain, so
    /// the parties' derived shares still reconstruct the derived key.
    pub fn derive_child(&self, path: &str) -> (r: Result<KeyShare, Error>)
        requires
            self.wf(),
        ensures
            r matches Ok(ks) ==> exists|idxs: Seq<u32>|
                #[trigger] render_path_chars(idxs) == path@ && {
                    &&& derive_steps_ok(self.public_key@, self.chain_code@, idxs)
                    &&& ks.wf()
                    &&& ks.party_id == self.party_id
                    &&& ks.n_parties == self.n_parties
                    &&& ks.threshold == self.threshold
                    &&& be_val(ks.secret_share@) == derived_secret(
                        be_val(self.secret_share@),
                        self.public_key@,
                        self.chain_code@,
                        idxs,
                    )
                    &&& ks.public_key@ == derived_pk(self.public_key@, self.chain_code@, idxs)
                    &&& ks.chain_code@ == derived_cc(self.public_key@, self.chain_code@, idxs)
                    &&& ks.public_shares@.len() == self.public_shares@.len()
                    &&& forall|p: int|
                        0 <= p < ks.public_shares@.len() ==> (#[trigger] ks.public_shares@[p]@)
                            == derived_share(
                            self.public_shares@[p]@,
                            self.public_key@,
                            self.chain_code@,
                            idxs,
                        )
                },
            r matches Err(e) ==> (e == Error::Derivation || e == Error::Crypto),
    {
        let idxs = match parse_path(path) {
            Ok(v) => v,
            Err(e) => {
                return Err(e);
            },
        };
        let child = self.derive_child_indices(&idxs)?;
        proof {
            assert(render_path_chars(idxs@) == path@);
        }
        Ok(child)
    }

    /// Derives the child key share along a path of non-hardened indices.
    pub fn derive_child_indices(&self, idxs: &Vec<u32>) -> (r: Result<KeyShare, Error>)
        requires
            self.wf(),
        ensures
            (r is Ok) == derive_steps_ok(self.public_key@, self.chain_code@, idxs@),
            r matches Ok(ks) ==> {
                &&& ks.wf()
                &&& ks.party_id == self.party_id
                &&& ks.n_parties == self.n_parties
                &&& ks.threshold == self.threshold
                &&& be_val(ks.secret_share@) == derived_secret(
                    be_val(self.secret_share@),
                    self.public_key@,
                    self.chain_code@,
                    idxs@,
                )
                &&& ks.public_key@ == derived_pk(self.public_key@, self.chain_code@, idxs@)
                &&& ks.chain_code@ == derived_cc(self.public_key@, self.chain_code@, idxs@)
                &&& ks.public_shares@.len() == self.public_shares@.len()
                &&& forall|p: int|
                    0 <= p < ks.public_shares@.len() ==> (#[trigger] ks.public_shares@[p]@)
                        == derived_share(
                        self.public_shares@[p]@,
                        self.public_key@,
                        self.chain_code@,
                        idxs@,
                    )
            },
            r matches Err(e) ==> e == Error::Crypto,
    {
        let ghost pk0 = self.public_key@;
        let ghost cc0 = self.chain_code@;
        let ghost s0 = be_val(self.secret_share@);
        let mut secret = self.secret_share;
        let mut public_key: Vec<u8> = Vec::new();
        public_key.extend_from_slice(self.public_key.as_slice());
        let mut chain_code = self.chain_code;
        let mut shares: Vec<Vec<u8>> = Vec::new();
        let n_shares = self.public_shares.len();
        let mut p: usize = 0;
        while p < n_shares
            invariant
                p <= n_shares,
                self.public_shares@.len() == n_shares,
                shares@.len() == p,
                forall|q: int| 0 <= q < p ==> (#[trigger] shares@[q]@) == self.public_shares@[q]@,
                forall|q: int| 0 <= q < p ==> point_valid(#[trigger] shares@[q]@),
                self.wf(),
            decreases n_shares - p,
        {
            let mut sh: Vec<u8> = Vec::new();
            sh.extend_from_slice(self.public_shares[p].as_slice());
            proof {
                assert(sh@ =~= self.public_shares@[p as int]@);
            }
            shares.push(sh);
            p += 1;
        }
        proof {
            assert(public_key@ =~= pk0);
            assert(idxs@.skip(0) =~= idxs@);
        }
        let mut i: usize = 0;
        while i < idxs.len()
            invariant
                i <= idxs@.len(),
                self.wf(),
                pk0 == self.public_key@,
                cc0 == self.chain_code@,
                s0 == be_val(self.secret_share@),
                scalar_valid(secret@),
                point_valid(public_key@),
                public_key@.len() == 33,
                shares@.len() == self.public_shares@.len(),
                forall|q: int| 0 <= q < shares@.len() ==> point_valid(#[trigger] shares@[q]@),
                derived_secret(s0, pk0, cc0, idxs@) == derived_secret(
                    be_val(secret@),
                    public_key@,
                    chain_code@,
                    idxs@.skip(i as int),
                ),
                derived_pk(pk0, cc0, idxs@) == derived_pk(
                    public_key@,
                    chain_code@,
                    idxs@.skip(i as int),
                ),
                derived_cc(pk0, cc0, idxs@) == derived_cc(
                    public_key@,
                    chain_code@,
                    idxs@.skip(i as int),
                ),
                derive_steps_ok(pk0, cc0, idxs@) == derive_steps_ok(
                    public_key@,
                    chain_code@,
                    idxs@.skip(i as int),
                ),
                forall|q: int|
                    0 <= q < shares@.len() ==> derived_share(
                        self.public_shares@[q]@,
                        pk0,
                        cc0,
                        idxs@,
                    ) == derived_share(
                        (#[trigger] shares@[q]@),
                        public_key@,
                        chain_code@,
                        idxs@.skip(i as int),
                    ),
            decreases idxs@.len() - i,
        {
            let idx = idxs[i];
            let (tweak, next_cc) = derive_step(&public_key, &chain_code, idx);
            let tweak_point = generator_mul(&tweak);
            let new_secret = scalar_add(&secret, &tweak);
            let new_pk = match point_add(&public_key, &tweak_point) {
                Some(v) => v,
                None => {
                    return Err(Error::Crypto);
                },
            };
            proof {
                assert(idxs@.skip(i as int)[0] == idxs@[i as int]);
                assert(idxs@.skip(i as int).drop_first() =~= idxs@.skip(i + 1));
                assert(new_pk@ == pt_add(
                    public_key@,
                    gen_mul(tweak_of(public_key@, chain_code@, idxs@[i as int])),
                ));
            }
            if new_pk.len() != 33 {
                proof {
                    assert(!derive_steps_ok(public_key@, chain_code@, idxs@.skip(i as int)));
                }
                return Err(Error::Crypto);
            }
            let mut new_shares: Vec<Vec<u8>> = Vec::new();
            let mut q: usize = 0;
            while q < shares.len()
                invariant
                    q <= shares@.len(),
                    new_shares@.len() == q,
                    forall|z: int| 0 <= z < shares@.len() ==> point_valid(#[trigger] shares@[z]@),
                    scalar_valid(tweak@),
                    tweak_point@ == gen_mul(be_val(tweak@)),
                    point_valid(tweak_point@),
                    forall|z: int|
                        0 <= z < q ==> (#[trigger] new_shares@[z]@) == pt_add(
                            shares@[z]@,
                            gen_mul(be_val(tweak@)),
                        ) && point_valid(new_shares@[z]@),
                decreases shares@.len() - q,
            {
                let moved = match point_add(&shares[q], &tweak_point) {
                    Some(v) => v,
                    None => {
                        return Err(Error::Crypto);
                    },
                };
                new_shares.push(moved);
                q += 1;
            }
            proof {
                assert(idxs@.skip(i as int)[0] == idxs@[i as int]);
                assert(idxs@.skip(i as int).drop_first() =~= idxs@.skip(i + 1));
            }
            secret = new_secret;
            public_key = new_pk;
            chain_code = next_cc;
            shares = new_shares;
            i += 1;
        }
        proof {
            assert(idxs@.skip(idxs@.len() as int) =~= Seq::<u32>::empty());
        }
        let key_share = KeyShare {
            party_id: self.party_id,
            n_parties: self.n_parties,
            threshold: self.threshold,
            secret_share: secret,
            public_key,
            public_shares: shares,
            chain_code,
        };
        Ok(key_share)
    }
}

/// Derives only the public material along a path of non-hardened indices:
/// what a verifier without any share can compute from the public key and
/// chain code alone.
pub fn derive_public_only(public_key: &Vec<u8>, chain_code: &[u8; 32], path: &str) -> (r: Result<
    (Vec<u8>, [u8; 32]),
    Error,
>)
    ensures
        r matches Ok(v) ==> exists|idxs: Seq<u32>|
            #[trigger] render_path_chars(idxs) == path@ && v.0@ == derived_pk(
                public_key@,
                chain_code@,
                idxs,
            ) && v.1@ == derived_cc(public_key@, chain_code@, idxs) && derive_steps_ok(
                public_key@,
                chain_code@,
                idxs,
            ),
        r matches Err(e) ==> (e == Error::Derivation || e == Error::Crypto),
{
    let idxs = match parse_path(path) {
        Ok(v) => v,
        Err(e) => {
            return Err(e);
        },
    };
    let result = derive_public_only_indices(public_key, chain_code, &idxs)?;
    proof {
        assert(render_path_chars(idxs@) == path@);
    }
    Ok(result)
}

/// Derives only the public material along an index list. Succeeds exactly
/// when the parent key is a valid encoding and every step lands on an
/// ordinary 33-byte point.
pub fn derive_public_only_indices(
    public_key: &Vec<u8>,
    chain_code: &[u8; 32],
    idxs: &Vec<u32>,
) -> (r: Result<(Vec<u8>, [u8; 32]), Error>)
    ensures
        (r is Ok) == (point_valid(public_key@) && derive_steps_ok(
            public_key@,
            chain_code@,
            idxs@,
        )),
        r matches Ok(v) ==> v.0@ == derived_pk(public_key@, chain_code@, idxs@) && v.1@
            == derived_cc(public_key@, chain_code@, idxs@),
        r matches Err(e) ==> e == Error::Crypto,
{
    if !crate::point::point_check(public_key) {
        return Err(Error::Crypto);
    }
    let ghost pk0 = public_key@;
    let ghost cc0 = chain_code@;
    let mut pk: Vec<u8> = Vec::new();
    pk.extend_from_slice(public_key.as_slice());
    let mut cc = *chain_code;
    proof {
        assert(pk@ =~= pk0);
        assert(idxs@.skip(0) =~= idxs@);
    }
    let mut i: usize = 0;
    while i < idxs.len()
        invariant
            i <= idxs@.len(),
            point_valid(pk@),
            pk0 == public_key@,
            cc0 == chain_code@,
            derived_pk(pk0, cc0, idxs@) == derived_pk(pk@, cc@, idxs@.skip(i as int)),
            derived_cc(pk0, cc0, idxs@) == derived_cc(pk@, cc@, idxs@.skip(i as int)),
            derive_steps_ok(pk0, cc0, idxs@) == derive_steps_ok(pk@, cc@, idxs@.skip(i as int)),
        decreases idxs@.len() - i,
    {
        let (tweak, next_cc) = derive_step(&pk, &cc, idxs[i]);
        let tweak_point = generator_mul(&tweak);
        let new_pk = match point_add(&pk, &tweak_point) {
            Some(v) => v,
            None => {
                return Err(Error::Crypto);
            },
        };
        proof {
            assert(idxs@.skip(i as int)[0] == idxs@[i as int]);
            assert(idxs@.skip(i as int).drop_first() =~= idxs@.skip(i + 1));
            assert(new_pk@ == pt_add(pk@, gen_mul(tweak_of(pk@, cc@, idxs@[i as int]))));
        }
        if new_pk.len() != 33 {
            proof {
                assert(!derive_steps_ok(pk@, cc@, idxs@.skip(i as int)));
            }
            return Err(Error::Crypto);
        }
        pk = new_pk;
        cc = next_cc;
        i += 1;
    }
    proof {
        assert(idxs@.skip(idxs@.len() as int) =~= Seq::<u32>::empty());
    }
    Ok((pk, cc))
}

/// Derivation homomorphism: a derived key share's public key and chain
/// code are exactly the public-only derivation of the parent's public key
/// and chain code along the same index path, so a signature under the
/// derived shares verifies against what any public-only deriver computes.
pub proof fn lemma_derivation_homomorphism(
    parent: KeyShare,
    child: KeyShare,
    pk2: Seq<u8>,
    cc2: Seq<u8>,
    idxs: Seq<u32>,
)
    requires
        child.public_key@ == derived_pk(parent.public_key@, parent.chain_code@, idxs),
        child.chain_code@ == derived_cc(parent.public_key@, parent.chain_code@, idxs),
        pk2 == derived_pk(parent.public_key@, parent.chain_code@, idxs),
        cc2 == derived_cc(parent.public_key@, parent.chain_code@, idxs),
    ensures
        child.public_key@ == pk2,
        child.chain_code@ == cc2,
{
}

} // verus!
