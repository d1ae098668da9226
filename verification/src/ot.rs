//! Oblivious transfer primitives used by the signing protocol's
//! multiplication layer: a base oblivious transfer over X25519 and the
//! stub of an extension protocol.
use vstd::prelude::*;

use crate::error::Error;
use crate::x25519::{ephemeral_dh, ephemeral_public, ephemeral_secret_random, public_key_to_bytes};

verus! {

/// XOR of two 32-byte strings, byte by byte.
pub fn xor32(a: &[u8; 32], b: &[u8; 32]) -> (r: [u8; 32])
    ensures
        forall|j: int| 0 <= j < 32 ==> r@[j] == (a@[j] ^ b@[j]),
{
    let mut r = [0u8; 32];
    let mut i: usize = 0;
    while i < 32
        invariant
            i <= 32,
            r@.len() == 32,
            forall|j: int| 0 <= j < i ==> r@[j] == (a@[j] ^ b@[j]),
        decreases 32 - i,
    {
        r[i] = a[i] ^ b[i];
        i += 1;
    }
    r
}

/// A base oblivious transfer: for each instance the sender publishes an
/// ephemeral key, and the receiver derives one of two strings according to
/// its choice bit, without the sender learning the choice.
pub struct EndemicOT {
    /// The number of transfers to perform.
    pub count: usize,
}

impl EndemicOT {
    /// Creates a setup for `count` transfers.
    pub fn new(count: usize) -> (r: EndemicOT)
        ensures
            r.count == count,
    {
        EndemicOT { count }
    }

    /// The sender's first flow: one fresh ephemeral secret and its public
    /// key per transfer. The values are random; only the counts are
    /// stated.
    pub fn sender_round1(&self) -> (r: Result<
        (Vec<x25519_dalek::EphemeralSecret>, Vec<x25519_dalek::PublicKey>),
        Error,
    >)
        ensures
            r is Ok,
            r matches Ok(v) ==> v.0@.len() == self.count && v.1@.len() == self.count,
    {
        let mut secrets: Vec<x25519_dalek::EphemeralSecret> = Vec::new();
        let mut public_keys: Vec<x25519_dalek::PublicKey> = Vec::new();
        let mut i: usize = 0;
        while i < self.count
            invariant
                i <= self.count,
                secrets@.len() == i,
                public_keys@.len() == i,
            decreases self.count - i,
        {
            let secret = ephemeral_secret_random();
            let public = ephemeral_public(&secret);
            secrets.push(secret);
            public_keys.push(public);
            i += 1;
        }
        Ok((secrets, public_keys))
    }

    /// The receiver's flow: agrees a shared string with each sender key
    /// and, where the choice bit is set, folds the sender's key bytes into
    /// it by XOR. Fails exactly when the key or choice counts do not match
    /// the setup. The derived strings depend on fresh randomness; only the
    /// counts are stated, and the folding is carried out by the verified
    /// [`xor32`].
    pub fn receiver_round1(
        &self,
        sender_keys: &Vec<x25519_dalek::PublicKey>,
        choices: &Vec<bool>,
    ) -> (r: Result<(Vec<[u8; 32]>, Vec<x25519_dalek::PublicKey>), Error>)
        ensures
            (r is Ok) == (sender_keys@.len() == self.count && choices@.len() == self.count),
            r matches Ok(v) ==> v.0@.len() == self.count && v.1@.len() == self.count,
            r matches Err(e) ==> e == Error::InvalidConfig,
    {
        if sender_keys.len() != self.count || choices.len() != self.count {
            return Err(Error::InvalidConfig);
        }
        let mut outputs: Vec<[u8; 32]> = Vec::new();
        let mut receiver_keys: Vec<x25519_dalek::PublicKey> = Vec::new();
        let mut i: usize = 0;
        while i < self.count
            invariant
                i <= self.count,
                sender_keys@.len() == self.count,
                choices@.len() == self.count,
                outputs@.len() == i,
                receiver_keys@.len() == i,
            decreases self.count - i,
        {
            let secret = ephemeral_secret_random();
            let public = ephemeral_public(&secret);
            let shared = ephemeral_dh(secret, &sender_keys[i]);
            let output = if choices[i] {
                let key_bytes = public_key_to_bytes(&sender_keys[i]);
                xor32(&shared, &key_bytes)
            } else {
                shared
            };
            outputs.push(output);
            receiver_keys.push(public);
            i += 1;
        }
        Ok((outputs, receiver_keys))
    }

    /// The sender's derivation of its two output strings per transfer.
    /// Fails exactly when the counts do not match the setup. The key
    /// derivation is not yet realised: both strings are zero.
    pub fn sender_derive(
        &self,
        secrets: &Vec<x25519_dalek::EphemeralSecret>,
        receiver_keys: &Vec<x25519_dalek::PublicKey>,
    ) -> (r: Result<Vec<([u8; 32], [u8; 32])>, Error>)
        ensures
            (r is Ok) == (secrets@.len() == self.count && receiver_keys@.len() == self.count),
            r matches Ok(v) ==> v@.len() == self.count && forall|i: int|
                0 <= i < v@.len() ==> (#[trigger] v@[i]).0@ == Seq::new(32, |j: int| 0u8)
                    && v@[i].1@ == Seq::new(32, |j: int| 0u8),
            r matches Err(e) ==> e == Error::InvalidConfig,
    {
        if secrets.len() != self.count || receiver_keys.len() != self.count {
            return Err(Error::InvalidConfig);
        }
        let mut outputs: Vec<([u8; 32], [u8; 32])> = Vec::new();
        let mut i: usize = 0;
        while i < self.count
            invariant
                i <= self.count,
                outputs@.len() == i,
                forall|k: int|
                    0 <= k < i ==> (#[trigger] outputs@[k]).0@ == Seq::new(32, |j: int| 0u8)
                        && outputs@[k].1@ == Seq::new(32, |j: int| 0u8),
            decreases self.count - i,
        {
            let out0 = [0u8; 32];
            let out1 = [0u8; 32];
            proof {
                assert(out0@ =~= Seq::new(32, |j: int| 0u8));
            }
            outputs.push((out0, out1));
            i += 1;
        }
        Ok(outputs)
    }
}

/// The extension protocol that would stretch a batch of base transfers into
/// many: a stub that fixes the output shape, with every string zero.
pub struct SoftSpokenOT {
    /// The security parameter of the extension.
    pub security_param: usize,
    /// The number of transfers to produce.
    pub count: usize,
}

impl SoftSpokenOT {
    /// Creates an extension setup.
    pub fn new(security_param: usize, count: usize) -> (r: SoftSpokenOT)
        ensures
            r.security_param == security_param,
            r.count == count,
    {
        SoftSpokenOT { security_param, count }
    }

    /// The sender's extension: `count` pairs of output strings, all zero in
    /// this stub.
    pub fn extend_sender(&self, base_ots: &Vec<([u8; 32], [u8; 32])>) -> (r: Result<
        Vec<([u8; 32], [u8; 32])>,
        Error,
    >)
        ensures
            r is Ok,
            r matches Ok(v) ==> v@.len() == self.count && forall|i: int|
                0 <= i < v@.len() ==> (#[trigger] v@[i]).0@ == Seq::new(32, |j: int| 0u8)
                    && v@[i].1@ == Seq::new(32, |j: int| 0u8),
    {
        let mut outputs: Vec<([u8; 32], [u8; 32])> = Vec::new();
        let mut i: usize = 0;
        while i < self.count
            invariant
                i <= self.count,
                outputs@.len() == i,
                forall|k: int|
                    0 <= k < i ==> (#[trigger] outputs@[k]).0@ == Seq::new(32, |j: int| 0u8)
                        && outputs@[k].1@ == Seq::new(32, |j: int| 0u8),
            decreases self.count - i,
        {
            let out = [0u8; 32];
            proof {
                assert(out@ =~= Seq::new(32, |j: int| 0u8));
            }
            outputs.push((out, out));
            i += 1;
        }
        Ok(outputs)
    }

    /// The receiver's extension: `count` output strings, all zero in this
    /// stub.
    pub fn extend_receiver(&self, base_ots: &Vec<[u8; 32]>, choices: &Vec<bool>) -> (r: Result<
        Vec<[u8; 32]>,
        Error,
    >)
        ensures
            r is Ok,
            r matches Ok(v) ==> v@.len() == self.count && forall|i: int|
                0 <= i < v@.len() ==> (#[trigger] v@[i])@ == Seq::new(32, |j: int| 0u8),
    {
        let mut outputs: Vec<[u8; 32]> = Vec::new();
        let mut i: usize = 0;
        while i < self.count
            invariant
                i <= self.count,
                outputs@.len() == i,
                forall|k: int| 0 <= k < i ==> (#[trigger] outputs@[k])@ == Seq::new(32, |j: int| 0u8),
            decreases self.count - i,
        {
            let out = [0u8; 32];
            proof {
                assert(out@ =~= Seq::new(32, |j: int| 0u8));
            }
            outputs.push(out);
            i += 1;
        }
        Ok(outputs)
    }
}

} // verus!
