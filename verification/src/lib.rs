//! A threshold ECDSA signing library over secp256k1 in the DKLs23 style.
//!
//! A group of `n` parties jointly hold an ECDSA key so that any `t` of them
//! can sign, through three protocols: distributed key generation, proactive
//! key refresh, and distributed signature generation. A TTL-bounded mailbox
//! store brokers the round messages. The round logic is pure: callers drive
//! each protocol by exchanging the returned messages.
use vstd::prelude::*;

pub mod derive;
pub mod encoding;
pub mod error;
pub mod keygen;
pub mod ot;
pub mod point;
pub mod refresh;
pub mod relay;
pub mod scalar;
pub mod sign;
pub mod types;
pub mod x25519;
