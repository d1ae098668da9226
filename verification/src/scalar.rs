//! Scalars of the secp256k1 field, carried as canonical 32-byte big-endian
//! encodings. All arithmetic is modulo the group order and is performed by
//! the `k256` crate behind trusted wrappers whose contracts state the
//! result exactly over [`be_val`].
use vstd::prelude::*;

use k256::elliptic_curve::bigint::U256;
use k256::elliptic_curve::ops::Reduce;
use k256::elliptic_curve::Field;
use k256::elliptic_curve::ops::Invert;
use k256::elliptic_curve::scalar::IsHigh;
use k256::elliptic_curve::PrimeField;
use k256::Scalar;
use rand::rngs::OsRng;

verus! {

/// The value of a big-endian byte string as an unbounded natural number.
pub open spec fn be_val(s: Seq<u8>) -> nat
    decreases s.len(),
{
    if s.len() == 0 {
        0
    } else {
        be_val(s.drop_last()) * 256 + s.last() as nat
    }
}

/// The order of the secp256k1 group: the modulus of all scalar arithmetic.
/// Written as two 128-bit halves because the full constant does not fit a
/// single literal.
pub open spec fn group_order() -> nat {
    0xFFFFFFFFFFFFFFFFFFFFFFFFFFFFFFFE * 0x10000000000000000 * 0x10000000000000000
        + 0xBAAEDCE6AF48A03BBFD25E8CD0364141
}

/// A canonical scalar encoding: 32 bytes, value below the group order.
pub open spec fn scalar_valid(s: Seq<u8>) -> bool {
    s.len() == 32 && be_val(s) < group_order()
}

/// A byte string encodes zero exactly when every byte is zero.
pub proof fn lemma_be_val_zero(s: Seq<u8>)
    ensures
        be_val(s) == 0 <==> (forall|i: int| 0 <= i < s.len() ==> s[i] == 0),
    decreases s.len(),
{
    if s.len() > 0 {
        lemma_be_val_zero(s.drop_last());
        if be_val(s) == 0 {
            assert(be_val(s.drop_last()) == 0 && s.last() == 0);
            assert(forall|i: int| 0 <= i < s.len() - 1 ==> s.drop_last()[i] == 0);
            assert(forall|i: int| 0 <= i < s.len() ==> s[i] == 0) by {
                assert(forall|i: int| 0 <= i < s.len() - 1 ==> s[i] == s.drop_last()[i]);
            }
        } else {
            if s.last() == 0 {
                assert(be_val(s.drop_last()) != 0);
                let i = choose|i: int| 0 <= i < s.len() - 1 && s.drop_last()[i] != 0;
                assert(s[i] != 0);
            }
        }
    }
}

/// Reduces a 32-byte big-endian value modulo the group order.
///
/// Relies on `k256::Scalar` as `Reduce<U256>`: `reduce_bytes` subtracts the
/// order once when the input is not below it, which is a full reduction
/// because the order exceeds half of 2^256; `to_bytes` is the canonical
/// 32-byte big-endian encoding.
#[verifier::external_body]
pub fn scalar_reduce(a: &[u8; 32]) -> (r: [u8; 32])
    ensures
        scalar_valid(r@),
        be_val(r@) == be_val(a@) % group_order(),
{
    let s = <Scalar as Reduce<U256>>::reduce_bytes(&(*a).into());
    s.to_bytes().into()
}

/// Adds two scalars modulo the group order.
///
/// Relies on `k256::Scalar::add`, which is addition modulo the group order.
#[verifier::external_body]
pub fn scalar_add(a: &[u8; 32], b: &[u8; 32]) -> (r: [u8; 32])
    requires
        scalar_valid(a@),
        scalar_valid(b@),
    ensures
        scalar_valid(r@),
        be_val(r@) == (be_val(a@) + be_val(b@)) % group_order(),
{
    let sa = <Scalar as Reduce<U256>>::reduce_bytes(&(*a).into());
    let sb = <Scalar as Reduce<U256>>::reduce_bytes(&(*b).into());
    (sa + sb).to_bytes().into()
}

/// Multiplies two scalars modulo the group order.
///
/// Relies on `k256::Scalar::mul`, which is multiplication modulo the group
/// order.
#[verifier::external_body]
pub fn scalar_mul(a: &[u8; 32], b: &[u8; 32]) -> (r: [u8; 32])
    requires
        scalar_valid(a@),
        scalar_valid(b@),
    ensures
        scalar_valid(r@),
        be_val(r@) == (be_val(a@) * be_val(b@)) % group_order(),
{
    let sa = <Scalar as Reduce<U256>>::reduce_bytes(&(*a).into());
    let sb = <Scalar as Reduce<U256>>::reduce_bytes(&(*b).into());
    (sa * sb).to_bytes().into()
}

/// Negates a scalar modulo the group order.
///
/// Relies on `k256::Scalar::negate`, which returns the additive inverse
/// modulo the group order.
#[verifier::external_body]
pub fn scalar_neg(a: &[u8; 32]) -> (r: [u8; 32])
    requires
        scalar_valid(a@),
    ensures
        scalar_valid(r@),
        be_val(r@) == (group_order() - be_val(a@)) % (group_order() as int),
{
    let sa = <Scalar as Reduce<U256>>::reduce_bytes(&(*a).into());
    (-sa).to_bytes().into()
}

/// Inverts a scalar modulo the group order; zero has no inverse.
///
/// Relies on `k256::Scalar::invert`, whose result is present exactly when
/// the scalar is non-zero and multiplies with the input to one.
#[verifier::external_body]
pub fn scalar_invert(a: &[u8; 32]) -> (r: Option<[u8; 32]>)
    requires
        scalar_valid(a@),
    ensures
        (r is Some) == (be_val(a@) != 0),
        r matches Some(v) ==> scalar_valid(v@) && (be_val(a@) * be_val(v@)) % group_order() == 1,
{
    let sa = <Scalar as Reduce<U256>>::reduce_bytes(&(*a).into());
    let inv = sa.invert();
    if inv.is_some().into() {
        Some(inv.unwrap().to_bytes().into())
    } else {
        None
    }
}

/// Embeds a 64-bit integer as a scalar.
///
/// Relies on `k256::Scalar::from(u64)`, which embeds the integer, whose
/// value is always below the group order.
#[verifier::external_body]
pub fn scalar_from_u64(x: u64) -> (r: [u8; 32])
    ensures
        scalar_valid(r@),
        be_val(r@) == x as nat,
{
    Scalar::from(x).to_bytes().into()
}

/// Samples a uniformly random scalar from the operating system's RNG.
///
/// Relies on `k256::Scalar::random`; nothing is assumed of the value beyond
/// canonicity.
#[verifier::external_body]
pub fn scalar_random() -> (r: [u8; 32])
    ensures
        scalar_valid(r@),
{
    Scalar::random(&mut OsRng).to_bytes().into()
}

/// Tests whether a scalar exceeds half the group order.
///
/// Relies on `k256::Scalar::is_high`, which compares against the order
/// shifted right by one, i.e. the floor of half the (odd) order.
#[verifier::external_body]
pub fn scalar_is_high(a: &[u8; 32]) -> (r: bool)
    requires
        scalar_valid(a@),
    ensures
        r == (2 * be_val(a@) > group_order()),
{
    let sa = <Scalar as Reduce<U256>>::reduce_bytes(&(*a).into());
    sa.is_high().into()
}

/// Tests whether a scalar encoding is all zero, i.e. encodes the scalar zero.
pub fn scalar_is_zero(a: &[u8; 32]) -> (r: bool)
    ensures
        r == (be_val(a@) == 0),
{
    let mut i: usize = 0;
    while i < 32
        invariant
            i <= 32,
            forall|j: int| 0 <= j < i ==> a@[j] == 0,
        decreases 32 - i,
    {
        if a[i] != 0 {
            proof {
                lemma_be_val_zero(a@);
            }
            return false;
        }
        i += 1;
    }
    proof {
        lemma_be_val_zero(a@);
    }
    true
}

/// The big-endian byte string of the given length whose value is `n`:
/// the inverse of [`be_val`] on strings of that length.
pub open spec fn be_bytes_of(n: nat, len: nat) -> Seq<u8>
    decreases len,
{
    if len == 0 {
        Seq::empty()
    } else {
        be_bytes_of(n / 256, (len - 1) as nat) + seq![(n % 256) as u8]
    }
}

/// Reading a byte string big-endian and re-rendering it at its own length
/// gives the string back: canonical encodings are unique.
pub proof fn lemma_be_bytes_roundtrip(s: Seq<u8>)
    ensures
        be_bytes_of(be_val(s), s.len()) == s,
    decreases s.len(),
{
    if s.len() > 0 {
        let p = be_val(s.drop_last());
        let l = s.last();
        vstd::arithmetic::div_mod::lemma_fundamental_div_mod_converse(
            be_val(s) as int,
            256,
            p as int,
            l as int,
        );
        lemma_be_bytes_roundtrip(s.drop_last());
        assert(be_bytes_of(be_val(s), s.len()) =~= s);
    } else {
        assert(be_bytes_of(0, 0) =~= s);
    }
}

/// Tests whether 32 bytes are the canonical encoding of a scalar: read
/// big-endian, the value lies below the group order.
///
/// Relies on `k256::Scalar::from_repr`, whose result is present exactly
/// when the bytes are below the order.
#[verifier::external_body]
pub fn scalar_check(a: &[u8; 32]) -> (r: bool)
    ensures
        r == (be_val(a@) < group_order()),
{
    bool::from(Scalar::from_repr((*a).into()).is_some())
}

} // verus!
