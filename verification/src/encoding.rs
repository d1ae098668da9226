//! Byte- and text-level encodings: hexadecimal and decimal rendering,
//! big-endian integers, BLAKE3 and HMAC-SHA512 digests, and base64.
use vstd::prelude::*;

use base64::Engine;
use hmac::Mac;
use vstd::string::StrSliceExecFns;

verus! {

/// The lowercase hexadecimal digit for a value below 16.
pub open spec fn hex_digit(n: u8) -> char
    recommends
        n < 16,
{
    if n < 10 {
        (48 + n) as char
    } else {
        (87 + n) as char
    }
}

/// The lowercase hexadecimal rendering of a byte string, two digits a byte.
pub open spec fn hex_chars_of(b: Seq<u8>) -> Seq<char>
    decreases b.len(),
{
    if b.len() == 0 {
        Seq::empty()
    } else {
        hex_chars_of(b.drop_last()) + seq![
            hex_digit(b.last() / 16),
            hex_digit(b.last() % 16),
        ]
    }
}

/// The decimal digit character for a value below 10.
pub open spec fn dec_digit(d: nat) -> char
    recommends
        d < 10,
{
    (48 + d) as char
}

/// The decimal rendering of a natural number, most significant digit first.
pub open spec fn dec_chars_of(n: nat) -> Seq<char>
    decreases n,
{
    if n < 10 {
        seq![dec_digit(n)]
    } else {
        dec_chars_of(n / 10) + seq![dec_digit(n % 10)]
    }
}

/// The four-byte big-endian encoding of a 32-bit integer.
pub open spec fn be32_of(n: u32) -> Seq<u8> {
    seq![
        (n / 0x1000000) as u8,
        ((n / 0x10000) % 0x100) as u8,
        ((n / 0x100) % 0x100) as u8,
        (n % 0x100) as u8,
    ]
}

/// Renders a 32-bit integer as its four big-endian bytes.
pub fn u32_to_be_bytes(n: u32) -> (r: [u8; 4])
    ensures
        r@ == be32_of(n),
{
    let r = [
        (n / 0x1000000) as u8,
        ((n / 0x10000) % 0x100) as u8,
        ((n / 0x100) % 0x100) as u8,
        (n % 0x100) as u8,
    ];
    proof {
        assert(r@ =~= be32_of(n));
    }
    r
}

/// Renders a byte string in lowercase hexadecimal.
///
/// Relies on `hex::encode`: two lowercase hexadecimal digits per byte, in
/// order, as [`hex_chars_of`] states.
#[verifier::external_body]
pub fn hex_encode(b: &[u8]) -> (r: String)
    ensures
        r@ == hex_chars_of(b@),
{
    hex::encode(b)
}

/// Renders a 64-bit integer in decimal.
///
/// Relies on the standard `Display` implementation for `u64`, which is the
/// plain decimal rendering that [`dec_chars_of`] states.
#[verifier::external_body]
pub fn u64_to_dec(n: u64) -> (r: String)
    ensures
        r@ == dec_chars_of(n as nat),
{
    format!("{}", n)
}

/// Compares two byte vectors for equality.
pub fn bytes_eq(a: &Vec<u8>, b: &Vec<u8>) -> (r: bool)
    ensures
        r == (a@ == b@),
{
    if a.len() != b.len() {
        proof {
            assert(a@ != b@);
        }
        return false;
    }
    let n = a.len();
    let mut i: usize = 0;
    while i < n
        invariant
            i <= n,
            a@.len() == n,
            b@.len() == n,
            forall|j: int| 0 <= j < i ==> a@[j] == b@[j],
        decreases n - i,
    {
        if a[i] != b[i] {
            proof {
                assert(a@ != b@);
            }
            return false;
        }
        i += 1;
    }
    proof {
        assert(a@ =~= b@);
    }
    true
}

/// Copies a byte vector into a 32-byte array; fails exactly when the length
/// is not 32.
pub fn vec_to_arr32(v: &Vec<u8>) -> (r: Option<[u8; 32]>)
    ensures
        (r is Some) == (v@.len() == 32),
        r matches Some(a) ==> a@ == v@,
{
    if v.len() != 32 {
        return None;
    }
    let mut a = [0u8; 32];
    let mut i: usize = 0;
    while i < 32
        invariant
            i <= 32,
            v@.len() == 32,
            a@.len() == 32,
            forall|j: int| 0 <= j < i ==> a@[j] == v@[j],
        decreases 32 - i,
    {
        a[i] = v[i];
        i += 1;
    }
    proof {
        assert(a@ =~= v@);
    }
    Some(a)
}

/// Compares two strings for equality of their character sequences, by way
/// of their UTF-8 bytes; decoding is the left inverse of encoding, so byte
/// equality and character equality coincide.
pub fn str_eq(a: &str, b: &str) -> (r: bool)
    ensures
        r == (a@ == b@),
{
    let av = a.as_bytes_vec();
    let bv = b.as_bytes_vec();
    let e = bytes_eq(&av, &bv);
    proof {
        vstd::utf8::encode_utf8_decode_utf8(a@);
        vstd::utf8::encode_utf8_decode_utf8(b@);
    }
    e
}

/// Copies a byte vector into a 33-byte array; fails exactly when the length
/// is not 33.
pub fn vec_to_arr33(v: &Vec<u8>) -> (r: Option<[u8; 33]>)
    ensures
        (r is Some) == (v@.len() == 33),
        r matches Some(a) ==> a@ == v@,
{
    if v.len() != 33 {
        return None;
    }
    let mut a = [0u8; 33];
    let mut i: usize = 0;
    while i < 33
        invariant
            i <= 33,
            v@.len() == 33,
            a@.len() == 33,
            forall|j: int| 0 <= j < i ==> a@[j] == v@[j],
        decreases 33 - i,
    {
        a[i] = v[i];
        i += 1;
    }
    proof {
        assert(a@ =~= v@);
    }
    Some(a)
}

/// The last 32 bytes of a 33-byte array: the X coordinate of a compressed
/// point encoding.
pub fn arr33_tail(a: &[u8; 33]) -> (r: [u8; 32])
    ensures
        r@ == a@.subrange(1, 33),
{
    let mut r = [0u8; 32];
    let mut i: usize = 0;
    while i < 32
        invariant
            i <= 32,
            r@.len() == 32,
            forall|j: int| 0 <= j < i ==> r@[j] == a@[j + 1],
        decreases 32 - i,
    {
        r[i] = a[i + 1];
        i += 1;
    }
    proof {
        assert(r@ =~= a@.subrange(1, 33));
    }
    r
}

/// Copies a 32-byte array into a fresh byte vector.
pub fn arr32_to_vec(a: &[u8; 32]) -> (r: Vec<u8>)
    ensures
        r@ == a@,
{
    let mut r: Vec<u8> = Vec::new();
    r.extend_from_slice(a.as_slice());
    proof {
        assert(r@ =~= a@);
    }
    r
}

/// The BLAKE3 digest of a byte string.
pub uninterp spec fn blake3_of(data: Seq<u8>) -> Seq<u8>;

/// Hashes a byte string with BLAKE3.
///
/// Relies on `blake3::hash`: the 32-byte digest is a function of the input
/// bytes alone.
#[verifier::external_body]
pub fn blake3_hash(data: &[u8]) -> (r: [u8; 32])
    ensures
        r@ == blake3_of(data@),
{
    *blake3::hash(data).as_bytes()
}

/// The HMAC-SHA512 authenticator of a message under a key.
pub uninterp spec fn hmac_sha512_of(key: Seq<u8>, data: Seq<u8>) -> Seq<u8>;

/// Computes HMAC-SHA512 of a message under a key.
///
/// Relies on `hmac::Hmac<sha2::Sha512>`: the 64-byte authenticator is a
/// function of key and message alone, and every key length is accepted.
#[verifier::external_body]
pub fn hmac_sha512(key: &[u8], data: &[u8]) -> (r: Vec<u8>)
    ensures
        r@ == hmac_sha512_of(key@, data@),
        r@.len() == 64,
{
    let mut mac = <hmac::Hmac<sha2::Sha512> as Mac>::new_from_slice(key)
        .expect("any key length is accepted");
    mac.update(data);
    mac.finalize().into_bytes().to_vec()
}

/// The standard base64 rendering (with padding) of a byte string.
pub uninterp spec fn b64_of(data: Seq<u8>) -> Seq<char>;

/// Renders a byte string in standard base64 with padding.
///
/// Relies on `base64::engine::general_purpose::STANDARD.encode`: the
/// rendering is a function of the input bytes alone.
#[verifier::external_body]
pub fn encode(data: &[u8]) -> (r: String)
    ensures
        r@ == b64_of(data@),
{
    base64::engine::general_purpose::STANDARD.encode(data)
}

/// Decodes standard base64 with padding.
///
/// Relies on `base64::engine::general_purpose::STANDARD.decode`: the
/// standard engine requires canonical padding and rejects non-zero trailing
/// bits, so it accepts exactly the strings that `encode` produces.
#[verifier::external_body]
pub fn decode(s: &str) -> (r: Option<Vec<u8>>)
    ensures
        r matches Some(v) ==> s@ == b64_of(v@),
{
    base64::engine::general_purpose::STANDARD.decode(s).ok()
}

} // verus!
