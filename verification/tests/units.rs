//! Unit checks: scalar and point wrappers against known values, encodings,
//! the path parser, the oblivious transfer setups, configuration guards,
//! and signature renderings.
use dkls23::derive::parse_path;
use dkls23::encoding::{decode, encode, hex_encode, u32_to_be_bytes, u64_to_dec};
use dkls23::error::Error;
use dkls23::keygen::evaluate_polynomial;
use dkls23::ot::{EndemicOT, SoftSpokenOT};
use dkls23::point::generator_mul;
use dkls23::scalar::{scalar_add, scalar_invert, scalar_mul, scalar_neg, scalar_reduce};
use dkls23::sign::compute_lagrange_coefficient;
use dkls23::types::{Message, SessionConfig, Signature};

fn scalar_from(n: u8) -> [u8; 32] {
    let mut b = [0u8; 32];
    b[31] = n;
    b
}

const ORDER_HEX: &str = "fffffffffffffffffffffffffffffffebaaedce6af48a03bbfd25e8cd0364141";

fn order_minus(n: u8) -> [u8; 32] {
    // The group order is odd and far above 255, so subtracting a small
    // value only touches the last byte.
    let mut b: [u8; 32] = hex::decode(ORDER_HEX).unwrap().try_into().unwrap();
    b[31] -= n;
    b
}

#[test]
fn test_soft_spoken_setup() {
    let ot = SoftSpokenOT::new(128, 1000);
    assert_eq!(ot.security_param, 128);
    assert_eq!(ot.count, 1000);
}

#[test]
fn test_endemic_ot_setup() {
    let ot = EndemicOT::new(10);
    let (secrets, public_keys) = ot.sender_round1().unwrap();

    assert_eq!(secrets.len(), 10);
    assert_eq!(public_keys.len(), 10);
}

#[test]
fn endemic_ot_receiver_depends_on_choice() {
    let ot = EndemicOT::new(3);
    let (_secrets, sender_keys) = ot.sender_round1().unwrap();
    let (out_false, _) = ot.receiver_round1(&sender_keys, &vec![false, false, false]).unwrap();
    assert_eq!(out_false.len(), 3);
    let err = ot.receiver_round1(&sender_keys, &vec![true]).unwrap_err();
    assert!(matches!(err, Error::InvalidConfig));
}

#[test]
fn scalar_arithmetic_wraps_at_order() {
    // (order - 1) + 2 == 1 modulo the order.
    let a = order_minus(1);
    let two = scalar_from(2);
    let r = scalar_add(&a, &two);
    assert_eq!(r, scalar_from(1));
    // Negation gives the complement: -(2) == order - 2.
    assert_eq!(scalar_neg(&two), order_minus(2));
    // The order itself reduces to zero.
    let order: [u8; 32] = hex::decode(ORDER_HEX).unwrap().try_into().unwrap();
    assert_eq!(scalar_reduce(&order), [0u8; 32]);
    // An inverse multiplies back to one.
    let seven = scalar_from(7);
    let inv = scalar_invert(&seven).unwrap();
    assert_eq!(scalar_mul(&seven, &inv), scalar_from(1));
    // Zero has no inverse.
    assert!(scalar_invert(&[0u8; 32]).is_none());
}

#[test]
fn generator_multiple_is_the_known_point() {
    // 1 * G is the generator's compressed encoding.
    let g = generator_mul(&scalar_from(1));
    assert_eq!(
        hex_encode(&g),
        "0279be667ef9dcbbac55a06295ce870b07029bfcdb2dce28d959f2815b16f81798"
    );
}

#[test]
fn polynomial_evaluation_exact() {
    // f(x) = 2 + 3x at x = 5 is 17.
    let coeffs = vec![scalar_from(2), scalar_from(3)];
    assert_eq!(evaluate_polynomial(&coeffs, 5), scalar_from(17));
    // The empty polynomial is zero.
    let empty: Vec<[u8; 32]> = Vec::new();
    assert_eq!(evaluate_polynomial(&empty, 9), [0u8; 32]);
}

#[test]
fn lagrange_coefficients_for_pair() {
    // For the set {0, 1} with evaluation points 1 and 2: party 0 carries
    // weight 2, party 1 carries weight -1.
    let parties = vec![0usize, 1usize];
    assert_eq!(compute_lagrange_coefficient(0, &parties), scalar_from(2));
    assert_eq!(compute_lagrange_coefficient(1, &parties), order_minus(1));
}

#[test]
fn parse_path_accepts_canonical_and_rejects_the_rest() {
    assert_eq!(parse_path("m").unwrap(), Vec::<u32>::new());
    assert_eq!(parse_path("m/0/1/42").unwrap(), vec![0, 1, 42]);
    assert_eq!(parse_path("m/2147483647").unwrap(), vec![0x7FFFFFFF]);
    assert!(matches!(parse_path(""), Err(Error::Derivation)));
    assert!(matches!(parse_path("n/0"), Err(Error::Derivation)));
    assert!(matches!(parse_path("m/"), Err(Error::Derivation)));
    assert!(matches!(parse_path("m/01"), Err(Error::Derivation)));
    assert!(matches!(parse_path("m/0'"), Err(Error::Derivation)));
    assert!(matches!(parse_path("m/5h"), Err(Error::Derivation)));
    // A hardened index: two to the thirty-first.
    assert!(matches!(parse_path("m/2147483648"), Err(Error::Derivation)));
}

#[test]
fn session_config_guards() {
    assert!(matches!(SessionConfig::new(3, 4, 0), Err(Error::InvalidConfig)));
    assert!(matches!(SessionConfig::new(3, 1, 0), Err(Error::InvalidConfig)));
    assert!(matches!(SessionConfig::new(3, 2, 5), Err(Error::InvalidPartyId(5))));
    let c = SessionConfig::new(3, 2, 1).unwrap();
    assert_eq!(c.parties, vec![0, 1, 2]);
    assert_eq!(c.n_parties, 3);
    assert_eq!(c.threshold, 2);
}

#[test]
fn message_envelope_accessors() {
    let b = Message::Broadcast { from: 4, round: 2, data: vec![1] };
    assert_eq!(b.sender(), 4);
    assert_eq!(b.round(), 2);
    let d = Message::Direct { from: 1, to: 2, round: 9, data: vec![] };
    assert_eq!(d.sender(), 1);
    assert_eq!(d.round(), 9);
}

#[test]
fn signature_renderings() {
    let r = scalar_from(3);
    let s = scalar_from(5);
    let sig = Signature::new(r, s, 1);
    let bytes = sig.to_bytes();
    assert_eq!(&bytes[..32], &r);
    assert_eq!(&bytes[32..], &s);
    let der = sig.to_der();
    // DER of two one-byte positive integers: a sequence of two INTEGERs.
    assert_eq!(der, vec![0x30, 0x06, 0x02, 0x01, 0x03, 0x02, 0x01, 0x05]);
}

#[test]
fn encodings_exact() {
    assert_eq!(u32_to_be_bytes(0x01020304), [1, 2, 3, 4]);
    assert_eq!(u64_to_dec(0), "0");
    assert_eq!(u64_to_dec(90210), "90210");
    assert_eq!(hex_encode(&[0x00, 0xab, 0x5c]), "00ab5c");
    assert_eq!(encode(&[0xfb, 0xff, 0xbf]), "+/+/");
    assert_eq!(decode("+/+/").unwrap(), vec![0xfb, 0xff, 0xbf]);
    assert_eq!(decode("aGk=").unwrap(), b"hi".to_vec());
    assert!(decode("not base64!").is_none());
}
