//! The random oracles, key derivation and the primitives behind them.

use umbral::curve::{bytes_to_point, point_add, point_generator, point_to_bytes, scalar_to_bytes};
use umbral::dem::UmbralDEM;
use umbral::keys::UmbralPrivateKey;
use umbral::params::UmbralParameters;
use umbral::random_oracles::{hash_to_scalar, kdf, to_fixed_be_bytes, unsafe_hash_to_point};

#[test]
fn test_unsafe_hash_to_point() {
    let data = b"abcdefg";
    let label = b"sdasdasd";
    let p = unsafe_hash_to_point(&data[..], &label[..]);
    println!("unsafe_hash_to_point: {:?}", p.map(|q| point_to_bytes(&q)));
}

#[test]
fn test_hash_to_scalar() {
    let p1 = point_generator();
    let p2 = point_add(&p1, &p1);
    let p = hash_to_scalar(&[p1, p2], None);
    println!("hash_to_scalar: {:?}", scalar_to_bytes(&p));
}

#[test]
fn test_kdf() {
    let p1 = point_generator();
    let salt = b"abcdefg";
    let info = b"sdasdasd";
    let key = kdf(&p1, 128, Some(&salt[..]), Some(&info[..]));
    println!("kdf: {:?}", key);
    assert_eq!(key.len(), 128);
    let key_same = kdf(&p1, 128, Some(&salt[..]), Some(&info[..]));
    assert_eq!(key, key_same);
    let key_diff = kdf(&p1, 128, None, Some(&info[..]));
    assert_ne!(key, key_diff);
}

#[test]
fn dem_test_kdf() {
    let p1 = point_generator();
    let salt = b"abcdefg";
    let info = b"sdasdasd";
    let seed = point_to_bytes(&p1);
    let key = umbral::dem::kdf(&seed, Some(&salt[..]), Some(&info[..]));
    let key_same = umbral::dem::kdf(&seed, Some(&salt[..]), Some(&info[..]));
    assert_eq!(key, key_same);

    let key_diff = umbral::dem::kdf(&seed, None, Some(&info[..]));
    assert_ne!(key, key_diff);
}

#[test]
fn hash_to_scalar_depends_on_every_input() {
    let p1 = point_generator();
    let p2 = point_add(&p1, &p1);
    let a = scalar_to_bytes(&hash_to_scalar(&[p1, p2], None));
    let b = scalar_to_bytes(&hash_to_scalar(&[p2, p1], None));
    let c = scalar_to_bytes(&hash_to_scalar(&[p1, p2], Some(b"x")));
    let d = scalar_to_bytes(&hash_to_scalar(&[p1, p2], None));
    assert_ne!(a, b);
    assert_ne!(a, c);
    assert_eq!(a, d);
}

#[test]
fn unsafe_hash_to_point_is_deterministic_and_label_separated() {
    let a = unsafe_hash_to_point(b"data", b"label").map(|p| point_to_bytes(&p)).unwrap();
    let b = unsafe_hash_to_point(b"data", b"label").map(|p| point_to_bytes(&p)).unwrap();
    let c = unsafe_hash_to_point(b"data", b"rebel").map(|p| point_to_bytes(&p)).unwrap();
    assert_eq!(a, b);
    assert_ne!(a, c);
    assert!(bytes_to_point(&a).is_some());
}

#[test]
fn to_fixed_be_bytes_truncates_to_four() {
    assert_eq!(to_fixed_be_bytes(0), vec![0, 0, 0, 0]);
    assert_eq!(to_fixed_be_bytes(1), vec![0, 0, 0, 1]);
    assert_eq!(to_fixed_be_bytes(0x0102_0304), vec![1, 2, 3, 4]);
    assert_eq!(to_fixed_be_bytes(0x1_0000_0001), vec![0, 0, 0, 1]);
}

#[test]
fn point_encoding_round_trips() {
    let g = point_generator();
    let b = point_to_bytes(&g);
    assert_eq!(b.len(), 33);
    let g2 = bytes_to_point(&b).unwrap();
    assert_eq!(point_to_bytes(&g2), b);
    assert!(bytes_to_point(&b[1..]).is_none());
    let sum = point_add(&g, &g);
    assert_ne!(point_to_bytes(&sum), b);
}

#[test]
fn dem_seals_and_opens_with_bound_data() {
    let dem = UmbralDEM::new(b"a seed");
    let ct = dem.encrypt(b"hello", b"aad");
    let out = dem.decrypt(&ct, b"aad").unwrap();
    assert_eq!(out, b"hello");
    assert!(dem.decrypt(&ct, b"dab").is_none());
    let other = UmbralDEM::new(b"another seed");
    assert!(other.decrypt(&ct, b"aad").is_none());
}

#[test]
fn signatures_verify_only_what_was_signed() {
    let params = UmbralParameters::new().unwrap();
    let signer = UmbralPrivateKey::gen_key(&params);
    let other = UmbralPrivateKey::gen_key(&params);
    let sig = signer.sign(b"a message").unwrap();
    assert!(signer.get_pubkey().verify(b"a message", &sig));
    assert!(!signer.get_pubkey().verify(b"another message", &sig));
    assert!(!other.get_pubkey().verify(b"a message", &sig));
}
