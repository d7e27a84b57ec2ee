//! Canonical encodings: fixed lengths and byte-for-byte round trips.

use umbral::capsule::Capsule;
use umbral::capsule_frag::CapsuleFrag;
use umbral::dem::Ciphertext;
use umbral::key_frag::{generate_kfrags, KeyFrag};
use umbral::keys::{UmbralPrivateKey, UmbralPublicKey, UmbralSignature};
use umbral::params::UmbralParameters;
use umbral::pre::encrypt;

#[test]
fn capsule_round_trip_is_identity() {
    let params = UmbralParameters::new().unwrap();
    let alice = UmbralPrivateKey::gen_key(&params);
    let (_ct, capsule) = encrypt(&params, &alice.get_pubkey(), b"peace at dawn").unwrap();
    let bytes = capsule.to_bytes();
    assert_eq!(bytes.len(), 98);
    let again = Capsule::from_bytes(&bytes, &params).unwrap();
    assert_eq!(again.to_bytes(), bytes);
    assert_eq!(capsule.to_bytes(), bytes);
}

#[test]
fn capsule_rejects_malformed_bytes() {
    let params = UmbralParameters::new().unwrap();
    assert!(Capsule::from_bytes(&[0u8; 97], &params).is_none());
    assert!(Capsule::from_bytes(&[0u8; 98], &params).is_none());
    assert!(Capsule::from_bytes(&[0u8; 99], &params).is_none());
}

#[test]
fn kfrag_lengths_follow_the_flags() {
    let params = UmbralParameters::new().unwrap();
    let alice = UmbralPrivateKey::gen_key(&params);
    let bob = UmbralPrivateKey::gen_key(&params);
    let signer = UmbralPrivateKey::gen_key(&params);
    let cases: [(bool, bool, usize); 4] = [
        (false, false, 259),
        (true, false, 292),
        (false, true, 292),
        (true, true, 325),
    ];
    for (sd, sr, expected) in cases.iter() {
        let kfrags =
            generate_kfrags(&params, &alice, &bob.get_pubkey(), 2, 2, &signer, *sd, *sr).unwrap();
        for kfrag in &kfrags {
            let bytes = kfrag.to_bytes();
            assert_eq!(bytes.len(), *expected);
            let again = KeyFrag::from_bytes(&bytes, &params).unwrap();
            assert_eq!(again.to_bytes(), bytes);
        }
    }
}

#[test]
fn cfrag_round_trip_is_identity() {
    let params = UmbralParameters::new().unwrap();
    let alice = UmbralPrivateKey::gen_key(&params);
    let bob = UmbralPrivateKey::gen_key(&params);
    let signer = UmbralPrivateKey::gen_key(&params);
    let (_ct, capsule) = encrypt(&params, &alice.get_pubkey(), b"peace at dawn").unwrap();
    let kfrags =
        generate_kfrags(&params, &alice, &bob.get_pubkey(), 2, 2, &signer, true, true).unwrap();
    let prepared = capsule.with_correctness_keys(
        &alice.get_pubkey(),
        &bob.get_pubkey(),
        &signer.get_pubkey(),
    );
    let cfrag = prepared.reencrypt(&kfrags[0], Some(b"meta"), true).unwrap();
    let bytes = cfrag.to_bytes();
    assert_eq!(bytes.len(), 391);
    let again = CapsuleFrag::from_bytes(&bytes).unwrap();
    assert_eq!(again.to_bytes(), bytes);
    assert!(prepared.verify_cfrag(&again));
    assert!(CapsuleFrag::from_bytes(&bytes[1..]).is_none());
}

#[test]
fn key_and_signature_round_trips() {
    let params = UmbralParameters::new().unwrap();
    let alice = UmbralPrivateKey::gen_key(&params);
    let sk_bytes = alice.to_bytes();
    assert_eq!(sk_bytes.len(), 32);
    let again = UmbralPrivateKey::from_bytes(&sk_bytes, &params).unwrap();
    assert_eq!(again.to_bytes(), sk_bytes);

    let pk = alice.get_pubkey();
    let pk_bytes = pk.to_bytes();
    assert_eq!(pk_bytes.len(), 33);
    let pk_again = UmbralPublicKey::from_bytes(&pk_bytes, &params).unwrap();
    assert_eq!(pk_again.to_bytes(), pk_bytes);
    assert_eq!(again.get_pubkey().to_bytes(), pk_bytes);

    let sig = alice.sign(b"a message").unwrap();
    let sig_bytes = sig.to_bytes();
    assert_eq!(sig_bytes.len(), 64);
    let sig_again = UmbralSignature::from_bytes(&sig_bytes).unwrap();
    assert_eq!(sig_again.to_bytes(), sig_bytes);
    assert!(UmbralSignature::from_bytes(&sig_bytes[1..]).is_none());
}

#[test]
fn ciphertext_round_trip_is_identity() {
    let params = UmbralParameters::new().unwrap();
    let alice = UmbralPrivateKey::gen_key(&params);
    let (ct, capsule) = encrypt(&params, &alice.get_pubkey(), b"peace at dawn").unwrap();
    let bytes = ct.to_bytes();
    assert_eq!(bytes.len(), 13 + 16 + 12);
    let again = Ciphertext::from_bytes(&bytes).unwrap();
    assert_eq!(again.to_bytes(), bytes);
    let out = umbral::pre::decrypt_original(&again, &capsule, &alice).unwrap();
    assert_eq!(out, b"peace at dawn");
    assert!(Ciphertext::from_bytes(&bytes[0..27]).is_none());
}

#[test]
fn parameters_agree_across_instantiations() {
    let p1 = UmbralParameters::new().unwrap();
    let p2 = UmbralParameters::new().unwrap();
    let alice = UmbralPrivateKey::gen_key(&p1);
    let bob = UmbralPrivateKey::gen_key(&p1);
    let signer = UmbralPrivateKey::gen_key(&p1);
    let (ct, capsule) = encrypt(&p1, &alice.get_pubkey(), b"peace at dawn").unwrap();
    let capsule2 = Capsule::from_bytes(&capsule.to_bytes(), &p2).unwrap();
    let out = umbral::pre::decrypt_original(&ct, &capsule2, &alice).unwrap();
    assert_eq!(out, b"peace at dawn");

    let kfrags =
        generate_kfrags(&p1, &alice, &bob.get_pubkey(), 2, 2, &signer, true, true).unwrap();
    let roundtripped = KeyFrag::from_bytes(&kfrags[0].to_bytes(), &p2).unwrap();
    assert!(roundtripped.verify(
        &signer.get_pubkey(),
        Some(&alice.get_pubkey()),
        Some(&bob.get_pubkey()),
    ));
}
