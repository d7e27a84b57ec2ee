//! End-to-end exercises of the public API: delegation, re-encryption and
//! threshold decryption.

use umbral::capsule::Capsule;
use umbral::capsule_frag::CapsuleFrag;
use umbral::key_frag::generate_kfrags;
use umbral::keys::UmbralPrivateKey;
use umbral::params::UmbralParameters;
use umbral::pre::{decrypt_original, decrypt_reencrypted, encrypt};

#[test]
fn test_simple_api() {
    let threshold: usize = 2;
    let num_frags: usize = threshold + 1;

    let params = UmbralParameters::new().unwrap();

    let delegating_privkey = UmbralPrivateKey::gen_key(&params);
    let delegating_pubkey = delegating_privkey.get_pubkey();

    let signing_privkey = UmbralPrivateKey::gen_key(&params);
    let signing_pubkey = signing_privkey.get_pubkey();

    let receiving_privkey = UmbralPrivateKey::gen_key(&params);
    let receiving_pubkey = receiving_privkey.get_pubkey();

    let plain_data = b"peace at dawn";
    let (ciphertext, capsule) = encrypt(&params, &delegating_pubkey, plain_data).unwrap();

    let cleartext = decrypt_original(&ciphertext, &capsule, &delegating_privkey).unwrap();
    assert_eq!(cleartext, plain_data);

    let kfrags = generate_kfrags(
        &params,
        &delegating_privkey,
        &receiving_pubkey,
        threshold,
        num_frags,
        &signing_privkey,
        false,
        false,
    )
    .unwrap();

    let prepared_capsule =
        capsule.with_correctness_keys(&delegating_pubkey, &receiving_pubkey, &signing_pubkey);

    assert!(kfrags.iter().all(|kfrag| kfrag.verify(&signing_pubkey, None, None)));

    let cfrags: Vec<CapsuleFrag> = kfrags[0..threshold]
        .iter()
        .map(|kfrag| prepared_capsule.reencrypt(kfrag, None, false).unwrap())
        .collect();

    let reenc_cleartext = decrypt_reencrypted(
        &ciphertext,
        &prepared_capsule,
        &cfrags,
        &receiving_privkey,
        true,
    );
    assert_eq!(reenc_cleartext.unwrap(), plain_data);
}

struct Actors {
    params: UmbralParameters,
    alice: UmbralPrivateKey,
    signer: UmbralPrivateKey,
    bob: UmbralPrivateKey,
}

fn actors() -> Actors {
    let params = UmbralParameters::new().unwrap();
    Actors {
        alice: UmbralPrivateKey::gen_key(&params),
        signer: UmbralPrivateKey::gen_key(&params),
        bob: UmbralPrivateKey::gen_key(&params),
        params,
    }
}

fn delegate(
    a: &Actors,
    capsule: &Capsule,
    threshold: usize,
    num: usize,
    metadata: Option<&[u8]>,
) -> (umbral::capsule::PreparedCapsule, Vec<CapsuleFrag>) {
    let kfrags = generate_kfrags(
        &a.params,
        &a.alice,
        &a.bob.get_pubkey(),
        threshold,
        num,
        &a.signer,
        true,
        true,
    )
    .unwrap();
    let prepared = capsule.with_correctness_keys(
        &a.alice.get_pubkey(),
        &a.bob.get_pubkey(),
        &a.signer.get_pubkey(),
    );
    for kfrag in &kfrags {
        assert!(prepared.verify_kfrag(kfrag));
    }
    let cfrags: Vec<CapsuleFrag> = kfrags
        .iter()
        .map(|kfrag| prepared.reencrypt(kfrag, metadata, true).unwrap())
        .collect();
    (prepared, cfrags)
}

#[test]
fn two_of_three_every_pair_decrypts() {
    let a = actors();
    let plain_data = b"peace at dawn";
    let (ciphertext, capsule) = encrypt(&a.params, &a.alice.get_pubkey(), plain_data).unwrap();
    let (prepared, cfrags) = delegate(&a, &capsule, 2, 3, None);
    for i in 0..3 {
        for j in 0..3 {
            if i < j {
                let pair = vec![cfrags[i].clone(), cfrags[j].clone()];
                let out =
                    decrypt_reencrypted(&ciphertext, &prepared, &pair, &a.bob, true).unwrap();
                assert_eq!(out, plain_data);
            }
        }
    }
    for i in 0..3 {
        let single = vec![cfrags[i].clone()];
        let out = decrypt_reencrypted(&ciphertext, &prepared, &single, &a.bob, true);
        assert!(out.is_none());
    }
}

#[test]
fn three_of_five_decrypts_and_mixed_capsules_fail() {
    let a = actors();
    let mut plain_data = vec![0u8; 1024];
    for (i, b) in plain_data.iter_mut().enumerate() {
        *b = (i * 131 + 17) as u8;
    }
    let (ct1, cap1) = encrypt(&a.params, &a.alice.get_pubkey(), &plain_data).unwrap();
    let (_ct2, cap2) = encrypt(&a.params, &a.alice.get_pubkey(), &plain_data).unwrap();
    let kfrags = generate_kfrags(
        &a.params,
        &a.alice,
        &a.bob.get_pubkey(),
        3,
        5,
        &a.signer,
        true,
        true,
    )
    .unwrap();
    let prep1 = cap1.with_correctness_keys(
        &a.alice.get_pubkey(),
        &a.bob.get_pubkey(),
        &a.signer.get_pubkey(),
    );
    let prep2 = cap2.with_correctness_keys(
        &a.alice.get_pubkey(),
        &a.bob.get_pubkey(),
        &a.signer.get_pubkey(),
    );
    let cfrags1: Vec<CapsuleFrag> =
        kfrags.iter().map(|k| prep1.reencrypt(k, None, true).unwrap()).collect();
    let cfrags2: Vec<CapsuleFrag> =
        kfrags.iter().map(|k| prep2.reencrypt(k, None, true).unwrap()).collect();

    let subset = vec![
        cfrags1[0].clone(),
        cfrags1[2].clone(),
        cfrags1[4].clone(),
    ];
    let out = decrypt_reencrypted(&ct1, &prep1, &subset, &a.bob, true).unwrap();
    assert_eq!(out, plain_data);

    // Swap one fragment with its counterpart made from the other capsule:
    // the shared precursor and ids still line up, but the reconstruction
    // consistency check fails.
    let mixed = vec![
        cfrags1[0].clone(),
        cfrags1[1].clone(),
        cfrags2[2].clone(),
    ];
    let out = decrypt_reencrypted(&ct1, &prep1, &mixed, &a.bob, false);
    assert!(out.is_none());
}

#[test]
fn tampered_cfrag_fails_verification_and_decryption() {
    let a = actors();
    let plain_data = b"peace at dawn";
    let (ciphertext, capsule) = encrypt(&a.params, &a.alice.get_pubkey(), plain_data).unwrap();
    let (prepared, cfrags) = delegate(&a, &capsule, 2, 3, None);

    // Replace the bytes of E1 with those of V1: still a valid point, but
    // the wrong one.
    let mut bytes = cfrags[0].to_bytes();
    let v1: Vec<u8> = bytes[33..66].to_vec();
    bytes[0..33].copy_from_slice(&v1);
    let forged = CapsuleFrag::from_bytes(&bytes).unwrap();
    assert!(!prepared.verify_cfrag(&forged));

    let set = vec![forged, cfrags[1].clone()];
    let out = decrypt_reencrypted(&ciphertext, &prepared, &set, &a.bob, false);
    assert!(out.is_none());
}

#[test]
fn metadata_binds_the_proof() {
    let a = actors();
    let plain_data = b"peace at dawn";
    let (_ciphertext, capsule) = encrypt(&a.params, &a.alice.get_pubkey(), plain_data).unwrap();
    let (prepared, cfrags_m1) = delegate(&a, &capsule, 2, 2, Some(b"m1"));
    let (_, cfrags_m2) = delegate(&a, &capsule, 2, 2, Some(b"m2"));
    assert!(prepared.verify_cfrag(&cfrags_m1[0]));

    // Splice the metadata scalar of an m2 fragment into an m1 fragment.
    let mut bytes = cfrags_m1[0].to_bytes();
    let other = cfrags_m2[0].to_bytes();
    bytes[359..391].copy_from_slice(&other[359..391]);
    let forged = CapsuleFrag::from_bytes(&bytes).unwrap();
    assert!(!prepared.verify_cfrag(&forged));
}

#[test]
fn signature_flags_select_the_keys_to_pass() {
    let a = actors();
    let alice_pub = a.alice.get_pubkey();
    let bob_pub = a.bob.get_pubkey();
    let signer_pub = a.signer.get_pubkey();
    let kfrags = generate_kfrags(&a.params, &a.alice, &bob_pub, 2, 3, &a.signer, false, true)
        .unwrap();
    for kfrag in &kfrags {
        assert!(kfrag.verify(&signer_pub, None, Some(&bob_pub)));
        assert!(!kfrag.verify(&signer_pub, Some(&alice_pub), Some(&bob_pub)));
        assert!(!kfrag.verify(&signer_pub, None, None));
        assert!(!kfrag.verify(&alice_pub, None, Some(&bob_pub)));
    }
}

#[test]
fn decrypting_with_the_wrong_key_fails() {
    let a = actors();
    let plain_data = b"peace at dawn";
    let (ciphertext, capsule) = encrypt(&a.params, &a.alice.get_pubkey(), plain_data).unwrap();
    let (prepared, cfrags) = delegate(&a, &capsule, 2, 2, None);
    let mallory = UmbralPrivateKey::gen_key(&a.params);
    let out = decrypt_reencrypted(&ciphertext, &prepared, &cfrags, &mallory, false);
    assert!(out.is_none());
}

#[test]
fn capsule_self_check_catches_tampering() {
    let a = actors();
    let (_ct, capsule) = encrypt(&a.params, &a.alice.get_pubkey(), b"peace at dawn").unwrap();
    assert!(capsule.verify());

    let bytes = capsule.to_bytes();
    assert_eq!(bytes.len(), 98);

    // Swap E and V: both still valid points, but the challenge changes.
    let mut swapped = bytes.clone();
    let e: Vec<u8> = bytes[0..33].to_vec();
    let v: Vec<u8> = bytes[33..66].to_vec();
    swapped[0..33].copy_from_slice(&v);
    swapped[33..66].copy_from_slice(&e);
    let forged = Capsule::from_bytes(&swapped, &a.params).unwrap();
    assert!(!forged.verify());

    // Perturb the scalar s.
    let mut s_tampered = bytes.clone();
    s_tampered[97] ^= 1;
    if let Some(forged) = Capsule::from_bytes(&s_tampered, &a.params) {
        assert!(!forged.verify());
    }
}

#[test]
fn in_place_api_round_trips() {
    let a = actors();
    let plain_data = b"peace at dawn";
    let mut buffer: Vec<u8> = plain_data.to_vec();
    let capsule = umbral::pre::encrypt_in_place(&a.params, &mut buffer, &a.alice.get_pubkey())
        .unwrap();
    assert_ne!(buffer, plain_data.to_vec());
    assert_eq!(buffer.len(), plain_data.len() + 16 + 12);

    let mut alice_copy = buffer.clone();
    umbral::pre::decrypt_original_in_place(&mut alice_copy, &capsule, &a.alice).unwrap();
    assert_eq!(alice_copy, plain_data.to_vec());

    let (prepared, cfrags) = delegate(&a, &capsule, 2, 2, None);
    umbral::pre::decrypt_reencrypted_in_place(&mut buffer, &prepared, &cfrags, &a.bob, true)
        .unwrap();
    assert_eq!(buffer, plain_data.to_vec());
}

#[test]
fn empty_plaintext_round_trips() {
    let a = actors();
    let (ciphertext, capsule) = encrypt(&a.params, &a.alice.get_pubkey(), b"").unwrap();
    let out = decrypt_original(&ciphertext, &capsule, &a.alice).unwrap();
    assert!(out.is_empty());
    let (prepared, cfrags) = delegate(&a, &capsule, 2, 2, None);
    let out = decrypt_reencrypted(&ciphertext, &prepared, &cfrags, &a.bob, true).unwrap();
    assert!(out.is_empty());
}
