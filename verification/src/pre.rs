//! The public encryption API: KEM-DEM encryption to a public key,
//! decryption by the delegating key, and decryption from re-encrypted
//! capsule fragments.

use crate::capsule::{
    capsule_bytes_spec, cfrag_views, decaps_original_spec, encaps_rel,
    lemma_fresh_capsule_valid, lemma_kem_roundtrip, lemma_two_share_reconstruction,
    open_reencrypted_spec, Capsule, CapsuleView, PreparedCapsule,
};
use crate::capsule_frag::{cfrag_rel, CapsuleFragView};
use crate::key_frag::{d_value, kfrag_gen_rel, kfrags_gen_rel, share_index, KFragView};
use crate::math::{mod_inv, mod_sub, q};
use crate::capsule_frag::{cfrag_is_valid, CapsuleFrag};
use crate::dem::{
    chacha20poly1305_open, chacha20poly1305_seal, hkdf_blake2b, Ciphertext, CiphertextView,
    UmbralDEM,
};
use crate::keys::{UmbralPrivateKey, UmbralPublicKey};
use crate::params::UmbralParameters;
use vstd::prelude::*;

verus! {

/// How `encrypt`'s outputs relate to the public key and plaintext: some
/// seed was encapsulated into the capsule, and the ciphertext seals the
/// plaintext under the key derived from that seed, with the capsule's
/// canonical bytes as associated data.
pub open spec fn encrypt_rel(
    pk: nat,
    u: nat,
    pt: Seq<u8>,
    cap: CapsuleView,
    ct: CiphertextView,
) -> bool {
    exists|seed: Seq<u8>|
        {
            &&& #[trigger] encaps_rel(pk, cap, seed)
            &&& cap.u == u
            &&& ct.nonce.len() == 12
            &&& ct.data == chacha20poly1305_seal(hkdf_blake2b(seed, None, None), ct.nonce,
                capsule_bytes_spec(cap), pt)
            &&& chacha20poly1305_open(hkdf_blake2b(seed, None, None), ct.nonce,
                capsule_bytes_spec(cap), ct.data) == Some(pt)
        }
}

/// What decrypting with the delegating key yields: the capsule is opened
/// to the seed and the ciphertext under the derived key, or nothing where
/// either step fails.
pub open spec fn decrypt_original_spec(sk: nat, cap: CapsuleView, ct: CiphertextView) -> Option<
    Seq<u8>,
> {
    match decaps_original_spec(cap, sk) {
        None => None,
        Some(seed) => chacha20poly1305_open(hkdf_blake2b(seed, None, None), ct.nonce,
            capsule_bytes_spec(cap), ct.data),
    }
}

/// What decrypting from fragments yields: the capsule is opened by
/// Lagrange reconstruction and the ciphertext under the derived key.
pub open spec fn decrypt_reencrypted_spec(
    sk: nat,
    dk: nat,
    cap: CapsuleView,
    cfs: Seq<crate::capsule_frag::CapsuleFragView>,
    ct: CiphertextView,
) -> Option<Seq<u8>> {
    match open_reencrypted_spec(cap, sk, dk, cfs) {
        None => None,
        Some(seed) => chacha20poly1305_open(hkdf_blake2b(seed, None, None), ct.nonce,
            capsule_bytes_spec(cap), ct.data),
    }
}

/// KEM-DEM roundtrip: whatever `encrypt` produced for `pk` decrypts, under
/// the matching secret key, to the plaintext.
pub proof fn lemma_encrypt_decrypt_roundtrip(
    pk: nat,
    sk: nat,
    u: nat,
    pt: Seq<u8>,
    cap: CapsuleView,
    ct: CiphertextView,
)
    requires
        pk == sk,
        encrypt_rel(pk, u, pt, cap, ct),
    ensures
        decrypt_original_spec(sk, cap, ct) == Some(pt),
{
    let seed = choose|seed: Seq<u8>|
        {
            &&& #[trigger] encaps_rel(pk, cap, seed)
            &&& cap.u == u
            &&& ct.nonce.len() == 12
            &&& ct.data == chacha20poly1305_seal(hkdf_blake2b(seed, None, None), ct.nonce,
                capsule_bytes_spec(cap), pt)
            &&& chacha20poly1305_open(hkdf_blake2b(seed, None, None), ct.nonce,
                capsule_bytes_spec(cap), ct.data) == Some(pt)
        };
    lemma_kem_roundtrip(pk, sk, cap, seed);
}

/// Encrypts a plaintext for `alice_pubkey`: encapsulates a fresh seed and
/// seals the plaintext under the derived key, binding the capsule.  `None`
/// only in the vanishing case that encapsulation fails.
pub fn encrypt(
    params: &UmbralParameters,
    alice_pubkey: &UmbralPublicKey,
    plaintext: &[u8],
) -> (r: Option<(Ciphertext, Capsule)>)
    requires
        plaintext@.len() < 0x4000_0000,
    ensures
        match r {
            Some(p) => encrypt_rel(alice_pubkey@, params.u_value(), plaintext@, p.1@, p.0@),
            None => true,
        },
{
    let (capsule, key_seed) = match Capsule::from_pubkey(params, alice_pubkey) {
        Some(p) => p,
        None => {
            return None;
        },
    };
    let dem = UmbralDEM::new(key_seed.as_slice());
    let capsule_bytes = capsule.to_bytes();
    let ciphertext = dem.encrypt(plaintext, capsule_bytes.as_slice());
    Some((ciphertext, capsule))
}

/// Decrypts a ciphertext with the delegating secret key.
pub fn decrypt_original(
    ciphertext: &Ciphertext,
    capsule: &Capsule,
    decrypting_key: &UmbralPrivateKey,
) -> (r: Option<Vec<u8>>)
    ensures
        match r {
            Some(m) => decrypt_original_spec(decrypting_key@, capsule@, ciphertext@) == Some(m@),
            None => decrypt_original_spec(decrypting_key@, capsule@, ciphertext@) is None,
        },
{
    let key_seed = match capsule.open_original(decrypting_key) {
        Some(s) => s,
        None => {
            return None;
        },
    };
    let dem = UmbralDEM::new(key_seed.as_slice());
    let capsule_bytes = capsule.to_bytes();
    dem.decrypt(ciphertext, capsule_bytes.as_slice())
}

/// Decrypts a ciphertext from at least `t` capsule fragments with the
/// receiving secret key, optionally verifying each fragment first.
pub fn decrypt_reencrypted(
    ciphertext: &Ciphertext,
    capsule: &PreparedCapsule,
    cfrags: &[CapsuleFrag],
    decrypting_key: &UmbralPrivateKey,
    check_proof: bool,
) -> (r: Option<Vec<u8>>)
    ensures
        match r {
            Some(m) => decrypt_reencrypted_spec(decrypting_key@, capsule@.delegating,
                capsule@.capsule, cfrag_views(cfrags@), ciphertext@) == Some(m@),
            None => (check_proof && exists|i: int|
                0 <= i < cfrags@.len() && !cfrag_is_valid(capsule@.capsule, (
                #[trigger] cfrags@[i])@, capsule@.delegating, capsule@.receiving,
                    capsule@.verifying)) || decrypt_reencrypted_spec(decrypting_key@,
                capsule@.delegating, capsule@.capsule, cfrag_views(cfrags@), ciphertext@) is None,
        },
{
    proof {
        use_type_invariant(capsule);
    }
    let key_seed = match capsule.open_reencrypted(cfrags, decrypting_key, check_proof) {
        Some(s) => s,
        None => {
            return None;
        },
    };
    let dem = UmbralDEM::new(key_seed.as_slice());
    let capsule_bytes = capsule.capsule.to_bytes();
    dem.decrypt(ciphertext, capsule_bytes.as_slice())
}

/// How `encrypt_in_place` relates the new buffer contents to the old: a
/// fresh seed was encapsulated into the capsule and the old contents are
/// sealed under the derived key, the nonce appended.
pub open spec fn encrypt_in_place_rel(
    pk: nat,
    u: nat,
    pt: Seq<u8>,
    cap: CapsuleView,
    buf: Seq<u8>,
) -> bool {
    exists|seed: Seq<u8>, n: Seq<u8>|
        {
            &&& encaps_rel(pk, cap, seed)
            &&& cap.u == u
            &&& n.len() == 12
            &&& buf == #[trigger] chacha20poly1305_seal(hkdf_blake2b(seed, None, None), n,
                capsule_bytes_spec(cap), pt) + n
            &&& chacha20poly1305_open(hkdf_blake2b(seed, None, None), n, capsule_bytes_spec(cap),
                chacha20poly1305_seal(hkdf_blake2b(seed, None, None), n, capsule_bytes_spec(cap),
                pt)) == Some(pt)
        }
}

/// Encrypts the buffer in place for `alice_pubkey`, leaving the sealed
/// bytes and nonce in it, and returns the capsule.  On `None` the buffer
/// is unchanged.
pub fn encrypt_in_place(
    params: &UmbralParameters,
    buffer: &mut Vec<u8>,
    alice_pubkey: &UmbralPublicKey,
) -> (r: Option<Capsule>)
    requires
        old(buffer)@.len() < 0x4000_0000,
    ensures
        match r {
            Some(cap) => encrypt_in_place_rel(alice_pubkey@, params.u_value(), old(buffer)@, cap@,
                final(buffer)@) && final(buffer)@.len() == old(buffer)@.len() + 28,
            None => final(buffer)@ == old(buffer)@,
        },
{
    let (capsule, key_seed) = match Capsule::from_pubkey(params, alice_pubkey) {
        Some(p) => p,
        None => {
            return None;
        },
    };
    let dem = UmbralDEM::new(key_seed.as_slice());
    let capsule_bytes = capsule.to_bytes();
    let ghost pt = buffer@;
    let res = dem.encrypt_in_place(buffer, capsule_bytes.as_slice());
    proof {
        let (n0) = choose|n: Seq<u8>|
            n.len() == 12 && buffer@ == #[trigger] chacha20poly1305_seal(dem@, n,
                capsule_bytes@, pt) + n && chacha20poly1305_open(dem@, n, capsule_bytes@,
                buffer@.subrange(0, buffer@.len() - 12)) == Some(pt);
        assert(buffer@.subrange(0, buffer@.len() - 12) =~= chacha20poly1305_seal(dem@, n0,
            capsule_bytes@, pt));
        let seedv = key_seed@;
        let key = hkdf_blake2b(seedv, None, None);
        assert(key == dem@);
        assert(capsule_bytes@ == capsule_bytes_spec(capsule@));
        assert(encaps_rel(alice_pubkey@, capsule@, seedv));
        assert(buffer@ == chacha20poly1305_seal(key, n0, capsule_bytes_spec(capsule@), pt) + n0);
        assert(chacha20poly1305_open(key, n0, capsule_bytes_spec(capsule@), chacha20poly1305_seal(
            key, n0, capsule_bytes_spec(capsule@), pt)) == Some(pt));
        assert(encrypt_in_place_rel(alice_pubkey@, params.u_value(), pt, capsule@, buffer@));
    }
    Some(capsule)
}

/// Decrypts the buffer in place with the delegating secret key; on any
/// failure the buffer is unchanged.
pub fn decrypt_original_in_place(
    buffer: &mut Vec<u8>,
    capsule: &Capsule,
    decrypting_key: &UmbralPrivateKey,
) -> (r: Option<()>)
    ensures
        match decrypt_original_spec(decrypting_key@, capsule@,
            CiphertextView {
                data: old(buffer)@.subrange(0, old(buffer)@.len() - 12),
                nonce: old(buffer)@.subrange(old(buffer)@.len() - 12, old(buffer)@.len() as int),
            }) {
            Some(m) => if old(buffer)@.len() >= 28 {
                r is Some && final(buffer)@ == m
            } else {
                r is None && final(buffer)@ == old(buffer)@
            },
            None => r is None && final(buffer)@ == old(buffer)@,
        },
{
    let key_seed = match capsule.open_original(decrypting_key) {
        Some(s) => s,
        None => {
            return None;
        },
    };
    let dem = UmbralDEM::new(key_seed.as_slice());
    let capsule_bytes = capsule.to_bytes();
    dem.decrypt_in_place(buffer, capsule_bytes.as_slice())
}

/// Decrypts the buffer in place from capsule fragments with the receiving
/// secret key; on any failure the buffer is unchanged.
pub fn decrypt_reencrypted_in_place(
    buffer: &mut Vec<u8>,
    capsule: &PreparedCapsule,
    cfrags: &[CapsuleFrag],
    decrypting_key: &UmbralPrivateKey,
    check_proof: bool,
) -> (r: Option<()>)
    ensures
        r is Some ==> {
            let ct = CiphertextView {
                data: old(buffer)@.subrange(0, old(buffer)@.len() - 12),
                nonce: old(buffer)@.subrange(old(buffer)@.len() - 12, old(buffer)@.len() as int),
            };
            old(buffer)@.len() >= 28 && decrypt_reencrypted_spec(decrypting_key@,
                capsule@.delegating, capsule@.capsule, cfrag_views(cfrags@), ct) == Some(
            final(buffer)@)
        },
        r is None ==> final(buffer)@ == old(buffer)@ && {
            let ct = CiphertextView {
                data: old(buffer)@.subrange(0, old(buffer)@.len() - 12),
                nonce: old(buffer)@.subrange(old(buffer)@.len() - 12, old(buffer)@.len() as int),
            };
            ||| check_proof && exists|i: int|
                0 <= i < cfrags@.len() && !crate::capsule_frag::cfrag_is_valid(capsule@.capsule, (
                #[trigger] cfrags@[i])@, capsule@.delegating, capsule@.receiving,
                    capsule@.verifying)
            ||| old(buffer)@.len() < 28
            ||| decrypt_reencrypted_spec(decrypting_key@, capsule@.delegating, capsule@.capsule,
                cfrag_views(cfrags@), ct) is None
        },
{
    proof {
        use_type_invariant(capsule);
    }
    let key_seed = match capsule.open_reencrypted(cfrags, decrypting_key, check_proof) {
        Some(s) => s,
        None => {
            return None;
        },
    };
    let dem = UmbralDEM::new(key_seed.as_slice());
    let capsule_bytes = capsule.capsule.to_bytes();
    dem.decrypt_in_place(buffer, capsule_bytes.as_slice())
}

/// Threshold decryption, the two-share case end to end: a ciphertext made
/// by `encrypt` decrypts, from two honestly re-encrypted fragments of a
/// two-way split, to the original plaintext.  The hypotheses on the
/// fragments and the split are what `generate_kfrags` and `reencrypt`
/// establish; the `mod_inv` hypotheses hold because `q` is prime.
pub proof fn lemma_two_share_threshold_roundtrip(
    pk: nat,
    sk_b: nat,
    u: nat,
    x: nat,
    c0: nat,
    c1: nat,
    cf0: CapsuleFragView,
    cf1: CapsuleFragView,
    pt: Seq<u8>,
    cap: CapsuleView,
    ct: CiphertextView,
)
    requires
        0 < pk < q(),
        encrypt_rel(pk, u, pt, cap, ct),
        c0 == (pk * mod_inv(d_value(x, sk_b))) % q(),
        c1 < q(),
        d_value(x, sk_b) != 0,
        (d_value(x, sk_b) * mod_inv(d_value(x, sk_b))) % q() == 1,
        cf0.precursor == x,
        cf1.precursor == x,
        share_index(x, sk_b, cf0.kfrag_id) != share_index(x, sk_b, cf1.kfrag_id),
        (mod_sub(share_index(x, sk_b, cf1.kfrag_id), share_index(x, sk_b, cf0.kfrag_id)) * mod_inv(
        mod_sub(share_index(x, sk_b, cf1.kfrag_id), share_index(x, sk_b, cf0.kfrag_id)))) % q()
            == 1,
        (mod_sub(share_index(x, sk_b, cf0.kfrag_id), share_index(x, sk_b, cf1.kfrag_id)) * mod_inv(
        mod_sub(share_index(x, sk_b, cf0.kfrag_id), share_index(x, sk_b, cf1.kfrag_id)))) % q()
            == 1,
        cf0.e1 == (cap.e * crate::math::poly_eval(seq![c0, c1], share_index(x, sk_b,
        cf0.kfrag_id))) % q(),
        cf0.v1 == (cap.v * crate::math::poly_eval(seq![c0, c1], share_index(x, sk_b,
        cf0.kfrag_id))) % q(),
        cf1.e1 == (cap.e * crate::math::poly_eval(seq![c0, c1], share_index(x, sk_b,
        cf1.kfrag_id))) % q(),
        cf1.v1 == (cap.v * crate::math::poly_eval(seq![c0, c1], share_index(x, sk_b,
        cf1.kfrag_id))) % q(),
    ensures
        decrypt_reencrypted_spec(sk_b, pk, cap, seq![cf0, cf1], ct) == Some(pt),
{
    let seed = choose|seed: Seq<u8>|
        {
            &&& #[trigger] encaps_rel(pk, cap, seed)
            &&& cap.u == u
            &&& ct.nonce.len() == 12
            &&& ct.data == chacha20poly1305_seal(hkdf_blake2b(seed, None, None), ct.nonce,
                capsule_bytes_spec(cap), pt)
            &&& chacha20poly1305_open(hkdf_blake2b(seed, None, None), ct.nonce,
                capsule_bytes_spec(cap), ct.data) == Some(pt)
        };
    lemma_fresh_capsule_valid(pk, cap, seed);
    lemma_kem_roundtrip(pk, pk, cap, seed);
    assert(cap.e < q() && cap.v < q() && cap.s < q());
    lemma_two_share_reconstruction(cap, pk, sk_b, x, c0, c1, cf0, cf1);
    assert(open_reencrypted_spec(cap, sk_b, pk, seq![cf0, cf1]) == Some(seed));
}


/// Threshold decryption from the functions' own contracts, two-share case:
/// take what `encrypt`, `generate_kfrags` (threshold two) and `reencrypt`
/// promise about a ciphertext, two of the generated fragments and their
/// re-encryptions; if the two share indices differ, the re-encryptions
/// decrypt to the plaintext.  The `mod_inv` hypotheses hold because `q` is
/// prime; the executable reconstruction establishes them when it inverts.
pub proof fn lemma_two_generated_fragments_decrypt(
    pk: nat,
    sk_b: nat,
    u: nat,
    x: nat,
    coeffs: Seq<nat>,
    ks: Seq<KFragView>,
    signer: nat,
    sd: bool,
    sr: bool,
    i0: int,
    i1: int,
    m0: Option<Seq<u8>>,
    m1: Option<Seq<u8>>,
    cf0: CapsuleFragView,
    cf1: CapsuleFragView,
    pt: Seq<u8>,
    cap: CapsuleView,
    ct: CiphertextView,
)
    requires
        0 < pk < q(),
        encrypt_rel(pk, u, pt, cap, ct),
        kfrags_gen_rel(x, coeffs, ks, pk, pk, sk_b, signer, 2, sd, sr, u),
        0 <= i0 < ks.len(),
        0 <= i1 < ks.len(),
        cfrag_rel(cap, ks[i0].key, ks[i0].id, ks[i0].precursor, ks[i0].commitment, ks[i0].sig_bob,
            m0, cf0),
        cfrag_rel(cap, ks[i1].key, ks[i1].id, ks[i1].precursor, ks[i1].commitment, ks[i1].sig_bob,
            m1, cf1),
        share_index(x, sk_b, ks[i0].id) != share_index(x, sk_b, ks[i1].id),
        d_value(x, sk_b) != 0,
        (d_value(x, sk_b) * mod_inv(d_value(x, sk_b))) % q() == 1,
        (mod_sub(share_index(x, sk_b, ks[i1].id), share_index(x, sk_b, ks[i0].id)) * mod_inv(
        mod_sub(share_index(x, sk_b, ks[i1].id), share_index(x, sk_b, ks[i0].id)))) % q() == 1,
        (mod_sub(share_index(x, sk_b, ks[i0].id), share_index(x, sk_b, ks[i1].id)) * mod_inv(
        mod_sub(share_index(x, sk_b, ks[i0].id), share_index(x, sk_b, ks[i1].id)))) % q() == 1,
    ensures
        decrypt_reencrypted_spec(sk_b, pk, cap, seq![cf0, cf1], ct) == Some(pt),
{
    assert(kfrag_gen_rel(ks[i0], x, coeffs, pk, sk_b, signer, sd, sr, u));
    assert(kfrag_gen_rel(ks[i1], x, coeffs, pk, sk_b, signer, sd, sr, u));
    assert(coeffs =~= seq![coeffs[0], coeffs[1]]);
    let t0 = choose|t: nat|
        {
            &&& 0 < t < q()
            &&& cf0.e1 == (cap.e * ks[i0].key) % q()
            &&& cf0.v1 == (cap.v * ks[i0].key) % q()
            &&& cf0.kfrag_id == ks[i0].id
            &&& cf0.precursor == ks[i0].precursor
            &&& cf0.proof.u1 == ks[i0].commitment
            &&& cf0.proof.e2 == #[trigger] ((cap.e * t) % q())
            &&& cf0.proof.v2 == (cap.v * t) % q()
            &&& cf0.proof.u2 == (cap.u * t) % q()
            &&& cf0.proof.metadata == crate::capsule_frag::metadata_scalar(m0)
            &&& cf0.proof.z3 == (t + ks[i0].key * crate::capsule_frag::cfrag_challenge(cap, cf0))
                % q()
            &&& cf0.proof.sig_bob == ks[i0].sig_bob
        };
    let t1 = choose|t: nat|
        {
            &&& 0 < t < q()
            &&& cf1.e1 == (cap.e * ks[i1].key) % q()
            &&& cf1.v1 == (cap.v * ks[i1].key) % q()
            &&& cf1.kfrag_id == ks[i1].id
            &&& cf1.precursor == ks[i1].precursor
            &&& cf1.proof.u1 == ks[i1].commitment
            &&& cf1.proof.e2 == #[trigger] ((cap.e * t) % q())
            &&& cf1.proof.v2 == (cap.v * t) % q()
            &&& cf1.proof.u2 == (cap.u * t) % q()
            &&& cf1.proof.metadata == crate::capsule_frag::metadata_scalar(m1)
            &&& cf1.proof.z3 == (t + ks[i1].key * crate::capsule_frag::cfrag_challenge(cap, cf1))
                % q()
            &&& cf1.proof.sig_bob == ks[i1].sig_bob
        };
    assert(cf0.precursor == x && cf1.precursor == x);
    assert(cf0.e1 == (cap.e * crate::math::poly_eval(seq![coeffs[0], coeffs[1]], share_index(x,
        sk_b, cf0.kfrag_id))) % q());
    lemma_two_share_threshold_roundtrip(pk, sk_b, u, x, coeffs[0], coeffs[1], cf0, cf1, pt, cap,
        ct);
}


} // verus!
