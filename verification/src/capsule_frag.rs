//! Capsule fragments: one proxy's re-encryption of a capsule under its key
//! fragment, with a Chaum-Pedersen-style proof that the same re-encryption
//! key acted on `E`, `V` and the commitment base `u`.

use crate::capsule::{Capsule, CapsuleView};
use crate::curve::{
    bytes_to_point, bytes_to_scalar, point_add, point_bytes, point_eq, point_mul, point_of_bytes,
    point_to_bytes, random_nonzero_scalar, scalar_add, scalar_mul, scalar_to_bytes, scalar_zero,
    CurvePoint, CurveScalar,
};
use crate::key_frag::{kfrag_bob_message, KeyFrag};
use crate::keys::{ecdsa_verify, UmbralPublicKey, UmbralSignature};
use crate::math::{
    be_bytes_of, lemma_nat_of_be_bytes_of, lemma_pow256_32, nat_of_be, q,
};
use crate::random_oracles::{hash_to_scalar, hash_to_scalar_spec, point_views, sha3_256};
use vstd::arithmetic::div_mod::{lemma_add_mod_noop, lemma_add_mod_noop_right, lemma_mul_mod_noop_right};
use vstd::arithmetic::mul::{
    lemma_mul_is_associative, lemma_mul_is_commutative, lemma_mul_is_distributive_add,
};
use vstd::prelude::*;
use vstd::slice::slice_subrange;

verus! {

/// What the proof part of a capsule fragment is made of.
pub struct CapsuleFragProofView {
    pub e2: nat,
    pub v2: nat,
    pub u1: nat,
    pub u2: nat,
    pub z3: nat,
    pub sig_bob: Seq<u8>,
    pub metadata: nat,
}

/// What a capsule fragment is made of, in discrete logarithms.
pub struct CapsuleFragView {
    pub e1: nat,
    pub v1: nat,
    pub kfrag_id: nat,
    pub precursor: nat,
    pub proof: CapsuleFragProofView,
}

/// The scalar that caller-supplied metadata is folded to: the hash of no
/// points with the metadata as customization, or zero without metadata.
pub open spec fn metadata_scalar(m: Option<Seq<u8>>) -> nat {
    match m {
        Some(b) => hash_to_scalar_spec(Seq::empty(), Some(b)),
        None => 0,
    }
}

/// The Fiat-Shamir challenge of a fragment against its capsule: the hash
/// of the nine points with the metadata scalar's encoding as customization.
pub open spec fn cfrag_challenge(cap: CapsuleView, cf: CapsuleFragView) -> nat {
    hash_to_scalar_spec(
        seq![cap.e, cf.e1, cf.proof.e2, cap.v, cf.v1, cf.proof.v2, cap.u, cf.proof.u1, cf.proof.u2],
        Some(be_bytes_of(cf.proof.metadata, 32)),
    )
}

/// What `CapsuleFrag::verify` checks: the Bob-facing signature over the
/// fragment's provenance, and the three Chaum-Pedersen equations.
pub open spec fn cfrag_is_valid(
    cap: CapsuleView,
    cf: CapsuleFragView,
    delegating_pk: nat,
    receiving_pk: nat,
    signer: nat,
) -> bool {
    let h = cfrag_challenge(cap, cf);
    &&& ecdsa_verify(
        signer,
        sha3_256(
            kfrag_bob_message(cf.kfrag_id, delegating_pk, receiving_pk, cf.proof.u1, cf.precursor),
        ),
        cf.proof.sig_bob,
    )
    &&& (cap.e * cf.proof.z3) % q() == (cf.proof.e2 + h * cf.e1) % q()
    &&& (cap.v * cf.proof.z3) % q() == (cf.proof.v2 + h * cf.v1) % q()
    &&& (cap.u * cf.proof.z3) % q() == (cf.proof.u2 + h * cf.proof.u1) % q()
}

/// How a fragment relates to the capsule, key fragment and metadata it was
/// produced from: for some fresh nonzero `t`, the fragment re-encrypts with
/// the fragment's key and proves it with nonce `t`.
pub open spec fn cfrag_rel(
    cap: CapsuleView,
    key: nat,
    id: nat,
    precursor: nat,
    commitment: nat,
    sig_bob: Seq<u8>,
    m: Option<Seq<u8>>,
    cf: CapsuleFragView,
) -> bool {
    exists|t: nat|
        {
            &&& 0 < t < q()
            &&& cf.e1 == (cap.e * key) % q()
            &&& cf.v1 == (cap.v * key) % q()
            &&& cf.kfrag_id == id
            &&& cf.precursor == precursor
            &&& cf.proof.u1 == commitment
            &&& cf.proof.e2 == #[trigger] ((cap.e * t) % q())
            &&& cf.proof.v2 == (cap.v * t) % q()
            &&& cf.proof.u2 == (cap.u * t) % q()
            &&& cf.proof.metadata == metadata_scalar(m)
            &&& cf.proof.z3 == (t + key * cfrag_challenge(cap, cf)) % q()
            &&& cf.proof.sig_bob == sig_bob
        }
}

/// The proof carried by a capsule fragment.
pub struct CapsuleFragProof {

    pub(crate) point_e2: CurvePoint,
    pub(crate) point_v2: CurvePoint,
    pub(crate) kfrag_commitment: CurvePoint,
    pub(crate) kfrag_pok: CurvePoint,
    pub(crate) signature: CurveScalar,
    pub(crate) kfrag_signature: UmbralSignature,
    pub(crate) metadata: CurveScalar,
}

impl Clone for CapsuleFragProof {
    fn clone(&self) -> (r: Self)
        ensures
            r@ == self@,
    {
        CapsuleFragProof {
            point_e2: self.point_e2,
            point_v2: self.point_v2,
            kfrag_commitment: self.kfrag_commitment,
            kfrag_pok: self.kfrag_pok,
            signature: self.signature,
            kfrag_signature: self.kfrag_signature.clone(),
            metadata: self.metadata,
        }
    }
}

impl View for CapsuleFragProof {
    type V = CapsuleFragProofView;

    closed spec fn view(&self) -> CapsuleFragProofView {
        CapsuleFragProofView {
            e2: self.point_e2@,
            v2: self.point_v2@,
            u1: self.kfrag_commitment@,
            u2: self.kfrag_pok@,
            z3: self.signature@,
            sig_bob: self.kfrag_signature@,
            metadata: self.metadata@,
        }
    }
}

/// One proxy's re-encryption of a capsule.
pub struct CapsuleFrag {
    pub(crate) point_e1: CurvePoint,
    pub(crate) point_v1: CurvePoint,
    pub(crate) kfrag_id: CurveScalar,
    pub(crate) precursor: CurvePoint,
    pub(crate) proof: CapsuleFragProof,
}

impl Clone for CapsuleFrag {
    fn clone(&self) -> (r: Self)
        ensures
            r@ == self@,
    {
        proof {
            use_type_invariant(self);
        }
        CapsuleFrag {
            point_e1: self.point_e1,
            point_v1: self.point_v1,
            kfrag_id: self.kfrag_id,
            precursor: self.precursor,
            proof: self.proof.clone(),
        }
    }
}

impl View for CapsuleFrag {
    type V = CapsuleFragView;

    closed spec fn view(&self) -> CapsuleFragView {
        CapsuleFragView {
            e1: self.point_e1@,
            v1: self.point_v1@,
            kfrag_id: self.kfrag_id@,
            precursor: self.precursor@,
            proof: self.proof@,
        }
    }
}

impl CapsuleFrag {
    #[verifier::type_invariant]
    pub(crate) open spec fn type_inv(self) -> bool {
        &&& 0 < self@.e1 < q()
        &&& 0 < self@.v1 < q()
        &&& self@.kfrag_id < q()
        &&& 0 < self@.precursor < q()
        &&& 0 < self@.proof.e2 < q()
        &&& 0 < self@.proof.v2 < q()
        &&& 0 < self@.proof.u1 < q()
        &&& 0 < self@.proof.u2 < q()
        &&& self@.proof.z3 < q()
        &&& self@.proof.metadata < q()
        &&& self@.proof.sig_bob.len() == 64
        &&& self@.e1 == self.point_e1@
        &&& self@.v1 == self.point_v1@
        &&& self@.kfrag_id == self.kfrag_id@
        &&& self@.precursor == self.precursor@
        &&& self@.proof.e2 == self.proof.point_e2@
        &&& self@.proof.v2 == self.proof.point_v2@
        &&& self@.proof.u1 == self.proof.kfrag_commitment@
        &&& self@.proof.u2 == self.proof.kfrag_pok@
        &&& self@.proof.z3 == self.proof.signature@
        &&& self@.proof.sig_bob == self.proof.kfrag_signature@
        &&& self@.proof.metadata == self.proof.metadata@
    }

    /// Re-encrypts a capsule under one key fragment, proving correctness
    /// with a fresh nonce.  The fragment's key must not be zero: the
    /// identity that would result cannot be encoded.
    pub fn from_kfrag(capsule: &Capsule, kfrag: &KeyFrag, metadata: Option<&[u8]>) -> (r:
        CapsuleFrag)
        requires
            kfrag@.key != 0,
        ensures
            cfrag_rel(capsule@, kfrag@.key, kfrag@.id, kfrag@.precursor, kfrag@.commitment,
                kfrag@.sig_bob, crate::random_oracles::opt_bytes(metadata), r@),
            r@.proof.u1 == kfrag@.commitment,
    {
        proof {
            use_type_invariant(capsule);
            use_type_invariant(kfrag);
        }
        let rk = kfrag.key;
        let e1 = point_mul(&capsule.point_e, &rk);
        let v1 = point_mul(&capsule.point_v, &rk);
        let metadata_sc = match metadata {
            Some(s) => {
                let no_points: Vec<CurvePoint> = Vec::new();
                let m = hash_to_scalar(no_points.as_slice(), Some(s));
                proof {
                    assert(point_views(Seq::<CurvePoint>::empty()) =~= Seq::<nat>::empty());
                }
                m
            },
            None => scalar_zero(),
        };
        let t = random_nonzero_scalar();
        let e2 = point_mul(&capsule.point_e, &t);
        let v2 = point_mul(&capsule.point_v, &t);
        let u2 = point_mul(&capsule.params.u, &t);
        let u1 = kfrag.commitment;
        let hash_pts = vec![
            capsule.point_e,
            e1,
            e2,
            capsule.point_v,
            v1,
            v2,
            capsule.params.u,
            u1,
            u2,
        ];
        let md_bytes = scalar_to_bytes(&metadata_sc);
        let h = hash_to_scalar(hash_pts.as_slice(), Some(md_bytes.as_slice()));
        proof {
            assert(point_views(hash_pts@) =~= seq![
                capsule@.e,
                e1@,
                e2@,
                capsule@.v,
                v1@,
                v2@,
                capsule@.u,
                u1@,
                u2@,
            ]);
        }
        let z3 = scalar_add(&t, &scalar_mul(&rk, &h));
        let result = CapsuleFrag {
            point_e1: e1,
            point_v1: v1,
            kfrag_id: kfrag.id,
            precursor: kfrag.precursor,
            proof: CapsuleFragProof {
                point_e2: e2,
                point_v2: v2,
                kfrag_commitment: u1,
                kfrag_pok: u2,
                signature: z3,
                kfrag_signature: kfrag.signature_for_bob.clone(),
                metadata: metadata_sc,
            },
        };
        proof {
            use_type_invariant(&metadata_sc);
            use_type_invariant(&t);
            let h_val = cfrag_challenge(capsule@, result@);
            assert(h@ == h_val);
            assert((t@ + (kfrag@.key * h_val) % q()) % q() == (t@ + kfrag@.key * h_val) % q()) by {
                lemma_add_mod_noop_right(t@ as int, (kfrag@.key * h_val) as int, q() as int);
            }
            assert(cfrag_rel(capsule@, kfrag@.key, kfrag@.id, kfrag@.precursor, kfrag@.commitment,
                kfrag@.sig_bob, crate::random_oracles::opt_bytes(metadata), result@));
        }
        result
    }

    /// Checks the provenance signature and the three re-encryption
    /// equations against the capsule and the three public keys.
    pub fn verify(
        &self,
        capsule: &Capsule,
        delegating_pubkey: &UmbralPublicKey,
        receiving_pubkey: &UmbralPublicKey,
        signing_pubkey: &UmbralPublicKey,
    ) -> (r: bool)
        ensures
            r == cfrag_is_valid(capsule@, self@, delegating_pubkey@, receiving_pubkey@,
                signing_pubkey@),
    {
        proof {
            use_type_invariant(self);
            use_type_invariant(capsule);
        }
        let hash_pts = vec![
            capsule.point_e,
            self.point_e1,
            self.proof.point_e2,
            capsule.point_v,
            self.point_v1,
            self.proof.point_v2,
            capsule.params.u,
            self.proof.kfrag_commitment,
            self.proof.kfrag_pok,
        ];
        let md_bytes = scalar_to_bytes(&self.proof.metadata);
        let h = hash_to_scalar(hash_pts.as_slice(), Some(md_bytes.as_slice()));
        proof {
            assert(point_views(hash_pts@) =~= seq![
                capsule@.e,
                self@.e1,
                self@.proof.e2,
                capsule@.v,
                self@.v1,
                self@.proof.v2,
                capsule@.u,
                self@.proof.u1,
                self@.proof.u2,
            ]);
            assert(h@ == cfrag_challenge(capsule@, self@));
        }
        let message = crate::key_frag::bob_message_bytes(
            &self.kfrag_id,
            delegating_pubkey,
            receiving_pubkey,
            &self.proof.kfrag_commitment,
            &self.precursor,
        );
        let valid_kfrag_signature = signing_pubkey.verify(
            message.as_slice(),
            &self.proof.kfrag_signature,
        );
        let z3 = self.proof.signature;
        let correct_e = point_eq(
            &point_mul(&capsule.point_e, &z3),
            &point_add(&self.proof.point_e2, &point_mul(&self.point_e1, &h)),
        );
        let correct_v = point_eq(
            &point_mul(&capsule.point_v, &z3),
            &point_add(&self.proof.point_v2, &point_mul(&self.point_v1, &h)),
        );
        let correct_u = point_eq(
            &point_mul(&capsule.params.u, &z3),
            &point_add(&self.proof.kfrag_pok, &point_mul(&self.proof.kfrag_commitment, &h)),
        );
        proof {
            let h_val = cfrag_challenge(capsule@, self@);
            lemma_equation_rhs(self@.proof.e2, h_val, self@.e1);
            lemma_equation_rhs(self@.proof.v2, h_val, self@.v1);
            lemma_equation_rhs(self@.proof.u2, h_val, self@.proof.u1);
        }
        valid_kfrag_signature && correct_e && correct_v && correct_u
    }
}

/// Folding the challenge multiplication into the modulus: the right-hand
/// side of a re-encryption equation computed with curve operations equals
/// its canonical form.
proof fn lemma_equation_rhs(a: nat, h: nat, b: nat)
    requires
        a < q(),
    ensures
        (a + (b * h) % q()) % q() == (a + h * b) % q(),
{
    lemma_add_mod_noop_right(a as int, (b * h) as int, q() as int);
    lemma_mul_is_commutative(b as int, h as int);
}

/// The three Chaum-Pedersen equations hold of an honestly produced
/// fragment: with `z3 = t + key * h`, `base * z3` equals
/// `base * t + h * (base * key)` modulo `q` for each base.
proof fn lemma_reencryption_equation(base: nat, t: nat, key: nat, h: nat)
    ensures
        (base * ((t + key * h) % q())) % q() == ((base * t) % q() + h * ((base * key) % q())) % q(),
{
    let m = q() as int;
    let bi = base as int;
    let ti = t as int;
    let ki = key as int;
    let hi = h as int;
    assert((bi * ((ti + ki * hi) % m)) % m == (bi * (ti + ki * hi)) % m) by {
        lemma_mul_mod_noop_right(bi, ti + ki * hi, m);
    }
    assert(bi * (ti + ki * hi) == bi * ti + bi * (ki * hi)) by {
        lemma_mul_is_distributive_add(bi, ti, ki * hi);
    }
    assert(bi * (ki * hi) == hi * (bi * ki)) by {
        lemma_mul_is_associative(bi, ki, hi);
        lemma_mul_is_commutative(bi * ki, hi);
    }
    assert(((bi * ti) % m + hi * ((bi * ki) % m)) % m == ((bi * ti) % m + (hi * (bi * ki)) % m) % m)
        by {
        lemma_add_mod_noop_right((bi * ti) % m, hi * ((bi * ki) % m), m);
        lemma_mul_mod_noop_right(hi, bi * ki, m);
        lemma_add_mod_noop_right((bi * ti) % m, hi * (bi * ki), m);
    }
    assert(((bi * ti) % m + (hi * (bi * ki)) % m) % m == (bi * ti + hi * (bi * ki)) % m) by {
        lemma_add_mod_noop(bi * ti, hi * (bi * ki), m);
    }
}

/// Proof soundness, the honest direction: a fragment produced by
/// `from_kfrag` from a key fragment whose Bob-facing signature verifies
/// passes `verify` against the same capsule and keys.
#[verifier::rlimit(60)]
pub proof fn lemma_fresh_cfrag_verifies(
    cap: CapsuleView,
    key: nat,
    id: nat,
    precursor: nat,
    commitment: nat,
    sig_bob: Seq<u8>,
    m: Option<Seq<u8>>,
    cf: CapsuleFragView,
    delegating_pk: nat,
    receiving_pk: nat,
    signer: nat,
)
    requires
        cfrag_rel(cap, key, id, precursor, commitment, sig_bob, m, cf),
        ecdsa_verify(
            signer,
            sha3_256(kfrag_bob_message(id, delegating_pk, receiving_pk, commitment, precursor)),
            sig_bob,
        ),
        commitment == (key * cap.u) % q(),
    ensures
        cfrag_is_valid(cap, cf, delegating_pk, receiving_pk, signer),
{
    let t = choose|t: nat|
        {
            &&& 0 < t < q()
            &&& cf.e1 == (cap.e * key) % q()
            &&& cf.v1 == (cap.v * key) % q()
            &&& cf.kfrag_id == id
            &&& cf.precursor == precursor
            &&& cf.proof.u1 == commitment
            &&& cf.proof.e2 == #[trigger] ((cap.e * t) % q())
            &&& cf.proof.v2 == (cap.v * t) % q()
            &&& cf.proof.u2 == (cap.u * t) % q()
            &&& cf.proof.metadata == metadata_scalar(m)
            &&& cf.proof.z3 == (t + key * cfrag_challenge(cap, cf)) % q()
            &&& cf.proof.sig_bob == sig_bob
        };
    let h = cfrag_challenge(cap, cf);
    assert((cap.e * cf.proof.z3) % q() == (cf.proof.e2 + h * cf.e1) % q()) by {
        lemma_reencryption_equation(cap.e, t, key, h);
    }
    assert((cap.v * cf.proof.z3) % q() == (cf.proof.v2 + h * cf.v1) % q()) by {
        lemma_reencryption_equation(cap.v, t, key, h);
    }
    assert((cap.u * cf.proof.z3) % q() == (cf.proof.u2 + h * cf.proof.u1) % q()) by {
        lemma_reencryption_equation(cap.u, t, key, h);
        lemma_mul_is_commutative(cap.u as int, key as int);
    }
}

/// The canonical fixed-length encoding: seven points, three scalars and
/// the signature, 391 bytes in all.
pub open spec fn cfrag_bytes_spec(cf: CapsuleFragView) -> Seq<u8> {
    point_bytes(cf.e1) + point_bytes(cf.v1) + be_bytes_of(cf.kfrag_id, 32) + point_bytes(
        cf.precursor,
    ) + point_bytes(cf.proof.e2) + point_bytes(cf.proof.v2) + point_bytes(cf.proof.u1)
        + point_bytes(cf.proof.u2) + be_bytes_of(cf.proof.z3, 32) + cf.proof.sig_bob + be_bytes_of(
        cf.proof.metadata,
        32,
    )
}

/// What a byte string decodes to, or `None` where the length is wrong, a
/// point is malformed or a scalar is out of range.
pub open spec fn cfrag_from_bytes_spec(b: Seq<u8>) -> Option<CapsuleFragView> {
    if b.len() != 391 {
        None
    } else {
        let id = nat_of_be(b.subrange(66, 98));
        let z3 = nat_of_be(b.subrange(263, 295));
        let md = nat_of_be(b.subrange(359, 391));
        if id >= q() || z3 >= q() || md >= q() {
            None
        } else {
            match (
                point_of_bytes(b.subrange(0, 33)),
                point_of_bytes(b.subrange(33, 66)),
                point_of_bytes(b.subrange(98, 131)),
                point_of_bytes(b.subrange(131, 164)),
                point_of_bytes(b.subrange(164, 197)),
                point_of_bytes(b.subrange(197, 230)),
                point_of_bytes(b.subrange(230, 263)),
            ) {
                (Some(e1), Some(v1), Some(prec), Some(e2), Some(v2), Some(u1), Some(u2)) => Some(
                    CapsuleFragView {
                        e1,
                        v1,
                        kfrag_id: id,
                        precursor: prec,
                        proof: CapsuleFragProofView {
                            e2,
                            v2,
                            u1,
                            u2,
                            z3,
                            sig_bob: b.subrange(295, 359),
                            metadata: md,
                        },
                    },
                ),
                _ => None,
            }
        }
    }
}

impl CapsuleFrag {
    /// The canonical 391-byte encoding, which decodes back to this
    /// fragment.
    pub fn to_bytes(&self) -> (r: Vec<u8>)
        ensures
            r@ == cfrag_bytes_spec(self@),
            r@.len() == 391,
            cfrag_from_bytes_spec(r@) == Some(self@),
    {
        proof {
            use_type_invariant(self);
        }
        let mut r = point_to_bytes(&self.point_e1);
        let b_v1 = point_to_bytes(&self.point_v1);
        let b_id = scalar_to_bytes(&self.kfrag_id);
        let b_pre = point_to_bytes(&self.precursor);
        let b_e2 = point_to_bytes(&self.proof.point_e2);
        let b_v2 = point_to_bytes(&self.proof.point_v2);
        let b_u1 = point_to_bytes(&self.proof.kfrag_commitment);
        let b_u2 = point_to_bytes(&self.proof.kfrag_pok);
        let b_z3 = scalar_to_bytes(&self.proof.signature);
        let b_sig = self.proof.kfrag_signature.to_bytes();
        let b_md = scalar_to_bytes(&self.proof.metadata);
        r.extend_from_slice(b_v1.as_slice());
        r.extend_from_slice(b_id.as_slice());
        r.extend_from_slice(b_pre.as_slice());
        r.extend_from_slice(b_e2.as_slice());
        r.extend_from_slice(b_v2.as_slice());
        r.extend_from_slice(b_u1.as_slice());
        r.extend_from_slice(b_u2.as_slice());
        r.extend_from_slice(b_z3.as_slice());
        r.extend_from_slice(b_sig.as_slice());
        r.extend_from_slice(b_md.as_slice());
        proof {
            assert(r@ =~= cfrag_bytes_spec(self@));
            lemma_pow256_32();
            lemma_nat_of_be_bytes_of(self@.kfrag_id, 32);
            lemma_nat_of_be_bytes_of(self@.proof.z3, 32);
            lemma_nat_of_be_bytes_of(self@.proof.metadata, 32);
            assert(r@.subrange(0, 33) =~= point_bytes(self@.e1));
            assert(r@.subrange(33, 66) =~= point_bytes(self@.v1));
            assert(r@.subrange(66, 98) =~= be_bytes_of(self@.kfrag_id, 32));
            assert(r@.subrange(98, 131) =~= point_bytes(self@.precursor));
            assert(r@.subrange(131, 164) =~= point_bytes(self@.proof.e2));
            assert(r@.subrange(164, 197) =~= point_bytes(self@.proof.v2));
            assert(r@.subrange(197, 230) =~= point_bytes(self@.proof.u1));
            assert(r@.subrange(230, 263) =~= point_bytes(self@.proof.u2));
            assert(r@.subrange(263, 295) =~= be_bytes_of(self@.proof.z3, 32));
            assert(r@.subrange(295, 359) =~= self@.proof.sig_bob);
            assert(r@.subrange(359, 391) =~= be_bytes_of(self@.proof.metadata, 32));
        }
        r
    }

    /// Accepts exactly the canonical encodings.
    pub fn from_bytes(b: &[u8]) -> (r: Option<CapsuleFrag>)
        ensures
            match r {
                Some(cf) => cfrag_from_bytes_spec(b@) == Some(cf@),
                None => cfrag_from_bytes_spec(b@) is None,
            },
    {
        if b.len() != 391 {
            return None;
        }
        let kfrag_id = match bytes_to_scalar(slice_subrange(b, 66, 98)) {
            Some(s) => s,
            None => {
                return None;
            },
        };
        let z3 = match bytes_to_scalar(slice_subrange(b, 263, 295)) {
            Some(s) => s,
            None => {
                return None;
            },
        };
        let metadata = match bytes_to_scalar(slice_subrange(b, 359, 391)) {
            Some(s) => s,
            None => {
                return None;
            },
        };
        let point_e1 = match bytes_to_point(slice_subrange(b, 0, 33)) {
            Some(p) => p,
            None => {
                return None;
            },
        };
        let point_v1 = match bytes_to_point(slice_subrange(b, 33, 66)) {
            Some(p) => p,
            None => {
                return None;
            },
        };
        let precursor = match bytes_to_point(slice_subrange(b, 98, 131)) {
            Some(p) => p,
            None => {
                return None;
            },
        };
        let point_e2 = match bytes_to_point(slice_subrange(b, 131, 164)) {
            Some(p) => p,
            None => {
                return None;
            },
        };
        let point_v2 = match bytes_to_point(slice_subrange(b, 164, 197)) {
            Some(p) => p,
            None => {
                return None;
            },
        };
        let kfrag_commitment = match bytes_to_point(slice_subrange(b, 197, 230)) {
            Some(p) => p,
            None => {
                return None;
            },
        };
        let kfrag_pok = match bytes_to_point(slice_subrange(b, 230, 263)) {
            Some(p) => p,
            None => {
                return None;
            },
        };
        let kfrag_signature = match UmbralSignature::from_bytes(slice_subrange(b, 295, 359)) {
            Some(s) => s,
            None => {
                return None;
            },
        };
        Some(
            CapsuleFrag {
                point_e1,
                point_v1,
                kfrag_id,
                precursor,
                proof: CapsuleFragProof {
                    point_e2,
                    point_v2,
                    kfrag_commitment,
                    kfrag_pok,
                    signature: z3,
                    kfrag_signature,
                    metadata,
                },
            },
        )
    }
}


} // verus!
