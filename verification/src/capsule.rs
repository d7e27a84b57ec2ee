//! The capsule: the KEM half of the scheme.  A capsule `(E, V, s)` carries
//! an encapsulated secret recoverable by the delegating key, with a
//! Schnorr-style self-consistency signature `s`.

use crate::curve::{
    bytes_to_point, bytes_to_scalar, point_add, point_bytes, point_is_identity, point_mul,
    point_of_bytes, point_to_bytes, random_nonzero_scalar, scalar_add, scalar_is_zero, scalar_mul,
    scalar_to_bytes, CurvePoint, CurveScalar,
};
use crate::capsule_frag::{cfrag_is_valid, cfrag_rel, CapsuleFrag, CapsuleFragView};
use crate::key_frag::{
    d_value, kfrag_is_valid, scalar_views, share_index, KeyFrag,
};
use crate::keys::{UmbralPrivateKey, UmbralPublicKey};
use crate::math::{be_bytes_of, lemma_nat_of_be_bytes_of, lemma_pow256_32, nat_of_be, q};
use crate::params::UmbralParameters;
use crate::constants::{non_interactive_bytes, x_coordinate_bytes, x_coordinate_tag};
use crate::math::{lemma_mod_inv_cancel, lemma_mod_inv_unique, lemma_mod_sub_zero, mod_inv, mod_sub};
use crate::random_oracles::{hash_to_scalar, hash_to_scalar_spec, point_views};
use vstd::arithmetic::div_mod::{lemma_add_mod_noop_right, lemma_mul_mod_noop_right};
use vstd::prelude::*;
use vstd::slice::slice_subrange;

verus! {

/// What a capsule is made of: the discrete logarithms of `E` and `V`, the
/// signature scalar `s`, and the discrete logarithm of the parameter point
/// `u` it was made under.
pub struct CapsuleView {
    pub e: nat,
    pub v: nat,
    pub s: nat,
    pub u: nat,
}

/// The challenge scalar of a capsule: the hash of `(E, V)`.
pub open spec fn capsule_challenge(c: CapsuleView) -> nat {
    hash_to_scalar_spec(seq![c.e, c.v], None)
}

/// The challenge of an ephemeral pair, as `encapsulate` computes it.
pub open spec fn ephemerals_challenge(r: nat, u_s: nat) -> nat {
    hash_to_scalar_spec(seq![r, u_s], None)
}

/// The Schnorr check `s * g == V + h * E`, phrased over discrete
/// logarithms.
pub open spec fn capsule_is_valid(c: CapsuleView) -> bool {
    c.s == (c.v + capsule_challenge(c) * c.e) % q()
}

/// The canonical 98-byte encoding `E || V || s`.
pub open spec fn capsule_bytes_spec(c: CapsuleView) -> Seq<u8> {
    point_bytes(c.e) + point_bytes(c.v) + be_bytes_of(c.s, 32)
}

/// What a 98-byte string decodes to under parameters with point `u`, or
/// `None` where either point or the scalar is malformed.
pub open spec fn capsule_from_bytes_spec(b: Seq<u8>, u: nat) -> Option<CapsuleView> {
    if b.len() != 98 {
        None
    } else {
        match point_of_bytes(b.subrange(0, 33)) {
            None => None,
            Some(e) => match point_of_bytes(b.subrange(33, 66)) {
                None => None,
                Some(v) => {
                    let s = nat_of_be(b.subrange(66, 98));
                    if s < q() {
                        Some(CapsuleView { e, v, s, u })
                    } else {
                        None
                    }
                },
            },
        }
    }
}

/// How a capsule and seed relate to the public key they were encapsulated
/// for: the seed is a 33-byte point encoding, and for some nonzero
/// ephemerals `r` and `u_s`, `E = r * g`, `V = u_s * g`, `s = u_s + r * h`,
/// and the seed encodes `(r + u_s) * pk`, which is not the identity.
pub open spec fn encaps_rel(pk: nat, c: CapsuleView, seed: Seq<u8>) -> bool {
    &&& seed.len() == 33
    &&& exists|r: nat, u_s: nat|
        {
            &&& 0 < r < q()
            &&& 0 < u_s < q()
            &&& c.e == r
            &&& c.v == u_s
            &&& c.s == (u_s + r * #[trigger] ephemerals_challenge(r, u_s)) % q()
            &&& (r + u_s) % q() != 0
            &&& ((r + u_s) % q() * pk) % q() != 0
            &&& seed == point_bytes(((r + u_s) % q() * pk) % q())
        }
}

/// What opening a capsule with the delegating secret yields: the encoding
/// of `sk * (E + V)`, or `None` where that point is the identity.
pub open spec fn decaps_original_spec(c: CapsuleView, sk: nat) -> Option<Seq<u8>> {
    let d = ((c.e + c.v) % q() * sk) % q();
    if d == 0 {
        None
    } else {
        Some(point_bytes(d))
    }
}

/// KEM roundtrip: a capsule and seed encapsulated for `pk` open, under the
/// secret key of `pk`, to the same seed.
pub proof fn lemma_kem_roundtrip(pk: nat, sk: nat, c: CapsuleView, seed: Seq<u8>)
    requires
        pk == sk,
        encaps_rel(pk, c, seed),
    ensures
        decaps_original_spec(c, sk) == Some(seed),
{
    let (r, u_s) = choose|r: nat, u_s: nat|
        {
            &&& 0 < r < q()
            &&& 0 < u_s < q()
            &&& c.e == r
            &&& c.v == u_s
            &&& c.s == (u_s + r * #[trigger] ephemerals_challenge(r, u_s)) % q()
            &&& (r + u_s) % q() != 0
            &&& ((r + u_s) % q() * pk) % q() != 0
            &&& seed == point_bytes(((r + u_s) % q() * pk) % q())
        };
    assert(c.e + c.v == r + u_s);
}

/// Capsule self-check: every freshly encapsulated capsule passes `verify`.
pub proof fn lemma_fresh_capsule_valid(pk: nat, c: CapsuleView, seed: Seq<u8>)
    requires
        encaps_rel(pk, c, seed),
    ensures
        capsule_is_valid(c),
{
    let (r, u_s) = choose|r: nat, u_s: nat|
        {
            &&& 0 < r < q()
            &&& 0 < u_s < q()
            &&& c.e == r
            &&& c.v == u_s
            &&& c.s == (u_s + r * #[trigger] ephemerals_challenge(r, u_s)) % q()
            &&& (r + u_s) % q() != 0
            &&& ((r + u_s) % q() * pk) % q() != 0
            &&& seed == point_bytes(((r + u_s) % q() * pk) % q())
        };
    assert(seq![c.e, c.v] =~= seq![r, u_s]);
    assert(capsule_challenge(c) == ephemerals_challenge(r, u_s));
    assert(c.s == (u_s + r * ephemerals_challenge(r, u_s)) % q());
    assert(r * ephemerals_challenge(r, u_s) == capsule_challenge(c) * c.e) by {
        vstd::arithmetic::mul::lemma_mul_is_commutative(r as int, ephemerals_challenge(r,
            u_s) as int);
    }
}

/// Tampering with the signature scalar is always caught: with `E` and `V`
/// fixed, exactly one scalar passes the check.
pub proof fn lemma_capsule_signature_binds(c: CapsuleView, c2: CapsuleView)
    requires
        capsule_is_valid(c),
        c2.e == c.e,
        c2.v == c.v,
        c2.s != c.s,
    ensures
        !capsule_is_valid(c2),
{
    assert(capsule_challenge(c2) == capsule_challenge(c));
}

/// The capsule: points `E` and `V` and the signature scalar `s`, carried
/// with its parameters.
#[derive(Clone, Copy)]
pub struct Capsule {
    pub(crate) params: UmbralParameters,
    pub(crate) point_e: CurvePoint,
    pub(crate) point_v: CurvePoint,
    pub(crate) signature: CurveScalar,
}

impl View for Capsule {
    type V = CapsuleView;

    closed spec fn view(&self) -> CapsuleView {
        CapsuleView {
            e: self.point_e@,
            v: self.point_v@,
            s: self.signature@,
            u: self.params.u_value(),
        }
    }
}

impl Capsule {
    #[verifier::type_invariant]
    pub(crate) open spec fn type_inv(self) -> bool {
        &&& 0 < self@.e < q()
        &&& 0 < self@.v < q()
        &&& self@.s < q()
        &&& 0 < self@.u < q()
        &&& self@.e == self.point_e@
        &&& self@.v == self.point_v@
        &&& self@.s == self.signature@
        &&& self@.u == self.params.u@
    }

    /// The canonical 98-byte encoding `E || V || s`, which decodes back to
    /// this capsule.
    pub fn to_bytes(&self) -> (r: Vec<u8>)
        ensures
            r@ == capsule_bytes_spec(self@),
            r@.len() == 98,
            capsule_from_bytes_spec(r@, self@.u) == Some(self@),
    {
        proof {
            use_type_invariant(self);
        }
        let mut r = point_to_bytes(&self.point_e);
        let vb = point_to_bytes(&self.point_v);
        let sb = scalar_to_bytes(&self.signature);
        r.extend_from_slice(vb.as_slice());
        r.extend_from_slice(sb.as_slice());
        proof {
            assert(r@ =~= capsule_bytes_spec(self@));
            assert(r@.subrange(0, 33) =~= point_bytes(self@.e));
            assert(r@.subrange(33, 66) =~= point_bytes(self@.v));
            assert(r@.subrange(66, 98) =~= be_bytes_of(self@.s, 32));
            lemma_pow256_32();
            lemma_nat_of_be_bytes_of(self@.s, 32);
        }
        r
    }

    /// Accepts exactly the canonical encodings: 98 bytes holding two
    /// non-identity points and a scalar below the group order.
    pub fn from_bytes(b: &[u8], params: &UmbralParameters) -> (r: Option<Capsule>)
        ensures
            match r {
                Some(c) => capsule_from_bytes_spec(b@, params.u_value()) == Some(c@),
                None => capsule_from_bytes_spec(b@, params.u_value()) is None,
            },
    {
        proof {
            use_type_invariant(params);
        }
        if b.len() != 98 {
            return None;
        }
        let e = match bytes_to_point(slice_subrange(b, 0, 33)) {
            Some(e) => e,
            None => {
                return None;
            },
        };
        let v = match bytes_to_point(slice_subrange(b, 33, 66)) {
            Some(v) => v,
            None => {
                return None;
            },
        };
        let s = match bytes_to_scalar(slice_subrange(b, 66, 98)) {
            Some(s) => s,
            None => {
                return None;
            },
        };
        Some(Capsule { params: *params, point_e: e, point_v: v, signature: s })
    }

    /// Recomputes the challenge and checks `s * g == V + h * E`.
    pub fn verify(&self) -> (r: bool)
        ensures
            r == capsule_is_valid(self@),
    {
        proof {
            use_type_invariant(self);
        }
        let g = crate::curve::point_generator();
        let pts = vec![self.point_e, self.point_v];
        let h = hash_to_scalar(pts.as_slice(), None);
        proof {
            assert(point_views(pts@) =~= seq![self@.e, self@.v]);
        }
        let lhs = point_mul(&g, &self.signature);
        let rhs = point_add(&self.point_v, &point_mul(&self.point_e, &h));
        let r = crate::curve::point_eq(&lhs, &rhs);
        proof {
            use_type_invariant(&self.signature);
            vstd::arithmetic::div_mod::lemma_small_mod(self@.s, q());
            let h_val = capsule_challenge(self@);
            assert((self@.v + (h_val * self@.e) % q()) % q() == (self@.v + h_val * self@.e) % q())
                by {
                lemma_add_mod_noop_right(self@.v as int, (h_val * self@.e) as int, q() as int);
            }
            assert((self@.e * h_val) == (h_val * self@.e));
        }
        r
    }

    /// Encapsulates for the given ephemerals; the deterministic core of
    /// `from_pubkey`.  Fails exactly when the ephemerals sum to zero, in
    /// which case the shared point would be the identity.
    fn encapsulate_with(
        params: &UmbralParameters,
        alice_pubkey: &UmbralPublicKey,
        priv_r: &CurveScalar,
        priv_u: &CurveScalar,
    ) -> (r: Option<(Capsule, Vec<u8>)>)
        requires
            0 < priv_r@ < q(),
            0 < priv_u@ < q(),
        ensures
            match r {
                Some(p) => encaps_rel(alice_pubkey@, p.0@, p.1@) && (priv_r@ + priv_u@) % q() != 0
                    && p.0@.u == params.u_value(),
                None => (priv_r@ + priv_u@) % q() == 0,
            },
    {
        proof {
            use_type_invariant(params);
            use_type_invariant(alice_pubkey);
        }
        let pub_r = point_mul(&params.g, priv_r);
        let pub_u = point_mul(&params.g, priv_u);
        proof {
            vstd::arithmetic::div_mod::lemma_small_mod(priv_r@, q());
            vstd::arithmetic::div_mod::lemma_small_mod(priv_u@, q());
        }
        let pts = vec![pub_r, pub_u];
        let h = hash_to_scalar(pts.as_slice(), None);
        proof {
            assert(point_views(pts@) =~= seq![priv_r@, priv_u@]);
        }
        let s = scalar_add(priv_u, &scalar_mul(priv_r, &h));
        let sum = scalar_add(priv_r, priv_u);
        if scalar_is_zero(&sum) {
            return None;
        }
        let shared = point_mul(&alice_pubkey.point_key, &sum);
        let seed = point_to_bytes(&shared);
        let capsule = Capsule {
            params: *params,
            point_e: pub_r,
            point_v: pub_u,
            signature: s,
        };
        proof {
            let h_val = ephemerals_challenge(priv_r@, priv_u@);
            assert(h_val == h@);
            assert((priv_u@ + (priv_r@ * h_val) % q()) % q() == (priv_u@ + priv_r@ * h_val) % q())
                by {
                lemma_add_mod_noop_right(priv_u@ as int, (priv_r@ * h_val) as int, q() as int);
            }
            assert(capsule@.s == (priv_u@ + priv_r@ * ephemerals_challenge(priv_r@, priv_u@))
                % q());
            assert(((priv_r@ + priv_u@) % q() * alice_pubkey@) % q() == shared@);
            assert(encaps_rel(alice_pubkey@, capsule@, seed@));
        }
        Some((capsule, seed))
    }

    /// Generates a fresh capsule for `alice_pubkey` and the seed that keys
    /// the DEM.  `None` only in the vanishing case that the two sampled
    /// ephemerals cancel.
    pub fn from_pubkey(params: &UmbralParameters, alice_pubkey: &UmbralPublicKey) -> (r: Option<
        (Capsule, Vec<u8>),
    >)
        ensures
            match r {
                Some(p) => encaps_rel(alice_pubkey@, p.0@, p.1@) && p.0@.u == params.u_value(),
                None => true,
            },
    {
        let priv_r = random_nonzero_scalar();
        let priv_u = random_nonzero_scalar();
        Self::encapsulate_with(params, alice_pubkey, &priv_r, &priv_u)
    }

    /// Opens the capsule with the delegating secret key: the seed is the
    /// encoding of `sk * (E + V)`.  `None` exactly where that point is the
    /// identity, which no honestly produced capsule reaches.
    pub fn open_original(&self, private_key: &UmbralPrivateKey) -> (r: Option<Vec<u8>>)
        ensures
            match r {
                Some(seed) => decaps_original_spec(self@, private_key@) == Some(seed@),
                None => decaps_original_spec(self@, private_key@) is None,
            },
    {
        proof {
            use_type_invariant(self);
            use_type_invariant(private_key);
        }
        let ev = point_add(&self.point_e, &self.point_v);
        let shared = point_mul(&ev, &private_key.bn_key);
        if point_is_identity(&shared) {
            return None;
        }
        Some(point_to_bytes(&shared))
    }
}

/// One factor of a Lagrange coefficient: the running product times
/// `x_j * (x_j - x_i)^-1`, as the computation takes it modulo `q`.
pub open spec fn lambda_step(acc: nat, xj: nat, xi: nat) -> nat {
    ((acc * xj) % q() * mod_inv(mod_sub(xj, xi))) % q()
}

/// The partial product of the Lagrange coefficient at position `i` over
/// the first `k` evaluation points.
pub open spec fn lambda_partial(xs: Seq<nat>, i: int, k: int) -> nat
    decreases k,
{
    if k <= 0 {
        1
    } else {
        let prev = lambda_partial(xs, i, k - 1);
        if k - 1 == i {
            prev
        } else {
            lambda_step(prev, xs[k - 1], xs[i])
        }
    }
}

/// The Lagrange coefficient at zero for position `i` of the evaluation
/// points `xs`.
pub open spec fn lambda_at(xs: Seq<nat>, i: int) -> nat {
    lambda_partial(xs, i, xs.len() as int)
}

/// The Lagrange coefficient `prod_{j != i} x_j * (x_j - x_i)^-1` over the
/// scalar field, for pairwise distinct evaluation points.
pub fn lambda_coeff(xs: &[CurveScalar], i: usize) -> (r: CurveScalar)
    requires
        i < xs@.len(),
        forall|j: int| 0 <= j < xs@.len() && j != i ==> (#[trigger] xs@[j])@ != xs@[i as int]@,
    ensures
        r@ == lambda_at(scalar_views(xs@), i as int),
{
    let ghost views = scalar_views(xs@);
    let mut res = crate::curve::scalar_one();
    let mut j: usize = 0;
    while j < xs.len()
        invariant
            j <= xs@.len(),
            i < xs@.len(),
            views == scalar_views(xs@),
            views.len() == xs@.len(),
            forall|k: int| 0 <= k < xs@.len() && k != i ==> (#[trigger] xs@[k])@ != xs@[i as int]@,
            res@ == lambda_partial(views, i as int, j as int),
        decreases xs@.len() - j,
    {
        if j != i {
            let xj = xs[j];
            let xi = xs[i];
            proof {
                use_type_invariant(&xj);
                use_type_invariant(&xi);
                lemma_mod_sub_zero(xj@, xi@);
            }
            let d = crate::curve::scalar_sub(&xj, &xi);
            let d_inv = crate::curve::scalar_invert(&d);
            proof {
                use_type_invariant(&d_inv);
                lemma_mod_inv_unique(d@, d_inv@);
            }
            res = scalar_mul(&scalar_mul(&res, &xj), &d_inv);
        }
        j = j + 1;
    }
    res
}

/// The views of a sequence of capsule fragments.
pub open spec fn cfrag_views(s: Seq<CapsuleFrag>) -> Seq<CapsuleFragView> {
    s.map_values(|c: CapsuleFrag| c@)
}

/// The share indices the reconstruction derives: each fragment's id hashed
/// with the common precursor and Bob's key.
pub open spec fn reconstruction_indices(cfs: Seq<CapsuleFragView>, sk_b: nat) -> Seq<nat> {
    Seq::new(cfs.len(), |i: int| share_index(cfs[0].precursor, sk_b, cfs[i].kfrag_id))
}

pub open spec fn distinct_seq(s: Seq<nat>) -> bool {
    forall|i: int, j: int| 0 <= i < j < s.len() ==> s[i] != s[j]
}

/// The Lagrange-weighted sum of the first `k` values, modulo `q`.
pub open spec fn lagrange_sum(indices: Seq<nat>, values: Seq<nat>, k: int) -> nat
    decreases k,
{
    if k <= 0 {
        0
    } else {
        (lagrange_sum(indices, values, k - 1) + lambda_at(indices, k - 1) * values[k - 1]) % q()
    }
}

pub open spec fn e1_values(cfs: Seq<CapsuleFragView>) -> Seq<nat> {
    cfs.map_values(|c: CapsuleFragView| c.e1)
}

pub open spec fn v1_values(cfs: Seq<CapsuleFragView>) -> Seq<nat> {
    cfs.map_values(|c: CapsuleFragView| c.v1)
}

/// What opening a capsule from fragments yields, step by step: the
/// fragment list must be nonempty with one common precursor and pairwise
/// distinct share indices, the scalar `d` must not vanish, the
/// interpolated points must pass the consistency check against the
/// delegating key, and the shared point must not be the identity; the seed
/// is that point's encoding.
pub open spec fn open_reencrypted_spec(
    c: CapsuleView,
    sk_b: nat,
    dk: nat,
    cfs: Seq<CapsuleFragView>,
) -> Option<Seq<u8>> {
    if cfs.len() == 0 {
        None
    } else if !(forall|i: int|
        0 <= i < cfs.len() ==> (#[trigger] cfs[i]).precursor == cfs[0].precursor) {
        None
    } else if !distinct_seq(reconstruction_indices(cfs, sk_b)) {
        None
    } else if d_value(cfs[0].precursor, sk_b) == 0 {
        None
    } else {
        let d = d_value(cfs[0].precursor, sk_b);
        let indices = reconstruction_indices(cfs, sk_b);
        let e_p = lagrange_sum(indices, e1_values(cfs), cfs.len() as int);
        let v_p = lagrange_sum(indices, v1_values(cfs), cfs.len() as int);
        let t = (c.s * mod_inv(d)) % q();
        if (dk * t) % q() != (capsule_challenge(c) * e_p + v_p) % q() {
            None
        } else {
            let shared = ((e_p + v_p) % q() * d) % q();
            if shared == 0 {
                None
            } else {
                Some(point_bytes(shared))
            }
        }
    }
}

impl Capsule {
    /// Binds the capsule to the three public keys needed for verification
    /// and reconstruction.
    pub fn with_correctness_keys(
        &self,
        delegating: &UmbralPublicKey,
        receiving: &UmbralPublicKey,
        verifying: &UmbralPublicKey,
    ) -> (r: PreparedCapsule)
        ensures
            r@.capsule == self@,
            r@.delegating == delegating@,
            r@.receiving == receiving@,
            r@.verifying == verifying@,
    {
        PreparedCapsule {
            capsule: *self,
            delegating_key: *delegating,
            receiving_key: *receiving,
            verifying_key: *verifying,
        }
    }

    /// Recovers the seed from at least `t` fragments by Lagrange
    /// interpolation; every failure of the checks above yields `None`.
    #[verifier::rlimit(40)]
    pub fn open_reencrypted(
        &self,
        receiving_privkey: &UmbralPrivateKey,
        delegating_key: &UmbralPublicKey,
        cfrags: &[CapsuleFrag],
    ) -> (r: Option<Vec<u8>>)
        ensures
            match r {
                Some(seed) => open_reencrypted_spec(self@, receiving_privkey@, delegating_key@,
                    cfrag_views(cfrags@)) == Some(seed@),
                None => open_reencrypted_spec(self@, receiving_privkey@, delegating_key@,
                    cfrag_views(cfrags@)) is None,
            },
    {
        proof {
            use_type_invariant(self);
            use_type_invariant(receiving_privkey);
            use_type_invariant(delegating_key);
        }
        let ghost cfs = cfrag_views(cfrags@);
        let ghost sk = receiving_privkey@;
        if cfrags.len() == 0 {
            return None;
        }
        let cf0 = &cfrags[0];
        proof {
            use_type_invariant(cf0);
        }
        let precursor = cf0.precursor;
        let mut i: usize = 1;
        while i < cfrags.len()
            invariant
                1 <= i <= cfrags@.len(),
                cfs == cfrag_views(cfrags@),
                cfs.len() == cfrags@.len(),
                precursor@ == cfs[0].precursor,
                0 < precursor@ < q(),
                forall|k: int| 0 <= k < i ==> (#[trigger] cfs[k]).precursor == cfs[0].precursor,
            decreases cfrags@.len() - i,
        {
            let cfi = &cfrags[i];
            proof {
                use_type_invariant(cfi);
                assert(cfs[i as int] == cfrags@[i as int]@);
            }
            if !crate::curve::point_eq(&cfi.precursor, &precursor) {
                proof {
                    assert(cfs[i as int].precursor != cfs[0].precursor);
                }
                return None;
            }
            i = i + 1;
        }
        let pk_point = receiving_privkey.pubkey.point_key;
        let dh_point = point_mul(&precursor, &receiving_privkey.bn_key);
        proof {
            use_type_invariant(&receiving_privkey.pubkey);
        }
        let hash_pts = vec![precursor, pk_point, dh_point];
        proof {
            assert(point_views(hash_pts@) =~= seq![cfs[0].precursor, sk, (cfs[0].precursor * sk)
                % q()]);
        }
        let mut index_scalars: Vec<CurveScalar> = Vec::new();
        let mut i: usize = 0;
        while i < cfrags.len()
            invariant
                i <= cfrags@.len(),
                cfs == cfrag_views(cfrags@),
                cfs.len() == cfrags@.len(),
                0 < sk < q(),
                precursor@ == cfs[0].precursor,
                0 < precursor@ < q(),
                hash_pts@.len() == 3,
                point_views(hash_pts@) == seq![cfs[0].precursor, sk, (cfs[0].precursor * sk)
                    % q()],
                hash_pts@[0]@ != 0,
                hash_pts@[1]@ != 0,
                hash_pts@[2]@ != 0,
                index_scalars@.len() == i,
                scalar_views(index_scalars@) =~= reconstruction_indices(cfs, sk).take(i as int),
            decreases cfrags@.len() - i,
        {
            let cfi = &cfrags[i];
            proof {
                use_type_invariant(cfi);
            }
            let mut custom = x_coordinate_bytes();
            let id_bytes = crate::curve::scalar_to_bytes(&cfi.kfrag_id);
            custom.extend_from_slice(id_bytes.as_slice());
            proof {
                assert(custom@ =~= x_coordinate_tag() + be_bytes_of(cfs[i as int].kfrag_id, 32));
            }
            let idx = hash_to_scalar(hash_pts.as_slice(), Some(custom.as_slice()));
            let ghost prev = scalar_views(index_scalars@);
            index_scalars.push(idx);
            proof {
                assert(scalar_views(index_scalars@) =~= prev.push(idx@));
                assert(idx@ == share_index(cfs[0].precursor, sk, cfs[i as int].kfrag_id));
                assert(scalar_views(index_scalars@) =~= reconstruction_indices(cfs, sk).take(
                    i + 1));
            }
            i = i + 1;
        }
        let ghost indices = reconstruction_indices(cfs, sk);
        proof {
            assert(indices.take(cfs.len() as int) =~= indices);
        }
        let mut a: usize = 0;
        while a < index_scalars.len()
            invariant
                a <= index_scalars@.len(),
                cfs == cfrag_views(cfrags@),
                cfs.len() == cfrags@.len(),
                0 < cfs.len(),
                index_scalars@.len() == cfs.len(),
                scalar_views(index_scalars@) == indices,
                indices == reconstruction_indices(cfs, sk),
                indices.len() == cfs.len(),
                forall|k: int| 0 <= k < cfs.len() ==> (#[trigger] cfs[k]).precursor
                    == cfs[0].precursor,
                forall|x: int, y: int| 0 <= x < y < indices.len() && x < a ==> indices[x]
                    != indices[y],
                sk == receiving_privkey@,
            decreases index_scalars@.len() - a,
        {
            let mut b: usize = a + 1;
            while b < index_scalars.len()
                invariant
                    a < b <= index_scalars@.len(),
                    cfs == cfrag_views(cfrags@),
                    cfs.len() == cfrags@.len(),
                    0 < cfs.len(),
                    index_scalars@.len() == cfs.len(),
                    scalar_views(index_scalars@) == indices,
                    indices == reconstruction_indices(cfs, sk),
                    indices.len() == cfs.len(),
                    sk == receiving_privkey@,
                    forall|k: int| 0 <= k < cfs.len() ==> (#[trigger] cfs[k]).precursor
                        == cfs[0].precursor,
                    forall|x: int, y: int| 0 <= x < y < indices.len() && x < a ==> indices[x]
                        != indices[y],
                    forall|y: int| a < y < b ==> indices[a as int] != indices[y],
                decreases index_scalars@.len() - b,
            {
                if crate::curve::scalar_eq(&index_scalars[a], &index_scalars[b]) {
                    proof {
                        assert(scalar_views(index_scalars@)[a as int]
                            == index_scalars@[a as int]@);
                        assert(scalar_views(index_scalars@)[b as int]
                            == index_scalars@[b as int]@);
                        assert(indices[a as int] == indices[b as int]);
                        assert(!distinct_seq(indices));
                    }
                    return None;
                }
                b = b + 1;
            }
            a = a + 1;
        }
        let ni = non_interactive_bytes();
        let d = hash_to_scalar(hash_pts.as_slice(), Some(ni.as_slice()));
        proof {
            assert(d@ == d_value(cfs[0].precursor, sk));
        }
        if crate::curve::scalar_is_zero(&d) {
            return None;
        }
        let mut e_prime = crate::curve::point_identity();
        let mut v_prime = crate::curve::point_identity();
        let mut i: usize = 0;
        while i < cfrags.len()
            invariant
                i <= cfrags@.len(),
                cfs == cfrag_views(cfrags@),
                cfs.len() == cfrags@.len(),
                index_scalars@.len() == cfs.len(),
                scalar_views(index_scalars@) == indices,
                indices.len() == cfs.len(),
                distinct_seq(indices),
                e_prime@ == lagrange_sum(indices, e1_values(cfs), i as int),
                v_prime@ == lagrange_sum(indices, v1_values(cfs), i as int),
            decreases cfrags@.len() - i,
        {
            let cfi = &cfrags[i];
            proof {
                use_type_invariant(cfi);
                assert forall|j: int| 0 <= j < indices.len() && j != i implies (
                #[trigger] index_scalars@[j])@ != index_scalars@[i as int]@ by {
                    assert(scalar_views(index_scalars@)[j] == index_scalars@[j]@);
                    assert(scalar_views(index_scalars@)[i as int] == index_scalars@[i as int]@);
                }
            }
            let lam = lambda_coeff(index_scalars.as_slice(), i);
            let e_term = point_mul(&cfi.point_e1, &lam);
            let v_term = point_mul(&cfi.point_v1, &lam);
            e_prime = point_add(&e_prime, &e_term);
            v_prime = point_add(&v_prime, &v_term);
            proof {
                let li = lambda_at(indices, i as int);
                lemma_add_mod_noop_right(lagrange_sum(indices, e1_values(cfs), i as int) as int, (
                cfs[i as int].e1 * li) as int, q() as int);
                lemma_add_mod_noop_right(lagrange_sum(indices, v1_values(cfs), i as int) as int, (
                cfs[i as int].v1 * li) as int, q() as int);
                vstd::arithmetic::mul::lemma_mul_is_commutative(cfs[i as int].e1 as int,
                    li as int);
                vstd::arithmetic::mul::lemma_mul_is_commutative(cfs[i as int].v1 as int,
                    li as int);
                assert(e1_values(cfs)[i as int] == cfs[i as int].e1);
                assert(v1_values(cfs)[i as int] == cfs[i as int].v1);
            }
            i = i + 1;
        }
        let d_inv = crate::curve::scalar_invert(&d);
        proof {
            use_type_invariant(&d_inv);
            lemma_mod_inv_unique(d@, d_inv@);
        }
        let t_sc = scalar_mul(&self.signature, &d_inv);
        let lhs = point_mul(&delegating_key.point_key, &t_sc);
        let pts = vec![self.point_e, self.point_v];
        let h = hash_to_scalar(pts.as_slice(), None);
        proof {
            assert(point_views(pts@) =~= seq![self@.e, self@.v]);
        }
        let rhs = point_add(&point_mul(&e_prime, &h), &v_prime);
        proof {
            let e_p = lagrange_sum(indices, e1_values(cfs), cfs.len() as int);
            let v_p = lagrange_sum(indices, v1_values(cfs), cfs.len() as int);
            let h_val = capsule_challenge(self@);
            assert(v_p < q());
            assert(((e_p * h_val) % q() + v_p) % q() == (h_val * e_p + v_p) % q()) by {
                vstd::arithmetic::div_mod::lemma_add_mod_noop((e_p * h_val) as int, v_p as int,
                    q() as int);
                vstd::arithmetic::div_mod::lemma_small_mod(v_p, q());
                vstd::arithmetic::mul::lemma_mul_is_commutative(e_p as int, h_val as int);
            }
        }
        if !crate::curve::point_eq(&lhs, &rhs) {
            return None;
        }
        let sum_ev = point_add(&e_prime, &v_prime);
        let shared = point_mul(&sum_ev, &d);
        if point_is_identity(&shared) {
            return None;
        }
        Some(point_to_bytes(&shared))
    }
}

/// What a prepared capsule is made of: the capsule and the three keys it
/// is bound to.
pub struct PreparedCapsuleView {
    pub capsule: CapsuleView,
    pub delegating: nat,
    pub receiving: nat,
    pub verifying: nat,
}

/// A capsule bound to the delegating, receiving and verifying public keys;
/// a view, not a new secret.
#[derive(Clone, Copy)]
pub struct PreparedCapsule {
    pub(crate) capsule: Capsule,
    pub(crate) delegating_key: UmbralPublicKey,
    pub(crate) receiving_key: UmbralPublicKey,
    pub(crate) verifying_key: UmbralPublicKey,
}

impl View for PreparedCapsule {
    type V = PreparedCapsuleView;

    closed spec fn view(&self) -> PreparedCapsuleView {
        PreparedCapsuleView {
            capsule: self.capsule@,
            delegating: self.delegating_key@,
            receiving: self.receiving_key@,
            verifying: self.verifying_key@,
        }
    }
}

impl PreparedCapsule {
    #[verifier::type_invariant]
    pub(crate) open spec fn type_inv(self) -> bool {
        &&& self@.capsule == self.capsule@
        &&& self@.delegating == self.delegating_key@
        &&& self@.receiving == self.receiving_key@
        &&& self@.verifying == self.verifying_key@
    }

    /// Checks a capsule fragment against this capsule and its three keys.
    pub fn verify_cfrag(&self, cfrag: &CapsuleFrag) -> (r: bool)
        ensures
            r == cfrag_is_valid(self@.capsule, cfrag@, self@.delegating, self@.receiving,
                self@.verifying),
    {
        proof {
            use_type_invariant(self);
        }
        cfrag.verify(&self.capsule, &self.delegating_key, &self.receiving_key, &self.verifying_key)
    }

    /// Checks a key fragment against this capsule's keys, passing both
    /// embedded keys.
    pub fn verify_kfrag(&self, kfrag: &KeyFrag) -> (r: bool)
        ensures
            r == kfrag_is_valid(kfrag@, self@.verifying, Some(self@.delegating),
                Some(self@.receiving)),
    {
        proof {
            use_type_invariant(self);
        }
        kfrag.verify(&self.verifying_key, Some(&self.delegating_key), Some(&self.receiving_key))
    }

    /// Re-encrypts this capsule under one key fragment, optionally
    /// verifying the fragment first; with verification requested, a
    /// fragment that fails it yields `None`.
    pub fn reencrypt(&self, kfrag: &KeyFrag, metadata: Option<&[u8]>, verify_kfrag: bool) -> (r:
        Option<CapsuleFrag>)
        requires
            !verify_kfrag ==> kfrag@.key != 0,
        ensures
            match r {
                Some(cf) => cfrag_rel(self@.capsule, kfrag@.key, kfrag@.id, kfrag@.precursor,
                    kfrag@.commitment, kfrag@.sig_bob, crate::random_oracles::opt_bytes(metadata),
                    cf@) && (verify_kfrag ==> kfrag_is_valid(kfrag@, self@.verifying,
                    Some(self@.delegating), Some(self@.receiving))),
                None => verify_kfrag && !kfrag_is_valid(kfrag@, self@.verifying,
                    Some(self@.delegating), Some(self@.receiving)),
            },
    {
        proof {
            use_type_invariant(self);
            use_type_invariant(kfrag);
        }
        if verify_kfrag {
            if !self.verify_kfrag(kfrag) {
                return None;
            }
            proof {
                assert(kfrag_is_valid(kfrag@, self@.verifying, Some(self@.delegating),
                    Some(self@.receiving)));
                assert(kfrag@.commitment == (kfrag@.key * kfrag@.u) % q());
                vstd::arithmetic::div_mod::lemma_small_mod(0nat, q());
                assert(kfrag@.key != 0) by {
                    if kfrag@.key == 0 {
                        vstd::arithmetic::mul::lemma_mul_basics(kfrag@.u as int);
                        assert(kfrag@.key * kfrag@.u == 0);
                        assert(kfrag@.commitment == 0);
                    }
                }
            }
        }
        Some(crate::capsule_frag::CapsuleFrag::from_kfrag(&self.capsule, kfrag, metadata))
    }

    /// Recovers the seed from fragments, optionally verifying each first;
    /// with verification requested, any failing fragment yields `None`.
    pub fn open_reencrypted(
        &self,
        cfrags: &[CapsuleFrag],
        receiving_privkey: &UmbralPrivateKey,
        check_proof: bool,
    ) -> (r: Option<Vec<u8>>)
        ensures
            match r {
                Some(seed) => open_reencrypted_spec(self@.capsule, receiving_privkey@,
                    self@.delegating, cfrag_views(cfrags@)) == Some(seed@) && (check_proof
                    ==> forall|i: int|
                    0 <= i < cfrags@.len() ==> cfrag_is_valid(self@.capsule,
                        (#[trigger] cfrags@[i])@, self@.delegating, self@.receiving,
                        self@.verifying)),
                None => (check_proof && exists|i: int|
                    0 <= i < cfrags@.len() && !cfrag_is_valid(self@.capsule,
                        (#[trigger] cfrags@[i])@, self@.delegating, self@.receiving,
                        self@.verifying)) || open_reencrypted_spec(self@.capsule,
                    receiving_privkey@, self@.delegating, cfrag_views(cfrags@)) is None,
            },
    {
        proof {
            use_type_invariant(self);
        }
        if check_proof {
            let mut i: usize = 0;
            while i < cfrags.len()
                invariant
                    i <= cfrags@.len(),
                    check_proof,
                    forall|k: int|
                        0 <= k < i ==> cfrag_is_valid(self@.capsule, (#[trigger] cfrags@[k])@,
                            self@.delegating, self@.receiving, self@.verifying),
                decreases cfrags@.len() - i,
            {
                proof {
                    use_type_invariant(self);
                }
                if !self.verify_cfrag(&cfrags[i]) {
                    proof {
                        assert(!cfrag_is_valid(self@.capsule, (cfrags@[i as int])@,
                            self@.delegating, self@.receiving, self@.verifying));
                        assert(exists|k: int|
                            0 <= k < cfrags@.len() && !cfrag_is_valid(self@.capsule, (
                            #[trigger] cfrags@[k])@, self@.delegating, self@.receiving,
                                self@.verifying));
                    }
                    return None;
                }
                i = i + 1;
            }
        }
        self.capsule.open_reencrypted(receiving_privkey, &self.delegating_key, cfrags)
    }
}


/// A degree-one polynomial evaluates to `c0 + x * c1`.
proof fn lemma_poly_eval_deg1(c0: nat, c1: nat, x: nat)
    requires
        c1 < q(),
    ensures
        crate::math::poly_eval(seq![c0, c1], x) == (c0 + x * c1) % q(),
{
    assert(seq![c0, c1].drop_first() =~= seq![c1]);
    assert(seq![c1].drop_first() =~= Seq::<nat>::empty());
    assert(seq![c1].len() == 1 && seq![c1][0] == c1);
    assert(seq![c0, c1].len() == 2 && seq![c0, c1][0] == c0);
    assert(crate::math::poly_eval(Seq::<nat>::empty(), x) == 0);
    assert(crate::math::poly_eval(seq![c1], x) == (c1 + x * crate::math::poly_eval(
        Seq::<nat>::empty(), x)) % q());
    assert(x * 0 == 0) by {
        vstd::arithmetic::mul::lemma_mul_basics(x as int);
    }
    assert(crate::math::poly_eval(seq![c1], x) == c1) by {
        vstd::arithmetic::div_mod::lemma_small_mod(c1, q());
    }
}

/// Threshold reconstruction, the two-share case: for two shares of a
/// degree-one polynomial at distinct evaluation points, the
/// Lagrange-weighted sum that `open_reencrypted` computes is the
/// polynomial's constant term.  The two hypotheses on `mod_inv` hold
/// because `q` is prime; they are exactly what the executable code
/// establishes when it inverts the two differences.
#[verifier::rlimit(60)]
pub proof fn lemma_two_share_interpolation(x0: nat, x1: nat, c0: nat, c1: nat)
    requires
        x0 < q(),
        x1 < q(),
        c0 < q(),
        c1 < q(),
        x0 != x1,
        (mod_sub(x1, x0) * mod_inv(mod_sub(x1, x0))) % q() == 1,
        (mod_sub(x0, x1) * mod_inv(mod_sub(x0, x1))) % q() == 1,
    ensures
        lagrange_sum(
            seq![x0, x1],
            seq![
                crate::math::poly_eval(seq![c0, c1], x0),
                crate::math::poly_eval(seq![c0, c1], x1),
            ],
            2,
        ) == c0,
{
    let m = q() as int;
    let xs = seq![x0, x1];
    let d1 = mod_sub(x1, x0) as int;
    let d0 = mod_sub(x0, x1) as int;
    let a = mod_inv(mod_sub(x1, x0)) as int;
    let b = mod_inv(mod_sub(x0, x1)) as int;
    let x0i = x0 as int;
    let x1i = x1 as int;
    let c0i = c0 as int;
    let c1i = c1 as int;

    // The two differences are opposite residues.
    assert((d0 + d1) % m == 0) by {
        assert(d1 == ((x1 + q() - x0) as int) % m);
        assert(d0 == ((x0 + q() - x1) as int) % m);
        vstd::arithmetic::div_mod::lemma_add_mod_noop((x0 + q() - x1) as int, (x1 + q()
            - x0) as int, m);
        assert((x0 + q() - x1) + (x1 + q() - x0) == 2 * q());
        assert((2 * m) % m == 0) by {
            vstd::arithmetic::div_mod::lemma_mod_multiples_basic(2, m);
        }
    }

    // Their inverses are opposite residues too.
    assert((b * d1) % m == m - 1) by {
        assert((b * ((d0 + d1) % m)) % m == (b * (d0 + d1)) % m) by {
            lemma_mul_mod_noop_right(b, d0 + d1, m);
        }
        assert(b * (d0 + d1) == b * d0 + b * d1) by {
            vstd::arithmetic::mul::lemma_mul_is_distributive_add(b, d0, d1);
        }
        assert((b * d0 + b * d1) % m == ((b * d0) % m + (b * d1) % m) % m) by {
            vstd::arithmetic::div_mod::lemma_add_mod_noop(b * d0, b * d1, m);
        }
        assert((b * d0) % m == (d0 * b) % m) by {
            vstd::arithmetic::mul::lemma_mul_is_commutative(b, d0);
        }
        assert((1 + (b * d1) % m) % m == 0);
        assert(0 <= (b * d1) % m < m) by {
            vstd::arithmetic::div_mod::lemma_mod_bound(b * d1, m);
        }
        if (b * d1) % m < m - 1 {
            vstd::arithmetic::div_mod::lemma_small_mod((1 + (b * d1) % m) as nat, q());
        }
    }
    assert((a + b) % m == 0) by {
        assert(((a + b) * d1) % m == 0) by {
            assert((a + b) * d1 == a * d1 + b * d1) by {
                vstd::arithmetic::mul::lemma_mul_is_distributive_sub_other_way(d1, a + b, b);
                vstd::arithmetic::mul::lemma_mul_is_distributive_add_other_way(d1, a, b);
            }
            assert((a * d1 + b * d1) % m == ((a * d1) % m + (b * d1) % m) % m) by {
                vstd::arithmetic::div_mod::lemma_add_mod_noop(a * d1, b * d1, m);
            }
            assert((a * d1) % m == (d1 * a) % m) by {
                vstd::arithmetic::mul::lemma_mul_is_commutative(a, d1);
            }
            assert((1 + (m - 1)) % m == 0) by {
                vstd::arithmetic::div_mod::lemma_mod_self_0(m);
            }
        }
        assert((((a + b) * d1) * a) % m == ((a + b) * (d1 * a)) % m) by {
            vstd::arithmetic::mul::lemma_mul_is_associative(a + b, d1, a);
        }
        assert(((a + b) * (d1 * a)) % m == ((a + b) * ((d1 * a) % m)) % m) by {
            lemma_mul_mod_noop_right(a + b, d1 * a, m);
        }
        assert((d1 * a) % m == 1);
        assert((((a + b) * d1) * a) % m == (((a + b) * d1) % m * a) % m) by {
            vstd::arithmetic::div_mod::lemma_mul_mod_noop_left((a + b) * d1, a, m);
        }
        assert((0 * a) % m == 0) by {
            vstd::arithmetic::div_mod::lemma_small_mod(0nat, q());
        }
    }

    // The two Lagrange coefficients.
    let l0 = lambda_at(xs, 0);
    let l1 = lambda_at(xs, 1);
    let l0i = l0 as int;
    let l1i = l1 as int;
    assert(xs.len() == 2 && xs[0] == x0 && xs[1] == x1);
    assert(lambda_partial(xs, 0, 0) == 1);
    assert(lambda_partial(xs, 0, 1) == 1);
    assert(lambda_partial(xs, 0, 2) == lambda_step(1, x1, x0));
    assert(l0 == ((1 * x1) % q() * mod_inv(mod_sub(x1, x0))) % q());
    assert(lambda_partial(xs, 1, 0) == 1);
    assert(lambda_partial(xs, 1, 1) == lambda_step(1, x0, x1));
    assert(lambda_partial(xs, 1, 2) == lambda_partial(xs, 1, 1));
    assert(l1 == ((1 * x0) % q() * mod_inv(mod_sub(x0, x1))) % q());
    assert(l0i == (x1i * a) % m) by {
        vstd::arithmetic::div_mod::lemma_small_mod(x1, q());
        vstd::arithmetic::div_mod::lemma_mul_mod_noop_left(x1i, a, m);
    }
    assert(l1i == (x0i * b) % m) by {
        vstd::arithmetic::div_mod::lemma_small_mod(x0, q());
        vstd::arithmetic::div_mod::lemma_mul_mod_noop_left(x0i, b, m);
    }

    // The coefficients sum to one.
    assert((l0i + l1i) % m == 1) by {
        assert((l0i + l1i) % m == (x1i * a + x0i * b) % m) by {
            vstd::arithmetic::div_mod::lemma_add_mod_noop(x1i * a, x0i * b, m);
        }
        assert(x1i * a + x0i * b == (x1i * a - x0i * a) + x0i * (a + b)) by {
            vstd::arithmetic::mul::lemma_mul_is_distributive_add(x0i, a, b);
        }
        assert((x1i * a - x0i * a) % m == 1) by {
            assert((d1 * a) % m == 1);
            assert(d1 == (x1i + m - x0i) % m);
            assert((d1 * a) % m == ((x1i + m - x0i) * a) % m) by {
                vstd::arithmetic::div_mod::lemma_mul_mod_noop_left(x1i + m - x0i, a, m);
            }
            assert((x1i + m - x0i) * a == m * a + (x1i * a - x0i * a)) by {
                vstd::arithmetic::mul::lemma_mul_is_distributive_add_other_way(a, x1i + m - x0i,
                    0);
                assert((x1i + m - x0i) * a == x1i * a + m * a - x0i * a) by (nonlinear_arith);
            }
            assert((m * a + (x1i * a - x0i * a)) % m == (x1i * a - x0i * a) % m) by {
                vstd::arithmetic::div_mod::lemma_mod_multiples_vanish(a, x1i * a - x0i * a, m);
            }
        }
        assert((x0i * (a + b)) % m == 0) by {
            lemma_mul_mod_noop_right(x0i, a + b, m);
            assert((x0i * 0) % m == 0) by {
                vstd::arithmetic::div_mod::lemma_small_mod(0nat, q());
            }
        }
        assert(((x1i * a - x0i * a) + x0i * (a + b)) % m == ((x1i * a - x0i * a) % m + (x0i * (a
            + b)) % m) % m) by {
            vstd::arithmetic::div_mod::lemma_add_mod_noop(x1i * a - x0i * a, x0i * (a + b), m);
        }
        assert((1int + 0) % m == 1) by {
            vstd::arithmetic::div_mod::lemma_small_mod(1nat, q());
        }
    }

    // Weighted by the evaluation points, they cancel.
    assert((l0i * x0i + l1i * x1i) % m == 0) by {
        assert((l0i * x0i + l1i * x1i) % m == ((x1i * a) * x0i + (x0i * b) * x1i) % m) by {
            vstd::arithmetic::div_mod::lemma_mul_mod_noop_left(x1i * a, x0i, m);
            vstd::arithmetic::div_mod::lemma_mul_mod_noop_left(x0i * b, x1i, m);
            vstd::arithmetic::div_mod::lemma_add_mod_noop((x1i * a) * x0i, (x0i * b) * x1i, m);
            vstd::arithmetic::div_mod::lemma_add_mod_noop(((x1i * a) % m) * x0i, ((x0i * b) % m)
                * x1i, m);
        }
        assert((x1i * a) * x0i + (x0i * b) * x1i == (x0i * x1i) * (a + b)) by (nonlinear_arith);
        assert(((x0i * x1i) * (a + b)) % m == 0) by {
            lemma_mul_mod_noop_right(x0i * x1i, a + b, m);
            assert(((x0i * x1i) * 0) % m == 0) by {
                vstd::arithmetic::div_mod::lemma_small_mod(0nat, q());
            }
        }
    }

    // Assemble the weighted sum of the two shares.
    let f0 = crate::math::poly_eval(seq![c0, c1], x0);
    let f1 = crate::math::poly_eval(seq![c0, c1], x1);
    lemma_poly_eval_deg1(c0, c1, x0);
    lemma_poly_eval_deg1(c0, c1, x1);
    assert(f0 == (c0 + x0 * c1) % q());
    assert(f1 == (c0 + x1 * c1) % q());
    let s = lagrange_sum(xs, seq![f0, f1], 2);
    assert(lagrange_sum(xs, seq![f0, f1], 0) == 0);
    assert(lagrange_sum(xs, seq![f0, f1], 1) == (0 + l0 * f0) % q());
    assert(s == ((0 + l0 * f0) % q() + l1 * f1) % q());
    assert(s as int == (l0i * (f0 as int) + l1i * (f1 as int)) % m) by {
        vstd::arithmetic::div_mod::lemma_mod_twice(l0i * (f0 as int), m);
        vstd::arithmetic::div_mod::lemma_add_mod_noop((l0i * (f0 as int)) % m, l1i * (
        f1 as int), m);
        vstd::arithmetic::div_mod::lemma_add_mod_noop(l0i * (f0 as int), l1i * (f1 as int), m);
        vstd::arithmetic::div_mod::lemma_mod_mod(l1i * (f1 as int), m, 1);
    }
    assert((l0i * (f0 as int)) % m == (l0i * (c0i + x0i * c1i)) % m) by {
        lemma_mul_mod_noop_right(l0i, c0i + x0i * c1i, m);
    }
    assert((l1i * (f1 as int)) % m == (l1i * (c0i + x1i * c1i)) % m) by {
        lemma_mul_mod_noop_right(l1i, c0i + x1i * c1i, m);
    }
    assert((l0i * (f0 as int) + l1i * (f1 as int)) % m == (l0i * (c0i + x0i * c1i) + l1i * (c0i
        + x1i * c1i)) % m) by {
        vstd::arithmetic::div_mod::lemma_add_mod_noop(l0i * (f0 as int), l1i * (f1 as int), m);
        vstd::arithmetic::div_mod::lemma_add_mod_noop(l0i * (c0i + x0i * c1i), l1i * (c0i + x1i
            * c1i), m);
    }
    assert(l0i * (c0i + x0i * c1i) == l0i * c0i + l0i * (x0i * c1i)) by {
        vstd::arithmetic::mul::lemma_mul_is_distributive_add(l0i, c0i, x0i * c1i);
    }
    assert(l1i * (c0i + x1i * c1i) == l1i * c0i + l1i * (x1i * c1i)) by {
        vstd::arithmetic::mul::lemma_mul_is_distributive_add(l1i, c0i, x1i * c1i);
    }
    assert(l0i * (x0i * c1i) == c1i * (l0i * x0i)) by (nonlinear_arith);
    assert(l1i * (x1i * c1i) == c1i * (l1i * x1i)) by (nonlinear_arith);
    assert(c0i * (l0i + l1i) == c0i * l0i + c0i * l1i) by {
        vstd::arithmetic::mul::lemma_mul_is_distributive_add(c0i, l0i, l1i);
    }
    assert(c1i * (l0i * x0i + l1i * x1i) == c1i * (l0i * x0i) + c1i * (l1i * x1i)) by {
        vstd::arithmetic::mul::lemma_mul_is_distributive_add(c1i, l0i * x0i, l1i * x1i);
    }
    assert(c0i * l0i == l0i * c0i && c0i * l1i == l1i * c0i) by {
        vstd::arithmetic::mul::lemma_mul_is_commutative(c0i, l0i);
        vstd::arithmetic::mul::lemma_mul_is_commutative(c0i, l1i);
    }
    assert(l0i * (c0i + x0i * c1i) + l1i * (c0i + x1i * c1i) == c0i * (l0i + l1i) + c1i * (l0i
        * x0i + l1i * x1i));
    assert((c0i * (l0i + l1i) + c1i * (l0i * x0i + l1i * x1i)) % m == c0i) by {
        assert((c0i * (l0i + l1i)) % m == (c0i * 1) % m) by {
            lemma_mul_mod_noop_right(c0i, l0i + l1i, m);
        }
        assert((c1i * (l0i * x0i + l1i * x1i)) % m == (c1i * 0) % m) by {
            lemma_mul_mod_noop_right(c1i, l0i * x0i + l1i * x1i, m);
        }
        assert((c0i * (l0i + l1i) + c1i * (l0i * x0i + l1i * x1i)) % m == ((c0i * (l0i + l1i))
            % m + (c1i * (l0i * x0i + l1i * x1i)) % m) % m) by {
            vstd::arithmetic::div_mod::lemma_add_mod_noop(c0i * (l0i + l1i), c1i * (l0i * x0i
                + l1i * x1i), m);
        }
        assert((c0i * 1) % m == c0i && (c1i * 0) % m == 0) by {
            vstd::arithmetic::div_mod::lemma_small_mod(c0, q());
            vstd::arithmetic::div_mod::lemma_small_mod(0nat, q());
        }
        assert((c0i + 0) % m == c0i) by {
            vstd::arithmetic::div_mod::lemma_small_mod(c0, q());
        }
    }
}


/// The two-share case, lifted to the points the reconstruction sums: the
/// Lagrange-weighted sum of a base scaled by the two shares is the base
/// scaled by the polynomial's constant term.  This is how `E'` and `V'`
/// recover `E` and `V` scaled by the delegation constant.
#[verifier::rlimit(60)]
pub proof fn lemma_two_share_scaled_interpolation(x0: nat, x1: nat, c0: nat, c1: nat, base: nat)
    requires
        x0 < q(),
        x1 < q(),
        c0 < q(),
        c1 < q(),
        x0 != x1,
        (mod_sub(x1, x0) * mod_inv(mod_sub(x1, x0))) % q() == 1,
        (mod_sub(x0, x1) * mod_inv(mod_sub(x0, x1))) % q() == 1,
    ensures
        lagrange_sum(
            seq![x0, x1],
            seq![
                (base * crate::math::poly_eval(seq![c0, c1], x0)) % q(),
                (base * crate::math::poly_eval(seq![c0, c1], x1)) % q(),
            ],
            2,
        ) == (base * c0) % q(),
{
    lemma_two_share_interpolation(x0, x1, c0, c1);
    let m = q() as int;
    let xs = seq![x0, x1];
    let f0 = crate::math::poly_eval(seq![c0, c1], x0);
    let f1 = crate::math::poly_eval(seq![c0, c1], x1);
    let l0i = lambda_at(xs, 0) as int;
    let l1i = lambda_at(xs, 1) as int;
    let bi = base as int;
    let f0i = f0 as int;
    let f1i = f1 as int;
    let v0 = (base * f0) % q();
    let v1 = (base * f1) % q();

    // The plain sum equals the constant term.
    let s_plain = lagrange_sum(xs, seq![f0, f1], 2);
    assert(lagrange_sum(xs, seq![f0, f1], 0) == 0);
    assert(lagrange_sum(xs, seq![f0, f1], 1) == (0 + lambda_at(xs, 0) * f0) % q());
    assert(s_plain == ((0 + lambda_at(xs, 0) * f0) % q() + lambda_at(xs, 1) * f1) % q());
    assert(s_plain as int == (l0i * f0i + l1i * f1i) % m) by {
        vstd::arithmetic::div_mod::lemma_mod_twice(l0i * f0i, m);
        vstd::arithmetic::div_mod::lemma_add_mod_noop((l0i * f0i) % m, l1i * f1i, m);
        vstd::arithmetic::div_mod::lemma_add_mod_noop(l0i * f0i, l1i * f1i, m);
    }
    assert(s_plain == c0);

    // The scaled sum pulls the base out front.
    let s = lagrange_sum(xs, seq![v0, v1], 2);
    assert(lagrange_sum(xs, seq![v0, v1], 0) == 0);
    assert(lagrange_sum(xs, seq![v0, v1], 1) == (0 + lambda_at(xs, 0) * v0) % q());
    assert(s == ((0 + lambda_at(xs, 0) * v0) % q() + lambda_at(xs, 1) * v1) % q());
    assert(s as int == (l0i * (v0 as int) + l1i * (v1 as int)) % m) by {
        vstd::arithmetic::div_mod::lemma_mod_twice(l0i * (v0 as int), m);
        vstd::arithmetic::div_mod::lemma_add_mod_noop((l0i * (v0 as int)) % m, l1i * (
        v1 as int), m);
        vstd::arithmetic::div_mod::lemma_add_mod_noop(l0i * (v0 as int), l1i * (v1 as int), m);
    }
    assert((l0i * (v0 as int) + l1i * (v1 as int)) % m == (l0i * (bi * f0i) + l1i * (bi * f1i))
        % m) by {
        lemma_mul_mod_noop_right(l0i, bi * f0i, m);
        lemma_mul_mod_noop_right(l1i, bi * f1i, m);
        vstd::arithmetic::div_mod::lemma_add_mod_noop(l0i * ((bi * f0i) % m), l1i * ((bi * f1i)
            % m), m);
        vstd::arithmetic::div_mod::lemma_add_mod_noop(l0i * (bi * f0i), l1i * (bi * f1i), m);
    }
    assert(l0i * (bi * f0i) == bi * (l0i * f0i)) by (nonlinear_arith);
    assert(l1i * (bi * f1i) == bi * (l1i * f1i)) by (nonlinear_arith);
    assert(bi * (l0i * f0i) + bi * (l1i * f1i) == bi * (l0i * f0i + l1i * f1i)) by {
        vstd::arithmetic::mul::lemma_mul_is_distributive_add(bi, l0i * f0i, l1i * f1i);
    }
    assert((bi * (l0i * f0i + l1i * f1i)) % m == (bi * ((l0i * f0i + l1i * f1i) % m)) % m) by {
        lemma_mul_mod_noop_right(bi, l0i * f0i + l1i * f1i, m);
    }
    assert((l0i * f0i + l1i * f1i) % m == c0 as int);
}


/// Threshold reconstruction, end to end for two shares: opening a capsule
/// from two honestly re-encrypted fragments of a two-way split yields
/// exactly what opening it with the delegating secret key yields.  The
/// hypotheses are what generation and re-encryption establish: the capsule
/// passes its self-check, the constant coefficient is `sk_a * d^-1`, the
/// two share indices differ, and each fragment scales `E` and `V` by its
/// share of the polynomial.
#[verifier::rlimit(100)]
pub proof fn lemma_two_share_reconstruction(
    cap: CapsuleView,
    sk_a: nat,
    sk_b: nat,
    x: nat,
    c0: nat,
    c1: nat,
    cf0: CapsuleFragView,
    cf1: CapsuleFragView,
)
    requires
        cap.e < q(),
        cap.v < q(),
        cap.s < q(),
        0 < sk_a < q(),
        capsule_is_valid(cap),
        c0 == (sk_a * mod_inv(d_value(x, sk_b))) % q(),
        c1 < q(),
        d_value(x, sk_b) != 0,
        (d_value(x, sk_b) * mod_inv(d_value(x, sk_b))) % q() == 1,
        cf0.precursor == x,
        cf1.precursor == x,
        share_index(x, sk_b, cf0.kfrag_id) != share_index(x, sk_b, cf1.kfrag_id),
        (mod_sub(share_index(x, sk_b, cf1.kfrag_id), share_index(x, sk_b, cf0.kfrag_id)) * mod_inv(
        mod_sub(share_index(x, sk_b, cf1.kfrag_id), share_index(x, sk_b, cf0.kfrag_id)))) % q()
            == 1,
        (mod_sub(share_index(x, sk_b, cf0.kfrag_id), share_index(x, sk_b, cf1.kfrag_id)) * mod_inv(
        mod_sub(share_index(x, sk_b, cf0.kfrag_id), share_index(x, sk_b, cf1.kfrag_id)))) % q()
            == 1,
        cf0.e1 == (cap.e * crate::math::poly_eval(seq![c0, c1], share_index(x, sk_b,
        cf0.kfrag_id))) % q(),
        cf0.v1 == (cap.v * crate::math::poly_eval(seq![c0, c1], share_index(x, sk_b,
        cf0.kfrag_id))) % q(),
        cf1.e1 == (cap.e * crate::math::poly_eval(seq![c0, c1], share_index(x, sk_b,
        cf1.kfrag_id))) % q(),
        cf1.v1 == (cap.v * crate::math::poly_eval(seq![c0, c1], share_index(x, sk_b,
        cf1.kfrag_id))) % q(),
    ensures
        open_reencrypted_spec(cap, sk_b, sk_a, seq![cf0, cf1]) == decaps_original_spec(cap, sk_a),
{
    let m = q() as int;
    let cfs = seq![cf0, cf1];
    let d = d_value(x, sk_b);
    let di = mod_inv(d);
    let xi0 = share_index(x, sk_b, cf0.kfrag_id);
    let xi1 = share_index(x, sk_b, cf1.kfrag_id);
    let indices = reconstruction_indices(cfs, sk_b);
    assert(cfs.len() == 2 && cfs[0] == cf0 && cfs[1] == cf1);
    assert(indices =~= seq![xi0, xi1]);
    assert(forall|i: int| 0 <= i < cfs.len() ==> (#[trigger] cfs[i]).precursor == cfs[0].precursor);
    assert(distinct_seq(indices));
    assert(xi0 < q() && xi1 < q());
    assert(c0 < q());

    // The interpolated points are E and V scaled by the constant term.
    let rk0 = crate::math::poly_eval(seq![c0, c1], xi0);
    let rk1 = crate::math::poly_eval(seq![c0, c1], xi1);
    assert(e1_values(cfs) =~= seq![(cap.e * rk0) % q(), (cap.e * rk1) % q()]);
    assert(v1_values(cfs) =~= seq![(cap.v * rk0) % q(), (cap.v * rk1) % q()]);
    lemma_two_share_scaled_interpolation(xi0, xi1, c0, c1, cap.e);
    lemma_two_share_scaled_interpolation(xi0, xi1, c0, c1, cap.v);
    let e_p = lagrange_sum(indices, e1_values(cfs), 2);
    let v_p = lagrange_sum(indices, v1_values(cfs), 2);
    assert(e_p == (cap.e * c0) % q());
    assert(v_p == (cap.v * c0) % q());

    // The consistency check passes.
    let h = capsule_challenge(cap);
    let ei = cap.e as int;
    let vi = cap.v as int;
    let si = cap.s as int;
    let hi = h as int;
    let ai = sk_a as int;
    let c0i = c0 as int;
    let dii = di as int;
    let t = (cap.s * di) % q();
    assert((sk_a * t) % q() == (h * e_p + v_p) % q()) by {
        assert((ai * ((si * dii) % m)) % m == (ai * (si * dii)) % m) by {
            lemma_mul_mod_noop_right(ai, si * dii, m);
        }
        assert((hi * ((ei * c0i) % m) + (vi * c0i) % m) % m == (hi * (ei * c0i) + vi * c0i)
            % m) by {
            lemma_mul_mod_noop_right(hi, ei * c0i, m);
            vstd::arithmetic::div_mod::lemma_add_mod_noop(hi * ((ei * c0i) % m), (vi * c0i)
                % m, m);
            vstd::arithmetic::div_mod::lemma_add_mod_noop(hi * (ei * c0i), vi * c0i, m);
            vstd::arithmetic::div_mod::lemma_mod_twice(vi * c0i, m);
            vstd::arithmetic::div_mod::lemma_mod_twice(hi * (ei * c0i), m);
            vstd::arithmetic::div_mod::lemma_add_mod_noop((hi * (ei * c0i)) % m, (vi * c0i)
                % m, m);
        }
        assert(hi * (ei * c0i) == (hi * ei) * c0i) by {
            vstd::arithmetic::mul::lemma_mul_is_associative(hi, ei, c0i);
        }
        assert((hi * ei) * c0i + vi * c0i == (hi * ei + vi) * c0i) by {
            vstd::arithmetic::mul::lemma_mul_is_distributive_add_other_way(c0i, hi * ei, vi);
        }
        assert(((hi * ei + vi) * c0i) % m == (((hi * ei + vi) % m) * c0i) % m) by {
            vstd::arithmetic::div_mod::lemma_mul_mod_noop_left(hi * ei + vi, c0i, m);
        }
        assert((hi * ei + vi) % m == (vi + hi * ei) % m);
        assert(cap.s == (cap.v + h * cap.e) % q());
        assert((si * c0i) % m == (si * ((ai * dii) % m)) % m);
        assert((si * ((ai * dii) % m)) % m == (si * (ai * dii)) % m) by {
            lemma_mul_mod_noop_right(si, ai * dii, m);
        }
        assert(si * (ai * dii) == ai * (si * dii)) by (nonlinear_arith);
    }

    // The recovered point is the one the delegating key computes.
    let shared = ((e_p + v_p) % q() * d) % q();
    assert(shared == ((cap.e + cap.v) % q() * sk_a) % q()) by {
        assert(((ei * c0i) % m + (vi * c0i) % m) % m == (ei * c0i + vi * c0i) % m) by {
            vstd::arithmetic::div_mod::lemma_add_mod_noop(ei * c0i, vi * c0i, m);
        }
        assert(ei * c0i + vi * c0i == (ei + vi) * c0i) by {
            vstd::arithmetic::mul::lemma_mul_is_distributive_add_other_way(c0i, ei, vi);
        }
        assert((((ei + vi) * c0i) % m * (d as int)) % m == (((ei + vi) % m * c0i) % m * (
        d as int)) % m) by {
            vstd::arithmetic::div_mod::lemma_mul_mod_noop_left(ei + vi, c0i, m);
        }
        let evm = ((cap.e + cap.v) % q()) as int;
        assert((((evm * c0i) % m) * (d as int)) % m == ((evm * ((ai * dii) % m)) % m * (
        d as int)) % m);
        assert((evm * ((ai * dii) % m)) % m == (evm * (ai * dii)) % m) by {
            lemma_mul_mod_noop_right(evm, ai * dii, m);
        }
        assert(evm * (ai * dii) == (evm * ai) * dii) by {
            vstd::arithmetic::mul::lemma_mul_is_associative(evm, ai, dii);
        }
        assert(((evm * ai) * dii) % m == (((evm * ai) % m) * dii) % m) by {
            vstd::arithmetic::div_mod::lemma_mul_mod_noop_left(evm * ai, dii, m);
        }
        let w = ((((cap.e + cap.v) % q()) * sk_a) % q());
        assert((((w as int) * dii) % m * (d as int)) % m == w as int) by {
            lemma_mod_inv_cancel(w, d, di);
        }
    }
    assert(open_reencrypted_spec(cap, sk_b, sk_a, cfs) == decaps_original_spec(cap, sk_a));
}


} // verus!
