//! Re-encryption key fragments: Shamir shares of the re-encryption key,
//! each carrying a commitment and two signatures.

use crate::constants::{
    non_interactive_bytes, non_interactive_tag, x_coordinate_bytes, x_coordinate_tag,
};
use crate::curve::{
    bytes_to_point, bytes_to_scalar, point_bytes, point_eq, point_mul, point_of_bytes,
    point_to_bytes, random_nonzero_scalar, random_scalar, scalar_add, scalar_invert,
    scalar_is_zero, scalar_mul, scalar_to_bytes, scalar_zero, CurvePoint, CurveScalar,
};
use crate::keys::{ecdsa_verify, UmbralPrivateKey, UmbralPublicKey, UmbralSignature};
use crate::math::{
    be_bytes_of, lemma_mod_inv_unique, lemma_nat_of_be_bytes_of, lemma_pow256_32, mod_inv,
    nat_of_be, poly_eval, q,
};
use crate::params::UmbralParameters;
use crate::random_oracles::{hash_to_scalar, hash_to_scalar_spec, point_views, sha3_256};
use vstd::arithmetic::div_mod::{lemma_add_mod_noop_right, lemma_small_mod};
use vstd::prelude::*;
use vstd::slice::slice_subrange;

verus! {

/// The Diffie-Hellman point between the precursor `x * g` and Bob's key.
pub open spec fn dh_value(x: nat, pk_b: nat) -> nat {
    (x * pk_b) % q()
}

/// The non-interactivity scalar `d`: the hash of precursor, Bob's key and
/// their Diffie-Hellman point under the `NON_INTERACTIVE` label.
pub open spec fn d_value(x: nat, pk_b: nat) -> nat {
    hash_to_scalar_spec(seq![x, pk_b, dh_value(x, pk_b)], Some(non_interactive_tag()))
}

/// The Shamir evaluation point of the share with the given id: the same
/// tuple hashed under the `X_COORDINATE` label with the id appended.
pub open spec fn share_index(x: nat, pk_b: nat, id: nat) -> nat {
    hash_to_scalar_spec(
        seq![x, pk_b, dh_value(x, pk_b)],
        Some(x_coordinate_tag() + be_bytes_of(id, 32)),
    )
}

/// What a key fragment is made of, in discrete logarithms and scalar
/// values; `u` is the parameter point the commitment is made against.
pub struct KFragView {
    pub id: nat,
    pub key: nat,
    pub precursor: nat,
    pub commitment: nat,
    pub sig_proxy: Seq<u8>,
    pub sig_bob: Seq<u8>,
    pub maybe_delegating: Option<nat>,
    pub maybe_receiving: Option<nat>,
    pub u: nat,
}

/// The message `signature_for_proxy` signs: id, commitment, precursor, a
/// two-byte tag naming which keys are embedded, then those keys.
pub open spec fn kfrag_proxy_message(
    id: nat,
    commitment: nat,
    precursor: nat,
    md: Option<nat>,
    mr: Option<nat>,
) -> Seq<u8> {
    be_bytes_of(id, 32) + point_bytes(commitment) + point_bytes(precursor) + seq![
        (if md is Some {
            1u8
        } else {
            0u8
        }),
        (if mr is Some {
            1u8
        } else {
            0u8
        }),
    ] + (match md {
        Some(d) => point_bytes(d),
        None => Seq::empty(),
    }) + (match mr {
        Some(r) => point_bytes(r),
        None => Seq::empty(),
    })
}

/// The message `signature_for_bob` signs: id, both public keys, commitment
/// and precursor, always all five.
pub open spec fn kfrag_bob_message(
    id: nat,
    delegating_pk: nat,
    receiving_pk: nat,
    commitment: nat,
    precursor: nat,
) -> Seq<u8> {
    be_bytes_of(id, 32) + point_bytes(delegating_pk) + point_bytes(receiving_pk) + point_bytes(
        commitment,
    ) + point_bytes(precursor)
}

/// What `KeyFrag::verify` checks: the commitment opens to `key * u` and the
/// proxy signature covers the message rebuilt from the keys the caller
/// passed.
pub open spec fn kfrag_is_valid(
    k: KFragView,
    signer: nat,
    md: Option<nat>,
    mr: Option<nat>,
) -> bool {
    &&& k.commitment == (k.key * k.u) % q()
    &&& ecdsa_verify(
        signer,
        sha3_256(kfrag_proxy_message(k.id, k.commitment, k.precursor, md, mr)),
        k.sig_proxy,
    )
}

/// How one generated fragment relates to the generation inputs: its key is
/// the polynomial evaluated at its share index, the commitment opens to it,
/// the embedded keys follow the two booleans, and both signatures verify
/// under the signer.
pub open spec fn kfrag_gen_rel(
    k: KFragView,
    x: nat,
    coeffs: Seq<nat>,
    pk_a: nat,
    pk_b: nat,
    signer: nat,
    sd: bool,
    sr: bool,
    u: nat,
) -> bool {
    &&& 0 < k.id < q()
    &&& k.precursor == x
    &&& k.key == poly_eval(coeffs, share_index(x, pk_b, k.id))
    &&& k.commitment == (k.key * u) % q()
    &&& k.u == u
    &&& k.maybe_delegating == (if sd {
        Some(pk_a)
    } else {
        None
    })
    &&& k.maybe_receiving == (if sr {
        Some(pk_b)
    } else {
        None
    })
    &&& ecdsa_verify(
        signer,
        sha3_256(
            kfrag_proxy_message(k.id, k.commitment, k.precursor, k.maybe_delegating,
                k.maybe_receiving),
        ),
        k.sig_proxy,
    )
    &&& ecdsa_verify(
        signer,
        sha3_256(kfrag_bob_message(k.id, pk_a, pk_b, k.commitment, k.precursor)),
        k.sig_bob,
    )
}

/// How a whole batch of fragments relates to the generation inputs: one
/// precursor secret `x` and one coefficient vector serve every fragment,
/// and the constant coefficient is `sk_a * d^-1`.
pub open spec fn kfrags_gen_rel(
    x: nat,
    coeffs: Seq<nat>,
    ks: Seq<KFragView>,
    sk_a: nat,
    pk_a: nat,
    pk_b: nat,
    signer: nat,
    threshold: nat,
    sd: bool,
    sr: bool,
    u: nat,
) -> bool {
    &&& 0 < x < q()
    &&& coeffs.len() == threshold
    &&& forall|i: int| 0 <= i < coeffs.len() ==> #[trigger] coeffs[i] < q()
    &&& d_value(x, pk_b) != 0
    &&& threshold > 0 ==> coeffs[0] == (sk_a * mod_inv(d_value(x, pk_b))) % q()
    &&& forall|i: int|
        0 <= i < ks.len() ==> kfrag_gen_rel(#[trigger] ks[i], x, coeffs, pk_a, pk_b, signer, sd,
            sr, u)
}

/// The views of a sequence of fragments.
pub open spec fn kfrag_views(s: Seq<KeyFrag>) -> Seq<KFragView> {
    s.map_values(|k: KeyFrag| k@)
}

pub open spec fn opt_pk_view(o: Option<&UmbralPublicKey>) -> Option<nat> {
    match o {
        Some(k) => Some(k@),
        None => None,
    }
}

/// One re-encryption key fragment.
pub struct KeyFrag {
    pub(crate) params: UmbralParameters,
    pub(crate) id: CurveScalar,
    pub(crate) key: CurveScalar,
    pub(crate) precursor: CurvePoint,
    pub(crate) commitment: CurvePoint,
    pub(crate) signature_for_proxy: UmbralSignature,
    pub(crate) signature_for_bob: UmbralSignature,
    pub(crate) maybe_delegating_pk: Option<UmbralPublicKey>,
    pub(crate) maybe_receiving_pk: Option<UmbralPublicKey>,
}

impl View for KeyFrag {
    type V = KFragView;

    closed spec fn view(&self) -> KFragView {
        KFragView {
            id: self.id@,
            key: self.key@,
            precursor: self.precursor@,
            commitment: self.commitment@,
            sig_proxy: self.signature_for_proxy@,
            sig_bob: self.signature_for_bob@,
            maybe_delegating: match self.maybe_delegating_pk {
                Some(k) => Some(k@),
                None => None,
            },
            maybe_receiving: match self.maybe_receiving_pk {
                Some(k) => Some(k@),
                None => None,
            },
            u: self.params.u_value(),
        }
    }
}

impl KeyFrag {
    #[verifier::type_invariant]
    pub(crate) open spec fn type_inv(self) -> bool {
        &&& self@.id < q()
        &&& self@.key < q()
        &&& 0 < self@.precursor < q()
        &&& 0 < self@.commitment < q()
        &&& self@.sig_proxy.len() == 64
        &&& self@.sig_bob.len() == 64
        &&& 0 < self@.u < q()
        &&& self@.id == self.id@
        &&& self@.key == self.key@
        &&& self@.precursor == self.precursor@
        &&& self@.commitment == self.commitment@
        &&& self@.sig_proxy == self.signature_for_proxy@
        &&& self@.sig_bob == self.signature_for_bob@
        &&& self@.u == self.params.u@
        &&& self@.maybe_delegating == (match self.maybe_delegating_pk {
            Some(k) => Some(k@),
            None => None,
        })
        &&& self@.maybe_receiving == (match self.maybe_receiving_pk {
            Some(k) => Some(k@),
            None => None,
        })
        &&& (self@.maybe_delegating matches Some(d) ==> 0 < d < q())
        &&& (self@.maybe_receiving matches Some(r) ==> 0 < r < q())
    }

    /// Checks the commitment against `key * u` and the proxy signature
    /// against the message rebuilt from the keys the caller passes; the
    /// same keys must be passed that were selected at generation.
    pub fn verify(
        &self,
        signing_pubkey: &UmbralPublicKey,
        maybe_delegating_pubkey: Option<&UmbralPublicKey>,
        maybe_receiving_pubkey: Option<&UmbralPublicKey>,
    ) -> (r: bool)
        ensures
            r == kfrag_is_valid(self@, signing_pubkey@, opt_pk_view(maybe_delegating_pubkey),
                opt_pk_view(maybe_receiving_pubkey)),
    {
        proof {
            use_type_invariant(self);
        }
        let commitment_ok = point_eq(&self.commitment, &point_mul(&self.params.u, &self.key));
        proof {
            vstd::arithmetic::mul::lemma_mul_is_commutative(self@.u as int, self@.key as int);
        }
        let message = proxy_message_bytes(&self.id, &self.commitment, &self.precursor,
            maybe_delegating_pubkey, maybe_receiving_pubkey);
        let sig_ok = signing_pubkey.verify(message.as_slice(), &self.signature_for_proxy);
        commitment_ok && sig_ok
    }
}

/// Builds the proxy-facing signed message for the given key selection.
fn proxy_message_bytes(
    id: &CurveScalar,
    commitment: &CurvePoint,
    precursor: &CurvePoint,
    md: Option<&UmbralPublicKey>,
    mr: Option<&UmbralPublicKey>,
) -> (r: Vec<u8>)
    requires
        commitment@ != 0,
        precursor@ != 0,
    ensures
        r@ == kfrag_proxy_message(id@, commitment@, precursor@, opt_pk_view(md), opt_pk_view(mr)),
{
    let mut m = scalar_to_bytes(id);
    let cb = point_to_bytes(commitment);
    let pb = point_to_bytes(precursor);
    m.extend_from_slice(cb.as_slice());
    m.extend_from_slice(pb.as_slice());
    match md {
        Some(_) => m.push(1u8),
        None => m.push(0u8),
    }
    match mr {
        Some(_) => m.push(1u8),
        None => m.push(0u8),
    }
    match md {
        Some(k) => {
            let kb = k.to_bytes();
            m.extend_from_slice(kb.as_slice());
        },
        None => {},
    }
    match mr {
        Some(k) => {
            let kb = k.to_bytes();
            m.extend_from_slice(kb.as_slice());
        },
        None => {},
    }
    proof {
        assert(m@ =~= kfrag_proxy_message(id@, commitment@, precursor@, opt_pk_view(md),
            opt_pk_view(mr)));
    }
    m
}

/// Builds the Bob-facing signed message.
pub(crate) fn bob_message_bytes(
    id: &CurveScalar,
    delegating_pk: &UmbralPublicKey,
    receiving_pk: &UmbralPublicKey,
    commitment: &CurvePoint,
    precursor: &CurvePoint,
) -> (r: Vec<u8>)
    requires
        commitment@ != 0,
        precursor@ != 0,
    ensures
        r@ == kfrag_bob_message(id@, delegating_pk@, receiving_pk@, commitment@, precursor@),
{
    let mut m = scalar_to_bytes(id);
    let db = delegating_pk.to_bytes();
    let rb = receiving_pk.to_bytes();
    let cb = point_to_bytes(commitment);
    let pb = point_to_bytes(precursor);
    m.extend_from_slice(db.as_slice());
    m.extend_from_slice(rb.as_slice());
    m.extend_from_slice(cb.as_slice());
    m.extend_from_slice(pb.as_slice());
    proof {
        assert(m@ =~= kfrag_bob_message(id@, delegating_pk@, receiving_pk@, commitment@,
            precursor@));
    }
    m
}

/// The views of the coefficient scalars.
pub open spec fn scalar_views(s: Seq<CurveScalar>) -> Seq<nat> {
    s.map_values(|c: CurveScalar| c@)
}

/// Evaluates the polynomial with the given coefficients (constant term
/// first) at `x` by Horner's rule.
fn poly_eval_exec(coeffs: &Vec<CurveScalar>, x: &CurveScalar) -> (r: CurveScalar)
    ensures
        r@ == poly_eval(scalar_views(coeffs@), x@),
{
    let ghost views = scalar_views(coeffs@);
    let mut acc = scalar_zero();
    let mut j: usize = coeffs.len();
    proof {
        assert(views.skip(j as int) =~= Seq::<nat>::empty());
    }
    while j > 0
        invariant
            j <= coeffs@.len(),
            views == scalar_views(coeffs@),
            views.len() == coeffs@.len(),
            acc@ == poly_eval(views.skip(j as int), x@),
        decreases j,
    {
        j = j - 1;
        let t = scalar_mul(x, &acc);
        acc = scalar_add(&coeffs[j], &t);
        proof {
            assert(views.skip(j as int).drop_first() =~= views.skip(j + 1));
            assert(views.skip(j as int)[0] == coeffs@[j as int]@);
            lemma_add_mod_noop_right(coeffs@[j as int]@ as int, (x@ * poly_eval(views.skip(j + 1),
                x@)) as int, q() as int);
        }
    }
    proof {
        assert(views.skip(0) =~= views);
    }
    acc
}

/// Splits the delegating key `t`-of-`n` and signs each share.  `None` only
/// in the vanishing cases that the scalar `d` hashes to zero or the signing
/// primitive rejects a nonce.
#[verifier::rlimit(30)]
pub fn generate_kfrags(
    params: &UmbralParameters,
    delegating_privkey: &UmbralPrivateKey,
    receiving_pubkey: &UmbralPublicKey,
    threshold: usize,
    num_kfrags: usize,
    signing_privkey: &UmbralPrivateKey,
    sign_delegating_key: bool,
    sign_receiving_key: bool,
) -> (r: Option<Vec<KeyFrag>>)
    requires
        0 < threshold <= num_kfrags,
    ensures
        match r {
            Some(kfrags) => kfrags@.len() == num_kfrags && exists|x: nat, coeffs: Seq<nat>|
                kfrags_gen_rel(x, coeffs, kfrag_views(kfrags@), delegating_privkey@,
                    delegating_privkey@, receiving_pubkey@, signing_privkey@, threshold as nat,
                    sign_delegating_key, sign_receiving_key, params.u_value()),
            None => true,
        },
{
    proof {
        use_type_invariant(params);
        use_type_invariant(delegating_privkey);
        use_type_invariant(receiving_pubkey);
        use_type_invariant(signing_privkey);
    }
    let delegating_pubkey = delegating_privkey.get_pubkey();
    let x = random_nonzero_scalar();
    let precursor = point_mul(&params.g, &x);
    proof {
        lemma_small_mod(x@, q());
    }
    let dh_point = point_mul(&receiving_pubkey.point_key, &x);
    proof {
        vstd::arithmetic::mul::lemma_mul_is_commutative(receiving_pubkey@ as int, x@ as int);
    }
    let hash_pts = vec![precursor, receiving_pubkey.point_key, dh_point];
    let ni = non_interactive_bytes();
    let d = hash_to_scalar(hash_pts.as_slice(), Some(ni.as_slice()));
    proof {
        assert(point_views(hash_pts@) =~= seq![x@, receiving_pubkey@, dh_value(x@,
            receiving_pubkey@)]);
        assert(hash_pts@[0]@ != 0 && hash_pts@[1]@ != 0 && hash_pts@[2]@ != 0);
    }
    if scalar_is_zero(&d) {
        return None;
    }
    let d_inv = scalar_invert(&d);
    proof {
        use_type_invariant(&d_inv);
        lemma_mod_inv_unique(d@, d_inv@);
    }
    let coeff0 = scalar_mul(&delegating_privkey.bn_key, &d_inv);
    let mut coefficients: Vec<CurveScalar> = Vec::new();
    coefficients.push(coeff0);
    let mut ci: usize = 1;
    while ci < threshold
        invariant
            1 <= ci <= threshold,
            coefficients@.len() == ci,
            scalar_views(coefficients@).len() == ci,
            scalar_views(coefficients@)[0] == (delegating_privkey@ * mod_inv(d_value(x@,
                receiving_pubkey@))) % q(),
            d_value(x@, receiving_pubkey@) != 0,
            forall|k: int|
                0 <= k < ci ==> (#[trigger] scalar_views(coefficients@)[k]) < q(),
        decreases threshold - ci,
    {
        let c = random_scalar();
        let ghost prev = scalar_views(coefficients@);
        coefficients.push(c);
        proof {
            assert(scalar_views(coefficients@) =~= prev.push(c@));
        }
        ci = ci + 1;
    }
    let ghost coeff_views = scalar_views(coefficients@);
    let mut kfrags: Vec<KeyFrag> = Vec::new();
    let mut i: usize = 0;
    while i < num_kfrags
        invariant
            i <= num_kfrags,
            0 < x@ < q(),
            precursor@ == x@,
            precursor@ != 0,
            dh_point@ == dh_value(x@, receiving_pubkey@),
            dh_point@ != 0,
            d_value(x@, receiving_pubkey@) != 0,
            coeff_views == scalar_views(coefficients@),
            coeff_views.len() == threshold,
            0 < threshold,
            coeff_views[0] == (delegating_privkey@ * mod_inv(d_value(x@, receiving_pubkey@)))
                % q(),
            forall|k: int| 0 <= k < coeff_views.len() ==> (#[trigger] coeff_views[k]) < q(),
            kfrags@.len() == i,
            kfrag_views(kfrags@).len() == i,
            hash_pts@.len() == 3,
            point_views(hash_pts@) == seq![x@, receiving_pubkey@, dh_value(x@, receiving_pubkey@)],
            hash_pts@[0]@ != 0,
            hash_pts@[1]@ != 0,
            hash_pts@[2]@ != 0,
            0 < receiving_pubkey@ < q(),
            0 < delegating_pubkey@ < q(),
            delegating_pubkey@ == delegating_privkey@,
            0 < signing_privkey@ < q(),
            0 < params.u@ < q(),
            params.u_value() == params.u@,
            forall|k: int|
                0 <= k < i ==> kfrag_gen_rel(#[trigger] kfrag_views(kfrags@)[k], x@, coeff_views,
                    delegating_pubkey@, receiving_pubkey@, signing_privkey@, sign_delegating_key,
                    sign_receiving_key, params.u_value()),
        decreases num_kfrags - i,
    {
        let id = random_nonzero_scalar();
        let mut custom = x_coordinate_bytes();
        let id_bytes = scalar_to_bytes(&id);
        custom.extend_from_slice(id_bytes.as_slice());
        proof {
            assert(custom@ =~= x_coordinate_tag() + be_bytes_of(id@, 32));
        }
        let index = hash_to_scalar(hash_pts.as_slice(), Some(custom.as_slice()));
        proof {
            assert(point_views(hash_pts@) =~= seq![x@, receiving_pubkey@, dh_value(x@,
                receiving_pubkey@)]);
            assert(index@ == share_index(x@, receiving_pubkey@, id@));
        }
        let rk = poly_eval_exec(&coefficients, &index);
        let commitment = point_mul(&params.u, &rk);
        proof {
            use_type_invariant(&rk);
            vstd::arithmetic::mul::lemma_mul_is_commutative(params.u@ as int, rk@ as int);
        }
        if crate::curve::point_is_identity(&commitment) {
            return None;
        }
        let maybe_delegating_pk: Option<UmbralPublicKey> = if sign_delegating_key {
            Some(delegating_pubkey)
        } else {
            None
        };
        let maybe_receiving_pk: Option<UmbralPublicKey> = if sign_receiving_key {
            Some(*receiving_pubkey)
        } else {
            None
        };
        let proxy_msg = proxy_message_bytes(&id, &commitment, &precursor,
            maybe_delegating_pk.as_ref(), maybe_receiving_pk.as_ref());
        let signature_for_proxy = match signing_privkey.sign(proxy_msg.as_slice()) {
            Some(s) => s,
            None => {
                return None;
            },
        };
        let bob_msg = bob_message_bytes(&id, &delegating_pubkey, receiving_pubkey, &commitment,
            &precursor);
        let signature_for_bob = match signing_privkey.sign(bob_msg.as_slice()) {
            Some(s) => s,
            None => {
                return None;
            },
        };
        let kfrag = KeyFrag {
            params: *params,
            id,
            key: rk,
            precursor,
            commitment,
            signature_for_proxy,
            signature_for_bob,
            maybe_delegating_pk,
            maybe_receiving_pk,
        };
        let ghost prev = kfrag_views(kfrags@);
        kfrags.push(kfrag);
        proof {
            assert(kfrag_views(kfrags@) =~= prev.push(kfrag@));
            assert(kfrag_gen_rel(kfrag@, x@, coeff_views, delegating_pubkey@, receiving_pubkey@,
                signing_privkey@, sign_delegating_key, sign_receiving_key, params.u_value()));
            assert(forall|k: int|
                0 <= k < kfrag_views(kfrags@).len() ==> kfrag_gen_rel(
                    #[trigger] kfrag_views(kfrags@)[k], x@, coeff_views, delegating_pubkey@,
                    receiving_pubkey@, signing_privkey@, sign_delegating_key, sign_receiving_key,
                    params.u_value()));
        }
        i = i + 1;
    }
    proof {
        assert(kfrags_gen_rel(x@, coeff_views, kfrag_views(kfrags@), delegating_privkey@,
            delegating_privkey@, receiving_pubkey@, signing_privkey@, threshold as nat,
            sign_delegating_key, sign_receiving_key, params.u_value()));
    }
    Some(kfrags)
}

/// The flags byte of the encoding: bit 0 marks an embedded delegating key,
/// bit 1 an embedded receiving key.
pub open spec fn kfrag_flags(md: Option<nat>, mr: Option<nat>) -> u8 {
    if md is Some && mr is Some {
        3u8
    } else if mr is Some {
        2u8
    } else if md is Some {
        1u8
    } else {
        0u8
    }
}

/// The canonical encoding: id, key, precursor, commitment, the two
/// signatures, the flags byte, then the embedded keys the flags name.
pub open spec fn kfrag_bytes_spec(k: KFragView) -> Seq<u8> {
    be_bytes_of(k.id, 32) + be_bytes_of(k.key, 32) + point_bytes(k.precursor) + point_bytes(
        k.commitment,
    ) + k.sig_proxy + k.sig_bob + seq![kfrag_flags(k.maybe_delegating, k.maybe_receiving)]
        + (match k.maybe_delegating {
        Some(d) => point_bytes(d),
        None => Seq::empty(),
    }) + (match k.maybe_receiving {
        Some(r) => point_bytes(r),
        None => Seq::empty(),
    })
}

/// What a byte string decodes to under parameters with point `u`, or
/// `None` where a scalar is out of range, a point is malformed, the flags
/// byte is unknown, or the length does not match the flags.
pub open spec fn kfrag_from_bytes_spec(b: Seq<u8>, u: nat) -> Option<KFragView> {
    if b.len() < 259 {
        None
    } else {
        let flags = b[258];
        if flags > 3 {
            None
        } else {
            let nd: int = if flags == 1 || flags == 3 {
                1
            } else {
                0
            };
            let nr: int = if flags == 2 || flags == 3 {
                1
            } else {
                0
            };
            if b.len() != 259 + 33 * nd + 33 * nr {
                None
            } else {
                let id = nat_of_be(b.subrange(0, 32));
                let key = nat_of_be(b.subrange(32, 64));
                if id >= q() || key >= q() {
                    None
                } else {
                    match point_of_bytes(b.subrange(64, 97)) {
                        None => None,
                        Some(prec) => match point_of_bytes(b.subrange(97, 130)) {
                            None => None,
                            Some(comm) => {
                                let md = if nd == 1 {
                                    point_of_bytes(b.subrange(259, 292))
                                } else {
                                    None
                                };
                                let mr = if nr == 1 {
                                    point_of_bytes(b.subrange(259 + 33 * nd, 292 + 33 * nd))
                                } else {
                                    None
                                };
                                if nd == 1 && md is None {
                                    None
                                } else if nr == 1 && mr is None {
                                    None
                                } else {
                                    Some(
                                        KFragView {
                                            id,
                                            key,
                                            precursor: prec,
                                            commitment: comm,
                                            sig_proxy: b.subrange(130, 194),
                                            sig_bob: b.subrange(194, 258),
                                            maybe_delegating: md,
                                            maybe_receiving: mr,
                                            u,
                                        },
                                    )
                                }
                            },
                        },
                    }
                }
            }
        }
    }
}

impl KeyFrag {
    /// The canonical encoding, which decodes back to this fragment: 259
    /// bytes, plus 33 for each embedded key.
    pub fn to_bytes(&self) -> (r: Vec<u8>)
        ensures
            r@ == kfrag_bytes_spec(self@),
            r@.len() == 259 + (if self@.maybe_delegating is Some {
                33int
            } else {
                0int
            }) + (if self@.maybe_receiving is Some {
                33int
            } else {
                0int
            }),
            kfrag_from_bytes_spec(r@, self@.u) == Some(self@),
    {
        proof {
            use_type_invariant(self);
        }
        let mut r = scalar_to_bytes(&self.id);
        let kb = scalar_to_bytes(&self.key);
        let pb = point_to_bytes(&self.precursor);
        let cb = point_to_bytes(&self.commitment);
        let sp = self.signature_for_proxy.to_bytes();
        let sb = self.signature_for_bob.to_bytes();
        r.extend_from_slice(kb.as_slice());
        r.extend_from_slice(pb.as_slice());
        r.extend_from_slice(cb.as_slice());
        r.extend_from_slice(sp.as_slice());
        r.extend_from_slice(sb.as_slice());
        let flags: u8 = match (&self.maybe_delegating_pk, &self.maybe_receiving_pk) {
            (Some(_), Some(_)) => 3,
            (None, Some(_)) => 2,
            (Some(_), None) => 1,
            (None, None) => 0,
        };
        r.push(flags);
        match &self.maybe_delegating_pk {
            Some(k) => {
                let b = k.to_bytes();
                r.extend_from_slice(b.as_slice());
            },
            None => {},
        }
        match &self.maybe_receiving_pk {
            Some(k) => {
                let b = k.to_bytes();
                r.extend_from_slice(b.as_slice());
            },
            None => {},
        }
        proof {
            assert(r@ =~= kfrag_bytes_spec(self@));
            lemma_pow256_32();
            lemma_nat_of_be_bytes_of(self@.id, 32);
            lemma_nat_of_be_bytes_of(self@.key, 32);
            assert(r@[258] == kfrag_flags(self@.maybe_delegating, self@.maybe_receiving));
            assert(r@.subrange(0, 32) =~= be_bytes_of(self@.id, 32));
            assert(r@.subrange(32, 64) =~= be_bytes_of(self@.key, 32));
            assert(r@.subrange(64, 97) =~= point_bytes(self@.precursor));
            assert(r@.subrange(97, 130) =~= point_bytes(self@.commitment));
            assert(r@.subrange(130, 194) =~= self@.sig_proxy);
            assert(r@.subrange(194, 258) =~= self@.sig_bob);
            if self@.maybe_delegating is Some {
                assert(r@.subrange(259, 292) =~= point_bytes(
                    self@.maybe_delegating->Some_0,
                ));
            }
            if self@.maybe_receiving is Some {
                let off: int = if self@.maybe_delegating is Some {
                    292
                } else {
                    259
                };
                assert(r@.subrange(off, off + 33) =~= point_bytes(self@.maybe_receiving->Some_0));
            }
            assert(kfrag_from_bytes_spec(r@, self@.u) == Some(self@));
        }
        r
    }

    /// Accepts exactly the canonical encodings.
    pub fn from_bytes(b: &[u8], params: &UmbralParameters) -> (r: Option<KeyFrag>)
        ensures
            match r {
                Some(k) => kfrag_from_bytes_spec(b@, params.u_value()) == Some(k@),
                None => kfrag_from_bytes_spec(b@, params.u_value()) is None,
            },
    {
        proof {
            use_type_invariant(params);
        }
        if b.len() < 259 {
            return None;
        }
        let flags = b[258];
        if flags > 3 {
            return None;
        }
        let nd: usize = if flags == 1 || flags == 3 {
            1
        } else {
            0
        };
        let nr: usize = if flags == 2 || flags == 3 {
            1
        } else {
            0
        };
        if b.len() != 259 + 33 * nd + 33 * nr {
            return None;
        }
        let id = match bytes_to_scalar(slice_subrange(b, 0, 32)) {
            Some(s) => s,
            None => {
                return None;
            },
        };
        let key = match bytes_to_scalar(slice_subrange(b, 32, 64)) {
            Some(s) => s,
            None => {
                return None;
            },
        };
        let precursor = match bytes_to_point(slice_subrange(b, 64, 97)) {
            Some(p) => p,
            None => {
                return None;
            },
        };
        let commitment = match bytes_to_point(slice_subrange(b, 97, 130)) {
            Some(p) => p,
            None => {
                return None;
            },
        };
        let signature_for_proxy = match UmbralSignature::from_bytes(slice_subrange(b, 130, 194)) {
            Some(s) => s,
            None => {
                return None;
            },
        };
        let signature_for_bob = match UmbralSignature::from_bytes(slice_subrange(b, 194, 258)) {
            Some(s) => s,
            None => {
                return None;
            },
        };
        let maybe_delegating_pk: Option<UmbralPublicKey> = if nd == 1 {
            match bytes_to_point(slice_subrange(b, 259, 292)) {
                Some(p) => Some(UmbralPublicKey::new(&p, params)),
                None => {
                    return None;
                },
            }
        } else {
            None
        };
        let maybe_receiving_pk: Option<UmbralPublicKey> = if nr == 1 {
            match bytes_to_point(slice_subrange(b, 259 + 33 * nd, 292 + 33 * nd)) {
                Some(p) => Some(UmbralPublicKey::new(&p, params)),
                None => {
                    return None;
                },
            }
        } else {
            None
        };
        Some(
            KeyFrag {
                params: *params,
                id,
                key,
                precursor,
                commitment,
                signature_for_proxy,
                signature_for_bob,
                maybe_delegating_pk,
                maybe_receiving_pk,
            },
        )
    }
}

/// Every generated fragment passes `verify` under the signing key it was
/// generated with, when the caller passes exactly the keys the generation
/// booleans selected.
pub proof fn lemma_generated_kfrag_verifies(
    x: nat,
    coeffs: Seq<nat>,
    ks: Seq<KFragView>,
    sk_a: nat,
    pk_a: nat,
    pk_b: nat,
    signer: nat,
    threshold: nat,
    sd: bool,
    sr: bool,
    u: nat,
    i: int,
)
    requires
        kfrags_gen_rel(x, coeffs, ks, sk_a, pk_a, pk_b, signer, threshold, sd, sr, u),
        0 <= i < ks.len(),
    ensures
        kfrag_is_valid(
            ks[i],
            signer,
            if sd {
                Some(pk_a)
            } else {
                None
            },
            if sr {
                Some(pk_b)
            } else {
                None
            },
        ),
{
    assert(kfrag_gen_rel(ks[i], x, coeffs, pk_a, pk_b, signer, sd, sr, u));
}


} // verus!
