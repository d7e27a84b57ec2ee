//! Key pairs and ECDSA signatures over SHA3-256 prehashes.

use crate::curve::{
    bytes_to_point, bytes_to_scalar, point_bytes, point_mul, point_of_bytes, point_to_bytes,
    random_nonzero_scalar, scalar_to_bytes, CurvePoint, CurveScalar,
};
use crate::math::{be_bytes_of, nat_of_be, q};
use crate::params::UmbralParameters;
use crate::random_oracles::{sha3_256, sha3_256_digest};
use k256::ecdsa::signature::hazmat::{PrehashSigner, PrehashVerifier};
use vstd::arithmetic::div_mod::lemma_small_mod;
use vstd::prelude::*;

verus! {

/// Whether a 64-byte ECDSA signature verifies, under the public key with
/// discrete logarithm `pk`, over a 32-byte prehash.  Byte strings that
/// encode no well-formed signature never verify.
pub uninterp spec fn ecdsa_verify(pk: nat, prehash: Seq<u8>, sig: Seq<u8>) -> bool;

/// What deterministic ECDSA signing produces for a secret key and a
/// 32-byte prehash: the 64-byte `r || s` signature, or `None` in the
/// vanishing case that the derived nonce yields a zero component.  RFC
/// 6979 derives the nonce from the key and prehash alone, so the outcome
/// is a function of the two.
pub uninterp spec fn ecdsa_sign(sk: nat, prehash: Seq<u8>) -> Option<Seq<u8>>;

/// An ECDSA signature, held as its fixed 64-byte `r || s` encoding.
pub struct UmbralSignature {
    pub(crate) bytes: Vec<u8>,
}

impl Clone for UmbralSignature {
    fn clone(&self) -> (r: Self)
        ensures
            r@ == self@,
    {
        proof {
            use_type_invariant(self);
        }
        UmbralSignature { bytes: self.bytes.clone() }
    }
}

impl View for UmbralSignature {
    type V = Seq<u8>;

    closed spec fn view(&self) -> Seq<u8> {
        self.bytes@
    }
}

impl UmbralSignature {
    #[verifier::type_invariant]
    pub(crate) open spec fn type_inv(self) -> bool {
        self@.len() == 64 && self@ == self.bytes@
    }

    pub fn to_bytes(&self) -> (r: Vec<u8>)
        ensures
            r@ == self@,
            r@.len() == 64,
    {
        proof {
            use_type_invariant(self);
        }
        self.bytes.clone()
    }

    /// Accepts exactly 64-byte strings.
    pub fn from_bytes(b: &[u8]) -> (r: Option<UmbralSignature>)
        ensures
            match r {
                Some(s) => b@.len() == 64 && s@ == b@,
                None => b@.len() != 64,
            },
    {
        if b.len() != 64 {
            return None;
        }
        let mut bytes: Vec<u8> = Vec::new();
        bytes.extend_from_slice(b);
        proof {
            assert(bytes@ =~= b@);
        }
        Some(UmbralSignature { bytes })
    }
}

/// Relies on `k256::ecdsa::SigningKey::sign_prehash` (RFC 6979): the
/// outcome is a function of the key and prehash alone, named `ecdsa_sign`;
/// the signature it produces verifies under the matching verifying key,
/// and `None` comes only in the vanishing case that the deterministic
/// nonce yields a zero component.
#[verifier::external_body]
fn ecdsa_sign_prehash(sk: &CurveScalar, prehash: &[u8]) -> (r: Option<Vec<u8>>)
    requires
        0 < sk@ < q(),
        prehash@.len() == 32,
    ensures
        (match r {
            Some(s) => Some(s@),
            None => None::<Seq<u8>>,
        }) == ecdsa_sign(sk@, prehash@),
        match r {
            Some(s) => s@.len() == 64 && ecdsa_verify(sk@, prehash@, s@),
            None => true,
        },
{
    let sk_bytes = scalar_to_bytes(sk);
    let key = match k256::ecdsa::SigningKey::from_slice(&sk_bytes) {
        Ok(k) => k,
        Err(_) => return None,
    };
    let sig: k256::ecdsa::Signature = match key.sign_prehash(prehash) {
        Ok(s) => s,
        Err(_) => return None,
    };
    Some(sig.to_bytes().to_vec())
}

/// Relies on `k256::ecdsa::VerifyingKey::verify_prehash`: whether the
/// signature bytes verify over the prehash; malformed signature bytes are
/// rejected.
#[verifier::external_body]
fn ecdsa_verify_prehash(pk: &CurvePoint, prehash: &[u8], sig: &[u8]) -> (r: bool)
    requires
        pk@ != 0,
    ensures
        r == ecdsa_verify(pk@, prehash@, sig@),
{
    let pk_bytes = point_to_bytes(pk);
    let key = match k256::ecdsa::VerifyingKey::from_sec1_bytes(&pk_bytes) {
        Ok(k) => k,
        Err(_) => return false,
    };
    let parsed = match k256::ecdsa::Signature::from_slice(sig) {
        Ok(s) => s,
        Err(_) => return false,
    };
    key.verify_prehash(prehash, &parsed).is_ok()
}

/// A public key: the point `sk * g`.  Its model is that point's discrete
/// logarithm, which is the secret scalar itself.
#[derive(Clone, Copy)]
pub struct UmbralPublicKey {
    pub(crate) params: UmbralParameters,
    pub(crate) point_key: CurvePoint,
}

impl View for UmbralPublicKey {
    type V = nat;

    closed spec fn view(&self) -> nat {
        self.point_key@
    }
}

impl UmbralPublicKey {
    #[verifier::type_invariant]
    pub(crate) open spec fn type_inv(self) -> bool {
        0 < self@ < q() && self@ == self.point_key@
    }

    pub fn new(point_key: &CurvePoint, params: &UmbralParameters) -> (r: UmbralPublicKey)
        requires
            point_key@ != 0,
        ensures
            r@ == point_key@,
    {
        proof {
            use_type_invariant(point_key);
        }
        UmbralPublicKey { params: *params, point_key: *point_key }
    }

    /// The compressed encoding of the key point.
    pub fn to_bytes(&self) -> (r: Vec<u8>)
        ensures
            r@ == point_bytes(self@),
            r@.len() == 33,
            point_of_bytes(r@) == Some(self@),
    {
        proof {
            use_type_invariant(self);
        }
        point_to_bytes(&self.point_key)
    }

    /// Accepts exactly the 33-byte compressed encodings of non-identity
    /// points.
    pub fn from_bytes(b: &[u8], params: &UmbralParameters) -> (r: Option<UmbralPublicKey>)
        ensures
            match r {
                Some(k) => b@.len() == 33 && point_of_bytes(b@) == Some(k@),
                None => b@.len() != 33 || point_of_bytes(b@) is None,
            },
    {
        match bytes_to_point(b) {
            Some(p) => Some(UmbralPublicKey::new(&p, params)),
            None => None,
        }
    }

    /// Verifies a signature over `message`, prehashed with SHA3-256.
    pub fn verify(&self, message: &[u8], signature: &UmbralSignature) -> (r: bool)
        ensures
            r == ecdsa_verify(self@, sha3_256(message@), signature@),
    {
        proof {
            use_type_invariant(self);
        }
        let prehash = sha3_256_digest(message);
        ecdsa_verify_prehash(&self.point_key, prehash.as_slice(), signature.bytes.as_slice())
    }
}

/// A private key: a nonzero scalar, carried with its public key.  Its model
/// is the scalar's value.
#[derive(Clone, Copy)]
pub struct UmbralPrivateKey {
    pub(crate) params: UmbralParameters,
    pub(crate) bn_key: CurveScalar,
    pub(crate) pubkey: UmbralPublicKey,
}

impl View for UmbralPrivateKey {
    type V = nat;

    closed spec fn view(&self) -> nat {
        self.bn_key@
    }
}

impl UmbralPrivateKey {
    #[verifier::type_invariant]
    pub(crate) open spec fn type_inv(self) -> bool {
        0 < self@ < q() && self.pubkey@ == self@ && self@ == self.bn_key@
    }

    pub fn new(bn_key: &CurveScalar, params: &UmbralParameters) -> (r: UmbralPrivateKey)
        requires
            bn_key@ != 0,
        ensures
            r@ == bn_key@,
    {
        proof {
            use_type_invariant(bn_key);
            use_type_invariant(params);
        }
        let point_key = point_mul(&params.g, bn_key);
        proof {
            lemma_small_mod(bn_key@, q());
        }
        let pubkey = UmbralPublicKey::new(&point_key, params);
        UmbralPrivateKey { params: *params, bn_key: *bn_key, pubkey }
    }

    /// Generates a fresh key pair.
    pub fn gen_key(params: &UmbralParameters) -> (r: UmbralPrivateKey)
        ensures
            0 < r@ < q(),
    {
        let bn_key = random_nonzero_scalar();
        UmbralPrivateKey::new(&bn_key, params)
    }

    pub fn get_pubkey(&self) -> (r: UmbralPublicKey)
        ensures
            r@ == self@,
    {
        proof {
            use_type_invariant(self);
        }
        self.pubkey
    }

    /// Signs a message, prehashed with SHA3-256: returns exactly what
    /// deterministic ECDSA signing produces for this key and that prehash,
    /// `None` only in the vanishing case that the primitive rejects its
    /// nonce.
    pub fn sign(&self, message: &[u8]) -> (r: Option<UmbralSignature>)
        ensures
            (match r {
                Some(s) => Some(s@),
                None => None::<Seq<u8>>,
            }) == ecdsa_sign(self@, sha3_256(message@)),
            match r {
                Some(s) => s@.len() == 64 && ecdsa_verify(self@, sha3_256(message@), s@),
                None => true,
            },
    {
        proof {
            use_type_invariant(self);
        }
        let prehash = sha3_256_digest(message);
        match ecdsa_sign_prehash(&self.bn_key, prehash.as_slice()) {
            Some(bytes) => Some(UmbralSignature { bytes }),
            None => None,
        }
    }

    /// The 32-byte big-endian encoding of the secret scalar.
    pub fn to_bytes(&self) -> (r: Vec<u8>)
        ensures
            r@ == be_bytes_of(self@, 32),
            r@.len() == 32,
    {
        scalar_to_bytes(&self.bn_key)
    }

    /// Accepts exactly the 32-byte big-endian encodings of nonzero scalars
    /// below the group order.
    pub fn from_bytes(b: &[u8], params: &UmbralParameters) -> (r: Option<UmbralPrivateKey>)
        ensures
            match r {
                Some(k) => b@.len() == 32 && k@ == nat_of_be(b@) && 0 < k@ < q(),
                None => b@.len() != 32 || nat_of_be(b@) == 0 || nat_of_be(b@) >= q(),
            },
    {
        let s = match bytes_to_scalar(b) {
            Some(s) => s,
            None => return None,
        };
        if crate::curve::scalar_is_zero(&s) {
            return None;
        }
        Some(UmbralPrivateKey::new(&s, params))
    }
}

} // verus!
