//! Umbral threshold proxy re-encryption over secp256k1.
//!
//! A delegator encrypts to herself with a key-encapsulation mechanism (the
//! capsule), splits a re-encryption key into `N` fragments of which any `t`
//! suffice (Shamir secret sharing), and semi-trusted proxies transform the
//! capsule fragment by fragment.  The delegatee combines `t` capsule fragments
//! by Lagrange interpolation to recover the encapsulated secret and decrypt.
//!
//! Points and scalars live in the prime-order group of secp256k1; the curve
//! arithmetic itself is delegated to an elliptic-curve library and modelled
//! here by each point's discrete logarithm (see `curve`).

pub mod capsule;
pub mod capsule_frag;
pub mod constants;
pub mod curve;
pub mod dem;
pub mod key_frag;
pub mod keys;
pub mod math;
pub mod params;
pub mod pre;
pub mod random_oracles;
