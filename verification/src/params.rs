//! Global parameters: the generator `g` and the domain-separated point `u`
//! that commitments are made against.

use crate::constants::{parameters_u_bytes, parameters_u_tag};
use crate::curve::{point_bytes, point_generator, point_of_bytes, point_to_bytes, CurvePoint};
use crate::math::q;
use crate::random_oracles::{hash_to_point_candidate, hash_to_point_hit, unsafe_hash_to_point};
use vstd::prelude::*;

verus! {

/// How the parameter point `u` is derived: its discrete logarithm is the
/// decoding of the first try-and-increment hit for the generator's
/// encoding under the parameter label.
pub open spec fn derived_u(k: nat) -> bool {
    exists|i: nat|
        i < 0xFFFF_FFFF && #[trigger] hash_to_point_hit(point_bytes(1), parameters_u_tag(), i) && (
        forall|j: nat| j < i ==> !hash_to_point_hit(point_bytes(1), parameters_u_tag(), j)) && Some(
            k,
        ) == point_of_bytes(hash_to_point_candidate(point_bytes(1), parameters_u_tag(), i))
}

/// The derivation is deterministic: any two instantiations agree on `u`,
/// so parameters are process-wide-safe.
pub proof fn lemma_parameters_agree(k1: nat, k2: nat)
    requires
        derived_u(k1),
        derived_u(k2),
    ensures
        k1 == k2,
{
    let i1 = choose|i: nat|
        i < 0xFFFF_FFFF && #[trigger] hash_to_point_hit(point_bytes(1), parameters_u_tag(), i) && (
        forall|j: nat| j < i ==> !hash_to_point_hit(point_bytes(1), parameters_u_tag(), j)) && Some(
            k1,
        ) == point_of_bytes(hash_to_point_candidate(point_bytes(1), parameters_u_tag(), i));
    let i2 = choose|i: nat|
        i < 0xFFFF_FFFF && #[trigger] hash_to_point_hit(point_bytes(1), parameters_u_tag(), i) && (
        forall|j: nat| j < i ==> !hash_to_point_hit(point_bytes(1), parameters_u_tag(), j)) && Some(
            k2,
        ) == point_of_bytes(hash_to_point_candidate(point_bytes(1), parameters_u_tag(), i));
    if i1 < i2 {
        assert(!hash_to_point_hit(point_bytes(1), parameters_u_tag(), i1));
    }
    if i2 < i1 {
        assert(!hash_to_point_hit(point_bytes(1), parameters_u_tag(), i2));
    }
    assert(i1 == i2);
}

/// The parameters of one instantiation: `g` is the group generator and `u`
/// is derived deterministically from `g`'s encoding under the parameter
/// label, so every instantiation agrees on it.
#[derive(Clone, Copy)]
pub struct UmbralParameters {
    pub(crate) g: CurvePoint,
    pub(crate) u: CurvePoint,
}

impl UmbralParameters {
    #[verifier::type_invariant]
    pub(crate) open spec fn type_inv(self) -> bool {
        self.g@ == 1 && 0 < self.u@ < q() && self.g_value() == self.g@ && self.u_value()
            == self.u@
    }

    /// The discrete logarithm of the parameter point `u`.
    pub closed spec fn u_value(self) -> nat {
        self.u@
    }

    /// The discrete logarithm of the generator: one.
    pub closed spec fn g_value(self) -> nat {
        self.g@
    }

    /// Derives the parameters: `u` is the first try-and-increment hit for
    /// the generator's encoding under the parameter label.  `None` only in
    /// the vanishing case that no counter below `u32::MAX` hits the curve.
    pub fn new() -> (r: Option<UmbralParameters>)
        ensures
            match r {
                Some(p) => p.g_value() == 1 && 0 < p.u_value() < q() && derived_u(p.u_value()),
                None => forall|i: nat|
                    i < 0xFFFF_FFFF ==> !hash_to_point_hit(point_bytes(1), parameters_u_tag(), i),
            },
    {
        let g = point_generator();
        let g_bytes = point_to_bytes(&g);
        let label = parameters_u_bytes();
        match unsafe_hash_to_point(g_bytes.as_slice(), label.as_slice()) {
            Some(u) => {
                proof {
                    use_type_invariant(&u);
                }
                Some(UmbralParameters { g, u })
            },
            None => None,
        }
    }
}

} // verus!
