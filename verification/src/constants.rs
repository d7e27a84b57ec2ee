//! Domain-separation byte strings, fixed verbatim by the protocol.

use vstd::prelude::*;

verus! {

/// `"hash_to_curvebn"`: prepended to every scalar-hash input.
pub open spec fn hash_to_curvebn_tag() -> Seq<u8> {
    seq![104u8, 97, 115, 104, 95, 116, 111, 95, 99, 117, 114, 118, 101, 98, 110]
}

/// `"NON_INTERACTIVE"`: labels the scalar that makes delegation
/// non-interactive.
pub open spec fn non_interactive_tag() -> Seq<u8> {
    seq![78u8, 79, 78, 95, 73, 78, 84, 69, 82, 65, 67, 84, 73, 86, 69]
}

/// `"X_COORDINATE"`: labels the per-share evaluation points.
pub open spec fn x_coordinate_tag() -> Seq<u8> {
    seq![88u8, 95, 67, 79, 79, 82, 68, 73, 78, 65, 84, 69]
}

/// `"NuCypher/UmbralParameters/u"`: labels the derivation of the parameter
/// point `u`.
pub open spec fn parameters_u_tag() -> Seq<u8> {
    seq![
        78u8, 117, 67, 121, 112, 104, 101, 114, 47, 85, 109, 98, 114, 97, 108, 80, 97, 114, 97,
        109, 101, 116, 101, 114, 115, 47, 117,
    ]
}

pub fn hash_to_curvebn_bytes() -> (r: Vec<u8>)
    ensures
        r@ == hash_to_curvebn_tag(),
{
    let r: Vec<u8> = vec![104u8, 97, 115, 104, 95, 116, 111, 95, 99, 117, 114, 118, 101, 98, 110];
    proof {
        assert(r@ =~= hash_to_curvebn_tag());
    }
    r
}

pub fn non_interactive_bytes() -> (r: Vec<u8>)
    ensures
        r@ == non_interactive_tag(),
{
    let r: Vec<u8> = vec![78u8, 79, 78, 95, 73, 78, 84, 69, 82, 65, 67, 84, 73, 86, 69];
    proof {
        assert(r@ =~= non_interactive_tag());
    }
    r
}

pub fn x_coordinate_bytes() -> (r: Vec<u8>)
    ensures
        r@ == x_coordinate_tag(),
{
    let r: Vec<u8> = vec![88u8, 95, 67, 79, 79, 82, 68, 73, 78, 65, 84, 69];
    proof {
        assert(r@ =~= x_coordinate_tag());
    }
    r
}

pub fn parameters_u_bytes() -> (r: Vec<u8>)
    ensures
        r@ == parameters_u_tag(),
{
    let r: Vec<u8> = vec![
        78u8, 117, 67, 121, 112, 104, 101, 114, 47, 85, 109, 98, 114, 97, 108, 80, 97, 114, 97,
        109, 101, 116, 101, 114, 115, 47, 117,
    ];
    proof {
        assert(r@ =~= parameters_u_tag());
    }
    r
}

} // verus!
