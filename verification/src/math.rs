//! Arithmetic modulo the secp256k1 group order, big-endian byte encodings of
//! naturals, and polynomial evaluation: the mathematical model that the
//! contracts of the whole crate are stated over.

use vstd::arithmetic::div_mod::{
    lemma_fundamental_div_mod, lemma_mod_sub_multiples_vanish, lemma_mul_mod_noop_left,
    lemma_mul_mod_noop_right, lemma_small_mod,
};
use vstd::arithmetic::mul::{lemma_mul_is_associative, lemma_mul_is_commutative};
use vstd::prelude::*;

verus! {

/// The order of the secp256k1 group (a prime).
pub open spec fn q() -> nat {
    0xFFFFFFFF_FFFFFFFF_FFFFFFFF_FFFFFFFE_BAAEDCE6_AF48A03B_BFD25E8C_D0364141nat
}

/// 256 to the power `n`: the number of `n`-byte strings.
pub open spec fn pow256(n: nat) -> nat
    decreases n,
{
    if n == 0 {
        1
    } else {
        256 * pow256((n - 1) as nat)
    }
}

/// The big-endian encoding of `v` in exactly `n` bytes (most significant
/// byte first).
pub open spec fn be_bytes_of(v: nat, n: nat) -> Seq<u8>
    decreases n,
{
    if n == 0 {
        Seq::empty()
    } else {
        be_bytes_of(v / 256, (n - 1) as nat).push((v % 256) as u8)
    }
}

/// The natural number that a big-endian byte string denotes.
pub open spec fn nat_of_be(s: Seq<u8>) -> nat
    decreases s.len(),
{
    if s.len() == 0 {
        0
    } else {
        (nat_of_be(s.drop_last()) * 256 + s.last()) as nat
    }
}

pub proof fn lemma_be_bytes_len(v: nat, n: nat)
    ensures
        be_bytes_of(v, n).len() == n,
    decreases n,
{
    if n > 0 {
        lemma_be_bytes_len(v / 256, (n - 1) as nat);
    }
}

/// Decoding inverts encoding: an `n`-byte big-endian encoding of `v < 256^n`
/// denotes `v`.
pub proof fn lemma_nat_of_be_bytes_of(v: nat, n: nat)
    requires
        v < pow256(n),
    ensures
        nat_of_be(be_bytes_of(v, n)) == v,
    decreases n,
{
    if n > 0 {
        let s = be_bytes_of(v / 256, (n - 1) as nat);
        lemma_be_bytes_len(v / 256, (n - 1) as nat);
        assert(s.push((v % 256) as u8).drop_last() =~= s);
        assert(v / 256 < pow256((n - 1) as nat)) by {
            lemma_fundamental_div_mod(v as int, 256);
        }
        lemma_nat_of_be_bytes_of(v / 256, (n - 1) as nat);
        lemma_fundamental_div_mod(v as int, 256);
    }
}

/// Subtraction modulo `q`, for operands below `q`.
pub open spec fn mod_sub(a: nat, b: nat) -> nat {
    (((a + q()) - b) % (q() as int)) as nat
}

/// The multiplicative inverse of `a` modulo `q`, where one exists.
pub open spec fn mod_inv(a: nat) -> nat {
    choose|b: nat| b < q() && #[trigger] ((a * b) % q()) == 1
}

/// Inverses modulo `q` are unique, so any witness pins `mod_inv` down.
pub proof fn lemma_mod_inv_unique(a: nat, b: nat)
    requires
        b < q(),
        (a * b) % q() == 1,
    ensures
        mod_inv(a) == b,
        (a * mod_inv(a)) % q() == 1,
        mod_inv(a) < q(),
{
    assert(b < q() && (a * b) % q() == 1);
    let c = mod_inv(a);
    assert(c < q() && (a * c) % q() == 1);
    let m = q() as int;
    let ai = a as int;
    let bi = b as int;
    let ci = c as int;
    assert((ai * ci) % m == 1 && (ai * bi) % m == 1);
    assert(bi == (bi * ((ai * ci) % m)) % m) by {
        lemma_mul_mod_noop_right(bi, ai * ci, m);
        assert((bi * (ai * ci)) % m == (bi * ((ai * ci) % m)) % m);
        lemma_small_mod(b, q());
    }
    assert(bi * (ai * ci) == (ai * bi) * ci) by {
        lemma_mul_is_associative(bi, ai, ci);
        lemma_mul_is_commutative(bi, ai);
    }
    assert(((ai * bi) * ci) % m == ci) by {
        lemma_mul_mod_noop_left(ai * bi, ci, m);
        assert((((ai * bi) % m) * ci) % m == (1 * ci) % m);
        lemma_small_mod(c, q());
    }
    assert(bi == (bi * ((ai * ci) % m)) % m == (bi * (ai * ci)) % m == ((ai * bi) * ci) % m == ci)
        by {
        lemma_mul_mod_noop_right(bi, ai * ci, m);
    }
    assert(b == c);
}

/// A difference of residues vanishes exactly on equal residues.
pub proof fn lemma_mod_sub_zero(a: nat, b: nat)
    requires
        a < q(),
        b < q(),
    ensures
        mod_sub(a, b) == 0 <==> a == b,
        mod_sub(a, b) < q(),
{
    let m = q() as int;
    if a >= b {
        let d = a - b;
        assert((m + d) % m == d % m) by {
            lemma_mod_sub_multiples_vanish(d, m);
        }
        lemma_small_mod((a - b) as nat, q());
        assert(a + q() - b == m + d);
        assert(mod_sub(a, b) == d);
    } else {
        let d = (a + q() - b) as nat;
        assert(0 < d < q());
        lemma_small_mod(d, q());
        assert(mod_sub(a, b) == d);
    }
}

/// `pow256` at the widths the encodings use.
pub proof fn lemma_pow256_32()
    ensures
        pow256(32)
            == 0x1_00000000_00000000_00000000_00000000_00000000_00000000_00000000_00000000nat,
        pow256(4) == 0x1_0000_0000nat,
{
    assert(pow256(0) == 1);
    assert(pow256(1) == 256);
    assert(pow256(2) == 0x1_0000);
    assert(pow256(3) == 0x100_0000);
    assert(pow256(4) == 0x1_0000_0000);
    assert(pow256(5) == 0x100_0000_0000);
    assert(pow256(6) == 0x1_0000_0000_0000);
    assert(pow256(7) == 0x100_0000_0000_0000);
    assert(pow256(8) == 0x1_0000_0000_0000_0000);
    assert(pow256(9) == 0x100_0000_0000_0000_0000nat);
    assert(pow256(10) == 0x1_0000_0000_0000_0000_0000nat);
    assert(pow256(11) == 0x100_0000_0000_0000_0000_0000nat);
    assert(pow256(12) == 0x1_0000_0000_0000_0000_0000_0000nat);
    assert(pow256(13) == 0x100_0000_0000_0000_0000_0000_0000nat);
    assert(pow256(14) == 0x1_0000_0000_0000_0000_0000_0000_0000nat);
    assert(pow256(15) == 0x100_0000_0000_0000_0000_0000_0000_0000nat);
    assert(pow256(16) == 0x1_0000_0000_0000_0000_0000_0000_0000_0000nat);
    assert(pow256(17) == 0x100_0000_0000_0000_0000_0000_0000_0000_0000nat);
    assert(pow256(18) == 0x1_0000_0000_0000_0000_0000_0000_0000_0000_0000nat);
    assert(pow256(19) == 0x100_0000_0000_0000_0000_0000_0000_0000_0000_0000nat);
    assert(pow256(20) == 0x1_0000_0000_0000_0000_0000_0000_0000_0000_0000_0000nat);
    assert(pow256(21) == 0x100_0000_0000_0000_0000_0000_0000_0000_0000_0000_0000nat);
    assert(pow256(22) == 0x1_0000_0000_0000_0000_0000_0000_0000_0000_0000_0000_0000nat);
    assert(pow256(23) == 0x100_0000_0000_0000_0000_0000_0000_0000_0000_0000_0000_0000nat);
    assert(pow256(24) == 0x1_0000_0000_0000_0000_0000_0000_0000_0000_0000_0000_0000_0000nat);
    assert(pow256(25) == 0x100_0000_0000_0000_0000_0000_0000_0000_0000_0000_0000_0000_0000nat);
    assert(pow256(26) == 0x1_0000_0000_0000_0000_0000_0000_0000_0000_0000_0000_0000_0000_0000nat);
    assert(pow256(27)
        == 0x100_0000_0000_0000_0000_0000_0000_0000_0000_0000_0000_0000_0000_0000nat);
    assert(pow256(28)
        == 0x1_0000_0000_0000_0000_0000_0000_0000_0000_0000_0000_0000_0000_0000_0000nat);
    assert(pow256(29)
        == 0x100_0000_0000_0000_0000_0000_0000_0000_0000_0000_0000_0000_0000_0000_0000nat);
    assert(pow256(30)
        == 0x1_0000_0000_0000_0000_0000_0000_0000_0000_0000_0000_0000_0000_0000_0000_0000nat);
    assert(pow256(31)
        == 0x100_0000_0000_0000_0000_0000_0000_0000_0000_0000_0000_0000_0000_0000_0000_0000nat);
    assert(pow256(32)
        == 0x1_0000_0000_0000_0000_0000_0000_0000_0000_0000_0000_0000_0000_0000_0000_0000_0000nat);
}

/// Multiplying by an inverse and back cancels modulo `q`.
pub proof fn lemma_mod_inv_cancel(a: nat, d: nat, di: nat)
    requires
        a < q(),
        (d * di) % q() == 1,
    ensures
        (((a * di) % q()) * d) % q() == a,
{
    let m = q() as int;
    let ai = a as int;
    let d_i = d as int;
    let dii = di as int;
    assert((((ai * dii) % m) * d_i) % m == ((ai * dii) * d_i) % m) by {
        lemma_mul_mod_noop_left(ai * dii, d_i, m);
    }
    assert((ai * dii) * d_i == ai * (d_i * dii)) by {
        lemma_mul_is_associative(ai, dii, d_i);
        lemma_mul_is_commutative(dii, d_i);
    }
    assert((ai * (d_i * dii)) % m == (ai * ((d_i * dii) % m)) % m) by {
        lemma_mul_mod_noop_right(ai, d_i * dii, m);
    }
    assert((ai * 1) % m == ai) by {
        lemma_small_mod(a, q());
    }
}

/// Evaluation, modulo `q`, of the polynomial whose coefficients are listed
/// from the constant term up.
pub open spec fn poly_eval(coeffs: Seq<nat>, x: nat) -> nat
    decreases coeffs.len(),
{
    if coeffs.len() == 0 {
        0
    } else {
        (coeffs[0] + x * poly_eval(coeffs.drop_first(), x)) % q()
    }
}

} // verus!
