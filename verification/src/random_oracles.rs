//! The protocol's random oracles: hashing point tuples to scalars, the
//! try-and-increment hash to a curve point, and the HKDF helper.

use crate::constants::hash_to_curvebn_bytes;
use crate::constants::hash_to_curvebn_tag;
use crate::curve::{
    bytes_to_point, point_bytes, point_of_bytes, point_to_bytes, scalar_reduce_bytes, CurvePoint,
    CurveScalar,
};
use crate::math::{be_bytes_of, nat_of_be, q};
use sha3::Digest;
use vstd::arithmetic::div_mod::{lemma_div_denominator, lemma_small_mod};
use vstd::prelude::*;

verus! {

/// The SHA3-256 digest (32 bytes) of a byte string.
pub uninterp spec fn sha3_256(data: Seq<u8>) -> Seq<u8>;

/// The BLAKE2b-512 digest (64 bytes) of a byte string.
pub uninterp spec fn blake2b_512(data: Seq<u8>) -> Seq<u8>;

/// The HKDF-SHA-256 output of the given length for the given keying
/// material, salt and info.
pub uninterp spec fn hkdf_sha256(
    ikm: Seq<u8>,
    salt: Option<Seq<u8>>,
    info: Option<Seq<u8>>,
    len: nat,
) -> Seq<u8>;

pub open spec fn opt_bytes(o: Option<&[u8]>) -> Option<Seq<u8>> {
    match o {
        Some(s) => Some(s@),
        None => None,
    }
}

/// Relies on `sha3::Sha3_256` (`Digest::digest`): a 32-byte digest that is a
/// function of the input alone.
#[verifier::external_body]
pub(crate) fn sha3_256_digest(data: &[u8]) -> (r: Vec<u8>)
    ensures
        r@ == sha3_256(data@),
        r@.len() == 32,
{
    sha3::Sha3_256::digest(data).to_vec()
}

/// Relies on `blake2::Blake2b512` (`Digest::digest`): a 64-byte digest that
/// is a function of the input alone.
#[verifier::external_body]
pub(crate) fn blake2b_512_digest(data: &[u8]) -> (r: Vec<u8>)
    ensures
        r@ == blake2b_512(data@),
        r@.len() == 64,
{
    blake2::Blake2b512::digest(data).to_vec()
}

/// Relies on `hkdf::Hkdf::<sha2::Sha256>` (`new` then `expand`): the output
/// is a function of keying material, salt, info and length; `expand` only
/// fails for more than 255 hash lengths (8160 bytes).
#[verifier::external_body]
fn hkdf_sha256_expand(ikm: &[u8], len: usize, salt: Option<&[u8]>, info: Option<&[u8]>) -> (r:
    Vec<u8>)
    requires
        len <= 8160,
    ensures
        r@ == hkdf_sha256(ikm@, opt_bytes(salt), opt_bytes(info), len as nat),
        r@.len() == len,
{
    let hk = hkdf::Hkdf::<sha2::Sha256>::new(salt, ikm);
    let mut okm = vec![0u8; len];
    hk.expand(info.unwrap_or(&[]), &mut okm).unwrap();
    okm
}

/// The low four big-endian bytes of a length or counter.
pub fn to_fixed_be_bytes(x: usize) -> (r: Vec<u8>)
    ensures
        r@ == be_bytes_of((x as nat) % 0x1_0000_0000, 4),
{
    let v: u64 = (x as u64) % 0x1_0000_0000;
    let b0: u8 = (v / 0x100_0000) as u8;
    let b1: u8 = ((v / 0x1_0000) % 0x100) as u8;
    let b2: u8 = ((v / 0x100) % 0x100) as u8;
    let b3: u8 = (v % 0x100) as u8;
    let r: Vec<u8> = vec![b0, b1, b2, b3];
    proof {
        let n = v as nat;
        let n1 = n / 256;
        let n2 = n1 / 256;
        let n3 = n2 / 256;
        lemma_div_denominator(n as int, 256, 256);
        lemma_div_denominator(n as int, 0x1_0000, 256);
        assert(n2 == n / 0x1_0000 && n3 == n / 0x100_0000);
        assert(n3 < 256 && n3 / 256 == 0 && n3 % 256 == n3) by {
            lemma_small_mod(n3, 256);
        }
        assert(be_bytes_of(n3 / 256, 0) =~= Seq::<u8>::empty());
        assert(be_bytes_of(n3, 1) =~= seq![(n3 % 256) as u8]);
        assert(be_bytes_of(n2, 2) =~= be_bytes_of(n3, 1).push((n2 % 256) as u8));
        assert(be_bytes_of(n1, 3) =~= be_bytes_of(n2, 2).push((n1 % 256) as u8));
        assert(be_bytes_of(n, 4) =~= be_bytes_of(n1, 3).push((n % 256) as u8));
        assert(r@ =~= be_bytes_of(n, 4));
    }
    r
}

/// The views of a sequence of points.
pub open spec fn point_views(s: Seq<CurvePoint>) -> Seq<nat> {
    s.map_values(|p: CurvePoint| p@)
}

/// The compressed encodings of a sequence of points, concatenated in order.
pub open spec fn points_bytes(ks: Seq<nat>) -> Seq<u8>
    decreases ks.len(),
{
    if ks.len() == 0 {
        Seq::empty()
    } else {
        point_bytes(ks[0]) + points_bytes(ks.drop_first())
    }
}

pub proof fn lemma_points_bytes_push(ks: Seq<nat>, k: nat)
    ensures
        points_bytes(ks.push(k)) == points_bytes(ks) + point_bytes(k),
    decreases ks.len(),
{
    if ks.len() == 0 {
        assert(ks.push(k).drop_first() =~= Seq::<nat>::empty());
        assert(ks.push(k)[0] == k);
        assert(points_bytes(Seq::<nat>::empty()) =~= Seq::<u8>::empty());
        assert(points_bytes(ks.push(k)) =~= point_bytes(k));
        assert(points_bytes(ks) + point_bytes(k) =~= point_bytes(k));
    } else {
        assert(ks.push(k).drop_first() =~= ks.drop_first().push(k));
        lemma_points_bytes_push(ks.drop_first(), k);
        assert(points_bytes(ks.push(k)) =~= points_bytes(ks) + point_bytes(k));
    }
}

/// The byte string fed to SHA3-256 by `hash_to_scalar`: the fixed tag, the
/// customization bytes if any, then each point compressed, in order.
pub open spec fn hash_to_scalar_input(points: Seq<nat>, custom: Option<Seq<u8>>) -> Seq<u8> {
    hash_to_curvebn_tag() + (match custom {
        Some(c) => c,
        None => Seq::empty(),
    }) + points_bytes(points)
}

/// What `hash_to_scalar` returns: the SHA3-256 digest of its input, read as
/// a big-endian integer and reduced modulo `q`.
pub open spec fn hash_to_scalar_spec(points: Seq<nat>, custom: Option<Seq<u8>>) -> nat {
    nat_of_be(sha3_256(hash_to_scalar_input(points, custom))) % q()
}

/// Hashes a tuple of points, with an optional customization string, to a
/// scalar modulo `q`.
pub fn hash_to_scalar(crypto_items: &[CurvePoint], customization_string: Option<&[u8]>) -> (r:
    CurveScalar)
    requires
        forall|i: int| 0 <= i < crypto_items@.len() ==> (#[trigger] crypto_items@[i])@ != 0,
    ensures
        r@ == hash_to_scalar_spec(point_views(crypto_items@), opt_bytes(customization_string)),
{
    let mut input = hash_to_curvebn_bytes();
    match customization_string {
        Some(s) => input.extend_from_slice(s),
        None => {},
    }
    let ghost base = input@;
    assert(base == hash_to_curvebn_tag() + (match opt_bytes(customization_string) {
        Some(c) => c,
        None => Seq::<u8>::empty(),
    })) by {
        match customization_string {
            Some(s) => {},
            None => {
                assert(base =~= hash_to_curvebn_tag() + Seq::<u8>::empty());
            },
        }
    }
    let ghost views = point_views(crypto_items@);
    let mut i: usize = 0;
    while i < crypto_items.len()
        invariant
            i <= crypto_items@.len(),
            views == point_views(crypto_items@),
            views.len() == crypto_items@.len(),
            forall|j: int| 0 <= j < crypto_items@.len() ==> (#[trigger] crypto_items@[j])@ != 0,
            forall|j: int| 0 <= j < crypto_items@.len() ==> views[j] == (#[trigger] crypto_items@[j])@,
            input@ == base + points_bytes(views.take(i as int)),
        decreases crypto_items@.len() - i,
    {
        let pb = point_to_bytes(&crypto_items[i]);
        input.extend_from_slice(pb.as_slice());
        proof {
            assert(views.take(i + 1) =~= views.take(i as int).push(views[i as int]));
            lemma_points_bytes_push(views.take(i as int), views[i as int]);
            assert(input@ =~= base + points_bytes(views.take(i + 1)));
        }
        i = i + 1;
    }
    proof {
        assert(views.take(crypto_items@.len() as int) =~= views);
        assert(input@ == hash_to_scalar_input(views, opt_bytes(customization_string)));
    }
    let digest = sha3_256_digest(input.as_slice());
    scalar_reduce_bytes(digest.as_slice())
}

/// The candidate compressed encoding that try-and-increment derives from
/// `data`, `label` and the counter `i`: a sign byte from the parity of the
/// digest's first byte, then 32 digest bytes as the x-coordinate.
pub open spec fn hash_to_point_candidate(data: Seq<u8>, label: Seq<u8>, i: nat) -> Seq<u8> {
    let input = be_bytes_of(label.len() % 0x1_0000_0000, 4) + label + be_bytes_of(
        data.len() % 0x1_0000_0000,
        4,
    ) + data;
    let d = blake2b_512(input + be_bytes_of(i % 0x1_0000_0000, 4));
    seq![
        if d[0] % 2 == 0 {
            2u8
        } else {
            3u8
        },
    ] + d.subrange(1, 33)
}

/// Whether the candidate for counter `i` decodes to a point on the curve.
pub open spec fn hash_to_point_hit(data: Seq<u8>, label: Seq<u8>, i: nat) -> bool {
    point_of_bytes(hash_to_point_candidate(data, label, i)) is Some
}

/// Hashes arbitrary data to a curve point by try-and-increment: the first
/// counter below `u32::MAX` whose candidate decodes wins.  Not constant
/// time; must not be used on secret input.
pub fn unsafe_hash_to_point(data: &[u8], label: &[u8]) -> (r: Option<CurvePoint>)
    ensures
        match r {
            Some(p) => exists|i: nat|
                i < 0xFFFF_FFFF && #[trigger] hash_to_point_hit(data@, label@, i) && (forall|
                    j: nat,
                |
                    j < i ==> !hash_to_point_hit(data@, label@, j)) && Some(p@) == point_of_bytes(
                    hash_to_point_candidate(data@, label@, i),
                ) && 0 < p@,
            None => forall|i: nat| i < 0xFFFF_FFFF ==> !hash_to_point_hit(data@, label@, i),
        },
{
    let len_label = to_fixed_be_bytes(label.len());
    let len_data = to_fixed_be_bytes(data.len());
    let mut label_data: Vec<u8> = Vec::new();
    label_data.extend_from_slice(len_label.as_slice());
    label_data.extend_from_slice(label);
    label_data.extend_from_slice(len_data.as_slice());
    label_data.extend_from_slice(data);
    let ghost input = be_bytes_of(label@.len() % 0x1_0000_0000, 4) + label@ + be_bytes_of(
        data@.len() % 0x1_0000_0000,
        4,
    ) + data@;
    proof {
        assert(label_data@ =~= input);
    }
    let mut i: u32 = 0;
    while i < 0xFFFF_FFFFu32
        invariant
            label_data@ == input,
            input == be_bytes_of(label@.len() % 0x1_0000_0000, 4) + label@ + be_bytes_of(
                data@.len() % 0x1_0000_0000,
                4,
            ) + data@,
            forall|j: nat| j < i ==> !hash_to_point_hit(data@, label@, j),
        decreases 0xFFFF_FFFF - i,
    {
        let ibytes = to_fixed_be_bytes(i as usize);
        let mut to_hash = label_data.clone();
        to_hash.extend_from_slice(ibytes.as_slice());
        proof {
            lemma_small_mod(i as nat, 0x1_0000_0000);
            assert(to_hash@ =~= input + be_bytes_of((i as nat) % 0x1_0000_0000, 4));
        }
        let digest = blake2b_512_digest(to_hash.as_slice());
        let sign: u8 = if digest[0] % 2 == 0 {
            2
        } else {
            3
        };
        let mut compressed: Vec<u8> = Vec::new();
        compressed.push(sign);
        let mut j: usize = 1;
        while j < 33
            invariant
                1 <= j <= 33,
                digest@.len() == 64,
                compressed@ =~= seq![sign] + digest@.subrange(1, j as int),
            decreases 33 - j,
        {
            compressed.push(digest[j]);
            proof {
                assert(compressed@ =~= seq![sign] + digest@.subrange(1, j + 1));
            }
            j = j + 1;
        }
        proof {
            assert(compressed@ =~= hash_to_point_candidate(data@, label@, i as nat));
        }
        let maybe_point = bytes_to_point(compressed.as_slice());
        match maybe_point {
            Some(p) => {
                proof {
                    assert(hash_to_point_hit(data@, label@, i as nat));
                }
                return Some(p);
            },
            None => {},
        }
        i = i + 1;
    }
    None
}

/// Derives `key_length` bytes from a point by HKDF-SHA-256.
pub fn kdf(ecpoint: &CurvePoint, key_length: usize, salt: Option<&[u8]>, info: Option<&[u8]>) -> (r:
    Vec<u8>)
    requires
        ecpoint@ != 0,
        key_length <= 8160,
    ensures
        r@ == hkdf_sha256(point_bytes(ecpoint@), opt_bytes(salt), opt_bytes(info),
            key_length as nat),
        r@.len() == key_length,
{
    let data = point_to_bytes(ecpoint);
    hkdf_sha256_expand(data.as_slice(), key_length, salt, info)
}

} // verus!
