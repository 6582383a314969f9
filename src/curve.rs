//! The two pairing curves, the order of their scalar fields, and the
//! arithmetic of their scalar fields and first groups, done by arkworks.
//!
//! A scalar crosses this module as 32 big-endian bytes, a point of G1 as its
//! compressed canonical encoding.
use vstd::prelude::*;
use crate::hex_text::be_value;
use ark_ec::{AffineRepr, CurveGroup};
use ark_ff::{BigInteger, PrimeField};
use ark_serialize::{CanonicalDeserialize, CanonicalSerialize};

verus! {

/// A pairing curve that the proof system runs over.
#[derive(PartialEq, Eq, Structural, Clone, Copy, Debug)]
pub enum Curve {
    Bn254,
    Bls12_381,
}

/// The order `r` of the scalar field of the curve.
pub open spec fn scalar_modulus(c: Curve) -> nat {
    match c {
        Curve::Bn254 => 21888242871839275222246405745257275088548364400416034343698204186575808495617nat,
        Curve::Bls12_381 => 52435875175126190479447740508185965837690552500527637822603658699938581184513nat,
    }
}

/// What deserializing a compressed BN254 G1 point and serializing it again gives.
pub uninterp spec fn bn254_g1_canonical(b: Seq<u8>) -> Option<Seq<u8>>;

/// What deserializing a compressed BLS12-381 G1 point and serializing it again gives.
pub uninterp spec fn bls12_381_g1_canonical(b: Seq<u8>) -> Option<Seq<u8>>;

/// The encoding of the sum of two BN254 G1 points.
pub uninterp spec fn bn254_g1_sum(a: Seq<u8>, b: Seq<u8>) -> Seq<u8>;

/// The encoding of the sum of two BLS12-381 G1 points.
pub uninterp spec fn bls12_381_g1_sum(a: Seq<u8>, b: Seq<u8>) -> Seq<u8>;

/// The encoding of the difference `a - b` of two BN254 G1 points.
pub uninterp spec fn bn254_g1_difference(a: Seq<u8>, b: Seq<u8>) -> Seq<u8>;

/// The encoding of the difference `a - b` of two BLS12-381 G1 points.
pub uninterp spec fn bls12_381_g1_difference(a: Seq<u8>, b: Seq<u8>) -> Seq<u8>;

/// The encoding of `g*m + h*v` on BN254 G1.
pub uninterp spec fn bn254_g1_pedersen(g: Seq<u8>, h: Seq<u8>, m: nat, v: nat) -> Seq<u8>;

/// The encoding of `g*m + h*v` on BLS12-381 G1.
pub uninterp spec fn bls12_381_g1_pedersen(g: Seq<u8>, h: Seq<u8>, m: nat, v: nat) -> Seq<u8>;

/// The canonical form of a compressed G1 point on the curve, if the bytes
/// begin with the encoding of a point of the group.
pub open spec fn point_canonical(c: Curve, b: Seq<u8>) -> Option<Seq<u8>> {
    match c {
        Curve::Bn254 => bn254_g1_canonical(b),
        Curve::Bls12_381 => bls12_381_g1_canonical(b),
    }
}

/// Bytes that are exactly the canonical encoding of a point of G1.
pub open spec fn is_point(c: Curve, b: Seq<u8>) -> bool {
    point_canonical(c, b) == Some(b)
}

pub open spec fn point_sum(c: Curve, a: Seq<u8>, b: Seq<u8>) -> Seq<u8> {
    match c {
        Curve::Bn254 => bn254_g1_sum(a, b),
        Curve::Bls12_381 => bls12_381_g1_sum(a, b),
    }
}

pub open spec fn point_difference(c: Curve, a: Seq<u8>, b: Seq<u8>) -> Seq<u8> {
    match c {
        Curve::Bn254 => bn254_g1_difference(a, b),
        Curve::Bls12_381 => bls12_381_g1_difference(a, b),
    }
}

/// The Pedersen commitment `g*m + h*v` to the scalars `m` and `v`, taken modulo `r`.
pub open spec fn pedersen(c: Curve, g: Seq<u8>, h: Seq<u8>, m: nat, v: nat) -> Seq<u8> {
    match c {
        Curve::Bn254 => bn254_g1_pedersen(g, h, m % scalar_modulus(c), v % scalar_modulus(c)),
        Curve::Bls12_381 => bls12_381_g1_pedersen(g, h, m % scalar_modulus(c), v % scalar_modulus(c)),
    }
}

/// Relies on ark_ff's `PrimeField::from_be_bytes_mod_order` (which reduces
/// the big-endian integer modulo `r`) and `BigInteger::to_bytes_be` (32 bytes
/// for the four-limb integer of BN254's `Fr`).
#[verifier::external_body]
fn bn254_fr_reduce(b: &[u8]) -> (r: Vec<u8>)
    ensures
        r@.len() == 32,
        be_value(r@) == be_value(b@) % scalar_modulus(Curve::Bn254),
{
    ark_bn254::Fr::from_be_bytes_mod_order(b).into_bigint().to_bytes_be()
}

/// Relies on ark_ff's `PrimeField::from_be_bytes_mod_order` and
/// `BigInteger::to_bytes_be` (32 bytes for BLS12-381's `Fr`), as above.
#[verifier::external_body]
fn bls12_381_fr_reduce(b: &[u8]) -> (r: Vec<u8>)
    ensures
        r@.len() == 32,
        be_value(r@) == be_value(b@) % scalar_modulus(Curve::Bls12_381),
{
    ark_bls12_381::Fr::from_be_bytes_mod_order(b).into_bigint().to_bytes_be()
}

/// Relies on addition in BN254's `Fr`: the sum modulo `r`.
#[verifier::external_body]
fn bn254_fr_add(a: &[u8], b: &[u8]) -> (r: Vec<u8>)
    ensures
        r@.len() == 32,
        be_value(r@) == (be_value(a@) + be_value(b@)) % scalar_modulus(Curve::Bn254),
{
    let x = ark_bn254::Fr::from_be_bytes_mod_order(a);
    let y = ark_bn254::Fr::from_be_bytes_mod_order(b);
    (x + y).into_bigint().to_bytes_be()
}

/// Relies on addition in BLS12-381's `Fr`: the sum modulo `r`.
#[verifier::external_body]
fn bls12_381_fr_add(a: &[u8], b: &[u8]) -> (r: Vec<u8>)
    ensures
        r@.len() == 32,
        be_value(r@) == (be_value(a@) + be_value(b@)) % scalar_modulus(Curve::Bls12_381),
{
    let x = ark_bls12_381::Fr::from_be_bytes_mod_order(a);
    let y = ark_bls12_381::Fr::from_be_bytes_mod_order(b);
    (x + y).into_bigint().to_bytes_be()
}

/// Relies on subtraction in BN254's `Fr`: the difference modulo `r`.
#[verifier::external_body]
fn bn254_fr_sub(a: &[u8], b: &[u8]) -> (r: Vec<u8>)
    ensures
        r@.len() == 32,
        be_value(r@) as int == (be_value(a@) - be_value(b@)) % (scalar_modulus(Curve::Bn254) as int),
{
    let x = ark_bn254::Fr::from_be_bytes_mod_order(a);
    let y = ark_bn254::Fr::from_be_bytes_mod_order(b);
    (x - y).into_bigint().to_bytes_be()
}

/// Relies on subtraction in BLS12-381's `Fr`: the difference modulo `r`.
#[verifier::external_body]
fn bls12_381_fr_sub(a: &[u8], b: &[u8]) -> (r: Vec<u8>)
    ensures
        r@.len() == 32,
        be_value(r@) as int == (be_value(a@) - be_value(b@)) % (scalar_modulus(Curve::Bls12_381) as int),
{
    let x = ark_bls12_381::Fr::from_be_bytes_mod_order(a);
    let y = ark_bls12_381::Fr::from_be_bytes_mod_order(b);
    (x - y).into_bigint().to_bytes_be()
}

/// The big-endian integer `b`, reduced modulo the order of the scalar field.
pub fn scalar_reduce(c: Curve, b: &[u8]) -> (r: Vec<u8>)
    ensures
        r@.len() == 32,
        be_value(r@) == be_value(b@) % scalar_modulus(c),
{
    match c {
        Curve::Bn254 => bn254_fr_reduce(b),
        Curve::Bls12_381 => bls12_381_fr_reduce(b),
    }
}

/// The sum of two scalars modulo the order of the scalar field.
pub fn scalar_add(c: Curve, a: &[u8], b: &[u8]) -> (r: Vec<u8>)
    ensures
        r@.len() == 32,
        be_value(r@) == (be_value(a@) + be_value(b@)) % scalar_modulus(c),
{
    match c {
        Curve::Bn254 => bn254_fr_add(a, b),
        Curve::Bls12_381 => bls12_381_fr_add(a, b),
    }
}

/// The difference `a - b` of two scalars modulo the order of the scalar field.
pub fn scalar_sub(c: Curve, a: &[u8], b: &[u8]) -> (r: Vec<u8>)
    ensures
        r@.len() == 32,
        be_value(r@) as int == (be_value(a@) - be_value(b@)) % (scalar_modulus(c) as int),
{
    match c {
        Curve::Bn254 => bn254_fr_sub(a, b),
        Curve::Bls12_381 => bls12_381_fr_sub(a, b),
    }
}

/// Relies on ark_serialize's compressed encoding of BN254's `G1Affine`:
/// `deserialize_compressed` (which checks that the point is on the curve and in
/// the group) then `serialize_compressed`; what it gives back decodes to itself.
#[verifier::external_body]
fn bn254_g1_decode(b: &[u8]) -> (r: Option<Vec<u8>>)
    ensures
        r is None ==> bn254_g1_canonical(b@) is None,
        r matches Some(p) ==> bn254_g1_canonical(b@) == Some(p@),
        r matches Some(p) ==> bn254_g1_canonical(p@) == Some(p@),
{
    let point = ark_bn254::G1Affine::deserialize_compressed(b).ok()?;
    let mut out: Vec<u8> = Vec::new();
    point.serialize_compressed(&mut out).ok()?;
    Some(out)
}

/// Relies on ark_serialize's compressed encoding of BLS12-381's `G1Affine`, as above.
#[verifier::external_body]
fn bls12_381_g1_decode(b: &[u8]) -> (r: Option<Vec<u8>>)
    ensures
        r is None ==> bls12_381_g1_canonical(b@) is None,
        r matches Some(p) ==> bls12_381_g1_canonical(b@) == Some(p@),
        r matches Some(p) ==> bls12_381_g1_canonical(p@) == Some(p@),
{
    let point = ark_bls12_381::G1Affine::deserialize_compressed(b).ok()?;
    let mut out: Vec<u8> = Vec::new();
    point.serialize_compressed(&mut out).ok()?;
    Some(out)
}

/// Relies on point addition in BN254's G1 (`into_group`, `+`, `into_affine`),
/// between the compressed encodings of the operands and of the result.
#[verifier::external_body]
fn bn254_g1_add(a: &[u8], b: &[u8]) -> (r: Vec<u8>)
    requires
        bn254_g1_canonical(a@) == Some(a@),
        bn254_g1_canonical(b@) == Some(b@),
    ensures
        r@ == bn254_g1_sum(a@, b@),
        bn254_g1_canonical(r@) == Some(r@),
{
    let x = ark_bn254::G1Affine::deserialize_compressed(a).unwrap();
    let y = ark_bn254::G1Affine::deserialize_compressed(b).unwrap();
    let mut out: Vec<u8> = Vec::new();
    (x.into_group() + y.into_group()).into_affine().serialize_compressed(&mut out).unwrap();
    out
}

/// Relies on point addition in BLS12-381's G1, as above.
#[verifier::external_body]
fn bls12_381_g1_add(a: &[u8], b: &[u8]) -> (r: Vec<u8>)
    requires
        bls12_381_g1_canonical(a@) == Some(a@),
        bls12_381_g1_canonical(b@) == Some(b@),
    ensures
        r@ == bls12_381_g1_sum(a@, b@),
        bls12_381_g1_canonical(r@) == Some(r@),
{
    let x = ark_bls12_381::G1Affine::deserialize_compressed(a).unwrap();
    let y = ark_bls12_381::G1Affine::deserialize_compressed(b).unwrap();
    let mut out: Vec<u8> = Vec::new();
    (x.into_group() + y.into_group()).into_affine().serialize_compressed(&mut out).unwrap();
    out
}

/// Relies on point subtraction in BN254's G1 (`into_group`, `-`, `into_affine`).
#[verifier::external_body]
fn bn254_g1_sub(a: &[u8], b: &[u8]) -> (r: Vec<u8>)
    requires
        bn254_g1_canonical(a@) == Some(a@),
        bn254_g1_canonical(b@) == Some(b@),
    ensures
        r@ == bn254_g1_difference(a@, b@),
        bn254_g1_canonical(r@) == Some(r@),
{
    let x = ark_bn254::G1Affine::deserialize_compressed(a).unwrap();
    let y = ark_bn254::G1Affine::deserialize_compressed(b).unwrap();
    let mut out: Vec<u8> = Vec::new();
    (x.into_group() - y.into_group()).into_affine().serialize_compressed(&mut out).unwrap();
    out
}

/// Relies on point subtraction in BLS12-381's G1, as above.
#[verifier::external_body]
fn bls12_381_g1_sub(a: &[u8], b: &[u8]) -> (r: Vec<u8>)
    requires
        bls12_381_g1_canonical(a@) == Some(a@),
        bls12_381_g1_canonical(b@) == Some(b@),
    ensures
        r@ == bls12_381_g1_difference(a@, b@),
        bls12_381_g1_canonical(r@) == Some(r@),
{
    let x = ark_bls12_381::G1Affine::deserialize_compressed(a).unwrap();
    let y = ark_bls12_381::G1Affine::deserialize_compressed(b).unwrap();
    let mut out: Vec<u8> = Vec::new();
    (x.into_group() - y.into_group()).into_affine().serialize_compressed(&mut out).unwrap();
    out
}

/// Relies on scalar multiplication and addition in BN254's G1: `g*m + h*v`,
/// with `m` and `v` read by `from_be_bytes_mod_order`.
#[verifier::external_body]
fn bn254_g1_commit(g: &[u8], h: &[u8], m: &[u8], v: &[u8]) -> (r: Vec<u8>)
    requires
        bn254_g1_canonical(g@) == Some(g@),
        bn254_g1_canonical(h@) == Some(h@),
    ensures
        r@ == bn254_g1_pedersen(
            g@,
            h@,
            be_value(m@) % scalar_modulus(Curve::Bn254),
            be_value(v@) % scalar_modulus(Curve::Bn254),
        ),
        bn254_g1_canonical(r@) == Some(r@),
{
    let g = ark_bn254::G1Affine::deserialize_compressed(g).unwrap();
    let h = ark_bn254::G1Affine::deserialize_compressed(h).unwrap();
    let m = ark_bn254::Fr::from_be_bytes_mod_order(m);
    let v = ark_bn254::Fr::from_be_bytes_mod_order(v);
    let mut out: Vec<u8> = Vec::new();
    (g * m + h * v).into_affine().serialize_compressed(&mut out).unwrap();
    out
}

/// Relies on scalar multiplication and addition in BLS12-381's G1, as above.
#[verifier::external_body]
fn bls12_381_g1_commit(g: &[u8], h: &[u8], m: &[u8], v: &[u8]) -> (r: Vec<u8>)
    requires
        bls12_381_g1_canonical(g@) == Some(g@),
        bls12_381_g1_canonical(h@) == Some(h@),
    ensures
        r@ == bls12_381_g1_pedersen(
            g@,
            h@,
            be_value(m@) % scalar_modulus(Curve::Bls12_381),
            be_value(v@) % scalar_modulus(Curve::Bls12_381),
        ),
        bls12_381_g1_canonical(r@) == Some(r@),
{
    let g = ark_bls12_381::G1Affine::deserialize_compressed(g).unwrap();
    let h = ark_bls12_381::G1Affine::deserialize_compressed(h).unwrap();
    let m = ark_bls12_381::Fr::from_be_bytes_mod_order(m);
    let v = ark_bls12_381::Fr::from_be_bytes_mod_order(v);
    let mut out: Vec<u8> = Vec::new();
    (g * m + h * v).into_affine().serialize_compressed(&mut out).unwrap();
    out
}

/// The canonical encoding of the G1 point that `b` begins with, if any.
pub fn point_decode(c: Curve, b: &[u8]) -> (r: Option<Vec<u8>>)
    ensures
        r is None ==> point_canonical(c, b@) is None,
        r matches Some(p) ==> point_canonical(c, b@) == Some(p@) && is_point(c, p@),
{
    match c {
        Curve::Bn254 => bn254_g1_decode(b),
        Curve::Bls12_381 => bls12_381_g1_decode(b),
    }
}

/// The sum of two G1 points.
pub fn point_add(c: Curve, a: &[u8], b: &[u8]) -> (r: Vec<u8>)
    requires
        is_point(c, a@),
        is_point(c, b@),
    ensures
        r@ == point_sum(c, a@, b@),
        is_point(c, r@),
{
    match c {
        Curve::Bn254 => bn254_g1_add(a, b),
        Curve::Bls12_381 => bls12_381_g1_add(a, b),
    }
}

/// The difference `a - b` of two G1 points.
pub fn point_sub(c: Curve, a: &[u8], b: &[u8]) -> (r: Vec<u8>)
    requires
        is_point(c, a@),
        is_point(c, b@),
    ensures
        r@ == point_difference(c, a@, b@),
        is_point(c, r@),
{
    match c {
        Curve::Bn254 => bn254_g1_sub(a, b),
        Curve::Bls12_381 => bls12_381_g1_sub(a, b),
    }
}

/// `g*m + h*v` for the scalars that `m` and `v` spell in big-endian.
pub fn point_commit(c: Curve, g: &[u8], h: &[u8], m: &[u8], v: &[u8]) -> (r: Vec<u8>)
    requires
        is_point(c, g@),
        is_point(c, h@),
    ensures
        r@ == pedersen(c, g@, h@, be_value(m@), be_value(v@)),
        is_point(c, r@),
{
    match c {
        Curve::Bn254 => bn254_g1_commit(g, h, m, v),
        Curve::Bls12_381 => bls12_381_g1_commit(g, h, m, v),
    }
}

} // verus!
