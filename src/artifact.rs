//! What the library reads out of the proof system's artifacts: the commitment
//! `d` of a proof, the commitment basis of a proving key, and the verdict of
//! the verifier.
use vstd::prelude::*;
use crate::curve::{is_point, Curve};
use ark_ff::PrimeField;
use ark_serialize::{CanonicalDeserialize, CanonicalSerialize};

verus! {

/// The compressed commitment `d` of a compressed BN254 legogroth16 proof.
pub uninterp spec fn bn254_proof_d(b: Seq<u8>) -> Option<Seq<u8>>;

/// The compressed commitment `d` of a compressed BLS12-381 legogroth16 proof.
pub uninterp spec fn bls12_381_proof_d(b: Seq<u8>) -> Option<Seq<u8>>;

/// The bases `(gamma_abc_g1[1], eta_gamma_inv_g1)` of a compressed BN254 proving key.
pub uninterp spec fn bn254_key_basis(b: Seq<u8>) -> Option<(Seq<u8>, Seq<u8>)>;

/// The bases `(gamma_abc_g1[1], eta_gamma_inv_g1)` of a compressed BLS12-381 proving key.
pub uninterp spec fn bls12_381_key_basis(b: Seq<u8>) -> Option<(Seq<u8>, Seq<u8>)>;

/// Whether a BN254 verifying key, a proof and public inputs are accepted.
pub uninterp spec fn bn254_verdict(vk: Seq<u8>, proof: Seq<u8>, inputs: Seq<Seq<u8>>) -> bool;

/// Whether a BLS12-381 verifying key, a proof and public inputs are accepted.
pub uninterp spec fn bls12_381_verdict(vk: Seq<u8>, proof: Seq<u8>, inputs: Seq<Seq<u8>>) -> bool;

pub open spec fn proof_d(c: Curve, b: Seq<u8>) -> Option<Seq<u8>> {
    match c {
        Curve::Bn254 => bn254_proof_d(b),
        Curve::Bls12_381 => bls12_381_proof_d(b),
    }
}

pub open spec fn key_basis(c: Curve, b: Seq<u8>) -> Option<(Seq<u8>, Seq<u8>)> {
    match c {
        Curve::Bn254 => bn254_key_basis(b),
        Curve::Bls12_381 => bls12_381_key_basis(b),
    }
}

pub open spec fn verdict(c: Curve, vk: Seq<u8>, proof: Seq<u8>, inputs: Seq<Seq<u8>>) -> bool {
    match c {
        Curve::Bn254 => bn254_verdict(vk, proof, inputs),
        Curve::Bls12_381 => bls12_381_verdict(vk, proof, inputs),
    }
}

/// Relies on legogroth16's `Proof::<Bn254>::deserialize_compressed`, and on
/// ark_serialize to encode its field `d` compressed, which decodes to itself.
#[verifier::external_body]
fn bn254_proof_commitment(b: &[u8]) -> (r: Option<Vec<u8>>)
    ensures
        r is None ==> bn254_proof_d(b@) is None,
        r matches Some(d) ==> bn254_proof_d(b@) == Some(d@) && is_point(Curve::Bn254, d@),
{
    let proof = legogroth16::Proof::<ark_bn254::Bn254>::deserialize_compressed(b).ok()?;
    let mut out: Vec<u8> = Vec::new();
    proof.d.serialize_compressed(&mut out).ok()?;
    Some(out)
}

/// Relies on legogroth16's `Proof::<Bls12_381>::deserialize_compressed`, as above.
#[verifier::external_body]
fn bls12_381_proof_commitment(b: &[u8]) -> (r: Option<Vec<u8>>)
    ensures
        r is None ==> bls12_381_proof_d(b@) is None,
        r matches Some(d) ==> bls12_381_proof_d(b@) == Some(d@) && is_point(Curve::Bls12_381, d@),
{
    let proof = legogroth16::Proof::<ark_bls12_381::Bls12_381>::deserialize_compressed(b).ok()?;
    let mut out: Vec<u8> = Vec::new();
    proof.d.serialize_compressed(&mut out).ok()?;
    Some(out)
}

/// Relies on legogroth16's `ProvingKey::<Bn254>::deserialize_compressed`; the
/// bases are `vk.gamma_abc_g1[1]` (absent when that vector is shorter) and
/// `vk.eta_gamma_inv_g1`, encoded compressed.
#[verifier::external_body]
fn bn254_proving_key_basis(b: &[u8]) -> (r: Option<(Vec<u8>, Vec<u8>)>)
    ensures
        r is None ==> bn254_key_basis(b@) is None,
        r matches Some(gh) ==> bn254_key_basis(b@) == Some((gh.0@, gh.1@))
            && is_point(Curve::Bn254, gh.0@) && is_point(Curve::Bn254, gh.1@),
{
    let pk = legogroth16::ProvingKey::<ark_bn254::Bn254>::deserialize_compressed(b).ok()?;
    let (mut g, mut h): (Vec<u8>, Vec<u8>) = (Vec::new(), Vec::new());
    pk.vk.gamma_abc_g1.get(1)?.serialize_compressed(&mut g).ok()?;
    pk.vk.eta_gamma_inv_g1.serialize_compressed(&mut h).ok()?;
    Some((g, h))
}

/// Relies on legogroth16's `ProvingKey::<Bls12_381>::deserialize_compressed`, as above.
#[verifier::external_body]
fn bls12_381_proving_key_basis(b: &[u8]) -> (r: Option<(Vec<u8>, Vec<u8>)>)
    ensures
        r is None ==> bls12_381_key_basis(b@) is None,
        r matches Some(gh) ==> bls12_381_key_basis(b@) == Some((gh.0@, gh.1@))
            && is_point(Curve::Bls12_381, gh.0@) && is_point(Curve::Bls12_381, gh.1@),
{
    let pk = legogroth16::ProvingKey::<ark_bls12_381::Bls12_381>::deserialize_compressed(b).ok()?;
    let (mut g, mut h): (Vec<u8>, Vec<u8>) = (Vec::new(), Vec::new());
    pk.vk.gamma_abc_g1.get(1)?.serialize_compressed(&mut g).ok()?;
    pk.vk.eta_gamma_inv_g1.serialize_compressed(&mut h).ok()?;
    Some((g, h))
}

/// Relies on legogroth16's `VerifyingKey::<Bn254>` and `Proof::<Bn254>`
/// decoding, `prepare_verifying_key` and `verify_proof`, with each public input
/// read by `from_be_bytes_mod_order`; an artifact that does not decode is
/// rejected, never raised.
#[verifier::external_body]
fn bn254_verify(vk: &[u8], proof: &[u8], inputs: &Vec<Vec<u8>>) -> (r: bool)
    ensures
        r == bn254_verdict(vk@, proof@, inputs@.map_values(|x: Vec<u8>| x@)),
{
    let Ok(vk) = legogroth16::VerifyingKey::<ark_bn254::Bn254>::deserialize_compressed(vk) else { return false };
    let Ok(proof) = legogroth16::Proof::<ark_bn254::Bn254>::deserialize_compressed(proof) else { return false };
    let inputs: Vec<ark_bn254::Fr> = inputs.iter().map(|x| ark_bn254::Fr::from_be_bytes_mod_order(x)).collect();
    legogroth16::verify_proof(&legogroth16::prepare_verifying_key(&vk), &proof, &inputs).is_ok()
}

/// Relies on legogroth16's verification over BLS12-381, as above.
#[verifier::external_body]
fn bls12_381_verify(vk: &[u8], proof: &[u8], inputs: &Vec<Vec<u8>>) -> (r: bool)
    ensures
        r == bls12_381_verdict(vk@, proof@, inputs@.map_values(|x: Vec<u8>| x@)),
{
    let Ok(vk) = legogroth16::VerifyingKey::<ark_bls12_381::Bls12_381>::deserialize_compressed(vk) else { return false };
    let Ok(proof) = legogroth16::Proof::<ark_bls12_381::Bls12_381>::deserialize_compressed(proof) else { return false };
    let inputs: Vec<ark_bls12_381::Fr> = inputs.iter().map(|x| ark_bls12_381::Fr::from_be_bytes_mod_order(x)).collect();
    legogroth16::verify_proof(&legogroth16::prepare_verifying_key(&vk), &proof, &inputs).is_ok()
}

/// The commitment `d` that a compressed proof carries.
pub fn proof_commitment_bytes(c: Curve, b: &[u8]) -> (r: Option<Vec<u8>>)
    ensures
        r is None ==> proof_d(c, b@) is None,
        r matches Some(d) ==> proof_d(c, b@) == Some(d@) && is_point(c, d@),
{
    match c {
        Curve::Bn254 => bn254_proof_commitment(b),
        Curve::Bls12_381 => bls12_381_proof_commitment(b),
    }
}

/// The commitment bases `(g, h)` of a compressed proving key.
pub fn proving_key_basis_bytes(c: Curve, b: &[u8]) -> (r: Option<(Vec<u8>, Vec<u8>)>)
    ensures
        r is None ==> key_basis(c, b@) is None,
        r matches Some(gh) ==> key_basis(c, b@) == Some((gh.0@, gh.1@)) && is_point(c, gh.0@)
            && is_point(c, gh.1@),
{
    match c {
        Curve::Bn254 => bn254_proving_key_basis(b),
        Curve::Bls12_381 => bls12_381_proving_key_basis(b),
    }
}

/// Whether the verifier accepts the proof under the verifying key and public
/// inputs; `false`, never an error, when an artifact does not decode.
pub fn verify(c: Curve, vk: &[u8], proof: &[u8], inputs: &Vec<Vec<u8>>) -> (r: bool)
    ensures
        r == verdict(c, vk@, proof@, inputs@.map_values(|x: Vec<u8>| x@)),
{
    match c {
        Curve::Bn254 => bn254_verify(vk, proof, inputs),
        Curve::Bls12_381 => bls12_381_verify(vk, proof, inputs),
    }
}

} // verus!
