use ark_bls12_381::{Bls12_381, Fr};
use ark_ec::{AffineRepr, CurveGroup};
use ark_ff::{BigInteger, PrimeField};
use ark_relations::r1cs::{ConstraintSynthesizer, ConstraintSystemRef, LinearCombination, SynthesisError};
use ark_serialize::CanonicalSerialize;
use ark_std::rand::{rngs::StdRng, SeedableRng};
use pedersen_aggregator::aggregate::{decode_contribution, initialize_aggregate, update_party_contribution};
use pedersen_aggregator::algebra::{
    add_pedersen_commitment, add_scalars, calculate_pedersen_commitment, proof_commitment, proving_key_basis,
    Basis,
};
use pedersen_aggregator::aggregate::sub_scalars;
use pedersen_aggregator::artifact::verify;
use pedersen_aggregator::codec::{encode_opening_key, GroupElement, OpeningKey, Scalar};
use pedersen_aggregator::curve::Curve;

#[derive(Clone)]
struct Square {
    a: Option<Fr>,
}

impl ConstraintSynthesizer<Fr> for Square {
    fn generate_constraints(self, cs: ConstraintSystemRef<Fr>) -> Result<(), SynthesisError> {
        let a = cs.new_witness_variable(|| self.a.ok_or(SynthesisError::AssignmentMissing))?;
        let square = self.a.map(|x| x * x);
        let b = cs.new_witness_variable(|| square.ok_or(SynthesisError::AssignmentMissing))?;
        cs.enforce_constraint(LinearCombination::from(a), LinearCombination::from(a), LinearCombination::from(b))?;
        Ok(())
    }
}

fn encoded<T: CanonicalSerialize>(t: &T) -> Vec<u8> {
    let mut out = Vec::new();
    t.serialize_compressed(&mut out).unwrap();
    out
}

fn scalar(n: u64) -> Scalar {
    Scalar { bytes: Fr::from(n).into_bigint().to_bytes_be() }
}

fn basis() -> Basis {
    let g = ark_bls12_381::G1Affine::generator();
    let h = (g * Fr::from(3u64)).into_affine();
    Basis { g: GroupElement { bytes: encoded(&g) }, h: GroupElement { bytes: encoded(&h) } }
}

#[test]
fn bls_commitment_and_homomorphism() {
    let b = basis();
    let c = calculate_pedersen_commitment(Curve::Bls12_381, &b, &scalar(2), &scalar(5));
    let expected = (ark_bls12_381::G1Affine::generator() * Fr::from(17u64)).into_affine();
    assert_eq!(c.bytes, encoded(&expected));
    let c2 = calculate_pedersen_commitment(Curve::Bls12_381, &b, &scalar(4), &scalar(1));
    let sum = add_pedersen_commitment(Curve::Bls12_381, &c, &c2);
    assert_eq!(sum.bytes, calculate_pedersen_commitment(Curve::Bls12_381, &b, &scalar(6), &scalar(6)).bytes);
}

#[test]
fn bls_scalar_add_and_sub_wrap() {
    let r_minus_one = Scalar { bytes: (-Fr::from(1u64)).into_bigint().to_bytes_be() };
    assert_eq!(add_scalars(Curve::Bls12_381, &r_minus_one, &scalar(2)).bytes, scalar(1).bytes);
    assert_eq!(sub_scalars(Curve::Bls12_381, &scalar(1), &scalar(2)).bytes, r_minus_one.bytes);
    assert_eq!(sub_scalars(Curve::Bls12_381, &scalar(9), &scalar(2)).bytes, scalar(7).bytes);
}

#[test]
fn bls_update_matches_recomputation() {
    let b = basis();
    let contribution = |m: u64, v: u64| pedersen_aggregator::aggregate::Contribution {
        commitment: calculate_pedersen_commitment(Curve::Bls12_381, &b, &scalar(m), &scalar(v)),
        opening_key: OpeningKey { m: scalar(m), v: scalar(v) },
    };
    let parties = vec![contribution(1, 2), contribution(3, 4), contribution(5, 6)];
    let mut agg = initialize_aggregate(Curve::Bls12_381, &b, &parties).unwrap();
    update_party_contribution(Curve::Bls12_381, &mut agg, &b, &parties[1], &contribution(8, 9)).unwrap();
    let expected = initialize_aggregate(
        Curve::Bls12_381,
        &b,
        &vec![contribution(1, 2), contribution(8, 9), contribution(5, 6)],
    )
    .unwrap();
    assert_eq!(agg.commitment.bytes, expected.commitment.bytes);
    assert_eq!(agg.opening_key.m.bytes, scalar(14).bytes);
    assert_eq!(agg.opening_key.v.bytes, scalar(17).bytes);
}

#[test]
fn bls_proof_round() {
    let mut rng = StdRng::seed_from_u64(5);
    let pk = legogroth16::generate_random_parameters::<Bls12_381, _, _>(Square { a: None }, 1, &mut rng).unwrap();
    let proof = legogroth16::create_random_proof(Square { a: Some(Fr::from(6u64)) }, Fr::from(7u64), &pk, &mut rng)
        .unwrap();
    let proof_bytes = encoded(&proof);
    let key_basis = proving_key_basis(Curve::Bls12_381, &encoded(&pk)).unwrap();
    let d = proof_commitment(Curve::Bls12_381, &proof_bytes).unwrap();
    assert_eq!(d.bytes, calculate_pedersen_commitment(Curve::Bls12_381, &key_basis, &scalar(6), &scalar(7)).bytes);
    let key = encode_opening_key(&OpeningKey { m: scalar(6), v: scalar(7) });
    let c = decode_contribution(Curve::Bls12_381, &proof_bytes, &key).unwrap();
    assert_eq!(c.commitment.bytes, d.bytes);
    let vk = encoded(&pk.vk);
    assert!(verify(Curve::Bls12_381, &vk, &proof_bytes, &vec![]));
    let mut flipped = proof_bytes.clone();
    flipped[10] ^= 0x40;
    assert!(!verify(Curve::Bls12_381, &vk, &flipped, &vec![]));
}
