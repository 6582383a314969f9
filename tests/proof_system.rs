use ark_bn254::{Bn254, Fr};
use ark_ff::{BigInteger, PrimeField};
use ark_relations::r1cs::{ConstraintSynthesizer, ConstraintSystemRef, LinearCombination, SynthesisError};
use ark_serialize::CanonicalSerialize;
use ark_std::rand::{rngs::StdRng, SeedableRng};
use pedersen_aggregator::aggregate::{initialize_aggregate, update_aggregated_commitment, decode_contribution};
use pedersen_aggregator::algebra::{
    add_pedersen_commitment_and_proof, add_pedersen_commitment_from_proof, aggregate_proof_commitment,
    calculate_pedersen_commitment, proof_commitment, proving_key_basis,
};
use pedersen_aggregator::artifact::verify;
use pedersen_aggregator::codec::{encode_opening_key, AggregatorError, OpeningKey, Scalar};
use pedersen_aggregator::curve::Curve;

/// Knows `a` with `a * a = b`; `a` is the committed witness.
#[derive(Clone)]
struct Square {
    a: Option<Fr>,
}

impl ConstraintSynthesizer<Fr> for Square {
    fn generate_constraints(self, cs: ConstraintSystemRef<Fr>) -> Result<(), SynthesisError> {
        let a = cs.new_witness_variable(|| self.a.ok_or(SynthesisError::AssignmentMissing))?;
        let square = self.a.map(|x| x * x);
        let b = cs.new_witness_variable(|| square.ok_or(SynthesisError::AssignmentMissing))?;
        cs.enforce_constraint(LinearCombination::from(a), LinearCombination::from(a), LinearCombination::from(b))?;
        Ok(())
    }
}

fn encoded<T: CanonicalSerialize>(t: &T) -> Vec<u8> {
    let mut out = Vec::new();
    t.serialize_compressed(&mut out).unwrap();
    out
}

fn scalar_of(x: Fr) -> Scalar {
    Scalar { bytes: x.into_bigint().to_bytes_be() }
}

struct Setup {
    pk: legogroth16::ProvingKey<Bn254>,
    rng: StdRng,
}

fn setup() -> Setup {
    let mut rng = StdRng::seed_from_u64(42);
    let pk = legogroth16::generate_random_parameters::<Bn254, _, _>(Square { a: None }, 1, &mut rng).unwrap();
    Setup { pk, rng }
}

/// A compressed proof of knowledge of `m`, with blinding `v`, and its opening key text.
fn prove(s: &mut Setup, m: u64, v: u64) -> (Vec<u8>, String) {
    let proof = legogroth16::create_random_proof(Square { a: Some(Fr::from(m)) }, Fr::from(v), &s.pk, &mut s.rng)
        .unwrap();
    let key = OpeningKey { m: scalar_of(Fr::from(m)), v: scalar_of(Fr::from(v)) };
    (encoded(&proof), encode_opening_key(&key))
}

#[test]
fn proof_commitment_is_pedersen_commitment_under_key_basis() {
    let mut s = setup();
    let basis = proving_key_basis(Curve::Bn254, &encoded(&s.pk)).unwrap();
    let (proof, _) = prove(&mut s, 5, 99);
    let d = proof_commitment(Curve::Bn254, &proof).unwrap();
    let expected = calculate_pedersen_commitment(Curve::Bn254, &basis, &scalar_of(Fr::from(5u64)), &scalar_of(Fr::from(99u64)));
    assert_eq!(d.bytes, expected.bytes);
}

#[test]
fn verify_accepts_honest_proof() {
    let mut s = setup();
    let vk = encoded(&s.pk.vk);
    let (proof, _) = prove(&mut s, 3, 4);
    assert!(verify(Curve::Bn254, &vk, &proof, &vec![]));
}

#[test]
fn verify_rejects_flipped_bytes() {
    let mut s = setup();
    let vk = encoded(&s.pk.vk);
    let (proof, _) = prove(&mut s, 3, 4);
    let mut positions: Vec<usize> = (0..proof.len()).step_by(7).collect();
    positions.push(proof.len() - 1);
    for i in positions {
        let mut flipped = proof.clone();
        flipped[i] ^= 0x01;
        assert!(!verify(Curve::Bn254, &vk, &flipped, &vec![]), "byte {i}");
    }
    assert!(!verify(Curve::Bn254, &vk, &proof[..proof.len() - 1], &vec![]));
    assert!(!verify(Curve::Bn254, &[1, 2, 3], &proof, &vec![]));
}

#[test]
fn proving_key_basis_rejects_garbage() {
    assert_eq!(proving_key_basis(Curve::Bn254, &[0u8; 10]).unwrap_err(), AggregatorError::Deserialization);
    assert_eq!(proof_commitment(Curve::Bn254, &[7u8; 5]).unwrap_err(), AggregatorError::Deserialization);
}

#[test]
fn proof_commitments_add_up() {
    let mut s = setup();
    let basis = proving_key_basis(Curve::Bn254, &encoded(&s.pk)).unwrap();
    let (first, _) = prove(&mut s, 1, 2);
    let (second, _) = prove(&mut s, 3, 4);
    let sum = add_pedersen_commitment_from_proof(Curve::Bn254, &first, &second).unwrap();
    let expected = calculate_pedersen_commitment(Curve::Bn254, &basis, &scalar_of(Fr::from(4u64)), &scalar_of(Fr::from(6u64)));
    assert_eq!(sum.bytes, expected.bytes);
    let d2 = proof_commitment(Curve::Bn254, &second).unwrap();
    assert_eq!(add_pedersen_commitment_and_proof(Curve::Bn254, &first, &d2).unwrap().bytes, expected.bytes);
    assert_eq!(aggregate_proof_commitment(Curve::Bn254, &vec![first.clone(), second.clone()]).unwrap().bytes, expected.bytes);
    assert_eq!(aggregate_proof_commitment(Curve::Bn254, &vec![]).unwrap_err(), AggregatorError::EmptyInput);
    assert_eq!(
        aggregate_proof_commitment(Curve::Bn254, &vec![first, vec![1, 2, 3]]).unwrap_err(),
        AggregatorError::Deserialization
    );
}

#[test]
fn update_from_proofs_matches_recomputation() {
    let mut s = setup();
    let basis = proving_key_basis(Curve::Bn254, &encoded(&s.pk)).unwrap();
    let parties = vec![prove(&mut s, 10, 1), prove(&mut s, 20, 2), prove(&mut s, 30, 3)];
    let contributions: Vec<_> = parties
        .iter()
        .map(|(p, k)| decode_contribution(Curve::Bn254, p, k).unwrap())
        .collect();
    let mut agg = initialize_aggregate(Curve::Bn254, &basis, &contributions).unwrap();
    let (next_proof, next_key) = prove(&mut s, 25, 8);
    update_aggregated_commitment(Curve::Bn254, &mut agg, &basis, &parties[1].0, &parties[1].1, &next_proof, &next_key)
        .unwrap();
    let fresh = vec![
        contributions[0].clone(),
        decode_contribution(Curve::Bn254, &next_proof, &next_key).unwrap(),
        contributions[2].clone(),
    ];
    let expected = initialize_aggregate(Curve::Bn254, &basis, &fresh).unwrap();
    assert_eq!(agg.commitment.bytes, expected.commitment.bytes);
    assert_eq!(agg.opening_key.m.bytes, expected.opening_key.m.bytes);
    assert_eq!(agg.opening_key.v.bytes, expected.opening_key.v.bytes);
    let total = calculate_pedersen_commitment(Curve::Bn254, &basis, &scalar_of(Fr::from(65u64)), &scalar_of(Fr::from(12u64)));
    assert_eq!(agg.commitment.bytes, total.bytes);
}

#[test]
fn update_from_proofs_reports_first_bad_input() {
    let mut s = setup();
    let basis = proving_key_basis(Curve::Bn254, &encoded(&s.pk)).unwrap();
    let (p, k) = prove(&mut s, 1, 1);
    let c = decode_contribution(Curve::Bn254, &p, &k).unwrap();
    let mut agg = initialize_aggregate(Curve::Bn254, &basis, &vec![c]).unwrap();
    let before = agg.commitment.bytes.clone();
    let r = update_aggregated_commitment(Curve::Bn254, &mut agg, &basis, &[9u8; 4], &k, &p, &k);
    assert_eq!(r.unwrap_err(), AggregatorError::Deserialization);
    let r = update_aggregated_commitment(Curve::Bn254, &mut agg, &basis, &p, "{}", &p, &k);
    assert_eq!(r.unwrap_err(), AggregatorError::Format);
    let r = update_aggregated_commitment(Curve::Bn254, &mut agg, &basis, &p, &k, &p, "{\"m\":\"q\",\"v\":\"1\"}");
    assert_eq!(r.unwrap_err(), AggregatorError::Format);
    assert_eq!(agg.commitment.bytes, before);
}
