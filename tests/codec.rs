use ark_ec::AffineRepr;
use ark_serialize::CanonicalSerialize;
use pedersen_aggregator::codec::{
    decode_group_element, decode_opening_key, decode_scalar, encode_group_element,
    encode_opening_key, encode_scalar, hex_string_to_scalar_field, scalar_to_hex_string,
    AggregatorError, OpeningKey, Scalar,
};
use pedersen_aggregator::curve::Curve;

fn scalar(n: u64) -> Scalar {
    let mut bytes = vec![0u8; 24];
    bytes.extend_from_slice(&n.to_be_bytes());
    Scalar { bytes }
}

fn scalar_hex(hex_digits: &str) -> Scalar {
    Scalar { bytes: hex::decode(format!("{:0>64}", hex_digits)).unwrap() }
}

fn compressed(p: ark_bn254::G1Affine) -> Vec<u8> {
    let mut out = Vec::new();
    p.serialize_compressed(&mut out).unwrap();
    out
}

const BN254_R: &str = "30644e72e131a029b85045b68181585d2833e84879b9709143e1f593f0000001";
const BN254_R_MINUS_ONE: &str = "30644e72e131a029b85045b68181585d2833e84879b9709143e1f593f0000000";

#[test]
fn scalar_bytes_round_trip_zero_one_and_largest() {
    for s in [scalar(0), scalar(1), scalar_hex(BN254_R_MINUS_ONE)] {
        let back = decode_scalar(Curve::Bn254, &encode_scalar(&s)).unwrap();
        assert_eq!(back.bytes, s.bytes);
    }
}

#[test]
fn scalar_bytes_reject_modulus_and_wrong_length() {
    let r = scalar_hex(BN254_R);
    assert_eq!(decode_scalar(Curve::Bn254, &r.bytes).unwrap_err(), AggregatorError::Deserialization);
    assert_eq!(decode_scalar(Curve::Bn254, &[1u8; 31]).unwrap_err(), AggregatorError::Deserialization);
    assert_eq!(decode_scalar(Curve::Bn254, &[0u8; 33]).unwrap_err(), AggregatorError::Deserialization);
    // Below the BLS12-381 order, so a valid scalar there.
    assert!(decode_scalar(Curve::Bls12_381, &r.bytes).is_ok());
}

#[test]
fn scalar_hex_round_trip() {
    for s in [scalar(0), scalar(1), scalar(0xdead_beef), scalar_hex(BN254_R_MINUS_ONE)] {
        let text = scalar_to_hex_string(&s);
        assert_eq!(text.len(), 64);
        let back = hex_string_to_scalar_field(Curve::Bn254, &text).unwrap();
        assert_eq!(back.bytes, s.bytes);
    }
}

#[test]
fn scalar_hex_text_is_lowercase_fixed_width() {
    assert_eq!(
        scalar_to_hex_string(&scalar(0xABCD)),
        "000000000000000000000000000000000000000000000000000000000000abcd"
    );
}

#[test]
fn hex_string_short_and_prefixed_numerals() {
    assert_eq!(hex_string_to_scalar_field(Curve::Bn254, "0x1").unwrap().bytes, scalar(1).bytes);
    assert_eq!(hex_string_to_scalar_field(Curve::Bn254, "0x0x1f").unwrap().bytes, scalar(0x1f).bytes);
    assert_eq!(hex_string_to_scalar_field(Curve::Bn254, "").unwrap().bytes, scalar(0).bytes);
    assert_eq!(hex_string_to_scalar_field(Curve::Bn254, "ABC").unwrap().bytes, scalar(0xabc).bytes);
}

#[test]
fn hex_string_reduces_values_above_modulus() {
    let all_ones = "f".repeat(64);
    let bn = hex_string_to_scalar_field(Curve::Bn254, &all_ones).unwrap();
    assert_eq!(bn.bytes, scalar_hex("e0a77c19a07df2f666ea36f7879462e36fc76959f60cd29ac96341c4ffffffa").bytes);
    let bls = hex_string_to_scalar_field(Curve::Bls12_381, &all_ones).unwrap();
    assert_eq!(bls.bytes, scalar_hex("1824b159acc5056f998c4fefecbc4ff55884b7fa0003480200000001fffffffd").bytes);
    let r = hex_string_to_scalar_field(Curve::Bn254, BN254_R).unwrap();
    assert_eq!(r.bytes, scalar(0).bytes);
}

#[test]
fn hex_string_rejects_non_hex_and_odd_long_text() {
    assert_eq!(hex_string_to_scalar_field(Curve::Bn254, "12g4").unwrap_err(), AggregatorError::Format);
    assert_eq!(
        hex_string_to_scalar_field(Curve::Bn254, &"1".repeat(65)).unwrap_err(),
        AggregatorError::Format
    );
}

#[test]
fn group_element_round_trip_generator_and_identity() {
    for p in [ark_bn254::G1Affine::generator(), ark_bn254::G1Affine::zero()] {
        let bytes = compressed(p);
        let e = decode_group_element(Curve::Bn254, &bytes).unwrap();
        assert_eq!(encode_group_element(&e), bytes);
        assert_eq!(decode_group_element(Curve::Bn254, &encode_group_element(&e)).unwrap().bytes, bytes);
    }
    let bls = {
        let mut out = Vec::new();
        ark_bls12_381::G1Affine::generator().serialize_compressed(&mut out).unwrap();
        out
    };
    assert_eq!(bls.len(), 48);
    assert_eq!(decode_group_element(Curve::Bls12_381, &bls).unwrap().bytes, bls);
}

#[test]
fn group_element_rejects_malformed_bytes() {
    let mut bytes = compressed(ark_bn254::G1Affine::generator());
    let mut longer = bytes.clone();
    longer.push(0);
    assert_eq!(decode_group_element(Curve::Bn254, &longer).unwrap_err(), AggregatorError::Deserialization);
    assert_eq!(
        decode_group_element(Curve::Bn254, &bytes[..31]).unwrap_err(),
        AggregatorError::Deserialization
    );
    bytes[0] ^= 0xff;
    bytes[31] = 0xff;
    assert_eq!(decode_group_element(Curve::Bn254, &bytes).unwrap_err(), AggregatorError::Deserialization);
}

#[test]
fn opening_key_codec_example() {
    let key = OpeningKey { m: scalar(1), v: scalar(2) };
    let text = encode_opening_key(&key);
    assert_eq!(
        text,
        format!("{{\"m\":\"{}01\",\"v\":\"{}02\"}}", "0".repeat(62), "0".repeat(62))
    );
    let back = decode_opening_key(Curve::Bn254, &text).unwrap();
    assert_eq!(back.m.bytes, scalar(1).bytes);
    assert_eq!(back.v.bytes, scalar(2).bytes);
}

#[test]
fn opening_key_decode_accepts_prefix_short_values_and_spacing() {
    let k = decode_opening_key(Curve::Bn254, "{ \"v\" : \"0x2\", \"m\": \"ff\" }").unwrap();
    assert_eq!(k.m.bytes, scalar(0xff).bytes);
    assert_eq!(k.v.bytes, scalar(2).bytes);
}

#[test]
fn opening_key_decode_format_errors() {
    assert_eq!(decode_opening_key(Curve::Bn254, "{\"m\":\"01\"}").unwrap_err(), AggregatorError::Format);
    assert_eq!(
        decode_opening_key(Curve::Bn254, "{\"m\":\"zz\",\"v\":\"01\"}").unwrap_err(),
        AggregatorError::Format
    );
    assert_eq!(decode_opening_key(Curve::Bn254, "{\"m\":1,\"v\":\"01\"}").unwrap_err(), AggregatorError::Format);
    assert_eq!(decode_opening_key(Curve::Bn254, "not json").unwrap_err(), AggregatorError::Format);
}
