//! Pedersen commitments and their opening keys: computing, adding and
//! aggregating them.
use vstd::prelude::*;
use crate::artifact::{key_basis, proof_commitment_bytes, proof_d, proving_key_basis_bytes};
use crate::codec::{decode_opening_key, opening_key_of_text, AggregatorError, GroupElement, OpeningKey, Scalar};
use crate::curve::{pedersen, point_add, point_commit, point_sum, scalar_add, scalar_modulus, Curve};
use vstd::arithmetic::div_mod::{lemma_add_mod_noop, lemma_mod_bound, lemma_mod_twice};

verus! {

/// The two bases `(g, h)` of Pedersen commitments under one proving key.
#[derive(Clone, Debug)]
pub struct Basis {
    pub g: GroupElement,
    pub h: GroupElement,
}

impl Basis {
    pub open spec fn wf(&self, c: Curve) -> bool {
        self.g.wf(c) && self.h.wf(c)
    }
}

/// The encodings of a sequence of points.
pub open spec fn point_bytes(s: Seq<GroupElement>) -> Seq<Seq<u8>> {
    s.map_values(|p: GroupElement| p.bytes@)
}

/// The left fold of point addition over a non-empty sequence, in order.
pub open spec fn sum_points(c: Curve, s: Seq<Seq<u8>>) -> Seq<u8>
    decreases s.len(),
{
    if s.len() <= 1 {
        if s.len() == 1 {
            s[0]
        } else {
            Seq::empty()
        }
    } else {
        point_sum(c, sum_points(c, s.drop_last()), s.last())
    }
}

/// Aggregating a single commitment gives that commitment.
pub proof fn aggregation_of_one(c: Curve, p: Seq<u8>)
    ensures
        sum_points(c, seq![p]) == p,
{
}

/// The plain sum of a sequence of numbers.
pub open spec fn sum_values(s: Seq<nat>) -> nat
    decreases s.len(),
{
    if s.len() == 0 {
        0
    } else {
        sum_values(s.drop_last()) + s.last()
    }
}

pub open spec fn m_values(s: Seq<OpeningKey>) -> Seq<nat> {
    s.map_values(|k: OpeningKey| k.m.value())
}

pub open spec fn v_values(s: Seq<OpeningKey>) -> Seq<nat> {
    s.map_values(|k: OpeningKey| k.v.value())
}

/// Copies a scalar, bytes and all.
pub fn copy_scalar(s: &Scalar) -> (r: Scalar)
    ensures
        r.bytes@ == s.bytes@,
{
    Scalar { bytes: s.bytes.clone() }
}

/// Copies a point, bytes and all.
pub fn copy_group_element(p: &GroupElement) -> (r: GroupElement)
    ensures
        r.bytes@ == p.bytes@,
{
    GroupElement { bytes: p.bytes.clone() }
}

/// The commitment bases `g = vk.gamma_abc_g1[1]` and `h = vk.eta_gamma_inv_g1`
/// of a compressed proving key.
pub fn proving_key_basis(c: Curve, pk: &[u8]) -> (r: Result<Basis, AggregatorError>)
    ensures
        r is Ok <==> key_basis(c, pk@) is Some,
        r matches Ok(b) ==> b.wf(c) && key_basis(c, pk@) == Some((b.g.bytes@, b.h.bytes@)),
        r matches Err(e) ==> e == AggregatorError::Deserialization,
{
    match proving_key_basis_bytes(c, pk) {
        None => Err(AggregatorError::Deserialization),
        Some((g, h)) => Ok(Basis { g: GroupElement { bytes: g }, h: GroupElement { bytes: h } }),
    }
}

/// The commitment `d` that a compressed proof carries.
pub fn proof_commitment(c: Curve, proof: &[u8]) -> (r: Result<GroupElement, AggregatorError>)
    ensures
        r is Ok <==> proof_d(c, proof@) is Some,
        r matches Ok(d) ==> d.wf(c) && proof_d(c, proof@) == Some(d.bytes@),
        r matches Err(e) ==> e == AggregatorError::Deserialization,
{
    match proof_commitment_bytes(c, proof) {
        None => Err(AggregatorError::Deserialization),
        Some(d) => Ok(GroupElement { bytes: d }),
    }
}

/// The Pedersen commitment `g*m + h*v`.
pub fn calculate_pedersen_commitment(c: Curve, basis: &Basis, m: &Scalar, v: &Scalar) -> (r: GroupElement)
    requires
        basis.wf(c),
    ensures
        r.wf(c),
        r.bytes@ == pedersen(c, basis.g.bytes@, basis.h.bytes@, m.value(), v.value()),
{
    GroupElement {
        bytes: point_commit(
            c,
            basis.g.bytes.as_slice(),
            basis.h.bytes.as_slice(),
            m.bytes.as_slice(),
            v.bytes.as_slice(),
        ),
    }
}

/// The sum of two commitments.
pub fn add_pedersen_commitment(c: Curve, a: &GroupElement, b: &GroupElement) -> (r: GroupElement)
    requires
        a.wf(c),
        b.wf(c),
    ensures
        r.wf(c),
        r.bytes@ == point_sum(c, a.bytes@, b.bytes@),
{
    GroupElement { bytes: point_add(c, a.bytes.as_slice(), b.bytes.as_slice()) }
}

/// The sum of the commitments `d` of two compressed proofs.
pub fn add_pedersen_commitment_from_proof(c: Curve, one: &[u8], two: &[u8]) -> (r: Result<
    GroupElement,
    AggregatorError,
>)
    ensures
        r is Ok <==> (proof_d(c, one@) is Some && proof_d(c, two@) is Some),
        r matches Ok(s) ==> s.wf(c) && s.bytes@ == point_sum(
            c,
            proof_d(c, one@)->0,
            proof_d(c, two@)->0,
        ),
        r matches Err(e) ==> e == AggregatorError::Deserialization,
{
    let d1 = proof_commitment(c, one)?;
    let d2 = proof_commitment(c, two)?;
    Ok(add_pedersen_commitment(c, &d1, &d2))
}

/// The commitment `d` of a compressed proof plus a commitment.
pub fn add_pedersen_commitment_and_proof(c: Curve, proof: &[u8], commitment: &GroupElement) -> (r:
    Result<GroupElement, AggregatorError>)
    requires
        commitment.wf(c),
    ensures
        r is Ok <==> proof_d(c, proof@) is Some,
        r matches Ok(s) ==> s.wf(c) && s.bytes@ == point_sum(
            c,
            proof_d(c, proof@)->0,
            commitment.bytes@,
        ),
        r matches Err(e) ==> e == AggregatorError::Deserialization,
{
    let d = proof_commitment(c, proof)?;
    Ok(add_pedersen_commitment(c, &d, commitment))
}

/// The sum of commitments, added from left to right; an empty sequence is refused.
pub fn aggregate_commitments(c: Curve, values: &Vec<GroupElement>) -> (r: Result<
    GroupElement,
    AggregatorError,
>)
    requires
        forall|i: int| 0 <= i < values@.len() ==> (#[trigger] values@[i]).wf(c),
    ensures
        r is Err <==> values@.len() == 0,
        r matches Err(e) ==> e == AggregatorError::EmptyInput,
        r matches Ok(s) ==> s.wf(c) && s.bytes@ == sum_points(c, point_bytes(values@)),
{
    if values.len() == 0 {
        return Err(AggregatorError::EmptyInput);
    }
    let mut acc = copy_group_element(&values[0]);
    let mut i: usize = 1;
    while i < values.len()
        invariant
            1 <= i <= values@.len(),
            forall|j: int| 0 <= j < values@.len() ==> (#[trigger] values@[j]).wf(c),
            acc.wf(c),
            acc.bytes@ == sum_points(c, point_bytes(values@).subrange(0, i as int)),
        decreases values@.len() - i,
    {
        let ghost before = point_bytes(values@).subrange(0, i as int);
        acc = add_pedersen_commitment(c, &acc, &values[i]);
        i = i + 1;
        proof {
            let now = point_bytes(values@).subrange(0, i as int);
            assert(now.drop_last() =~= before);
        }
    }
    assert(point_bytes(values@).subrange(0, i as int) =~= point_bytes(values@));
    Ok(acc)
}

/// Adding a number modulo `r` to a running sum kept modulo `r`.
proof fn lemma_running_sum(c: Curve, s: Seq<nat>, acc: nat)
    requires
        s.len() > 0,
        acc == sum_values(s.drop_last()) % scalar_modulus(c),
    ensures
        (acc + s.last()) % scalar_modulus(c) == sum_values(s) % scalar_modulus(c),
{
    lemma_add_mod_noop(
        sum_values(s.drop_last()) as int,
        s.last() as int,
        scalar_modulus(c) as int,
    );
    lemma_mod_twice(sum_values(s.drop_last()) as int, scalar_modulus(c) as int);
    lemma_add_mod_noop(acc as int, s.last() as int, scalar_modulus(c) as int);
}

/// The sum of two scalars modulo the order of the scalar field.
pub fn add_scalars(c: Curve, a: &Scalar, b: &Scalar) -> (r: Scalar)
    ensures
        r.wf(c),
        r.value() == (a.value() + b.value()) % scalar_modulus(c),
{
    let bytes = scalar_add(c, a.bytes.as_slice(), b.bytes.as_slice());
    proof {
        lemma_mod_bound((a.value() + b.value()) as int, scalar_modulus(c) as int);
    }
    Scalar { bytes }
}

/// The sum of opening keys, field by field modulo the order of the scalar
/// field; an empty sequence is refused.
pub fn aggregate_opening_keys(c: Curve, keys: &Vec<OpeningKey>) -> (r: Result<
    OpeningKey,
    AggregatorError,
>)
    requires
        forall|i: int| 0 <= i < keys@.len() ==> (#[trigger] keys@[i]).wf(c),
    ensures
        r is Err <==> keys@.len() == 0,
        r matches Err(e) ==> e == AggregatorError::EmptyInput,
        r matches Ok(k) ==> k.wf(c) && k.m.value() == sum_values(m_values(keys@)) % scalar_modulus(c)
            && k.v.value() == sum_values(v_values(keys@)) % scalar_modulus(c),
{
    if keys.len() == 0 {
        return Err(AggregatorError::EmptyInput);
    }
    let mut m = copy_scalar(&keys[0].m);
    let mut v = copy_scalar(&keys[0].v);
    let mut i: usize = 1;
    proof {
        let k0 = keys@[0];
        vstd::arithmetic::div_mod::lemma_small_mod(k0.m.value(), scalar_modulus(c));
        vstd::arithmetic::div_mod::lemma_small_mod(k0.v.value(), scalar_modulus(c));
        assert(m_values(keys@).subrange(0, 1).drop_last() =~= Seq::<nat>::empty());
        assert(v_values(keys@).subrange(0, 1).drop_last() =~= Seq::<nat>::empty());
        assert(sum_values(Seq::<nat>::empty()) == 0);
        assert(m_values(keys@).subrange(0, 1).last() == k0.m.value());
        assert(v_values(keys@).subrange(0, 1).last() == k0.v.value());
        assert(sum_values(m_values(keys@).subrange(0, 1)) == k0.m.value());
        assert(sum_values(v_values(keys@).subrange(0, 1)) == k0.v.value());
    }
    while i < keys.len()
        invariant
            1 <= i <= keys@.len(),
            forall|j: int| 0 <= j < keys@.len() ==> (#[trigger] keys@[j]).wf(c),
            m.wf(c),
            v.wf(c),
            m.value() == sum_values(m_values(keys@).subrange(0, i as int)) % scalar_modulus(c),
            v.value() == sum_values(v_values(keys@).subrange(0, i as int)) % scalar_modulus(c),
        decreases keys@.len() - i,
    {
        let ghost ms = m_values(keys@).subrange(0, i as int + 1);
        let ghost vs = v_values(keys@).subrange(0, i as int + 1);
        proof {
            assert(ms.drop_last() =~= m_values(keys@).subrange(0, i as int));
            assert(vs.drop_last() =~= v_values(keys@).subrange(0, i as int));
            lemma_running_sum(c, ms, m.value());
            lemma_running_sum(c, vs, v.value());
        }
        m = add_scalars(c, &m, &keys[i].m);
        v = add_scalars(c, &v, &keys[i].v);
        i = i + 1;
    }
    assert(m_values(keys@).subrange(0, i as int) =~= m_values(keys@));
    assert(v_values(keys@).subrange(0, i as int) =~= v_values(keys@));
    Ok(OpeningKey { m, v })
}

/// Whether every proof of the sequence decodes.
pub open spec fn all_proofs_decode(c: Curve, proofs: Seq<Seq<u8>>) -> bool {
    forall|i: int| 0 <= i < proofs.len() ==> (#[trigger] proof_d(c, proofs[i])) is Some
}

/// The commitments `d` of a sequence of proofs that all decode.
pub open spec fn proof_points(c: Curve, proofs: Seq<Seq<u8>>) -> Seq<Seq<u8>> {
    proofs.map_values(|b: Seq<u8>| proof_d(c, b)->0)
}

pub open spec fn vec_bytes(s: Seq<Vec<u8>>) -> Seq<Seq<u8>> {
    s.map_values(|b: Vec<u8>| b@)
}

/// The aggregated commitment of compressed proofs: the sum of their
/// commitments `d`, from left to right. No proof is an empty-input error;
/// a proof that does not decode is a deserialization error.
pub fn aggregate_proof_commitment(c: Curve, proofs: &Vec<Vec<u8>>) -> (r: Result<
    GroupElement,
    AggregatorError,
>)
    ensures
        proofs@.len() == 0 ==> r == Err::<GroupElement, _>(AggregatorError::EmptyInput),
        proofs@.len() > 0 && !all_proofs_decode(c, vec_bytes(proofs@)) ==> r == Err::<
            GroupElement,
            _,
        >(AggregatorError::Deserialization),
        proofs@.len() > 0 && all_proofs_decode(c, vec_bytes(proofs@)) ==> r is Ok,
        r matches Ok(s) ==> s.wf(c) && s.bytes@ == sum_points(c, proof_points(c, vec_bytes(proofs@))),
{
    if proofs.len() == 0 {
        return Err(AggregatorError::EmptyInput);
    }
    let mut points: Vec<GroupElement> = Vec::new();
    let mut i: usize = 0;
    while i < proofs.len()
        invariant
            i <= proofs@.len(),
            points@.len() == i,
            forall|j: int| 0 <= j < i ==> (#[trigger] points@[j]).wf(c),
            forall|j: int| 0 <= j < i ==> proof_d(c, proofs@[j]@) == Some((#[trigger] points@[j]).bytes@),
        decreases proofs@.len() - i,
    {
        match proof_commitment(c, proofs[i].as_slice()) {
            Ok(d) => points.push(d),
            Err(e) => {
                assert(proof_d(c, vec_bytes(proofs@)[i as int]) is None);
                return Err(e);
            },
        }
        i = i + 1;
    }
    assert forall|j: int| 0 <= j < proofs@.len() implies (#[trigger] proof_d(
        c,
        vec_bytes(proofs@)[j],
    )) is Some by {
        assert(proof_d(c, proofs@[j]@) == Some(points@[j].bytes@));
    }
    assert(point_bytes(points@) =~= proof_points(c, vec_bytes(proofs@)));
    aggregate_commitments(c, &points)
}

/// The committed values `m` that opening-key texts stand for.
pub open spec fn text_m_values(c: Curve, s: Seq<String>) -> Seq<nat> {
    s.map_values(|t: String| (opening_key_of_text(c, t@)->0).0)
}

/// The blinding values `v` that opening-key texts stand for.
pub open spec fn text_v_values(c: Curve, s: Seq<String>) -> Seq<nat> {
    s.map_values(|t: String| (opening_key_of_text(c, t@)->0).1)
}

/// The aggregated opening key of opening keys given as JSON text. No key is an
/// empty-input error; text that does not read as an opening key is a format error.
pub fn aggregated_pedersen_commitment_opening_keys(c: Curve, texts: &Vec<String>) -> (r: Result<
    OpeningKey,
    AggregatorError,
>)
    ensures
        texts@.len() == 0 ==> r == Err::<OpeningKey, _>(AggregatorError::EmptyInput),
        texts@.len() > 0 && (exists|i: int|
            0 <= i < texts@.len() && (#[trigger] opening_key_of_text(c, texts@[i]@)) is None)
            ==> r == Err::<OpeningKey, _>(AggregatorError::Format),
        r matches Ok(k) ==> k.wf(c) && texts@.len() > 0 && (forall|i: int|
            0 <= i < texts@.len() ==> (#[trigger] opening_key_of_text(c, texts@[i]@)) is Some)
            && k.m.value() == sum_values(text_m_values(c, texts@)) % scalar_modulus(c)
            && k.v.value() == sum_values(text_v_values(c, texts@)) % scalar_modulus(c),
        texts@.len() > 0 && (forall|i: int|
            0 <= i < texts@.len() ==> (#[trigger] opening_key_of_text(c, texts@[i]@)) is Some)
            ==> r is Ok,
{
    if texts.len() == 0 {
        return Err(AggregatorError::EmptyInput);
    }
    let mut keys: Vec<OpeningKey> = Vec::new();
    let mut i: usize = 0;
    while i < texts.len()
        invariant
            i <= texts@.len(),
            keys@.len() == i,
            forall|j: int| 0 <= j < i ==> (#[trigger] keys@[j]).wf(c),
            forall|j: int|
                0 <= j < i ==> opening_key_of_text(c, texts@[j]@) == Some(
                    ((#[trigger] keys@[j]).m.value(), keys@[j].v.value()),
                ),
        decreases texts@.len() - i,
    {
        match decode_opening_key(c, texts[i].as_str()) {
            Ok(k) => keys.push(k),
            Err(e) => {
                return Err(e);
            },
        }
        i = i + 1;
    }
    assert forall|j: int| 0 <= j < texts@.len() implies (#[trigger] opening_key_of_text(
        c,
        texts@[j]@,
    )) is Some by {
        assert(opening_key_of_text(c, texts@[j]@) == Some((keys@[j].m.value(), keys@[j].v.value())));
    }
    assert(m_values(keys@) =~= text_m_values(c, texts@));
    assert(v_values(keys@) =~= text_v_values(c, texts@));
    aggregate_opening_keys(c, &keys)
}

} // verus!
