//! The running aggregate of a cohort of parties, and the replacement of one
//! party's contribution in place.
use vstd::prelude::*;
use crate::algebra::{
    add_pedersen_commitment, add_scalars, aggregate_commitments, aggregate_opening_keys,
    copy_group_element, copy_scalar, m_values, point_bytes, proof_commitment, sum_points,
    sum_values, v_values, Basis,
};
use crate::artifact::proof_d;
use crate::codec::{decode_opening_key, opening_key_of_text, AggregatorError, GroupElement, OpeningKey, Scalar};
use vstd::arithmetic::div_mod::{lemma_add_mod_noop, lemma_mod_bound, lemma_mod_twice};
use crate::curve::{point_difference, point_sub, point_sum, scalar_modulus, scalar_sub, Curve};

verus! {

/// One party's current contribution: the commitment `d` of its proof and the
/// opening key of that commitment.
#[derive(Clone, Debug)]
pub struct Contribution {
    pub commitment: GroupElement,
    pub opening_key: OpeningKey,
}

impl Contribution {
    pub open spec fn wf(&self, c: Curve) -> bool {
        self.commitment.wf(c) && self.opening_key.wf(c)
    }
}

/// The aggregate of a cohort: the basis its commitments share, the sum of
/// their commitments, and the sum of their opening keys.
#[derive(Clone, Debug)]
pub struct Aggregate {
    pub basis: Basis,
    pub commitment: GroupElement,
    pub opening_key: OpeningKey,
}

impl Aggregate {
    pub open spec fn wf(&self, c: Curve) -> bool {
        self.basis.wf(c) && self.commitment.wf(c) && self.opening_key.wf(c)
    }
}

pub open spec fn same_basis(a: Basis, b: Basis) -> bool {
    a.g.bytes@ == b.g.bytes@ && a.h.bytes@ == b.h.bytes@
}

pub open spec fn contribution_points(s: Seq<Contribution>) -> Seq<Seq<u8>> {
    s.map_values(|x: Contribution| x.commitment.bytes@)
}

pub open spec fn contribution_keys(s: Seq<Contribution>) -> Seq<OpeningKey> {
    s.map_values(|x: Contribution| x.opening_key)
}

/// `(a - b) mod r`, then `+ x mod r`: an aggregate value with one term replaced.
pub open spec fn replaced_value(c: Curve, a: nat, b: nat, x: nat) -> nat {
    (((a - b) % (scalar_modulus(c) as int)) + x) as nat % scalar_modulus(c)
}

fn bytes_equal(a: &Vec<u8>, b: &Vec<u8>) -> (r: bool)
    ensures
        r == (a@ == b@),
{
    if a.len() != b.len() {
        return false;
    }
    let mut i: usize = 0;
    while i < a.len()
        invariant
            i <= a@.len(),
            a@.len() == b@.len(),
            forall|j: int| 0 <= j < i ==> a@[j] == b@[j],
        decreases a@.len() - i,
    {
        if a[i] != b[i] {
            assert(a@[i as int] != b@[i as int]);
            return false;
        }
        i = i + 1;
    }
    assert(a@ =~= b@);
    true
}

/// Whether two bases are the same pair of points.
pub fn basis_matches(a: &Basis, b: &Basis) -> (r: bool)
    ensures
        r == same_basis(*a, *b),
{
    bytes_equal(&a.g.bytes, &b.g.bytes) && bytes_equal(&a.h.bytes, &b.h.bytes)
}

/// The difference `a - b` of two scalars modulo the order of the scalar field.
pub fn sub_scalars(c: Curve, a: &Scalar, b: &Scalar) -> (r: Scalar)
    ensures
        r.wf(c),
        r.value() as int == (a.value() - b.value()) % (scalar_modulus(c) as int),
{
    let bytes = scalar_sub(c, a.bytes.as_slice(), b.bytes.as_slice());
    proof {
        vstd::arithmetic::div_mod::lemma_mod_bound(
            a.value() - b.value(),
            scalar_modulus(c) as int,
        );
    }
    Scalar { bytes }
}

/// The first aggregate of a cohort: the sum of its commitments and of its
/// opening keys, under the basis they were made with. No contribution is an
/// empty-input error.
pub fn initialize_aggregate(c: Curve, basis: &Basis, contributions: &Vec<Contribution>) -> (r: Result<
    Aggregate,
    AggregatorError,
>)
    requires
        basis.wf(c),
        forall|i: int| 0 <= i < contributions@.len() ==> (#[trigger] contributions@[i]).wf(c),
    ensures
        r is Err <==> contributions@.len() == 0,
        r matches Err(e) ==> e == AggregatorError::EmptyInput,
        r matches Ok(a) ==> a.wf(c) && same_basis(a.basis, *basis) && a.commitment.bytes@
            == sum_points(c, contribution_points(contributions@)) && a.opening_key.m.value()
            == sum_values(m_values(contribution_keys(contributions@))) % scalar_modulus(c)
            && a.opening_key.v.value() == sum_values(v_values(contribution_keys(contributions@)))
            % scalar_modulus(c),
{
    let mut points: Vec<GroupElement> = Vec::new();
    let mut keys: Vec<OpeningKey> = Vec::new();
    let mut i: usize = 0;
    while i < contributions.len()
        invariant
            i <= contributions@.len(),
            points@.len() == i,
            keys@.len() == i,
            forall|j: int| 0 <= j < contributions@.len() ==> (#[trigger] contributions@[j]).wf(c),
            forall|j: int|
                0 <= j < i ==> (#[trigger] points@[j]).bytes@ == contributions@[j].commitment.bytes@,
            forall|j: int|
                0 <= j < i ==> (#[trigger] keys@[j]).m.bytes@ == contributions@[j].opening_key.m.bytes@
                    && keys@[j].v.bytes@ == contributions@[j].opening_key.v.bytes@,
        decreases contributions@.len() - i,
    {
        let x = &contributions[i];
        points.push(copy_group_element(&x.commitment));
        keys.push(OpeningKey { m: copy_scalar(&x.opening_key.m), v: copy_scalar(&x.opening_key.v) });
        i = i + 1;
    }
    assert(point_bytes(points@) =~= contribution_points(contributions@));
    assert(m_values(keys@) =~= m_values(contribution_keys(contributions@)));
    assert(v_values(keys@) =~= v_values(contribution_keys(contributions@)));
    let commitment = aggregate_commitments(c, &points)?;
    let opening_key = aggregate_opening_keys(c, &keys)?;
    let basis = Basis { g: copy_group_element(&basis.g), h: copy_group_element(&basis.h) };
    Ok(Aggregate { basis, commitment, opening_key })
}

/// Takes one party's contribution out of the aggregate, after checking that
/// the proving key the party proves under has the aggregate's basis; on a
/// mismatch the aggregate is left as it was.
pub fn remove_contribution(c: Curve, agg: &mut Aggregate, key_basis: &Basis, previous: &Contribution) -> (r:
    Result<(), AggregatorError>)
    requires
        old(agg).wf(c),
        key_basis.wf(c),
        previous.wf(c),
    ensures
        !same_basis(old(agg).basis, *key_basis) ==> r == Err::<(), _>(AggregatorError::BasisMismatch)
            && *final(agg) == *old(agg),
        same_basis(old(agg).basis, *key_basis) ==> r is Ok,
        r is Ok ==> final(agg).wf(c) && final(agg).basis == old(agg).basis
            && final(agg).commitment.bytes@ == point_difference(
            c,
            old(agg).commitment.bytes@,
            previous.commitment.bytes@,
        ) && final(agg).opening_key.m.value() as int == (old(agg).opening_key.m.value()
            - previous.opening_key.m.value()) % (scalar_modulus(c) as int)
            && final(agg).opening_key.v.value() as int == (old(agg).opening_key.v.value()
            - previous.opening_key.v.value()) % (scalar_modulus(c) as int),
{
    if !basis_matches(&agg.basis, key_basis) {
        return Err(AggregatorError::BasisMismatch);
    }
    let commitment = GroupElement {
        bytes: point_sub(c, agg.commitment.bytes.as_slice(), previous.commitment.bytes.as_slice()),
    };
    let m = sub_scalars(c, &agg.opening_key.m, &previous.opening_key.m);
    let v = sub_scalars(c, &agg.opening_key.v, &previous.opening_key.v);
    agg.commitment = commitment;
    agg.opening_key = OpeningKey { m, v };
    Ok(())
}

/// Adds one party's contribution into the aggregate.
pub fn add_contribution(c: Curve, agg: &mut Aggregate, next: &Contribution)
    requires
        old(agg).wf(c),
        next.wf(c),
    ensures
        final(agg).wf(c),
        final(agg).basis == old(agg).basis,
        final(agg).commitment.bytes@ == point_sum(
            c,
            old(agg).commitment.bytes@,
            next.commitment.bytes@,
        ),
        final(agg).opening_key.m.value() == (old(agg).opening_key.m.value()
            + next.opening_key.m.value()) % scalar_modulus(c),
        final(agg).opening_key.v.value() == (old(agg).opening_key.v.value()
            + next.opening_key.v.value()) % scalar_modulus(c),
{
    let commitment = add_pedersen_commitment(c, &agg.commitment, &next.commitment);
    let m = add_scalars(c, &agg.opening_key.m, &next.opening_key.m);
    let v = add_scalars(c, &agg.opening_key.v, &next.opening_key.v);
    agg.commitment = commitment;
    agg.opening_key = OpeningKey { m, v };
}

/// Replaces one party's contribution: the old one is taken out of the
/// aggregate and the new one added in. A proving key whose basis is not the
/// aggregate's is refused before anything changes.
pub fn update_party_contribution(
    c: Curve,
    agg: &mut Aggregate,
    key_basis: &Basis,
    previous: &Contribution,
    next: &Contribution,
) -> (r: Result<(), AggregatorError>)
    requires
        old(agg).wf(c),
        key_basis.wf(c),
        previous.wf(c),
        next.wf(c),
    ensures
        !same_basis(old(agg).basis, *key_basis) ==> r == Err::<(), _>(AggregatorError::BasisMismatch)
            && *final(agg) == *old(agg),
        same_basis(old(agg).basis, *key_basis) ==> r is Ok,
        r is Ok ==> final(agg).wf(c) && final(agg).basis == old(agg).basis
            && final(agg).commitment.bytes@ == point_sum(
            c,
            point_difference(c, old(agg).commitment.bytes@, previous.commitment.bytes@),
            next.commitment.bytes@,
        ) && final(agg).opening_key.m.value() == replaced_value(
            c,
            old(agg).opening_key.m.value(),
            previous.opening_key.m.value(),
            next.opening_key.m.value(),
        ) && final(agg).opening_key.v.value() == replaced_value(
            c,
            old(agg).opening_key.v.value(),
            previous.opening_key.v.value(),
            next.opening_key.v.value(),
        ),
{
    remove_contribution(c, agg, key_basis, previous)?;
    add_contribution(c, agg, next);
    Ok(())
}

/// Whether a compressed proof and opening-key text read as a contribution.
pub open spec fn contribution_decodes(c: Curve, proof: Seq<u8>, key: Seq<char>) -> bool {
    proof_d(c, proof) is Some && opening_key_of_text(c, key) is Some
}

/// Reads a contribution from a compressed proof and its opening-key text.
pub fn decode_contribution(c: Curve, proof: &[u8], key: &str) -> (r: Result<
    Contribution,
    AggregatorError,
>)
    ensures
        r is Ok <==> contribution_decodes(c, proof@, key@),
        proof_d(c, proof@) is None ==> r == Err::<Contribution, _>(AggregatorError::Deserialization),
        proof_d(c, proof@) is Some && opening_key_of_text(c, key@) is None ==> r == Err::<
            Contribution,
            _,
        >(AggregatorError::Format),
        r matches Ok(x) ==> x.wf(c) && proof_d(c, proof@) == Some(x.commitment.bytes@)
            && opening_key_of_text(c, key@) == Some(
            (x.opening_key.m.value(), x.opening_key.v.value()),
        ),
{
    let commitment = proof_commitment(c, proof)?;
    let opening_key = decode_opening_key(c, key)?;
    Ok(Contribution { commitment, opening_key })
}

/// Replaces one party's contribution, each side given as a compressed proof
/// and its opening-key text. The previous contribution is read first, then
/// the next; the first that does not read gives its error (deserialization
/// for a proof, format for a key), and a proving key whose basis is not the
/// aggregate's is a basis mismatch. On any error the aggregate is left as it was.
pub fn update_aggregated_commitment(
    c: Curve,
    agg: &mut Aggregate,
    key_basis: &Basis,
    previous_proof: &[u8],
    previous_key: &str,
    next_proof: &[u8],
    next_key: &str,
) -> (r: Result<(), AggregatorError>)
    requires
        old(agg).wf(c),
        key_basis.wf(c),
    ensures
        r is Err ==> *final(agg) == *old(agg),
        proof_d(c, previous_proof@) is None ==> r == Err::<(), _>(AggregatorError::Deserialization),
        proof_d(c, previous_proof@) is Some && opening_key_of_text(c, previous_key@) is None ==> r
            == Err::<(), _>(AggregatorError::Format),
        contribution_decodes(c, previous_proof@, previous_key@) && proof_d(c, next_proof@) is None
            ==> r == Err::<(), _>(AggregatorError::Deserialization),
        contribution_decodes(c, previous_proof@, previous_key@) && proof_d(c, next_proof@) is Some
            && opening_key_of_text(c, next_key@) is None ==> r == Err::<(), _>(
            AggregatorError::Format,
        ),
        contribution_decodes(c, previous_proof@, previous_key@) && contribution_decodes(
            c,
            next_proof@,
            next_key@,
        ) && !same_basis(old(agg).basis, *key_basis) ==> r == Err::<(), _>(
            AggregatorError::BasisMismatch,
        ),
        contribution_decodes(c, previous_proof@, previous_key@) && contribution_decodes(
            c,
            next_proof@,
            next_key@,
        ) && same_basis(old(agg).basis, *key_basis) ==> r is Ok,
        r is Ok ==> final(agg).wf(c) && final(agg).basis == old(agg).basis
            && final(agg).commitment.bytes@ == point_sum(
            c,
            point_difference(
                c,
                old(agg).commitment.bytes@,
                proof_d(c, previous_proof@)->0,
            ),
            proof_d(c, next_proof@)->0,
        ) && final(agg).opening_key.m.value() == replaced_value(
            c,
            old(agg).opening_key.m.value(),
            (opening_key_of_text(c, previous_key@)->0).0,
            (opening_key_of_text(c, next_key@)->0).0,
        ) && final(agg).opening_key.v.value() == replaced_value(
            c,
            old(agg).opening_key.v.value(),
            (opening_key_of_text(c, previous_key@)->0).1,
            (opening_key_of_text(c, next_key@)->0).1,
        ),
{
    let previous = decode_contribution(c, previous_proof, previous_key)?;
    let next = decode_contribution(c, next_proof, next_key)?;
    update_party_contribution(c, agg, key_basis, &previous, &next)
}

/// Swapping one term of a sum for another changes the sum by their difference.
proof fn lemma_sum_update(s: Seq<nat>, i: int, x: nat)
    requires
        0 <= i < s.len(),
    ensures
        sum_values(s.update(i, x)) + s[i] == sum_values(s) + x,
    decreases s.len(),
{
    let t = s.update(i, x);
    if i == s.len() - 1 {
        assert(t.drop_last() =~= s.drop_last());
    } else {
        lemma_sum_update(s.drop_last(), i, x);
        assert(t.drop_last() =~= s.drop_last().update(i, x));
    }
}

/// Replacing one party's opening-key value in an aggregate, by subtracting
/// the old value and adding the new one modulo `r`, gives what summing the
/// cohort's current values from scratch gives.
pub proof fn update_matches_recomputation_of_keys(c: Curve, values: Seq<nat>, i: int, x: nat)
    requires
        0 <= i < values.len(),
    ensures
        replaced_value(c, sum_values(values) % scalar_modulus(c), values[i], x) == sum_values(
            values.update(i, x),
        ) % scalar_modulus(c),
{
    let r = scalar_modulus(c) as int;
    let total = sum_values(values) as int;
    let k = values[i] as int;
    lemma_sum_update(values, i, x);
    lemma_add_mod_noop(total, -k, r);
    lemma_add_mod_noop(total % r, -k, r);
    lemma_mod_twice(total, r);
    lemma_add_mod_noop(total - k, x as int, r);
    lemma_add_mod_noop((total - k) % r, x as int, r);
    lemma_mod_twice(total - k, r);
    assert((total % r - k) % r == (total - k) % r);
    lemma_mod_bound(total - k, r);
}

} // verus!
