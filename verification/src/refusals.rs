//! Exactly when a capture is refused, and why.

use vstd::arithmetic::power2::*;
use vstd::prelude::*;

use crate::circuit;
use crate::circuit::{Any, Column, ConstraintSystem, Query};
use crate::curve;
use crate::curve::EqAffine;
use crate::key;
use crate::key::{ExportError, VerifyingKey};
use crate::msm;
use crate::msm::MSM;
use crate::msm_laws;
use crate::names;
use crate::schedule;
use crate::schedule::{PointBlocks, ScalarBlocks, Shape};
use crate::slots;
use crate::text;
use crate::transcript;
use crate::transcript::{ChallengeRecorder, TranscriptEvent};

verus! {

/// The shape of a proof takes each of its numbers from its own place in the key.
pub proof fn shape_is_that_of_the_key(key: VerifyingKey, k: u32, num_proofs: usize)
    requires
        key.cs_degree >= 2,
    ensures
        key.chunk_len() == key.cs_degree - 2,
        key.shape(k, num_proofs).k == k,
        key.shape(k, num_proofs).num_proofs == num_proofs,
        key.shape(k, num_proofs).num_advice_columns == key.cs.num_advice_columns,
        key.shape(k, num_proofs).num_lookups == key.cs.lookups@.len(),
        key.shape(k, num_proofs).num_permutation_sets == circuit::chunk_count(
            key.cs.permutation_columns@.len(),
            (key.cs_degree - 2) as nat,
        ),
        key.shape(k, num_proofs).num_permutation_columns == key.permutation_commitments@.len(),
        key.shape(k, num_proofs).num_quotient_pieces == key.quotient_poly_degree,
        key.shape(k, num_proofs).num_instance_queries == key.cs.instance_queries@.len(),
        key.shape(k, num_proofs).num_advice_queries == key.cs.advice_queries@.len(),
        key.shape(k, num_proofs).num_fixed_queries == key.cs.fixed_queries@.len(),
{
    let columns: usize = key.cs.permutation_columns.len();
    assert(columns == key.cs.permutation_columns@.len());
    if key.chunk_len() > 0 {
        key::lemma_chunk_count(columns as int, key.chunk_len() as int);
    }
}

/// The blocks of a proof have the sizes of the protocol, one after the other.
pub proof fn blocks_have_the_sizes_of_the_protocol(s: Shape)
    ensures
        s.advice_end() == s.num_proofs as nat * s.num_advice_columns as nat,
        s.lookup_permuted_end() - s.advice_end() == 2 * (s.num_proofs as nat
            * s.num_lookups as nat),
        s.permutation_end() - s.lookup_permuted_end() == s.num_proofs as nat
            * s.num_permutation_sets as nat,
        s.lookup_product_end() - s.permutation_end() == s.num_proofs as nat * s.num_lookups as nat,
        s.vanishing_end() - s.lookup_product_end() == 1,
        s.quotient_end() - s.vanishing_end() == s.num_quotient_pieces,
        s.multiopen_end() - s.quotient_end() == 1,
        s.ipa_blind_end() - s.multiopen_end() == 1,
        s.num_points() - s.ipa_blind_end() == 2 * s.k,
        s.instance_eval_end() == s.num_proofs as nat * s.num_instance_queries as nat,
        s.advice_eval_end() - s.instance_eval_end() == s.num_proofs as nat
            * s.num_advice_queries as nat,
        s.fixed_eval_end() - s.advice_eval_end() == s.num_fixed_queries,
        s.vanishing_eval_end() - s.fixed_eval_end() == 1,
        s.permutation_common_end() - s.vanishing_eval_end() == s.num_permutation_columns,
        s.num_permutation_sets == 0 ==> s.set_evals() == 0,
        s.num_permutation_sets > 0 ==> s.set_evals() == 2 * s.num_permutation_sets + (
        s.num_permutation_sets - 1),
        s.permutation_set_end() - s.permutation_common_end() == s.num_proofs as nat
            * s.set_evals(),
        s.lookup_eval_end() - s.permutation_set_end() == 5 * (s.num_proofs as nat
            * s.num_lookups as nat),
        s.min_scalars() - s.lookup_eval_end() == 2,
{
    let (n, l) = (s.num_proofs as nat, s.num_lookups as nat);
    assert(n * l * 2 == 2 * (n * l)) by (nonlinear_arith);
    assert(n * l * 5 == 5 * (n * l)) by (nonlinear_arith);
}

/// A block is the part of a list between its boundaries.
pub proof fn blocks_are_parts_of_the_list<T>(list: Seq<T>, from: nat, to: nat, i: int)
    requires
        from <= to <= list.len(),
        0 <= i < to - from,
    ensures
        schedule::block(list, from, to).len() == to - from,
        schedule::block(list, from, to)[i] == list[from + i],
{
}

/// The first thing that is wrong is reported: the names before the multi-scalar multiplication,
/// that before the sizes, these before the transcript, that before the commitment slots, and these
/// before the circuit. Where nothing is wrong with any of them the capture is exported.
pub proof fn refusals_come_in_order(
    key: VerifyingKey,
    lean_namespace: Seq<char>,
    circuit_id: Seq<char>,
    k: u32,
    num_proofs: usize,
    recorder: ChallengeRecorder,
    msm: MSM,
)
    ensures
        ({
            let shape = key.shape(k, num_proofs);
            let fault = key.fault(lean_namespace, circuit_id, k, num_proofs, recorder, msm);
            let names = key::name_fault(lean_namespace, circuit_id);
            let sums = key::msm_fault(msm);
            let sizes = key.size_fault(k, num_proofs, recorder, msm);
            let order = key.transcript_fault(shape, recorder);
            let bases = key.slot_fault(shape, recorder, msm);
            &&& names is Some ==> fault == names
            &&& names is None && sums is Some ==> fault == sums
            &&& names is None && sums is None && sizes is Some ==> fault == sizes
            &&& names is None && sums is None && sizes is None && order is Some ==> fault == order
            &&& names is None && sums is None && sizes is None && order is None && bases is Some
                ==> fault == bases
            &&& names is None && sums is None && sizes is None && order is None && bases is None
                ==> fault == key.circuit_fault()
        }),
{
}

/// A namespace is refused if it is no path of Lean identifiers, and otherwise a circuit id if it is
/// no slug.
pub proof fn names_are_refused(lean_namespace: Seq<char>, circuit_id: Seq<char>)
    ensures
        !names::lean_path(lean_namespace) <==> key::name_fault(lean_namespace, circuit_id) == Some(
            ExportError::Namespace,
        ),
        names::lean_path(lean_namespace) && !names::slug(circuit_id) <==> key::name_fault(
            lean_namespace,
            circuit_id,
        ) == Some(ExportError::CircuitId),
        names::lean_path(lean_namespace) && names::slug(circuit_id) <==> key::name_fault(
            lean_namespace,
            circuit_id,
        ) is None,
{
}

/// A multi-scalar multiplication is accepted if and only if the base of every further term is a
/// point of the curve or the origin and no two terms have one base, there is a coefficient for
/// every generator and for the two further generators, and the sum is the identity. What is
/// reported otherwise is the case.
pub proof fn sums_are_refused(msm: MSM)
    ensures
        key::msm_fault(msm) is None <==> {
            &&& forall|i: int|
                0 <= i < msm.other@.len() ==> {
                    let (_, x, y) = #[trigger] msm.other@[i];
                    (x@ == 0 && y@ == 0) || curve::on_curve(x@, y@)
                }
            &&& forall|i: int, j: int|
                0 <= i < j < msm.other@.len() ==> (#[trigger] msm.other@[i]).1@ != (
                #[trigger] msm.other@[j]).1@ || msm.other@[i].2@ != msm.other@[j].2@
            &&& msm.g_scalars is Some
            &&& msm.g_scalars->0@.len() == msm.params.g@.len()
            &&& msm.w_scalar is Some
            &&& msm.u_scalar is Some
            &&& msm::combination(msm.terms()) is None
        },
        key::msm_fault(msm) == Some(ExportError::MsmBase) <==> exists|i: int|
            0 <= i < msm.other@.len() && {
                let (_, x, y) = #[trigger] msm.other@[i];
                !(x@ == 0 && y@ == 0) && !curve::on_curve(x@, y@)
            },
        key::msm_fault(msm) == Some(ExportError::MsmGenerators) ==> msm.g_scalars is Some
            && msm.g_scalars->0@.len() != msm.params.g@.len(),
        key::msm_fault(msm) == Some(ExportError::NotIdentity) ==> msm::combination(
            msm.terms(),
        ) is Some,
        key::msm_fault(msm) == Some(ExportError::NoGeneratorScalars) ==> msm.g_scalars is None,
        key::msm_fault(msm) == Some(ExportError::NoBlindingScalar) ==> msm.w_scalar is None,
        key::msm_fault(msm) == Some(ExportError::NoIpaScalar) ==> msm.u_scalar is None,
        key::msm_fault(msm) == Some(ExportError::RepeatedBase) ==> exists|i: int, j: int|
            0 <= i < j < msm.other@.len() && (#[trigger] msm.other@[i]).1@ == (
            #[trigger] msm.other@[j]).1@ && msm.other@[i].2@ == msm.other@[j].2@,
{
    let bases = msm.bases();
    assert forall|i: int, j: int|
        0 <= i < msm.other@.len() && 0 <= j < msm.other@.len() implies (#[trigger] bases[i]
        == #[trigger] bases[j] <==> msm.other@[i].1@ == msm.other@[j].1@ && msm.other@[i].2@
        == msm.other@[j].2@) by {
        EqAffine::point_at_coordinates(msm.other@[i].1, msm.other@[i].2);
        EqAffine::point_at_coordinates(msm.other@[j].1, msm.other@[j].2);
        curve::same_point(bases[i], bases[j]);
    }
    if msm.bases_distinct() {
        assert forall|i: int, j: int| 0 <= i < j < msm.other@.len() implies (
        #[trigger] msm.other@[i]).1@ != (#[trigger] msm.other@[j]).1@ || msm.other@[i].2@
            != msm.other@[j].2@ by {
            assert(bases[i] != bases[j]);
        }
    } else {
        let (i, j) = choose|i: int, j: int|
            0 <= i < bases.len() && 0 <= j < bases.len() && i != j && bases[i] == bases[j];
        let (a, b) = if i < j {
            (i, j)
        } else {
            (j, i)
        };
        assert(bases[a] == bases[b]);
        assert(0 <= a < b < msm.other@.len() && msm.other@[a].1@ == msm.other@[b].1@
            && msm.other@[a].2@ == msm.other@[b].2@);
    }
    if !msm.bases_valid() {
        let i = choose|i: int|
            0 <= i < msm.other@.len() && {
                let (_, x, y) = #[trigger] msm.other@[i];
                !((x@ == 0 && y@ == 0) || curve::on_curve(x@, y@))
            };
        let (_, x, y) = msm.other@[i];
    }
}

/// The sizes of a capture are accepted if and only if each is that of the protocol. What is
/// reported otherwise is the case.
pub proof fn sizes_are_refused(
    key: VerifyingKey,
    k: u32,
    num_proofs: usize,
    recorder: ChallengeRecorder,
    msm: MSM,
)
    ensures
        ({
            let fault = key.size_fault(k, num_proofs, recorder, msm);
            let (np, na, nl) = (
                num_proofs as nat,
                key.cs.num_advice_columns as nat,
                key.cs.lookups@.len(),
            );
            let sets = circuit::chunk_count(
                key.cs.permutation_columns@.len(),
                (key.cs_degree - 2) as nat,
            );
            let set_evals: nat = if sets == 0 {
                0
            } else {
                (3 * sets - 1) as nat
            };
            let all_points = np * na + 3 * (np * nl) + np * sets + key.quotient_poly_degree as nat
                + 3 + 2 * k as nat;
            let least_scalars = np * key.cs.instance_queries@.len() + np
                * key.cs.advice_queries@.len() + key.cs.fixed_queries@.len()
                + key.permutation_commitments@.len() + np * set_evals + 5 * (np * nl) + 3;
            &&& fault is None <==> {
                &&& key.cs_degree >= 2
                &&& key.cs_degree > 2 || key.cs.permutation_columns@.len() == 0
                &&& msm.params.k == k
                &&& msm.params.g@.len() == pow2(k as nat)
                &&& recorder.common_points@.len() == np * key.cs.num_instance_columns as nat
                &&& recorder.challenges@.len() == 11 + k
                &&& recorder.points@.len() == all_points
                &&& recorder.scalars@.len() >= least_scalars
            }
            &&& fault == Some(ExportError::Degree) <==> key.cs_degree < 2
            &&& fault == Some(ExportError::ZeroChunkLength) <==> key.cs_degree == 2
                && key.cs.permutation_columns@.len() > 0
            &&& fault == Some(ExportError::ParamsSize) ==> msm.params.k != k
            &&& fault == Some(ExportError::GeneratorCount) ==> msm.params.g@.len() != pow2(k as nat)
            &&& fault == Some(ExportError::CommonPointCount) ==> recorder.common_points@.len() != np
                * key.cs.num_instance_columns as nat
            &&& fault == Some(ExportError::ChallengeCount) ==> recorder.challenges@.len() != 11 + k
            &&& fault == Some(ExportError::ReadPointCount) ==> recorder.points@.len() != all_points
            &&& fault == Some(ExportError::ReadScalarCount) ==> recorder.scalars@.len()
                < least_scalars
        }),
{
    if key.cs_degree >= 2 {
        shape_is_that_of_the_key(key, k, num_proofs);
        blocks_have_the_sizes_of_the_protocol(key.shape(k, num_proofs));
    }
}

/// A transcript is accepted if and only if the recorded lists are those of the events, it starts
/// with the scalar of the key and the instance commitments, and every squeeze stands where the
/// reads of the protocol that come before it end. What is reported otherwise is the case.
pub proof fn transcripts_are_refused(key: VerifyingKey, s: Shape, recorder: ChallengeRecorder)
    ensures
        ({
            let fault = key.transcript_fault(s, recorder);
            let events = recorder.events@;
            let (np, nl) = (s.num_proofs as nat, s.num_lookups as nat);
            let advice = np * s.num_advice_columns as nat;
            let permuted = advice + 2 * (np * nl);
            let random = permuted + np * s.num_permutation_sets as nat + np * nl + 1;
            let pieces = random + s.num_quotient_pieces as nat;
            let evals = np * s.num_instance_queries as nat + np * s.num_advice_queries as nat
                + s.num_fixed_queries as nat + 1 + s.num_permutation_columns as nat + np * (
            if s.num_permutation_sets == 0 {
                0
            } else {
                (3 * s.num_permutation_sets as nat - 1) as nat
            }) + 5 * (np * nl);
            let last = recorder.scalars@.len() - 2;
            let at = transcript::points_before_squeeze(events);
            let seen = transcript::scalars_before_squeeze(events);
            let lists = {
                &&& recorder.common_points@ == transcript::common_points(events)
                &&& recorder.points@ == transcript::read_points(events)
                &&& recorder.scalars@ == transcript::read_scalars(events)
                &&& recorder.challenges@ == transcript::squeezes(events)
            };
            let start = {
                &&& events.len() > recorder.common_points@.len()
                &&& events[0] == TranscriptEvent::CommonScalar(key.transcript_repr)
                &&& forall|i: int|
                    0 < i <= recorder.common_points@.len() ==> #[trigger] events[i]
                        == TranscriptEvent::CommonPoint(recorder.common_points@[i - 1])
            };
            let points = {
                &&& at[0] == advice
                &&& at[1] == permuted
                &&& at[2] == permuted
                &&& at[3] == random
                &&& at[4] == pieces
                &&& at[5] == pieces
                &&& at[6] == pieces
                &&& at[7] == pieces + 1
                &&& at[8] == pieces + 1
                &&& at[9] == pieces + 2
                &&& at[10] == pieces + 2
                &&& forall|j: int|
                    11 <= j < 11 + s.k ==> #[trigger] at[j] == pieces + 2 + 2 * (j - 10)
            };
            let scalars = {
                &&& seen[5] == evals
                &&& seen[6] == evals
                &&& seen[7] == evals
                &&& seen[8] == last
                &&& seen[9] == last
                &&& seen[10] == last
                &&& forall|j: int| 11 <= j < 11 + s.k ==> #[trigger] seen[j] == last
            };
            &&& fault is None <==> lists && start && points && scalars
            &&& fault == Some(ExportError::EventMismatch) <==> !lists
            &&& fault == Some(ExportError::TranscriptStart) <==> lists && !start
            &&& fault == Some(ExportError::PointSchedule) <==> lists && start && !points
            &&& fault == Some(ExportError::ScalarSchedule) <==> lists && start && points && !scalars
        }),
{
    blocks_have_the_sizes_of_the_protocol(s);
    let events = recorder.events@;
    let common = recorder.common_points@;
    let at = transcript::points_before_squeeze(events);
    let seen = transcript::scalars_before_squeeze(events);
    if recorder.starts_with_key(key.transcript_repr) {
        assert forall|i: int| 0 < i <= common.len() implies #[trigger] events[i]
            == TranscriptEvent::CommonPoint(common[i - 1]) by {
            assert(events[1 + (i - 1)] == TranscriptEvent::CommonPoint(common[i - 1]));
        }
    }
    if events.len() > common.len() && (forall|i: int|
        0 < i <= common.len() ==> #[trigger] events[i] == TranscriptEvent::CommonPoint(
            common[i - 1],
        )) {
        assert forall|i: int| 0 <= i < common.len() implies #[trigger] events[1 + i]
            == TranscriptEvent::CommonPoint(common[i]) by {
            assert(0 < 1 + i <= common.len());
        }
    }
    if s.points_pinned(at) {
        assert forall|j: int| 11 <= j < 11 + s.k implies #[trigger] at[j] == s.ipa_blind_end() + 2
            * (j - 10) by {
            assert(at[schedule::IPA_ROUND_BASE + (j - 11)] == at[j]);
        }
    }
    if forall|j: int|
        11 <= j < 11 + s.k ==> #[trigger] at[j] == s.ipa_blind_end() + 2 * (j - 10) {
        assert forall|round: int| 0 <= round < s.k implies #[trigger] at[schedule::IPA_ROUND_BASE
            + round] == s.ipa_blind_end() + 2 * (round + 1) by {
            let j = 11 + round;
            assert(at[j] == s.ipa_blind_end() + 2 * (j - 10));
        }
    }
    if s.scalars_pinned(recorder.scalars@.len(), seen) {
        assert forall|j: int| 11 <= j < 11 + s.k implies #[trigger] seen[j]
            == recorder.scalars@.len() - 2 by {
            assert(seen[schedule::IPA_ROUND_BASE + (j - 11)] == seen[j]);
        }
    }
}

/// Whether a column is queried at the current row in the layout of its own kind.
pub open spec fn queried_at_current_row(cs: ConstraintSystem, column: Column) -> bool {
    match column.column_type {
        Any::Advice => exists|j: int|
            0 <= j < cs.advice_queries@.len() && (#[trigger] cs.advice_queries@[j]).column
                == column.index && cs.advice_queries@[j].rotation == 0,
        Any::Fixed => exists|j: int|
            0 <= j < cs.fixed_queries@.len() && (#[trigger] cs.fixed_queries@[j]).column
                == column.index && cs.fixed_queries@[j].rotation == 0,
        Any::Instance => exists|j: int|
            0 <= j < cs.instance_queries@.len() && (#[trigger] cs.instance_queries@[j]).column
                == column.index && cs.instance_queries@[j].rotation == 0,
    }
}

proof fn lemma_queried(queries: Seq<Query>, column: usize)
    ensures
        circuit::queries_column(queries, column) <==> exists|j: int|
            0 <= j < queries.len() && (#[trigger] queries[j]).column == column
                && queries[j].rotation == 0,
{
    if circuit::queries_column(queries, column) {
        let j = choose|j: int|
            0 <= j < queries.len() && queries[j] == (Query { column, rotation: 0 });
        assert(queries[j].column == column && queries[j].rotation == 0);
    }
    if exists|j: int|
        0 <= j < queries.len() && (#[trigger] queries[j]).column == column && queries[j].rotation
            == 0 {
        let j = choose|j: int|
            0 <= j < queries.len() && (#[trigger] queries[j]).column == column
                && queries[j].rotation == 0;
        assert(queries[j] == (Query { column, rotation: 0 }));
    }
}

/// The circuit of a key is accepted if and only if no gate and no lookup has a virtual selector
/// and every permutation column is queried at the current row. What is reported otherwise is the
/// case.
pub proof fn circuits_are_refused(key: VerifyingKey)
    ensures
        ({
            let gates = forall|i: int|
                0 <= i < circuit::gate_polynomials(key.cs.gates@).len() ==> circuit::selector_free(
                    #[trigger] circuit::gate_polynomials(key.cs.gates@)[i],
                );
            let columns = forall|i: int|
                0 <= i < key.cs.permutation_columns@.len() ==> queried_at_current_row(
                    key.cs,
                    #[trigger] key.cs.permutation_columns@[i],
                );
            let inputs = forall|l: int, i: int|
                0 <= l < key.cs.lookups@.len() && 0 <= i
                    < key.cs.lookups@[l].input_expressions@.len() ==> circuit::selector_free(
                    #[trigger] key.cs.lookups@[l].input_expressions@[i],
                );
            let tables = forall|l: int, i: int|
                0 <= l < key.cs.lookups@.len() && 0 <= i
                    < key.cs.lookups@[l].table_expressions@.len() ==> circuit::selector_free(
                    #[trigger] key.cs.lookups@[l].table_expressions@[i],
                );
            &&& key.circuit_fault() is None <==> gates && columns && inputs && tables
            &&& key.circuit_fault() == Some(ExportError::GateSelector) <==> !gates
            &&& key.circuit_fault() == Some(ExportError::PermutationQuery) <==> gates && !columns
            &&& key.circuit_fault() == Some(ExportError::LookupSelector) <==> gates && columns && !(
            inputs && tables)
        }),
{
    let cs = key.cs;
    let columns = forall|i: int|
        0 <= i < cs.permutation_columns@.len() ==> queried_at_current_row(
            cs,
            #[trigger] cs.permutation_columns@[i],
        );
    assert forall|i: int|
        0 <= i < cs.permutation_columns@.len() implies (circuit::queries_column(
        cs.layout((#[trigger] cs.permutation_columns@[i]).column_type),
        cs.permutation_columns@[i].index,
    ) <==> queried_at_current_row(cs, cs.permutation_columns@[i])) by {
        let column = cs.permutation_columns@[i];
        lemma_queried(cs.layout(column.column_type), column.index);
    }
    assert(cs.permutation_queried() <==> columns);
    let all = circuit::lookups_selector_free(cs.lookups@);
    if all {
        assert forall|l: int, i: int|
            0 <= l < cs.lookups@.len() && 0 <= i
                < cs.lookups@[l].input_expressions@.len() implies circuit::selector_free(
            #[trigger] cs.lookups@[l].input_expressions@[i],
        ) by {
            assert(circuit::all_selector_free(cs.lookups@[l].input_expressions@));
        }
        assert forall|l: int, i: int|
            0 <= l < cs.lookups@.len() && 0 <= i
                < cs.lookups@[l].table_expressions@.len() implies circuit::selector_free(
            #[trigger] cs.lookups@[l].table_expressions@[i],
        ) by {
            assert(circuit::all_selector_free(cs.lookups@[l].table_expressions@));
        }
    }
}

/// A point is in one of the commitment slots of the protocol if and only if it is the instance or
/// advice commitment of a proof in a queried column, the commitment of a queried fixed column, a
/// permutation commitment, or any point of the proof after the advice commitments; and there is
/// one slot for each of these, a queried column counting once.
pub proof fn slots_are_those_of_the_protocol(
    key: VerifyingKey,
    k: u32,
    num_proofs: usize,
    recorder: ChallengeRecorder,
    p: EqAffine,
)
    requires
        key.cs_degree >= 2,
        recorder.points@.len() == key.shape(k, num_proofs).num_points(),
    ensures
        ({
            let cs = key.cs;
            let np = num_proofs as nat;
            let advice = np * cs.num_advice_columns as nat;
            let all = key.base_slots(key.shape(k, num_proofs), recorder);
            &&& all.contains(p) <==> {
                ||| msm_laws::queried_in_proofs(
                    recorder.common_points@,
                    cs.num_instance_columns as nat,
                    cs.instance_queries@,
                    np,
                    p,
                )
                ||| msm_laws::queried_in_proofs(
                    recorder.points@.take(advice as int),
                    cs.num_advice_columns as nat,
                    cs.advice_queries@,
                    np,
                    p,
                )
                ||| msm_laws::queried_at(key.fixed_commitments@, 0, cs.fixed_queries@, p)
                ||| key.permutation_commitments@.contains(p)
                ||| recorder.points@.skip(advice as int).contains(p)
            }
            &&& all.len() == np * (slots::queried_columns(cs.instance_queries@).len()
                + slots::queried_columns(cs.advice_queries@).len()) + slots::queried_columns(
                cs.fixed_queries@,
            ).len() + key.permutation_commitments@.len() + (recorder.points@.len() - advice)
        }),
{
    let s = key.shape(k, num_proofs);
    let (cs, all_points) = (key.cs, recorder.points@);
    shape_is_that_of_the_key(key, k, num_proofs);
    schedule::point_blocks_in_order(s);
    let advice = schedule::block(all_points, 0, s.advice_end());
    assert(advice =~= all_points.take(s.advice_end() as int));
    let m0 = slots::proof_slots(
        recorder.common_points@,
        cs.num_instance_columns as nat,
        slots::queried_columns(cs.instance_queries@),
        advice,
        cs.num_advice_columns as nat,
        slots::queried_columns(cs.advice_queries@),
        num_proofs as nat,
    );
    msm_laws::proof_slots_are_queried(
        recorder.common_points@,
        cs.num_instance_columns as nat,
        cs.instance_queries@,
        advice,
        cs.num_advice_columns as nat,
        cs.advice_queries@,
        num_proofs as nat,
    );
    assert(m0.contains(p) <==> m0.contains(p));
    let fixed = slots::picked(key.fixed_commitments@, 0, slots::queried_columns(cs.fixed_queries@));
    msm_laws::picked_points_are_queried(key.fixed_commitments@, 0, cs.fixed_queries@);
    assert(fixed.contains(p) <==> fixed.contains(p));
    let perm = key.permutation_commitments@;
    let b1 = schedule::block(all_points, s.lookup_permuted_end(), s.permutation_end());
    let b2 = schedule::block(all_points, s.advice_end(), s.lookup_permuted_end());
    let b3 = schedule::block(all_points, s.permutation_end(), s.lookup_product_end());
    let b4 = schedule::block(all_points, s.lookup_product_end(), s.num_points());
    assert(m0 + fixed + perm + b1 + b2 + b3 + b4 == key.base_slots(s, recorder));
    msm_laws::joined_lists_hold(m0, fixed, p);
    msm_laws::joined_lists_hold(m0 + fixed, perm, p);
    msm_laws::joined_lists_hold(m0 + fixed + perm, b1, p);
    msm_laws::joined_lists_hold(m0 + fixed + perm + b1, b2, p);
    msm_laws::joined_lists_hold(m0 + fixed + perm + b1 + b2, b3, p);
    msm_laws::joined_lists_hold(m0 + fixed + perm + b1 + b2 + b3, b4, p);
    let rest = all_points.skip(s.advice_end() as int);
    assert(rest =~= b2 + b1 + b3 + b4);
    msm_laws::joined_lists_hold(b2, b1, p);
    msm_laws::joined_lists_hold(b2 + b1, b3, p);
    msm_laws::joined_lists_hold(b2 + b1 + b3, b4, p);
}

/// The commitment slots are accepted if and only if every queried column has a commitment, the
/// bases of the further terms are the points in the slots but for the identity, and there are as
/// many terms as slots. What is reported otherwise is the case.
pub proof fn slots_are_refused(
    key: VerifyingKey,
    s: Shape,
    recorder: ChallengeRecorder,
    msm: MSM,
)
    ensures
        ({
            let fault = key.slot_fault(s, recorder, msm);
            let all = key.base_slots(s, recorder);
            let committed = {
                &&& s.num_proofs > 0 ==> forall|i: int|
                    0 <= i < key.cs.instance_queries@.len() ==> (
                    #[trigger] key.cs.instance_queries@[i]).column < key.cs.num_instance_columns
                &&& s.num_proofs > 0 ==> forall|i: int|
                    0 <= i < key.cs.advice_queries@.len() ==> (
                    #[trigger] key.cs.advice_queries@[i]).column < key.cs.num_advice_columns
                &&& forall|i: int|
                    0 <= i < key.cs.fixed_queries@.len() ==> (
                    #[trigger] key.cs.fixed_queries@[i]).column < key.fixed_commitments@.len()
            };
            let matching = forall|p: EqAffine| #[trigger]
                msm.bases().contains(p) <==> all.contains(p) && p@ is Some;
            &&& fault is None <==> committed && matching && all.len() == msm.other@.len()
            &&& fault == Some(ExportError::QueryColumn) <==> !committed
            &&& fault == Some(ExportError::BaseMismatch) <==> committed && !matching
            &&& fault is Some && fault->0 is Collapsed <==> committed && matching && all.len()
                != msm.other@.len()
            &&& committed && matching && all.len() != msm.other@.len() && all.len() <= usize::MAX
                ==> fault->0->slots == all.len() && fault->0->terms == msm.other@.len()
        }),
{
    assert(msm.other@.len() == msm.other.len());
}

/// The counted ends of the blocks are the running totals of their sizes.
pub proof fn block_ends_are_running_totals(s: Shape, b: PointBlocks, e: ScalarBlocks)
    requires
        b.of(s),
        e.of(s),
    ensures
        b.advice == s.num_proofs as nat * s.num_advice_columns as nat,
        b.lookup_permuted - b.advice == 2 * (s.num_proofs as nat * s.num_lookups as nat),
        b.permutation - b.lookup_permuted == s.num_proofs as nat * s.num_permutation_sets as nat,
        b.lookup_product - b.permutation == s.num_proofs as nat * s.num_lookups as nat,
        b.vanishing - b.lookup_product == 1,
        b.quotient - b.vanishing == s.num_quotient_pieces,
        b.multiopen - b.quotient == 1,
        b.ipa_blind - b.multiopen == 1,
        b.total - b.ipa_blind == 2 * s.k,
        e.instance == s.num_proofs as nat * s.num_instance_queries as nat,
        e.advice - e.instance == s.num_proofs as nat * s.num_advice_queries as nat,
        e.fixed - e.advice == s.num_fixed_queries,
        e.vanishing - e.fixed == 1,
        e.permutation_common - e.vanishing == s.num_permutation_columns,
        s.num_permutation_sets == 0 ==> e.permutation_set == e.permutation_common,
        s.num_permutation_sets > 0 ==> e.permutation_set - e.permutation_common
            == s.num_proofs as nat * (3 * s.num_permutation_sets as nat - 1) as nat,
        e.lookup - e.permutation_set == 5 * (s.num_proofs as nat * s.num_lookups as nat),
        e.least - e.lookup == 2,
{
    blocks_have_the_sizes_of_the_protocol(s);
    let n = s.num_proofs as nat;
    assert(n * 0 == 0) by (nonlinear_arith);
}

/// A refusal says which of the checks failed, and one for merged or dropped commitments says how
/// many slots there are and then how many terms.
pub proof fn refusals_say_which_check_failed(slots: usize, terms: usize)
    ensures
        ExportError::Namespace.text()
            == "lean_namespace must be a dot-separated path of ASCII Lean identifiers (letter/underscore start)"@,
        ExportError::CircuitId.text()
            == "circuit_id must be a non-empty ASCII slug (alphanumeric, `_`, `-`)"@,
        ExportError::MsmBase.text() == "captured MSM base must be a valid affine point"@,
        ExportError::NotIdentity.text()
            == "captured MSM must evaluate to the identity; the emitted fixture proves it"@,
        ExportError::NoGeneratorScalars.text()
            == "captured MSM must contain verifier-generator coefficients"@,
        ExportError::NoBlindingScalar.text()
            == "captured MSM must contain a blinding-generator coefficient"@,
        ExportError::NoIpaScalar.text()
            == "captured MSM must contain an IPA-generator coefficient"@,
        ExportError::ZeroChunkLength.text()
            == "permutation columns present but chunk length is zero"@,
        ExportError::BaseMismatch.text()
            == "exporter's MSM base-slot reconstruction does not match the captured MSM bases; the assumed verifier read/query schedule is stale"@,
        (ExportError::Collapsed { slots, terms }).text() == "captured MSM collapsed "@
            + text::decimal(slots as nat) + " protocol commitment slots into "@ + text::decimal(
            terms as nat,
        )
            + " terms by merging same-base terms or dropping identity bases; the Lean assembly does neither, so the emitted `fingerprint_matches` could not hold. Capture a proof whose commitments are all distinct and non-identity."@,
        ExportError::GateSelector.text() == "virtual selectors are removed before verification"@,
        ExportError::LookupSelector.text() == "virtual selectors are removed before verification"@,
{
}

} // verus!
