//! What holds of every capture that is exported, and of every fixture that is written.

use vstd::arithmetic::power2::*;
use vstd::prelude::*;

use crate::capture;
use crate::capture::Capture;
use crate::circuit;
use crate::curve::EqAffine;
use crate::field;
use crate::field::Fp;
use crate::fixture;
use crate::key;
use crate::key::{ExportError, VerifyingKey};
use crate::msm;
use crate::msm::MSM;
use crate::names;
use crate::points;
use crate::schedule;
use crate::slots;
use crate::transcript;
use crate::transcript::{ChallengeRecorder, TranscriptEvent};

verus! {

/// Only accepting runs are exported: the captured multi-scalar multiplication is the identity.
pub proof fn only_accepting_runs_are_exported(
    key: VerifyingKey,
    lean_namespace: Seq<char>,
    circuit_id: Seq<char>,
    k: u32,
    num_proofs: usize,
    recorder: ChallengeRecorder,
    msm: MSM,
)
    requires
        key.fault(lean_namespace, circuit_id, k, num_proofs, recorder, msm) is None,
    ensures
        msm::combination(msm.terms()) is None,
{
}

/// A rejecting run is refused as one, whatever else is wrong with the capture, as long as its
/// names are right and its multi-scalar multiplication can be evaluated.
pub proof fn rejecting_runs_are_refused(
    key: VerifyingKey,
    lean_namespace: Seq<char>,
    circuit_id: Seq<char>,
    k: u32,
    num_proofs: usize,
    recorder: ChallengeRecorder,
    msm: MSM,
)
    requires
        names::lean_path(lean_namespace),
        names::slug(circuit_id),
        msm.bases_valid(),
        msm.generators_covered(),
        msm::combination(msm.terms()) is Some,
    ensures
        key.fault(lean_namespace, circuit_id, k, num_proofs, recorder, msm) == Some(
            ExportError::NotIdentity,
        ),
{
}

/// An exported capture has exactly one term for each commitment slot of the protocol: no two slots
/// share a commitment, none holds the identity, there are as many terms as slots, and the bases of
/// the terms are the points in the slots.
pub proof fn exported_commitments_are_distinct(
    key: VerifyingKey,
    lean_namespace: Seq<char>,
    circuit_id: Seq<char>,
    k: u32,
    num_proofs: usize,
    recorder: ChallengeRecorder,
    msm: MSM,
)
    requires
        key.fault(lean_namespace, circuit_id, k, num_proofs, recorder, msm) is None,
    ensures
        ({
            let base_slots = key.base_slots(key.shape(k, num_proofs), recorder);
            &&& slots::commitments_distinct(base_slots)
            &&& base_slots.len() == msm.other@.len()
            &&& base_slots.to_set() == msm.bases().to_set()
        }),
{
    let base_slots = key.base_slots(key.shape(k, num_proofs), recorder);
    slots::nothing_was_collapsed(base_slots, msm.bases());
    assert forall|p: EqAffine| #[trigger] base_slots.to_set().contains(
        p,
    ) <==> msm.bases().to_set().contains(p) by {
        assert(msm.bases().contains(p) <==> base_slots.contains(p) && p@ is Some);
        if base_slots.contains(p) {
            let i = choose|i: int| 0 <= i < base_slots.len() && base_slots[i] == p;
            assert(base_slots[i]@ is Some);
        }
    }
    assert(base_slots.to_set() =~= msm.bases().to_set());
}

/// A capture in which two commitment slots share a commitment, or one holds the identity, or the
/// bases of the terms are not the points in the slots, is refused.
pub proof fn collapsed_captures_are_refused(
    key: VerifyingKey,
    lean_namespace: Seq<char>,
    circuit_id: Seq<char>,
    k: u32,
    num_proofs: usize,
    recorder: ChallengeRecorder,
    msm: MSM,
)
    requires
        ({
            let base_slots = key.base_slots(key.shape(k, num_proofs), recorder);
            ||| !slots::commitments_distinct(base_slots)
            ||| base_slots.to_set() != msm.bases().to_set()
        }),
    ensures
        key.fault(lean_namespace, circuit_id, k, num_proofs, recorder, msm) is Some,
{
    if key.fault(lean_namespace, circuit_id, k, num_proofs, recorder, msm) is None {
        exported_commitments_are_distinct(
            key,
            lean_namespace,
            circuit_id,
            k,
            num_proofs,
            recorder,
            msm,
        );
    }
}

/// In an exported capture each squeeze delimits the blocks of the proof: what was read before it
/// are the points up to the end of its block, and from x1 on the scalars up to the end of theirs.
pub proof fn squeezes_delimit_blocks(
    key: VerifyingKey,
    lean_namespace: Seq<char>,
    circuit_id: Seq<char>,
    k: u32,
    num_proofs: usize,
    recorder: ChallengeRecorder,
    msm: MSM,
    at: int,
)
    requires
        key.fault(lean_namespace, circuit_id, k, num_proofs, recorder, msm) is None,
        0 <= at < recorder.events@.len(),
        recorder.events@[at] is Squeeze,
    ensures
        ({
            let shape = key.shape(k, num_proofs);
            let before = recorder.events@.take(at);
            let j = transcript::squeezes(before).len() as int;
            &&& j < schedule::IPA_ROUND_BASE + k
            &&& recorder.events@[at] == TranscriptEvent::Squeeze(recorder.challenges@[j])
            &&& transcript::read_points(before) == recorder.points@.take(
                shape.points_due(j) as int,
            )
            &&& j >= schedule::X1 ==> transcript::read_scalars(before) == recorder.scalars@.take(
                shape.scalars_due(recorder.scalars@.len(), j) as int,
            )
        }),
{
    let events = recorder.events@;
    let shape = key.shape(k, num_proofs);
    let j = transcript::squeezes(events.take(at)).len() as int;
    transcript::squeeze_delimits_reads(events, at);
    transcript::entry_of_a_squeeze(Seq::empty(), events, at);
    let points_at = transcript::points_before_squeeze(events);
    let scalars_at = transcript::scalars_before_squeeze(events);
    if j >= schedule::IPA_ROUND_BASE {
        let round = j - schedule::IPA_ROUND_BASE;
        assert(points_at[schedule::IPA_ROUND_BASE + round] == shape.points_due(j));
        assert(scalars_at[schedule::IPA_ROUND_BASE + round] == recorder.scalars@.len() - 2);
    }
    assert(points_at[j] == shape.points_due(j));
}

/// The fixture has a schedule entry for each challenge of an exported capture, in the order of
/// the challenges.
pub proof fn schedule_follows_the_challenges(
    key: VerifyingKey,
    lean_namespace: Seq<char>,
    circuit_id: Seq<char>,
    k: u32,
    num_proofs: usize,
    recorder: ChallengeRecorder,
    msm: MSM,
    table: Seq<EqAffine>,
)
    requires
        key.fault(lean_namespace, circuit_id, k, num_proofs, recorder, msm) is None,
    ensures
        transcript::schedule_texts(table, recorder.events@).len() == schedule::IPA_ROUND_BASE + k,
        forall|at: int|
            0 <= at < recorder.events@.len() && (#[trigger] recorder.events@[at]) is Squeeze ==> {
                let before = recorder.events@.take(at);
                let j = transcript::squeezes(before).len() as int;
                transcript::schedule_texts(table, recorder.events@)[j]
                    == transcript::schedule_entry_text(table, before, recorder.challenges@[j])
            },
{
    transcript::one_entry_per_squeeze(table, recorder.events@);
    assert forall|at: int|
        0 <= at < recorder.events@.len() && (
        #[trigger] recorder.events@[at]) is Squeeze implies ({
        let before = recorder.events@.take(at);
        let j = transcript::squeezes(before).len() as int;
        transcript::schedule_texts(table, recorder.events@)[j] == transcript::schedule_entry_text(
            table,
            before,
            recorder.challenges@[j],
        )
    }) by {
        transcript::entry_of_a_squeeze(table, recorder.events@, at);
    }
}

/// The transcript prefix of an exported capture holds the scalar of the key, then the instance
/// commitments, and nothing else.
pub proof fn transcript_prefix_is_key_and_instances(
    key: VerifyingKey,
    lean_namespace: Seq<char>,
    circuit_id: Seq<char>,
    k: u32,
    num_proofs: usize,
    recorder: ChallengeRecorder,
    msm: MSM,
    table: Seq<EqAffine>,
)
    requires
        key.fault(lean_namespace, circuit_id, k, num_proofs, recorder, msm) is None,
    ensures
        transcript::elt_texts(
            table,
            transcript::first_events(recorder.events@, 1 + recorder.common_points@.len()),
        ) == seq![transcript::scalar_elt_text(key.transcript_repr)]
            + recorder.common_points@.map_values(
            |p: EqAffine| transcript::point_elt_text(table, p),
        ),
{
    let init = transcript::first_events(recorder.events@, 1 + recorder.common_points@.len());
    let left = transcript::elt_texts(table, init);
    let right = seq![transcript::scalar_elt_text(key.transcript_repr)]
        + recorder.common_points@.map_values(|p: EqAffine| transcript::point_elt_text(table, p));
    assert forall|i: int| 0 <= i < left.len() implies left[i] == right[i] by {
        if i > 0 {
            assert(recorder.events@[1 + (i - 1)] == TranscriptEvent::CommonPoint(
                recorder.common_points@[i - 1],
            ));
        }
    }
    assert(left =~= right);
}

proof fn lemma_prefix_extends(a: Seq<char>, b: Seq<char>, c: Seq<char>)
    requires
        a.is_prefix_of(b),
    ensures
        a.is_prefix_of(b + c),
{
    assert((b + c).take(a.len() as int) =~= b.take(a.len() as int));
}

/// What stands first stays first, and what stands last stays last, in a text of many parts.
proof fn lemma_framed(
    h: Seq<char>,
    a1: Seq<char>,
    a2: Seq<char>,
    a3: Seq<char>,
    a4: Seq<char>,
    a5: Seq<char>,
    a6: Seq<char>,
    a7: Seq<char>,
    a8: Seq<char>,
    a9: Seq<char>,
    a10: Seq<char>,
    a11: Seq<char>,
    a12: Seq<char>,
    a13: Seq<char>,
    end: Seq<char>,
)
    ensures
        h.is_prefix_of(h + a1 + a2 + a3 + a4 + a5 + a6 + a7 + a8 + a9 + a10 + a11 + a12 + a13 + end),
        end.is_suffix_of(h + a1 + a2 + a3 + a4 + a5 + a6 + a7 + a8 + a9 + a10 + a11 + a12 + a13 + end),
{
    let m1 = h + a1;
    let m2 = m1 + a2;
    let m3 = m2 + a3;
    let m4 = m3 + a4;
    let m5 = m4 + a5;
    let m6 = m5 + a6;
    let m7 = m6 + a7;
    let m8 = m7 + a8;
    let m9 = m8 + a9;
    let m10 = m9 + a10;
    let m11 = m10 + a11;
    let m12 = m11 + a12;
    let m13 = m12 + a13;
    assert(h.take(h.len() as int) =~= h);
    lemma_prefix_extends(h, h, a1);
    lemma_prefix_extends(h, m1, a2);
    lemma_prefix_extends(h, m2, a3);
    lemma_prefix_extends(h, m3, a4);
    lemma_prefix_extends(h, m4, a5);
    lemma_prefix_extends(h, m5, a6);
    lemma_prefix_extends(h, m6, a7);
    lemma_prefix_extends(h, m7, a8);
    lemma_prefix_extends(h, m8, a9);
    lemma_prefix_extends(h, m9, a10);
    lemma_prefix_extends(h, m10, a11);
    lemma_prefix_extends(h, m11, a12);
    lemma_prefix_extends(h, m12, a13);
    lemma_prefix_extends(h, m13, end);
    assert((m13 + end).skip(m13.len() as int) =~= end);
}

/// A fixture starts with its header, which opens the namespace, and ends with its theorems, which
/// close it, whatever was captured.
pub proof fn fixture_is_framed(lean_namespace: Seq<char>, circuit_id: Seq<char>, c: Capture)
    ensures
        fixture::header_text(lean_namespace, circuit_id, c.table()).is_prefix_of(
            fixture::fixture_text(lean_namespace, circuit_id, c),
        ),
        fixture::theorems_text(lean_namespace).is_suffix_of(
            fixture::fixture_text(lean_namespace, circuit_id, c),
        ),
{
    let t = c.table();
    lemma_framed(
        fixture::header_text(lean_namespace, circuit_id, t),
        fixture::shape_text(c),
        fixture::urs_text(c, t),
        fixture::commitments_text(c, t),
        fixture::key_text(c),
        fixture::proof_points_text(c, t),
        fixture::column_evals_text(c),
        fixture::set_evals_text(c),
        fixture::lookup_evals_text(c),
        fixture::multiopen_text(c, t),
        fixture::proof_text(c, t),
        fixture::challenges_text(c.recorder.challenges@),
        fixture::transcript_text(c, t),
        fixture::msm_text(*c.msm, t),
        fixture::theorems_text(lean_namespace),
    );
}

/// Every point that a fixture refers to stands in the list of coordinates, once, and its number
/// leads to its own coordinates.
pub proof fn references_resolve(c: Capture, point: EqAffine)
    requires
        c.mentioned().contains(point),
    ensures
        c.table().no_duplicates(),
        points::position(c.table(), point) < points::coordinate_texts(c.table()).len(),
        points::coordinate_texts(c.table())[points::position(c.table(), point) as int]
            == points::coordinates_text(point),
{
    points::interning_keeps_the_table(Seq::empty(), c.mentioned());
    assert(c.table().contains(point));
    points::reference_resolves(c.table(), point);
}

/// A block of the points of a proof is in a table that holds the points of the proof.
proof fn lemma_proof_points_covered(c: Capture, t: Seq<EqAffine>)
    requires
        c.commitments_covered_by(t),
        c.recorder.points@.len() == c.shape.num_points(),
    ensures
        points::holds_all(t, c.recorder.points@),
{
    let (s, all) = (c.shape, c.recorder.points@);
    schedule::point_blocks_in_order(s);
    let pairs = c.lookup_permuted();
    let lookups = c.all_lookups();
    assert(pairs.len() == 2 * lookups);
    assert forall|i: int| 0 <= i < all.len() implies t.contains(#[trigger] all[i]) by {
        if i < s.advice_end() {
            assert(c.advice()[i] == all[i]);
        } else if i < s.lookup_permuted_end() {
            let j = i - s.advice_end();
            assert(pairs[j] == all[i]);
            if j % 2 == 0 {
                assert(2 * (j / 2) == j);
                assert(capture::pair_firsts(pairs, lookups)[j / 2] == all[i]);
            } else {
                assert(2 * (j / 2) + 1 == j);
                assert(capture::pair_seconds(pairs, lookups)[j / 2] == all[i]);
            }
        } else if i < s.permutation_end() {
            assert(c.permutation_products()[i - s.lookup_permuted_end()] == all[i]);
        } else if i < s.lookup_product_end() {
            assert(c.lookup_products()[i - s.permutation_end()] == all[i]);
        } else if i < s.vanishing_end() {
            assert(c.vanishing_random() == all[i]);
        } else if i < s.quotient_end() {
            assert(c.quotient_pieces()[i - s.vanishing_end()] == all[i]);
        } else if i < s.multiopen_end() {
            assert(c.q_prime() == all[i]);
        } else if i < s.ipa_blind_end() {
            assert(c.ipa_s() == all[i]);
        } else {
            assert(c.ipa_rounds()[i - s.ipa_blind_end()] == all[i]);
        }
    }
}

/// Each commitment slot of the protocol is in a table that holds the points of the key and of the
/// proof.
proof fn lemma_slots_covered(c: Capture, t: Seq<EqAffine>)
    requires
        c.shape == c.key.shape(c.shape.k, c.shape.num_proofs),
        c.commitments_covered_by(t),
        c.recorder.points@.len() == c.shape.num_points(),
        c.recorder.common_points@.len() == c.shape.num_proofs as nat
            * c.key.cs.num_instance_columns as nat,
        c.key.columns_committed(c.shape.num_proofs),
    ensures
        points::holds_all(t, c.key.base_slots(c.shape, *c.recorder)),
{
    let (s, cs, all) = (c.shape, c.key.cs, c.recorder.points@);
    schedule::point_blocks_in_order(s);
    lemma_proof_points_covered(c, t);
    let rest = schedule::block(all, s.lookup_product_end(), s.num_points());
    let m0 = slots::proof_slots(
        c.recorder.common_points@,
        cs.num_instance_columns as nat,
        slots::queried_columns(cs.instance_queries@),
        c.advice(),
        cs.num_advice_columns as nat,
        slots::queried_columns(cs.advice_queries@),
        s.num_proofs as nat,
    );
    let fixed = slots::picked(
        c.key.fixed_commitments@,
        0,
        slots::queried_columns(cs.fixed_queries@),
    );
    let m1 = m0 + fixed;
    let m2 = m1 + c.key.permutation_commitments@;
    let m3 = m2 + c.permutation_products();
    let m4 = m3 + c.lookup_permuted();
    let m5 = m4 + c.lookup_products();
    assert(m5 + rest == c.key.base_slots(s, *c.recorder));
    slots::proof_slots_are_held(
        t,
        c.recorder.common_points@,
        cs.num_instance_columns as nat,
        cs.instance_queries@,
        c.advice(),
        cs.num_advice_columns as nat,
        cs.advice_queries@,
        s.num_proofs as nat,
    );
    slots::picked_are_held(t, c.key.fixed_commitments@, cs.fixed_queries@);
    assert forall|i: int| 0 <= i < rest.len() implies t.contains(#[trigger] rest[i]) by {
        assert(rest[i] == all[s.lookup_product_end() + i]);
    }
    let pairs = c.lookup_permuted();
    assert forall|i: int| 0 <= i < pairs.len() implies t.contains(#[trigger] pairs[i]) by {
        assert(pairs[i] == all[s.advice_end() + i]);
    }
    points::holds_concatenation(t, m0, fixed);
    points::holds_concatenation(t, m1, c.key.permutation_commitments@);
    points::holds_concatenation(t, m2, c.permutation_products());
    points::holds_concatenation(t, m3, pairs);
    points::holds_concatenation(t, m4, c.lookup_products());
    points::holds_concatenation(t, m5, rest);
}

/// The points of an exported fixture are shared: the transcript and the multi-scalar
/// multiplication refer to points of the parameters, of the key and of the proof, and add none.
pub proof fn points_are_shared(
    key: VerifyingKey,
    lean_namespace: Seq<char>,
    circuit_id: Seq<char>,
    k: u32,
    num_proofs: usize,
    recorder: ChallengeRecorder,
    msm: MSM,
)
    requires
        key.fault(lean_namespace, circuit_id, k, num_proofs, recorder, msm) is None,
    ensures
        ({
            let c = capture::capture(&key, k, num_proofs, &recorder, &msm);
            &&& c.table() == points::interned_all(Seq::empty(), c.committed())
            &&& points::holds_all(c.committed(), transcript::all_points(recorder.events@))
            &&& points::holds_all(c.committed(), msm.bases())
        }),
{
    let c = capture::capture(&key, k, num_proofs, &recorder, &msm);
    let list = c.committed();
    let events = transcript::all_points(recorder.events@);
    let base_slots = key.base_slots(c.shape, recorder);
    assert(points::holds_all(list, list));
    capture::groups_are_covered(c, list);
    lemma_proof_points_covered(c, list);
    lemma_slots_covered(c, list);
    assert forall|i: int| 0 <= i < events.len() implies list.contains(#[trigger] events[i]) by {
        let p = events[i];
        assert(events.contains(p));
        transcript::points_are_common_or_read(recorder.events@, p);
        if recorder.common_points@.contains(p) {
            let j = choose|j: int|
                0 <= j < recorder.common_points@.len() && recorder.common_points@[j] == p;
            assert(list.contains(recorder.common_points@[j]));
        } else {
            let j = choose|j: int| 0 <= j < recorder.points@.len() && recorder.points@[j] == p;
            assert(list.contains(recorder.points@[j]));
        }
    }
    let bases = msm.bases();
    assert forall|i: int| 0 <= i < bases.len() implies list.contains(#[trigger] bases[i]) by {
        let p = bases[i];
        assert(bases.contains(p));
        let j = choose|j: int| 0 <= j < base_slots.len() && base_slots[j] == p;
        assert(list.contains(base_slots[j]));
    }
    let own = points::interned_all(Seq::empty(), list);
    points::interning_keeps_the_table(Seq::empty(), list);
    assert(points::holds_all(own, events));
    assert(points::holds_all(own, bases));
    points::interning_in_parts(Seq::empty(), list + events, bases);
    points::interning_in_parts(Seq::empty(), list, events);
    points::known_points_change_nothing(own, events);
    points::known_points_change_nothing(own, bases);
}

/// Where the entry `i` of row `p` stands in a list of rows.
pub open spec fn row_index(p: nat, width: nat, i: nat) -> nat {
    p * width + i
}

/// Whether a list is long enough for every entry of so many rows of a width.
pub open spec fn holds_rows(len: nat, rows: nat, width: nat) -> bool {
    forall|p: nat, i: nat| p < rows && i < width ==> #[trigger] row_index(p, width, i) < len
}

proof fn lemma_holds_rows(rows: nat, width: nat)
    ensures
        holds_rows(rows * width, rows, width),
{
    assert forall|p: nat, i: nat| p < rows && i < width implies #[trigger] row_index(p, width, i)
        < rows * width by {
        assert(p * width + i < rows * width) by (nonlinear_arith)
            requires
                p < rows,
                i < width,
        ;
    }
}

proof fn lemma_set_eval_texts_len(evals: Seq<Fp>, n: nat, width: nat, proofs: nat)
    ensures
        capture::set_eval_texts(evals, n, width, proofs).len() == proofs * n,
    decreases proofs,
{
    if proofs > 0 {
        let p = (proofs - 1) as nat;
        lemma_set_eval_texts_len(evals, n, width, p);
        assert((p + 1) * n == p * n + n) by (nonlinear_arith);
    } else {
        assert(0 * n == 0) by (nonlinear_arith);
    }
}

/// Every list of points of an exported fixture is as long as its uses need, so that no lookup in
/// it falls back to the identity: the generators, the commitments of each proof and column, the
/// commitments of each proof and lookup or permutation set, the quotient pieces, and the rounds.
pub proof fn point_lists_are_complete(
    key: VerifyingKey,
    lean_namespace: Seq<char>,
    circuit_id: Seq<char>,
    k: u32,
    num_proofs: usize,
    recorder: ChallengeRecorder,
    msm: MSM,
)
    requires
        key.fault(lean_namespace, circuit_id, k, num_proofs, recorder, msm) is None,
    ensures
        ({
            let c = capture::capture(&key, k, num_proofs, &recorder, &msm);
            let (s, t) = (c.shape, c.table());
            let proofs = num_proofs as nat;
            let lookups = s.num_lookups as nat;
            let inputs = capture::pair_firsts(c.lookup_permuted(), c.all_lookups());
            let tables = capture::pair_seconds(c.lookup_permuted(), c.all_lookups());
            &&& points::ref_texts(t, msm.params.g@).len() == pow2(k as nat)
            &&& holds_rows(
                points::ref_texts(t, recorder.common_points@).len(),
                proofs,
                key.cs.num_instance_columns as nat,
            )
            &&& points::ref_texts(t, key.permutation_commitments@).len()
                == s.num_permutation_columns
            &&& holds_rows(
                points::ref_texts(t, c.advice()).len(),
                proofs,
                s.num_advice_columns as nat,
            )
            &&& holds_rows(points::ref_texts(t, inputs).len(), proofs, lookups)
            &&& holds_rows(points::ref_texts(t, tables).len(), proofs, lookups)
            &&& holds_rows(
                points::ref_texts(t, c.permutation_products()).len(),
                proofs,
                s.num_permutation_sets as nat,
            )
            &&& holds_rows(points::ref_texts(t, c.lookup_products()).len(), proofs, lookups)
            &&& points::ref_texts(t, c.quotient_pieces()).len() == s.num_quotient_pieces
            &&& capture::pair_texts(t, c.ipa_rounds(), s.k as nat).len() == k
        }),
{
    let s = key.shape(k, num_proofs);
    let proofs = num_proofs as nat;
    schedule::point_blocks_in_order(s);
    lemma_holds_rows(proofs, key.cs.num_instance_columns as nat);
    lemma_holds_rows(proofs, s.num_advice_columns as nat);
    lemma_holds_rows(proofs, s.num_lookups as nat);
    lemma_holds_rows(proofs, s.num_permutation_sets as nat);
}

/// Every list of scalars of an exported fixture is as long as its uses need, so that no lookup in
/// it falls back to zero: the evaluations of each proof and query, of each permutation column, of
/// each proof and permutation set or lookup, of each point set, the challenges of the rounds, and
/// the coefficients of the generators.
pub proof fn scalar_lists_are_complete(
    key: VerifyingKey,
    lean_namespace: Seq<char>,
    circuit_id: Seq<char>,
    k: u32,
    num_proofs: usize,
    recorder: ChallengeRecorder,
    msm: MSM,
)
    requires
        key.fault(lean_namespace, circuit_id, k, num_proofs, recorder, msm) is None,
    ensures
        ({
            let c = capture::capture(&key, k, num_proofs, &recorder, &msm);
            let s = c.shape;
            let proofs = num_proofs as nat;
            let sets = s.num_permutation_sets as nat;
            &&& holds_rows(
                field::fp_texts(c.scalars(0, s.instance_eval_end())).len(),
                proofs,
                s.num_instance_queries as nat,
            )
            &&& holds_rows(
                field::fp_texts(c.scalars(s.instance_eval_end(), s.advice_eval_end())).len(),
                proofs,
                s.num_advice_queries as nat,
            )
            &&& field::fp_texts(c.scalars(s.advice_eval_end(), s.fixed_eval_end())).len()
                == s.num_fixed_queries
            &&& field::fp_texts(
                c.scalars(s.vanishing_eval_end(), s.permutation_common_end()),
            ).len() == s.num_permutation_columns
            &&& holds_rows(
                capture::set_eval_texts(
                    c.scalars(s.permutation_common_end(), s.permutation_set_end()),
                    sets,
                    s.set_evals(),
                    proofs,
                ).len(),
                proofs,
                sets,
            )
            &&& holds_rows(
                capture::lookup_eval_texts(
                    c.scalars(s.permutation_set_end(), s.lookup_eval_end()),
                    c.all_lookups(),
                ).len(),
                proofs,
                s.num_lookups as nat,
            )
            &&& field::fp_texts(c.scalars(s.lookup_eval_end(), c.multiopen_scalars_end())).len()
                == c.num_point_sets()
            &&& field::fp_texts(
                recorder.challenges@.skip(schedule::IPA_ROUND_BASE as int),
            ).len() == k
            &&& field::fp_texts(msm.g_scalars->0@).len() == pow2(k as nat)
        }),
{
    let c = capture::capture(&key, k, num_proofs, &recorder, &msm);
    let s = c.shape;
    let proofs = num_proofs as nat;
    schedule::scalar_blocks_in_order(s);
    lemma_holds_rows(proofs, s.num_instance_queries as nat);
    lemma_holds_rows(proofs, s.num_advice_queries as nat);
    lemma_holds_rows(proofs, s.num_lookups as nat);
    lemma_holds_rows(proofs, s.num_permutation_sets as nat);
    lemma_set_eval_texts_len(
        c.scalars(s.permutation_common_end(), s.permutation_set_end()),
        s.num_permutation_sets as nat,
        s.set_evals(),
        proofs,
    );
}

/// The key of an exported fixture lists as many permutation chunks as its shape has permutation
/// sets, and an input list and a table list for each lookup.
pub proof fn chunks_match_the_shape(
    key: VerifyingKey,
    lean_namespace: Seq<char>,
    circuit_id: Seq<char>,
    k: u32,
    num_proofs: usize,
    recorder: ChallengeRecorder,
    msm: MSM,
)
    requires
        key.fault(lean_namespace, circuit_id, k, num_proofs, recorder, msm) is None,
    ensures
        ({
            let s = key.shape(k, num_proofs);
            &&& key.cs.permutation_chunks(key.chunk_len(), 0).len() == s.num_permutation_sets
            &&& circuit::lookup_input_texts(key.cs.lookups@).len() == s.num_lookups
            &&& circuit::lookup_table_texts(key.cs.lookups@).len() == s.num_lookups
        }),
{
    let columns: usize = key.cs.permutation_columns.len();
    assert(columns == key.cs.permutation_columns@.len());
    if key.chunk_len() > 0 {
        circuit::chunks_match_sets(key.cs, key.chunk_len(), 0);
        key::lemma_chunk_count(columns as int, key.chunk_len() as int);
    }
}

} // verus!
