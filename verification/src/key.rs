//! The verifying key, and what has to hold of a capture before a fixture can be written for it.

use vstd::arithmetic::power2::*;
use vstd::prelude::*;
use vstd::slice::*;
use vstd::string::*;

use crate::circuit;
use crate::circuit::ConstraintSystem;
use crate::curve::EqAffine;
use crate::field::Fp;
use crate::msm;
use crate::msm::MSM;
use crate::names;
use crate::schedule;
use crate::schedule::{PointBlocks, ScalarBlocks, Shape};
use crate::slots;
use crate::text;
use crate::transcript;
use crate::transcript::ChallengeRecorder;

verus! {

/// What the verifier knows of a circuit.
#[derive(Debug)]
pub struct VerifyingKey {
    /// The constraint system.
    pub cs: ConstraintSystem,
    /// The largest degree of a constraint.
    pub cs_degree: usize,
    /// The root of unity that generates the evaluation domain.
    pub omega: Fp,
    /// How many pieces the quotient polynomial has.
    pub quotient_poly_degree: usize,
    /// The scalar that stands for the key in the transcript.
    pub transcript_repr: Fp,
    /// The commitments to the fixed columns.
    pub fixed_commitments: Vec<EqAffine>,
    /// The commitments to the permutation columns.
    pub permutation_commitments: Vec<EqAffine>,
}

/// Why a capture cannot be exported.
#[derive(Clone, Copy, Debug, PartialEq, Eq, Structural)]
pub enum ExportError {
    /// The namespace is no dot-separated path of ASCII Lean identifiers.
    Namespace,
    /// The circuit id is no ASCII slug.
    CircuitId,
    /// A base of the captured multi-scalar multiplication is no point of the curve.
    MsmBase,
    /// There are not as many generator coefficients as generators.
    MsmGenerators,
    /// The captured multi-scalar multiplication is not the identity.
    NotIdentity,
    /// There are no generator coefficients.
    NoGeneratorScalars,
    /// There is no coefficient of the blinding generator.
    NoBlindingScalar,
    /// There is no coefficient of the generator of the inner product argument.
    NoIpaScalar,
    /// Two terms of the captured multi-scalar multiplication have one base.
    RepeatedBase,
    /// The degree of the constraint system leaves no room for permutation chunks.
    Degree,
    /// There are permutation columns, but the chunk length is zero.
    ZeroChunkLength,
    /// The parameters are for another size.
    ParamsSize,
    /// The parameters do not have as many generators as their size says.
    GeneratorCount,
    /// There is not one instance commitment for each proof and instance column.
    CommonPointCount,
    /// The number of challenges is not that of the protocol.
    ChallengeCount,
    /// The number of points read is not that of the protocol.
    ReadPointCount,
    /// The number of scalars read is too small for the protocol.
    ReadScalarCount,
    /// The recorded lists do not agree with the recorded events.
    EventMismatch,
    /// The transcript does not start with the key and the instance commitments.
    TranscriptStart,
    /// The points were not read in the order of the protocol.
    PointSchedule,
    /// The scalars were not read in the order of the protocol.
    ScalarSchedule,
    /// A query names a column that has no commitment.
    QueryColumn,
    /// The bases of the captured multi-scalar multiplication are not those of the protocol.
    BaseMismatch,
    /// Commitments were merged or dropped in the captured multi-scalar multiplication.
    Collapsed {
        /// How many commitment slots the protocol has.
        slots: usize,
        /// How many terms were captured.
        terms: usize,
    },
    /// A gate has a virtual selector.
    GateSelector,
    /// A permutation column is not queried at the current row.
    PermutationQuery,
    /// A lookup has a virtual selector.
    LookupSelector,
}

/// The first of two faults, if there is any.
pub open spec fn first_fault(
    first: Option<ExportError>,
    second: Option<ExportError>,
) -> Option<ExportError> {
    if first is Some {
        first
    } else {
        second
    }
}

/// What is wrong with the names of a fixture.
pub open spec fn name_fault(
    lean_namespace: Seq<char>,
    circuit_id: Seq<char>,
) -> Option<ExportError> {
    if !names::lean_path(lean_namespace) {
        Some(ExportError::Namespace)
    } else if !names::slug(circuit_id) {
        Some(ExportError::CircuitId)
    } else {
        None
    }
}

/// What keeps a captured multi-scalar multiplication from being that of an accepting run.
pub open spec fn msm_fault(msm: MSM) -> Option<ExportError> {
    if !msm.bases_valid() {
        Some(ExportError::MsmBase)
    } else if !msm.generators_covered() {
        Some(ExportError::MsmGenerators)
    } else if msm::combination(msm.terms()) is Some {
        Some(ExportError::NotIdentity)
    } else if msm.g_scalars is None {
        Some(ExportError::NoGeneratorScalars)
    } else if msm.w_scalar is None {
        Some(ExportError::NoBlindingScalar)
    } else if msm.u_scalar is None {
        Some(ExportError::NoIpaScalar)
    } else if !msm.bases_distinct() {
        Some(ExportError::RepeatedBase)
    } else {
        None
    }
}

impl VerifyingKey {
    /// How many columns a permutation set has.
    pub open spec fn chunk_len(self) -> nat {
        (self.cs_degree - 2) as nat
    }

    /// The shape of a proof for this key.
    pub open spec fn shape(self, k: u32, num_proofs: usize) -> Shape {
        Shape {
            k,
            num_proofs,
            num_advice_columns: self.cs.num_advice_columns,
            num_lookups: self.cs.lookups.len(),
            num_permutation_sets: circuit::chunk_count(
                self.cs.permutation_columns@.len(),
                self.chunk_len(),
            ) as usize,
            num_permutation_columns: self.permutation_commitments.len(),
            num_quotient_pieces: self.quotient_poly_degree,
            num_instance_queries: self.cs.instance_queries.len(),
            num_advice_queries: self.cs.advice_queries.len(),
            num_fixed_queries: self.cs.fixed_queries.len(),
        }
    }

    /// What is wrong with the sizes of a capture.
    pub open spec fn size_fault(
        self,
        k: u32,
        num_proofs: usize,
        recorder: ChallengeRecorder,
        msm: MSM,
    ) -> Option<ExportError> {
        let shape = self.shape(k, num_proofs);
        if self.cs_degree < 2 {
            Some(ExportError::Degree)
        } else if self.chunk_len() == 0 && self.cs.permutation_columns@.len() > 0 {
            Some(ExportError::ZeroChunkLength)
        } else if msm.params.k != k {
            Some(ExportError::ParamsSize)
        } else if msm.params.g@.len() != pow2(k as nat) {
            Some(ExportError::GeneratorCount)
        } else if recorder.common_points@.len() != num_proofs as nat
            * self.cs.num_instance_columns as nat {
            Some(ExportError::CommonPointCount)
        } else if recorder.challenges@.len() != schedule::IPA_ROUND_BASE + k {
            Some(ExportError::ChallengeCount)
        } else if recorder.points@.len() != shape.num_points() {
            Some(ExportError::ReadPointCount)
        } else if recorder.scalars@.len() < shape.min_scalars() {
            Some(ExportError::ReadScalarCount)
        } else {
            None
        }
    }

    /// What is wrong with the order of a transcript.
    pub open spec fn transcript_fault(
        self,
        shape: Shape,
        recorder: ChallengeRecorder,
    ) -> Option<ExportError> {
        if !recorder.consistent() {
            Some(ExportError::EventMismatch)
        } else if !recorder.starts_with_key(self.transcript_repr) {
            Some(ExportError::TranscriptStart)
        } else if !shape.points_pinned(transcript::points_before_squeeze(recorder.events@)) {
            Some(ExportError::PointSchedule)
        } else if !shape.scalars_pinned(
            recorder.scalars@.len(),
            transcript::scalars_before_squeeze(recorder.events@),
        ) {
            Some(ExportError::ScalarSchedule)
        } else {
            None
        }
    }

    /// Whether every queried column has a commitment.
    pub open spec fn columns_committed(self, num_proofs: usize) -> bool {
        &&& num_proofs > 0 ==> slots::columns_below(
            self.cs.instance_queries@,
            self.cs.num_instance_columns as nat,
        )
        &&& num_proofs > 0 ==> slots::columns_below(
            self.cs.advice_queries@,
            self.cs.num_advice_columns as nat,
        )
        &&& slots::columns_below(self.cs.fixed_queries@, self.fixed_commitments@.len())
    }

    /// The commitment slots of the protocol that become terms of the multi-scalar multiplication:
    /// for each proof the queried instance and advice columns, then the queried fixed columns, the
    /// permutation columns, the permutation products, the lookup commitments and products, the
    /// random vanishing commitment, the quotient pieces, the multiopen commitment, and the
    /// commitments of the inner product argument.
    pub open spec fn base_slots(self, shape: Shape, recorder: ChallengeRecorder) -> Seq<EqAffine> {
        let points = recorder.points@;
        slots::proof_slots(
            recorder.common_points@,
            self.cs.num_instance_columns as nat,
            slots::queried_columns(self.cs.instance_queries@),
            schedule::block(points, 0, shape.advice_end()),
            self.cs.num_advice_columns as nat,
            slots::queried_columns(self.cs.advice_queries@),
            shape.num_proofs as nat,
        ) + slots::picked(
            self.fixed_commitments@,
            0,
            slots::queried_columns(self.cs.fixed_queries@),
        ) + self.permutation_commitments@ + schedule::block(
            points,
            shape.lookup_permuted_end(),
            shape.permutation_end(),
        ) + schedule::block(points, shape.advice_end(), shape.lookup_permuted_end())
            + schedule::block(points, shape.permutation_end(), shape.lookup_product_end())
            + schedule::block(points, shape.lookup_product_end(), shape.num_points())
    }

    /// What is wrong with the terms of the captured multi-scalar multiplication.
    pub open spec fn slot_fault(
        self,
        shape: Shape,
        recorder: ChallengeRecorder,
        msm: MSM,
    ) -> Option<ExportError> {
        let base_slots = self.base_slots(shape, recorder);
        if !self.columns_committed(shape.num_proofs) {
            Some(ExportError::QueryColumn)
        } else if !slots::slots_match_bases(base_slots, msm.bases()) {
            Some(ExportError::BaseMismatch)
        } else if base_slots.len() != msm.other@.len() {
            Some(
                ExportError::Collapsed {
                    slots: base_slots.len() as usize,
                    terms: msm.other@.len() as usize,
                },
            )
        } else {
            None
        }
    }

    /// What keeps the circuit from being rendered.
    pub open spec fn circuit_fault(self) -> Option<ExportError> {
        if !circuit::all_selector_free(circuit::gate_polynomials(self.cs.gates@)) {
            Some(ExportError::GateSelector)
        } else if !self.cs.permutation_queried() {
            Some(ExportError::PermutationQuery)
        } else if !circuit::lookups_selector_free(self.cs.lookups@) {
            Some(ExportError::LookupSelector)
        } else {
            None
        }
    }

    /// The first thing that keeps a capture from being exported, if there is any.
    pub open spec fn fault(
        self,
        lean_namespace: Seq<char>,
        circuit_id: Seq<char>,
        k: u32,
        num_proofs: usize,
        recorder: ChallengeRecorder,
        msm: MSM,
    ) -> Option<ExportError> {
        let shape = self.shape(k, num_proofs);
        first_fault(
            name_fault(lean_namespace, circuit_id),
            first_fault(
                msm_fault(msm),
                first_fault(
                    self.size_fault(k, num_proofs, recorder, msm),
                    first_fault(
                        self.transcript_fault(shape, recorder),
                        first_fault(self.slot_fault(shape, recorder, msm), self.circuit_fault()),
                    ),
                ),
            ),
        )
    }
}

/// How many generators parameters of a size have, if that is a machine number.
pub fn generator_count(k: u32) -> (n: Option<u64>)
    ensures
        n is Some <==> k < 64,
        n matches Some(n) ==> n == pow2(k as nat),
        k >= 64 ==> pow2(k as nat) > u64::MAX,
{
    proof {
        lemma2_to64();
        lemma2_to64_rest();
    }
    if k < 64 {
        proof {
            if k < 63 {
                lemma_pow2_strictly_increases(k as nat, 63);
            }
            vstd::bits::lemma_u64_shl_is_mul(1, k as u64);
        }
        Some(1u64 << k)
    } else {
        proof {
            if k > 64 {
                lemma_pow2_strictly_increases(64, k as nat);
            }
        }
        None
    }
}

fn check_names(lean_namespace: &str, circuit_id: &str) -> (r: Option<ExportError>)
    ensures
        r == name_fault(lean_namespace@, circuit_id@),
{
    if !names::is_lean_path(lean_namespace) {
        Some(ExportError::Namespace)
    } else if !names::is_slug(circuit_id) {
        Some(ExportError::CircuitId)
    } else {
        None
    }
}

fn check_msm(msm: &MSM) -> (r: Option<ExportError>)
    ensures
        r == msm_fault(*msm),
{
    if !msm.are_bases_valid() {
        return Some(ExportError::MsmBase);
    }
    if let Some(gs) = &msm.g_scalars {
        if gs.len() != msm.params.g.len() {
            return Some(ExportError::MsmGenerators);
        }
    }
    if !msm.eval() {
        Some(ExportError::NotIdentity)
    } else if msm.g_scalars.is_none() {
        Some(ExportError::NoGeneratorScalars)
    } else if msm.w_scalar.is_none() {
        Some(ExportError::NoBlindingScalar)
    } else if msm.u_scalar.is_none() {
        Some(ExportError::NoIpaScalar)
    } else if !msm.are_bases_distinct() {
        Some(ExportError::RepeatedBase)
    } else {
        None
    }
}

impl VerifyingKey {
    /// The shape of a proof for this key.
    pub fn proof_shape(&self, k: u32, num_proofs: usize) -> (shape: Shape)
        requires
            self.cs_degree >= 2,
        ensures
            shape == self.shape(k, num_proofs),
            shape.num_permutation_sets == circuit::chunk_count(
                self.cs.permutation_columns@.len(),
                self.chunk_len(),
            ),
    {
        let chunk_len: usize = self.cs_degree - 2;
        let total: usize = self.cs.permutation_columns.len();
        let num_permutation_sets: usize = if chunk_len == 0 {
            0
        } else {
            proof {
                lemma_chunk_count(total as int, chunk_len as int);
            }
            if total % chunk_len == 0 {
                total / chunk_len
            } else {
                total / chunk_len + 1
            }
        };
        Shape {
            k,
            num_proofs,
            num_advice_columns: self.cs.num_advice_columns,
            num_lookups: self.cs.lookups.len(),
            num_permutation_sets,
            num_permutation_columns: self.permutation_commitments.len(),
            num_quotient_pieces: self.quotient_poly_degree,
            num_instance_queries: self.cs.instance_queries.len(),
            num_advice_queries: self.cs.advice_queries.len(),
            num_fixed_queries: self.cs.fixed_queries.len(),
        }
    }

    fn check_sizes(
        &self,
        k: u32,
        num_proofs: usize,
        recorder: &ChallengeRecorder,
        msm: &MSM,
    ) -> (r: Option<ExportError>)
        ensures
            r == self.size_fault(k, num_proofs, *recorder, *msm),
    {
        if self.cs_degree < 2 {
            return Some(ExportError::Degree);
        }
        if self.cs_degree == 2 && self.cs.permutation_columns.len() > 0 {
            return Some(ExportError::ZeroChunkLength);
        }
        if msm.params.k != k {
            return Some(ExportError::ParamsSize);
        }
        match generator_count(k) {
            Some(n) => {
                if msm.params.g.len() as u64 != n {
                    return Some(ExportError::GeneratorCount);
                }
            },
            None => {
                assert(msm.params.g@.len() == msm.params.g.len());
                return Some(ExportError::GeneratorCount);
            },
        }
        let common: usize = recorder.common_points.len();
        match num_proofs.checked_mul(self.cs.num_instance_columns) {
            Some(n) => {
                if common != n {
                    return Some(ExportError::CommonPointCount);
                }
            },
            None => {
                return Some(ExportError::CommonPointCount);
            },
        }
        if recorder.challenges.len() as u64 != schedule::IPA_ROUND_BASE as u64 + k as u64 {
            return Some(ExportError::ChallengeCount);
        }
        let shape = self.proof_shape(k, num_proofs);
        let points: usize = recorder.points.len();
        match shape.point_blocks() {
            Some(blocks) => {
                if points != blocks.total {
                    return Some(ExportError::ReadPointCount);
                }
            },
            None => {
                return Some(ExportError::ReadPointCount);
            },
        }
        let scalars: usize = recorder.scalars.len();
        match shape.scalar_blocks() {
            Some(blocks) => {
                if scalars < blocks.least {
                    return Some(ExportError::ReadScalarCount);
                }
            },
            None => {
                return Some(ExportError::ReadScalarCount);
            },
        }
        None
    }

    fn check_transcript(
        &self,
        shape: &Shape,
        recorder: &ChallengeRecorder,
        points: &PointBlocks,
        scalars: &ScalarBlocks,
    ) -> (r: Option<ExportError>)
        requires
            points.of(*shape),
            scalars.of(*shape),
            recorder.challenges@.len() == schedule::IPA_ROUND_BASE + shape.k,
            recorder.scalars@.len() >= shape.min_scalars(),
        ensures
            r == self.transcript_fault(*shape, *recorder),
    {
        if !recorder.is_consistent() {
            return Some(ExportError::EventMismatch);
        }
        if !recorder.is_started_with_key(&self.transcript_repr) {
            return Some(ExportError::TranscriptStart);
        }
        let (points_at, scalars_at) = transcript::reads_before_squeezes(
            recorder.events.as_slice(),
        );
        proof {
            transcript::one_entry_per_squeeze(Seq::empty(), recorder.events@);
            assert(points_at@.len() == transcript::counts(points_at@).len());
            assert(scalars_at@.len() == transcript::counts(scalars_at@).len());
        }
        if !shape.are_points_pinned(points, &points_at) {
            return Some(ExportError::PointSchedule);
        }
        if !shape.are_scalars_pinned(scalars, recorder.scalars.len(), &scalars_at) {
            return Some(ExportError::ScalarSchedule);
        }
        None
    }

    /// The commitment slots of the protocol that become terms of the multi-scalar multiplication.
    pub fn collect_base_slots(
        &self,
        shape: &Shape,
        recorder: &ChallengeRecorder,
        blocks: &PointBlocks,
    ) -> (r: Vec<EqAffine>)
        requires
            blocks.of(*shape),
            shape.num_advice_columns == self.cs.num_advice_columns,
            self.columns_committed(shape.num_proofs),
            recorder.common_points@.len() == shape.num_proofs as nat
                * self.cs.num_instance_columns as nat,
            recorder.points@.len() == shape.num_points(),
        ensures
            r@ == self.base_slots(*shape, *recorder),
    {
        proof {
            schedule::point_blocks_in_order(*shape);
        }
        let points = recorder.points.as_slice();
        let mut r = slots::collect_proof_slots(
            recorder.common_points.as_slice(),
            self.cs.num_instance_columns,
            &self.cs.instance_queries,
            slice_subrange(points, 0, blocks.advice),
            self.cs.num_advice_columns,
            &self.cs.advice_queries,
            shape.num_proofs,
        );
        let fixed = slots::collect_picked(
            self.fixed_commitments.as_slice(),
            &self.cs.fixed_queries,
        );
        r.extend_from_slice(fixed.as_slice());
        r.extend_from_slice(self.permutation_commitments.as_slice());
        r.extend_from_slice(slice_subrange(points, blocks.lookup_permuted, blocks.permutation));
        r.extend_from_slice(slice_subrange(points, blocks.advice, blocks.lookup_permuted));
        r.extend_from_slice(slice_subrange(points, blocks.permutation, blocks.lookup_product));
        r.extend_from_slice(slice_subrange(points, blocks.lookup_product, blocks.total));
        r
    }

    fn check_slots(
        &self,
        shape: &Shape,
        recorder: &ChallengeRecorder,
        msm: &MSM,
        blocks: &PointBlocks,
    ) -> (r: Option<ExportError>)
        requires
            blocks.of(*shape),
            shape.num_advice_columns == self.cs.num_advice_columns,
            recorder.common_points@.len() == shape.num_proofs as nat
                * self.cs.num_instance_columns as nat,
            recorder.points@.len() == shape.num_points(),
            msm.bases_valid(),
        ensures
            r == self.slot_fault(*shape, *recorder, *msm),
    {
        let committed = (shape.num_proofs == 0 || (slots::are_columns_below(
            &self.cs.instance_queries,
            self.cs.num_instance_columns,
        ) && slots::are_columns_below(&self.cs.advice_queries, self.cs.num_advice_columns)))
            && slots::are_columns_below(&self.cs.fixed_queries, self.fixed_commitments.len());
        if !committed {
            return Some(ExportError::QueryColumn);
        }
        let base_slots = self.collect_base_slots(shape, recorder, blocks);
        let bases = msm.base_points();
        if !slots::do_slots_match_bases(&base_slots, &bases) {
            return Some(ExportError::BaseMismatch);
        }
        if base_slots.len() != msm.other.len() {
            return Some(
                ExportError::Collapsed { slots: base_slots.len(), terms: msm.other.len() },
            );
        }
        None
    }

    fn check_circuit(&self) -> (r: Option<ExportError>)
        ensures
            r == self.circuit_fault(),
    {
        if !self.cs.are_gates_selector_free() {
            Some(ExportError::GateSelector)
        } else if !self.cs.is_permutation_queried() {
            Some(ExportError::PermutationQuery)
        } else if !self.cs.are_lookups_selector_free() {
            Some(ExportError::LookupSelector)
        } else {
            None
        }
    }

    /// The first thing that keeps a capture from being exported, if there is any.
    pub fn check_capture(
        &self,
        lean_namespace: &str,
        circuit_id: &str,
        k: u32,
        num_proofs: usize,
        recorder: &ChallengeRecorder,
        captured_msm: &MSM,
    ) -> (r: Option<ExportError>)
        ensures
            r == self.fault(
                lean_namespace@,
                circuit_id@,
                k,
                num_proofs,
                *recorder,
                *captured_msm,
            ),
    {
        let fault = check_names(lean_namespace, circuit_id);
        if fault.is_some() {
            return fault;
        }
        let fault = check_msm(captured_msm);
        if fault.is_some() {
            return fault;
        }
        let fault = self.check_sizes(k, num_proofs, recorder, captured_msm);
        if fault.is_some() {
            return fault;
        }
        let shape = self.proof_shape(k, num_proofs);
        assert(recorder.points@.len() == recorder.points.len());
        assert(recorder.scalars@.len() == recorder.scalars.len());
        let point_blocks = shape.point_blocks().unwrap();
        let scalar_blocks = shape.scalar_blocks().unwrap();
        let fault = self.check_transcript(&shape, recorder, &point_blocks, &scalar_blocks);
        if fault.is_some() {
            return fault;
        }
        let fault = self.check_slots(&shape, recorder, captured_msm, &point_blocks);
        if fault.is_some() {
            return fault;
        }
        self.check_circuit()
    }
}

/// Counting chunks rounds up.
pub(crate) proof fn lemma_chunk_count(total: int, chunk_len: int)
    requires
        total >= 0,
        chunk_len > 0,
    ensures
        (total + chunk_len - 1) / chunk_len == (if total % chunk_len == 0 {
            total / chunk_len
        } else {
            total / chunk_len + 1
        }),
        total / chunk_len <= total,
        total % chunk_len != 0 ==> total / chunk_len < total,
{
    let (q, r) = (total / chunk_len, total % chunk_len);
    assert(total == chunk_len * q + r && 0 <= r < chunk_len) by {
        vstd::arithmetic::div_mod::lemma_fundamental_div_mod(total, chunk_len);
    }
    assert(q >= 0) by (nonlinear_arith)
        requires
            total == chunk_len * q + r,
            0 <= r < chunk_len,
            total >= 0,
    ;
    assert(q <= chunk_len * q) by (nonlinear_arith)
        requires
            q >= 0,
            chunk_len >= 1,
    ;
    assert(chunk_len * q == q * chunk_len) by (nonlinear_arith);
    if r == 0 {
        vstd::arithmetic::div_mod::lemma_fundamental_div_mod_converse(
            total + chunk_len - 1,
            chunk_len,
            q,
            chunk_len - 1,
        );
    } else {
        assert((q + 1) * chunk_len == q * chunk_len + chunk_len) by (nonlinear_arith);
        vstd::arithmetic::div_mod::lemma_fundamental_div_mod_converse(
            total + chunk_len - 1,
            chunk_len,
            q + 1,
            r - 1,
        );
    }
}

impl ExportError {
    /// What the error says.
    pub open spec fn text(self) -> Seq<char> {
        match self {
            ExportError::Namespace => "lean_namespace must be a dot-separated path of ASCII Lean identifiers (letter/underscore start)"@,
            ExportError::CircuitId => "circuit_id must be a non-empty ASCII slug (alphanumeric, `_`, `-`)"@,
            ExportError::MsmBase => "captured MSM base must be a valid affine point"@,
            ExportError::MsmGenerators => "captured MSM must have one coefficient for each generator"@,
            ExportError::NotIdentity => "captured MSM must evaluate to the identity; the emitted fixture proves it"@,
            ExportError::NoGeneratorScalars => "captured MSM must contain verifier-generator coefficients"@,
            ExportError::NoBlindingScalar => "captured MSM must contain a blinding-generator coefficient"@,
            ExportError::NoIpaScalar => "captured MSM must contain an IPA-generator coefficient"@,
            ExportError::RepeatedBase => "captured MSM must have one term for each base"@,
            ExportError::Degree => "constraint system degree is below two"@,
            ExportError::ZeroChunkLength => "permutation columns present but chunk length is zero"@,
            ExportError::ParamsSize => "parameters are for another k"@,
            ExportError::GeneratorCount => "parameters do not hold 2^k generators"@,
            ExportError::CommonPointCount => "unexpected number of instance commitments"@,
            ExportError::ChallengeCount => "unexpected number of challenges"@,
            ExportError::ReadPointCount => "unexpected number of proof points"@,
            ExportError::ReadScalarCount => "too few proof scalars"@,
            ExportError::EventMismatch => "recorded lists disagree with the recorded events"@,
            ExportError::TranscriptStart => "transcript does not start with the key and the instance commitments"@,
            ExportError::PointSchedule => "proof points were not read in the order of the protocol"@,
            ExportError::ScalarSchedule => "proof scalars were not read in the order of the protocol"@,
            ExportError::QueryColumn => "a query names a column without a commitment"@,
            ExportError::BaseMismatch => "exporter's MSM base-slot reconstruction does not match the captured MSM bases; the assumed verifier read/query schedule is stale"@,
            ExportError::Collapsed { slots, terms } => "captured MSM collapsed "@ + text::decimal(
                slots as nat,
            ) + " protocol commitment slots into "@ + text::decimal(terms as nat)
                + " terms by merging same-base terms or dropping identity bases; the Lean assembly does neither, so the emitted `fingerprint_matches` could not hold. Capture a proof whose commitments are all distinct and non-identity."@,
            ExportError::GateSelector => "virtual selectors are removed before verification"@,
            ExportError::PermutationQuery => "a permutation column is not queried at the current row"@,
            ExportError::LookupSelector => "virtual selectors are removed before verification"@,
        }
    }

    /// What the error says.
    pub fn message(&self) -> (s: String)
        ensures
            s@ == self.text(),
    {
        match self {
            ExportError::Namespace => "lean_namespace must be a dot-separated path of ASCII Lean identifiers (letter/underscore start)".to_owned(),
            ExportError::CircuitId => "circuit_id must be a non-empty ASCII slug (alphanumeric, `_`, `-`)".to_owned(),
            ExportError::MsmBase => "captured MSM base must be a valid affine point".to_owned(),
            ExportError::MsmGenerators => "captured MSM must have one coefficient for each generator".to_owned(),
            ExportError::NotIdentity => "captured MSM must evaluate to the identity; the emitted fixture proves it".to_owned(),
            ExportError::NoGeneratorScalars => "captured MSM must contain verifier-generator coefficients".to_owned(),
            ExportError::NoBlindingScalar => "captured MSM must contain a blinding-generator coefficient".to_owned(),
            ExportError::NoIpaScalar => "captured MSM must contain an IPA-generator coefficient".to_owned(),
            ExportError::RepeatedBase => "captured MSM must have one term for each base".to_owned(),
            ExportError::Degree => "constraint system degree is below two".to_owned(),
            ExportError::ZeroChunkLength => "permutation columns present but chunk length is zero".to_owned(),
            ExportError::ParamsSize => "parameters are for another k".to_owned(),
            ExportError::GeneratorCount => "parameters do not hold 2^k generators".to_owned(),
            ExportError::CommonPointCount => "unexpected number of instance commitments".to_owned(),
            ExportError::ChallengeCount => "unexpected number of challenges".to_owned(),
            ExportError::ReadPointCount => "unexpected number of proof points".to_owned(),
            ExportError::ReadScalarCount => "too few proof scalars".to_owned(),
            ExportError::EventMismatch => "recorded lists disagree with the recorded events".to_owned(),
            ExportError::TranscriptStart => "transcript does not start with the key and the instance commitments".to_owned(),
            ExportError::PointSchedule => "proof points were not read in the order of the protocol".to_owned(),
            ExportError::ScalarSchedule => "proof scalars were not read in the order of the protocol".to_owned(),
            ExportError::QueryColumn => "a query names a column without a commitment".to_owned(),
            ExportError::BaseMismatch => "exporter's MSM base-slot reconstruction does not match the captured MSM bases; the assumed verifier read/query schedule is stale".to_owned(),
            ExportError::Collapsed { slots, terms } => {
                let mut s = "captured MSM collapsed ".to_owned();
                s.append(text::number(*slots as u64).as_str());
                s.append(" protocol commitment slots into ");
                s.append(text::number(*terms as u64).as_str());
                s.append(
                    " terms by merging same-base terms or dropping identity bases; the Lean assembly does neither, so the emitted `fingerprint_matches` could not hold. Capture a proof whose commitments are all distinct and non-identity.",
                );
                s
            },
            ExportError::GateSelector => "virtual selectors are removed before verification".to_owned(),
            ExportError::PermutationQuery => "a permutation column is not queried at the current row".to_owned(),
            ExportError::LookupSelector => "virtual selectors are removed before verification".to_owned(),
        }
    }
}

} // verus!
