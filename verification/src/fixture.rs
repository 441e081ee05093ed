//! The Lean fixture of a captured verifier run.

use vstd::arithmetic::power2::*;
use vstd::prelude::*;
use vstd::slice::*;
use vstd::string::*;

use crate::capture;
use crate::capture::Capture;
use crate::circuit;
use crate::curve::EqAffine;
use crate::field;
use crate::field::Fp;
use crate::key;
use crate::key::{ExportError, VerifyingKey};
use crate::msm::MSM;
use crate::points;
use crate::points::PointTable;
use crate::schedule;
use crate::schedule::{PointBlocks, ScalarBlocks, Shape};
use crate::slots;
use crate::text;
use crate::transcript;
use crate::transcript::ChallengeRecorder;

verus! {

/// A Lean list definition: its head up to the opening bracket, and its parts.
pub open spec fn list_def_text(head: Seq<char>, parts: Seq<Seq<char>>) -> Seq<char> {
    head + text::comma_separated(parts) + "]\n\n"@
}

/// The file header: imports, field and point constructors, the circuit id, and the coordinates of
/// all points.
pub open spec fn header_text(
    lean_namespace: Seq<char>,
    circuit_id: Seq<char>,
    table: Seq<EqAffine>,
) -> Seq<char> {
    "-- Auto-generated by halo2 `dump_vesta_lean_fixture`. Do not edit by hand.\nimport Zcash.Snark\n\nset_option maxRecDepth 1000000\n\nnamespace "@
        + lean_namespace
        + "\n\nopen Zcash.Snark\nopen CompElliptic.CurveForms.ShortWeierstrass\nopen CompElliptic.Curves.Pasta\nopen CompElliptic.Fields.Pasta\n\n/-- Scalar field element from four little-endian u64 limbs. -/\ndef mkFp (a b c d : ℕ) : Fp := (a : Fp) + (b : Fp) * (2 : Fp) ^ 64 + (c : Fp) * (2 : Fp) ^ 128 + (d : Fp) * (2 : Fp) ^ 192\n\nabbrev Fq := VestaBaseField\n\n/-- Vesta base field element from four little-endian u64 limbs. -/\ndef mkFq (a b c d : ℕ) : Fq := (a : Fq) + (b : Fq) * (2 : Fq) ^ 64 + (c : Fq) * (2 : Fq) ^ 128 + (d : Fq) * (2 : Fq) ^ 192\n\nabbrev G := VestaG\n\ninstance : Inhabited G := ⟨0⟩\n\ndef capturedCircuitId : String := \""@
        + circuit_id
        + "\"\n\n/-- Canonical affine coordinates for every distinct Vesta point used by this fixture. -/\ndef capturedPointCoordinates : List (Fq × Fq) := ["@
        + text::comma_separated(points::coordinate_texts(table))
        + "]\n\ndef capturedPointCoordinatesValid : Bool :=\n  capturedPointCoordinates.all fun p => decide (OnCurve Vesta.a Vesta.b p) || decide (p = (0, 0))\n\ntheorem capturedPointCoordinatesValid_eq_true : capturedPointCoordinatesValid = true := by native_decide\n\ndef mkVestaPoint (p : Fq × Fq) : G :=\n  if h : OnCurve Vesta.a Vesta.b p then ⟨p.1, p.2, Or.inl h⟩\n  else if h0 : p = (0, 0) then ⟨p.1, p.2, Or.inr h0⟩ else 0\n\ndef capturedPoints : List G := capturedPointCoordinates.map mkVestaPoint\n\ndef capturedPoint (i : ℕ) : G := capturedPoints.getD i 0\n\n"@
}

/// The shape of the proof.
pub open spec fn shape_text(c: Capture) -> Seq<char> {
    let s = c.shape;
    "def shape : Shape := { k := "@ + text::decimal(s.k as nat) + ", numProofs := "@
        + text::decimal(s.num_proofs as nat) + ", numAdviceColumns := "@ + text::decimal(
        s.num_advice_columns as nat,
    ) + ", numLookups := "@ + text::decimal(s.num_lookups as nat) + ", numPermutationSets := "@
        + text::decimal(s.num_permutation_sets as nat) + ", numPermutationColumns := "@
        + text::decimal(s.num_permutation_columns as nat) + ", numQuotientPieces := "@
        + text::decimal(s.num_quotient_pieces as nat) + ", numInstanceQueries := "@
        + text::decimal(s.num_instance_queries as nat) + ", numAdviceQueries := "@
        + text::decimal(s.num_advice_queries as nat) + ", numFixedQueries := "@ + text::decimal(
        s.num_fixed_queries as nat,
    ) + ", numPointSets := "@ + text::decimal(c.num_point_sets()) + " }\n\n"@
}

/// The generators of the parameters, and the scalar that stands for the key.
pub open spec fn urs_text(c: Capture, t: Seq<EqAffine>) -> Seq<char> {
    "def capturedUrsG : List G := ["@ + text::comma_separated(
        points::ref_texts(t, c.msm.params.g@),
    ) + "]\n\ndef capturedURS : URS G := { k := "@ + text::decimal(c.shape.k as nat)
        + ", g := fun i => capturedUrsG.getD i.val 0, w := "@ + points::ref_text(
        t,
        c.msm.params.w,
    ) + ", u := "@ + points::ref_text(t, c.msm.params.u)
        + " }\n\n/-- The captured URS lists exactly the `2 ^ k` generators the MSM evaluates\nagainst, so `capturedURS.g`'s `getD` never substitutes the identity for a\nmissing generator. -/\ntheorem capturedUrsG_length : capturedUrsG.length = 2 ^ shape.k := by native_decide\n\ndef capturedVkTranscriptRepr : Fp := "@
        + field::fp_text(c.key.transcript_repr) + "\n\n"@
}

/// The commitments of the key and of the instances.
pub open spec fn commitments_text(c: Capture, t: Seq<EqAffine>) -> Seq<char> {
    "def capturedNumInstanceColumns : ℕ := "@ + text::decimal(
        c.key.cs.num_instance_columns as nat,
    ) + "\n\ndef capturedFixedCommitments : List G := ["@ + text::comma_separated(
        points::ref_texts(t, c.key.fixed_commitments@),
    ) + "]\n\ndef capturedInstanceCommitments : List G := ["@ + text::comma_separated(
        points::ref_texts(t, c.recorder.common_points@),
    ) + "]\n\ndef capturedPermutationCommonCommitments : List G := ["@ + text::comma_separated(
        points::ref_texts(t, c.key.permutation_commitments@),
    ) + "]\n\n"@
}

/// The verifying key.
pub open spec fn key_text(c: Capture) -> Seq<char> {
    let cs = c.key.cs;
    "def vk : VerifyingKey shape Fp G := {\n  omega := "@ + field::fp_text(c.key.omega)
        + ",\n  n := "@ + text::decimal(pow2(c.shape.k as nat)) + ",\n  blindingFactors := "@
        + text::decimal(cs.blinding_factors as nat) + ",\n  delta := "@ + field::field_text(
        "mkFp"@,
        field::delta_value(),
    ) + ",\n  chunkLen := "@ + text::decimal(c.key.chunk_len()) + ",\n  gates := ["@
        + text::comma_separated(circuit::expr_texts(circuit::gate_polynomials(cs.gates@)))
        + "],\n  instanceQueryLayout := ["@ + text::comma_separated(
        circuit::layout_texts(cs.instance_queries@),
    ) + "],\n  adviceQueryLayout := ["@ + text::comma_separated(
        circuit::layout_texts(cs.advice_queries@),
    ) + "],\n  fixedQueryLayout := ["@ + text::comma_separated(
        circuit::layout_texts(cs.fixed_queries@),
    )
        + "],\n  fixedCommitment := fun i => capturedFixedCommitments.getD i 0,\n  instanceCommitment := fun p i => capturedInstanceCommitments.getD (p.val * capturedNumInstanceColumns + i) 0,\n  permutationCommonCommitment := fun i => capturedPermutationCommonCommitments.getD i.val 0,\n  permutationChunks := ["@
        + text::comma_separated(cs.permutation_chunks(c.key.chunk_len(), 0))
        + "],\n  lookupInputExprs := fun l => (["@ + text::comma_separated(
        circuit::lookup_input_texts(cs.lookups@),
    ) + "] : List (List (Expr Fp))).getD l.val [],\n  lookupTableExprs := fun l => (["@
        + text::comma_separated(circuit::lookup_table_texts(cs.lookups@))
        + "] : List (List (Expr Fp))).getD l.val [] }\n\n"@
}

/// The lists of the points of the proof.
pub open spec fn proof_points_text(c: Capture, t: Seq<EqAffine>) -> Seq<char> {
    list_def_text(
        "def capturedAdviceCommitments : List G := ["@,
        points::ref_texts(t, c.advice()),
    ) + list_def_text(
        "def capturedLookupPermutedInput : List G := ["@,
        points::ref_texts(t, capture::pair_firsts(c.lookup_permuted(), c.all_lookups())),
    ) + list_def_text(
        "def capturedLookupPermutedTable : List G := ["@,
        points::ref_texts(t, capture::pair_seconds(c.lookup_permuted(), c.all_lookups())),
    ) + list_def_text(
        "def capturedPermutationProducts : List G := ["@,
        points::ref_texts(t, c.permutation_products()),
    ) + list_def_text(
        "def capturedLookupProducts : List G := ["@,
        points::ref_texts(t, c.lookup_products()),
    ) + list_def_text(
        "def capturedHPieces : List G := ["@,
        points::ref_texts(t, c.quotient_pieces()),
    )
}

/// The lists of the evaluations of columns.
pub open spec fn column_evals_text(c: Capture) -> Seq<char> {
    let s = c.shape;
    list_def_text(
        "def capturedInstanceEvals : List Fp := ["@,
        field::fp_texts(c.scalars(0, s.instance_eval_end())),
    ) + list_def_text(
        "def capturedAdviceEvals : List Fp := ["@,
        field::fp_texts(c.scalars(s.instance_eval_end(), s.advice_eval_end())),
    ) + list_def_text(
        "def capturedFixedEvals : List Fp := ["@,
        field::fp_texts(c.scalars(s.advice_eval_end(), s.fixed_eval_end())),
    ) + list_def_text(
        "def capturedPermutationCommonEvals : List Fp := ["@,
        field::fp_texts(c.scalars(s.vanishing_eval_end(), s.permutation_common_end())),
    )
}

/// The list of the evaluations of the permutation sets.
pub open spec fn set_evals_text(c: Capture) -> Seq<char> {
    let s = c.shape;
    list_def_text(
        "def capturedPermutationSetEvals : List (PermSetEval Fp) := ["@,
        capture::set_eval_texts(
            c.scalars(s.permutation_common_end(), s.permutation_set_end()),
            s.num_permutation_sets as nat,
            s.set_evals(),
            s.num_proofs as nat,
        ),
    )
}

/// The list of the evaluations of the lookups.
pub open spec fn lookup_evals_text(c: Capture) -> Seq<char> {
    let s = c.shape;
    list_def_text(
        "def capturedLookupEvals : List (LookupEval Fp) := ["@,
        capture::lookup_eval_texts(
            c.scalars(s.permutation_set_end(), s.lookup_eval_end()),
            c.all_lookups(),
        ),
    )
}

/// The evaluations of the multiopen argument, and the rounds of the inner product argument.
pub open spec fn multiopen_text(c: Capture, t: Seq<EqAffine>) -> Seq<char> {
    let s = c.shape;
    list_def_text(
        "def capturedMultiopenU : List Fp := ["@,
        field::fp_texts(c.scalars(s.lookup_eval_end(), c.multiopen_scalars_end())),
    ) + list_def_text(
        "def capturedIpaRounds : List (G × G) := ["@,
        capture::pair_texts(t, c.ipa_rounds(), s.k as nat),
    )
}

/// The proof string, over the lists of its points and scalars.
pub open spec fn proof_text(c: Capture, t: Seq<EqAffine>) -> Seq<char> {
    let s = c.shape;
    let scalars = c.recorder.scalars@;
    "def ps : ProofString shape Fp G := {\n  adviceCommitments := fun p c => capturedAdviceCommitments.getD (p.val * "@
        + text::decimal(s.num_advice_columns as nat)
        + " + c.val) 0,\n  lookupPermutedInput := fun p l => capturedLookupPermutedInput.getD (p.val * "@
        + text::decimal(s.num_lookups as nat)
        + " + l.val) 0,\n  lookupPermutedTable := fun p l => capturedLookupPermutedTable.getD (p.val * "@
        + text::decimal(s.num_lookups as nat)
        + " + l.val) 0,\n  permutationProduct := fun p s => capturedPermutationProducts.getD (p.val * "@
        + text::decimal(s.num_permutation_sets as nat)
        + " + s.val) 0,\n  lookupProduct := fun p l => capturedLookupProducts.getD (p.val * "@
        + text::decimal(s.num_lookups as nat) + " + l.val) 0,\n  vanishingRandom := "@
        + points::ref_text(t, c.vanishing_random())
        + ",\n  hPieces := fun i => capturedHPieces.getD i.val 0,\n  instanceEvals := fun p q => capturedInstanceEvals.getD (p.val * "@
        + text::decimal(s.num_instance_queries as nat)
        + " + q.val) 0,\n  adviceEvals := fun p q => capturedAdviceEvals.getD (p.val * "@
        + text::decimal(s.num_advice_queries as nat)
        + " + q.val) 0,\n  fixedEvals := fun q => capturedFixedEvals.getD q.val 0,\n  vanishingRandomEval := "@
        + field::fp_text(scalars[s.fixed_eval_end() as int])
        + ",\n  permutationCommonEvals := fun i => capturedPermutationCommonEvals.getD i.val 0,\n  permutationSetEvals := fun p s => capturedPermutationSetEvals.getD (p.val * "@
        + text::decimal(s.num_permutation_sets as nat)
        + " + s.val) { eval := 0, nextEval := 0, lastEval := none },\n  lookupEvals := fun p l => capturedLookupEvals.getD (p.val * "@
        + text::decimal(s.num_lookups as nat)
        + " + l.val) { productEval := 0, productNextEval := 0, permutedInputEval := 0, permutedInputInvEval := 0, permutedTableEval := 0 },\n  multiopenQPrime := "@
        + points::ref_text(t, c.q_prime())
        + ",\n  multiopenU := fun s => capturedMultiopenU.getD s.val 0,\n  ipaS := "@
        + points::ref_text(t, c.ipa_s())
        + ",\n  ipaRounds := fun j => capturedIpaRounds.getD j.val (0, 0),\n  ipaC := "@
        + field::fp_text(scalars[scalars.len() - 2]) + ",\n  ipaF := "@ + field::fp_text(
        scalars[scalars.len() - 1],
    ) + " }\n\n"@
}

/// The challenges.
pub open spec fn challenges_text(challenges: Seq<Fp>) -> Seq<char> {
    "def ch : Challenges shape.k Fp := {\n  theta := "@ + field::fp_text(
        challenges[schedule::THETA as int],
    ) + ", beta := "@ + field::fp_text(challenges[schedule::BETA as int]) + ", gamma := "@
        + field::fp_text(challenges[schedule::GAMMA as int]) + ", y := "@ + field::fp_text(
        challenges[schedule::Y as int],
    ) + ", x := "@ + field::fp_text(challenges[schedule::X as int]) + ",\n  x1 := "@
        + field::fp_text(challenges[schedule::X1 as int]) + ", x2 := "@ + field::fp_text(
        challenges[schedule::X2 as int],
    ) + ", x3 := "@ + field::fp_text(challenges[schedule::X3 as int]) + ", x4 := "@
        + field::fp_text(challenges[schedule::X4 as int]) + ",\n  xi := "@ + field::fp_text(
        challenges[schedule::XI as int],
    ) + ", z := "@ + field::fp_text(challenges[schedule::Z as int])
        + ",\n  ipaRound := fun j => (["@ + text::comma_separated(
        field::fp_texts(challenges.skip(schedule::IPA_ROUND_BASE as int)),
    ) + "] : List Fp).getD j.val 0 }\n\n"@
}

/// The captured transcript prefix and schedule.
pub open spec fn transcript_text(c: Capture, t: Seq<EqAffine>) -> Seq<char> {
    let events = c.recorder.events@;
    "/-- Captured verifier Fiat-Shamir prefix before the proof-derived transcript suffix.\nGenerated from `ChallengeRecorder`'s verification-key and instance absorb events. -/\ndef capturedInit : List (TranscriptElt Fp G) :=\n  ["@
        + text::comma_separated(
        transcript::elt_texts(
            t,
            transcript::first_events(events, 1 + c.recorder.common_points@.len()),
        ),
    )
        + "]\n\ntheorem capturedInit_startsWith_vkTranscriptRepr :\n    capturedInit.head? = some (TranscriptElt.scalar capturedVkTranscriptRepr) := by native_decide\n\n/-- Captured verifier Fiat-Shamir schedule, including the captured prefix.\nGenerated from `ChallengeRecorder`'s ordered absorb/squeeze events. After each\nsqueeze the captured challenge is appended as an abstract separator (mirroring\n`deriveChallenges`); the deployed Blake2b transcript uses a domain-prefix byte. -/\ndef capturedScheduleEntries : List (List (TranscriptElt Fp G) × Fp) :=\n  ["@
        + text::comma_separated(transcript::schedule_texts(t, events)) + "]\n\n"@
}

/// The Lean pairs of the further terms of the captured multi-scalar multiplication.
pub open spec fn term_texts(msm: MSM, t: Seq<EqAffine>) -> Seq<Seq<char>> {
    Seq::new(
        msm.other@.len(),
        |i: int|
            "("@ + field::fp_text(msm.other@[i].0) + ", "@ + points::ref_text(t, msm.base(i))
                + ")"@,
    )
}

/// The captured multi-scalar multiplication.
pub open spec fn msm_text(msm: MSM, t: Seq<EqAffine>) -> Seq<char> {
    "def capturedMsm : Msm shape.k Fp G := {\n  gScalars := fun i => (#["@ + text::comma_separated(
        field::fp_texts(msm.g_scalars->0@),
    ) + "] : Array Fp)[i.val]!,\n  wScalar := "@ + field::fp_text(msm.w_scalar->0)
        + ",\n  uScalar := "@ + field::fp_text(msm.u_scalar->0) + ",\n  other := ["@
        + text::comma_separated(term_texts(msm, t)) + "] }\n\n"@
}

/// The theorems of the fixture, and the end of its namespace.
pub open spec fn theorems_text(lean_namespace: Seq<char>) -> Seq<char> {
    "theorem fingerprint_matches : MsmMatch (assemble vk ps ch) capturedMsm := by native_decide\n\ntheorem capturedMsm_eval_eq_zero : capturedMsm.evalNat capturedURS = 0 := by native_decide\n\n/-- Meaningful jointly with `fingerprint_matches`: `assemble`'s zero-MSM rejection\nfallback also evaluates to zero, so this statement alone is not acceptance. -/\ntheorem assembledMsm_eval_eq_zero : (assemble vk ps ch).evalNat capturedURS = 0 := by\n  rw [msmMatch_evalNat capturedURS fingerprint_matches]\n  exact capturedMsm_eval_eq_zero\n\nend "@
        + lean_namespace + "\n"@
}

/// The whole fixture of a capture.
pub open spec fn fixture_text(
    lean_namespace: Seq<char>,
    circuit_id: Seq<char>,
    c: Capture,
) -> Seq<char> {
    let t = c.table();
    header_text(lean_namespace, circuit_id, t) + shape_text(c) + urs_text(c, t)
        + commitments_text(c, t) + key_text(c) + proof_points_text(c, t) + column_evals_text(c)
        + set_evals_text(c) + lookup_evals_text(c) + multiopen_text(c, t) + proof_text(c, t)
        + challenges_text(c.recorder.challenges@) + transcript_text(c, t) + msm_text(*c.msm, t)
        + theorems_text(lean_namespace)
}

fn list_def(head: &str, parts: &Vec<String>) -> (s: String)
    ensures
        s@ == list_def_text(head@, text::contents(parts@)),
{
    let mut s = head.to_owned();
    s.append(text::join(parts.as_slice()).as_str());
    s.append("]\n\n");
    s
}

fn scalar_list_def(head: &str, scalars: &[Fp]) -> (s: String)
    ensures
        s@ == list_def_text(head@, field::fp_texts(scalars@)),
{
    let mut s = head.to_owned();
    s.append(field::join_fps(scalars).as_str());
    s.append("]\n\n");
    s
}

fn header(lean_namespace: &str, circuit_id: &str, table: &PointTable) -> (s: String)
    ensures
        s@ == header_text(lean_namespace@, circuit_id@, table@),
        points::all_on_curve(table@),
{
    let coordinates = table.coordinate_literals();
    let mut s = "-- Auto-generated by halo2 `dump_vesta_lean_fixture`. Do not edit by hand.\nimport Zcash.Snark\n\nset_option maxRecDepth 1000000\n\nnamespace ".to_owned();
    s.append(lean_namespace);
    s.append("\n\nopen Zcash.Snark\nopen CompElliptic.CurveForms.ShortWeierstrass\nopen CompElliptic.Curves.Pasta\nopen CompElliptic.Fields.Pasta\n\n/-- Scalar field element from four little-endian u64 limbs. -/\ndef mkFp (a b c d : ℕ) : Fp := (a : Fp) + (b : Fp) * (2 : Fp) ^ 64 + (c : Fp) * (2 : Fp) ^ 128 + (d : Fp) * (2 : Fp) ^ 192\n\nabbrev Fq := VestaBaseField\n\n/-- Vesta base field element from four little-endian u64 limbs. -/\ndef mkFq (a b c d : ℕ) : Fq := (a : Fq) + (b : Fq) * (2 : Fq) ^ 64 + (c : Fq) * (2 : Fq) ^ 128 + (d : Fq) * (2 : Fq) ^ 192\n\nabbrev G := VestaG\n\ninstance : Inhabited G := ⟨0⟩\n\ndef capturedCircuitId : String := \"");
    s.append(circuit_id);
    s.append("\"\n\n/-- Canonical affine coordinates for every distinct Vesta point used by this fixture. -/\ndef capturedPointCoordinates : List (Fq × Fq) := [");
    s.append(text::join(coordinates.as_slice()).as_str());
    s.append("]\n\ndef capturedPointCoordinatesValid : Bool :=\n  capturedPointCoordinates.all fun p => decide (OnCurve Vesta.a Vesta.b p) || decide (p = (0, 0))\n\ntheorem capturedPointCoordinatesValid_eq_true : capturedPointCoordinatesValid = true := by native_decide\n\ndef mkVestaPoint (p : Fq × Fq) : G :=\n  if h : OnCurve Vesta.a Vesta.b p then ⟨p.1, p.2, Or.inl h⟩\n  else if h0 : p = (0, 0) then ⟨p.1, p.2, Or.inr h0⟩ else 0\n\ndef capturedPoints : List G := capturedPointCoordinates.map mkVestaPoint\n\ndef capturedPoint (i : ℕ) : G := capturedPoints.getD i 0\n\n");
    s
}

fn shape_def(c: &Capture) -> (s: String)
    requires
        c.wf(),
    ensures
        s@ == shape_text(*c),
{
    let shape = c.shape;
    let scalars: usize = c.recorder.scalars.len();
    let blocks = shape.scalar_blocks().unwrap();
    let point_sets: usize = scalars - 2 - blocks.lookup;
    let mut s = "def shape : Shape := { k := ".to_owned();
    s.append(text::number(shape.k as u64).as_str());
    s.append(", numProofs := ");
    s.append(text::number(shape.num_proofs as u64).as_str());
    s.append(", numAdviceColumns := ");
    s.append(text::number(shape.num_advice_columns as u64).as_str());
    s.append(", numLookups := ");
    s.append(text::number(shape.num_lookups as u64).as_str());
    s.append(", numPermutationSets := ");
    s.append(text::number(shape.num_permutation_sets as u64).as_str());
    s.append(", numPermutationColumns := ");
    s.append(text::number(shape.num_permutation_columns as u64).as_str());
    s.append(", numQuotientPieces := ");
    s.append(text::number(shape.num_quotient_pieces as u64).as_str());
    s.append(", numInstanceQueries := ");
    s.append(text::number(shape.num_instance_queries as u64).as_str());
    s.append(", numAdviceQueries := ");
    s.append(text::number(shape.num_advice_queries as u64).as_str());
    s.append(", numFixedQueries := ");
    s.append(text::number(shape.num_fixed_queries as u64).as_str());
    s.append(", numPointSets := ");
    s.append(text::number(point_sets as u64).as_str());
    s.append(" }\n\n");
    s
}

fn urs_defs(c: &Capture, table: &PointTable) -> (s: String)
    requires
        table.wf(),
        c.covered_by(table@),
    ensures
        s@ == urs_text(*c, table@),
{
    let generators = table.known_refs(c.msm.params.g.as_slice());
    let mut s = "def capturedUrsG : List G := [".to_owned();
    s.append(text::join(generators.as_slice()).as_str());
    s.append("]\n\ndef capturedURS : URS G := { k := ");
    s.append(text::number(c.shape.k as u64).as_str());
    s.append(", g := fun i => capturedUrsG.getD i.val 0, w := ");
    s.append(table.known_ref(c.msm.params.w).as_str());
    s.append(", u := ");
    s.append(table.known_ref(c.msm.params.u).as_str());
    s.append(" }\n\n/-- The captured URS lists exactly the `2 ^ k` generators the MSM evaluates\nagainst, so `capturedURS.g`'s `getD` never substitutes the identity for a\nmissing generator. -/\ntheorem capturedUrsG_length : capturedUrsG.length = 2 ^ shape.k := by native_decide\n\ndef capturedVkTranscriptRepr : Fp := ");
    s.append(field::fp(c.key.transcript_repr).as_str());
    s.append("\n\n");
    s
}

fn commitment_defs(c: &Capture, table: &PointTable) -> (s: String)
    requires
        table.wf(),
        c.covered_by(table@),
    ensures
        s@ == commitments_text(*c, table@),
{
    let fixed = table.known_refs(c.key.fixed_commitments.as_slice());
    let instance = table.known_refs(c.recorder.common_points.as_slice());
    let permutation = table.known_refs(c.key.permutation_commitments.as_slice());
    let mut s = "def capturedNumInstanceColumns : ℕ := ".to_owned();
    s.append(text::number(c.key.cs.num_instance_columns as u64).as_str());
    s.append("\n\ndef capturedFixedCommitments : List G := [");
    s.append(text::join(fixed.as_slice()).as_str());
    s.append("]\n\ndef capturedInstanceCommitments : List G := [");
    s.append(text::join(instance.as_slice()).as_str());
    s.append("]\n\ndef capturedPermutationCommonCommitments : List G := [");
    s.append(text::join(permutation.as_slice()).as_str());
    s.append("]\n\n");
    s
}

fn key_def(c: &Capture) -> (s: String)
    requires
        c.wf(),
    ensures
        s@ == key_text(*c),
{
    let cs = &c.key.cs;
    let n: u64 = key::generator_count(c.shape.k).unwrap();
    let chunk_len: usize = c.key.cs_degree - 2;
    let gates = cs.gate_literals();
    let instance_layout = circuit::layout_literals(&cs.instance_queries);
    let advice_layout = circuit::layout_literals(&cs.advice_queries);
    let fixed_layout = circuit::layout_literals(&cs.fixed_queries);
    let chunks = cs.permutation_chunk_literals(chunk_len);
    let lookup_inputs = cs.lookup_input_literals();
    let lookup_tables = cs.lookup_table_literals();
    let mut s = "def vk : VerifyingKey shape Fp G := {\n  omega := ".to_owned();
    s.append(field::fp(c.key.omega).as_str());
    s.append(",\n  n := ");
    s.append(text::number(n).as_str());
    s.append(",\n  blindingFactors := ");
    s.append(text::number(cs.blinding_factors as u64).as_str());
    s.append(",\n  delta := ");
    s.append(field::fp(Fp::delta()).as_str());
    s.append(",\n  chunkLen := ");
    s.append(text::number(chunk_len as u64).as_str());
    s.append(",\n  gates := [");
    s.append(text::join(gates.as_slice()).as_str());
    s.append("],\n  instanceQueryLayout := [");
    s.append(text::join(instance_layout.as_slice()).as_str());
    s.append("],\n  adviceQueryLayout := [");
    s.append(text::join(advice_layout.as_slice()).as_str());
    s.append("],\n  fixedQueryLayout := [");
    s.append(text::join(fixed_layout.as_slice()).as_str());
    s.append("],\n  fixedCommitment := fun i => capturedFixedCommitments.getD i 0,\n  instanceCommitment := fun p i => capturedInstanceCommitments.getD (p.val * capturedNumInstanceColumns + i) 0,\n  permutationCommonCommitment := fun i => capturedPermutationCommonCommitments.getD i.val 0,\n  permutationChunks := [");
    s.append(text::join(chunks.as_slice()).as_str());
    s.append("],\n  lookupInputExprs := fun l => ([");
    s.append(text::join(lookup_inputs.as_slice()).as_str());
    s.append("] : List (List (Expr Fp))).getD l.val [],\n  lookupTableExprs := fun l => ([");
    s.append(text::join(lookup_tables.as_slice()).as_str());
    s.append("] : List (List (Expr Fp))).getD l.val [] }\n\n");
    s
}

fn proof_point_defs(c: &Capture, table: &PointTable, blocks: &PointBlocks) -> (s: String)
    requires
        c.wf(),
        blocks.of(c.shape),
        table.wf(),
        c.covered_by(table@),
    ensures
        s@ == proof_points_text(*c, table@),
{
    proof {
        schedule::point_blocks_in_order(c.shape);
    }
    let points = c.recorder.points.as_slice();
    let lookup_permuted = slice_subrange(points, blocks.advice, blocks.lookup_permuted);
    let lookups: usize = lookup_permuted.len() / 2;
    let inputs = capture::collect_firsts(lookup_permuted, lookups);
    let tables = capture::collect_seconds(lookup_permuted, lookups);
    let mut s = list_def(
        "def capturedAdviceCommitments : List G := [",
        &table.known_refs(slice_subrange(points, 0, blocks.advice)),
    );
    s.append(
        list_def(
            "def capturedLookupPermutedInput : List G := [",
            &table.known_refs(inputs.as_slice()),
        ).as_str(),
    );
    s.append(
        list_def(
            "def capturedLookupPermutedTable : List G := [",
            &table.known_refs(tables.as_slice()),
        ).as_str(),
    );
    s.append(
        list_def(
            "def capturedPermutationProducts : List G := [",
            &table.known_refs(slice_subrange(points, blocks.lookup_permuted, blocks.permutation)),
        ).as_str(),
    );
    s.append(
        list_def(
            "def capturedLookupProducts : List G := [",
            &table.known_refs(slice_subrange(points, blocks.permutation, blocks.lookup_product)),
        ).as_str(),
    );
    s.append(
        list_def(
            "def capturedHPieces : List G := [",
            &table.known_refs(slice_subrange(points, blocks.vanishing, blocks.quotient)),
        ).as_str(),
    );
    s
}

fn column_eval_defs(c: &Capture, evals: &ScalarBlocks) -> (s: String)
    requires
        c.wf(),
        evals.of(c.shape),
    ensures
        s@ == column_evals_text(*c),
{
    proof {
        schedule::scalar_blocks_in_order(c.shape);
    }
    let scalars = c.recorder.scalars.as_slice();
    let mut s = scalar_list_def(
        "def capturedInstanceEvals : List Fp := [",
        slice_subrange(scalars, 0, evals.instance),
    );
    s.append(
        scalar_list_def(
            "def capturedAdviceEvals : List Fp := [",
            slice_subrange(scalars, evals.instance, evals.advice),
        ).as_str(),
    );
    s.append(
        scalar_list_def(
            "def capturedFixedEvals : List Fp := [",
            slice_subrange(scalars, evals.advice, evals.fixed),
        ).as_str(),
    );
    s.append(
        scalar_list_def(
            "def capturedPermutationCommonEvals : List Fp := [",
            slice_subrange(scalars, evals.vanishing, evals.permutation_common),
        ).as_str(),
    );
    s
}

fn set_eval_def(c: &Capture, evals: &ScalarBlocks) -> (s: String)
    requires
        c.wf(),
        evals.of(c.shape),
    ensures
        s@ == set_evals_text(*c),
{
    proof {
        schedule::scalar_blocks_in_order(c.shape);
    }
    let scalars = c.recorder.scalars.as_slice();
    let set_evals = slice_subrange(scalars, evals.permutation_common, evals.permutation_set);
    let sets = capture::set_eval_literals(set_evals, &c.shape);
    list_def("def capturedPermutationSetEvals : List (PermSetEval Fp) := [", &sets)
}

fn lookup_eval_def(c: &Capture, evals: &ScalarBlocks) -> (s: String)
    requires
        c.wf(),
        evals.of(c.shape),
    ensures
        s@ == lookup_evals_text(*c),
{
    proof {
        schedule::scalar_blocks_in_order(c.shape);
    }
    let scalars = c.recorder.scalars.as_slice();
    let lookup_evals = slice_subrange(scalars, evals.permutation_set, evals.lookup);
    let n: usize = lookup_evals.len() / 5;
    assert(n == c.all_lookups());
    let lookups = capture::lookup_eval_literals(lookup_evals, n);
    list_def("def capturedLookupEvals : List (LookupEval Fp) := [", &lookups)
}

fn multiopen_defs(
    c: &Capture,
    table: &PointTable,
    blocks: &PointBlocks,
    evals: &ScalarBlocks,
) -> (s: String)
    requires
        c.wf(),
        blocks.of(c.shape),
        evals.of(c.shape),
        table.wf(),
        c.covered_by(table@),
    ensures
        s@ == multiopen_text(*c, table@),
{
    proof {
        schedule::point_blocks_in_order(c.shape);
        schedule::scalar_blocks_in_order(c.shape);
    }
    let points = c.recorder.points.as_slice();
    let scalars = c.recorder.scalars.as_slice();
    let multiopen_end: usize = scalars.len() - 2;
    let round_points = slice_subrange(points, blocks.ipa_blind, blocks.total);
    let rounds = capture::pair_literals(table, round_points, c.shape.k as usize);
    let multiopen = slice_subrange(scalars, evals.lookup, multiopen_end);
    let mut s = scalar_list_def("def capturedMultiopenU : List Fp := [", multiopen);
    s.append(list_def("def capturedIpaRounds : List (G × G) := [", &rounds).as_str());
    s
}

fn proof_def(
    c: &Capture,
    table: &PointTable,
    blocks: &PointBlocks,
    evals: &ScalarBlocks,
) -> (s: String)
    requires
        c.wf(),
        blocks.of(c.shape),
        evals.of(c.shape),
        table.wf(),
        c.covered_by(table@),
    ensures
        s@ == proof_text(*c, table@),
{
    proof {
        schedule::point_blocks_in_order(c.shape);
        schedule::scalar_blocks_in_order(c.shape);
    }
    let shape = c.shape;
    let points = c.recorder.points.as_slice();
    let scalars = c.recorder.scalars.as_slice();
    let last: usize = scalars.len() - 1;
    let mut s = "def ps : ProofString shape Fp G := {\n  adviceCommitments := fun p c => capturedAdviceCommitments.getD (p.val * ".to_owned();
    s.append(text::number(shape.num_advice_columns as u64).as_str());
    s.append(" + c.val) 0,\n  lookupPermutedInput := fun p l => capturedLookupPermutedInput.getD (p.val * ");
    s.append(text::number(shape.num_lookups as u64).as_str());
    s.append(" + l.val) 0,\n  lookupPermutedTable := fun p l => capturedLookupPermutedTable.getD (p.val * ");
    s.append(text::number(shape.num_lookups as u64).as_str());
    s.append(" + l.val) 0,\n  permutationProduct := fun p s => capturedPermutationProducts.getD (p.val * ");
    s.append(text::number(shape.num_permutation_sets as u64).as_str());
    s.append(" + s.val) 0,\n  lookupProduct := fun p l => capturedLookupProducts.getD (p.val * ");
    s.append(text::number(shape.num_lookups as u64).as_str());
    s.append(" + l.val) 0,\n  vanishingRandom := ");
    s.append(table.known_ref(points[blocks.lookup_product]).as_str());
    s.append(",\n  hPieces := fun i => capturedHPieces.getD i.val 0,\n  instanceEvals := fun p q => capturedInstanceEvals.getD (p.val * ");
    s.append(text::number(shape.num_instance_queries as u64).as_str());
    s.append(" + q.val) 0,\n  adviceEvals := fun p q => capturedAdviceEvals.getD (p.val * ");
    s.append(text::number(shape.num_advice_queries as u64).as_str());
    s.append(" + q.val) 0,\n  fixedEvals := fun q => capturedFixedEvals.getD q.val 0,\n  vanishingRandomEval := ");
    s.append(field::fp(scalars[evals.fixed]).as_str());
    s.append(",\n  permutationCommonEvals := fun i => capturedPermutationCommonEvals.getD i.val 0,\n  permutationSetEvals := fun p s => capturedPermutationSetEvals.getD (p.val * ");
    s.append(text::number(shape.num_permutation_sets as u64).as_str());
    s.append(" + s.val) { eval := 0, nextEval := 0, lastEval := none },\n  lookupEvals := fun p l => capturedLookupEvals.getD (p.val * ");
    s.append(text::number(shape.num_lookups as u64).as_str());
    s.append(" + l.val) { productEval := 0, productNextEval := 0, permutedInputEval := 0, permutedInputInvEval := 0, permutedTableEval := 0 },\n  multiopenQPrime := ");
    s.append(table.known_ref(points[blocks.quotient]).as_str());
    s.append(",\n  multiopenU := fun s => capturedMultiopenU.getD s.val 0,\n  ipaS := ");
    s.append(table.known_ref(points[blocks.multiopen]).as_str());
    s.append(",\n  ipaRounds := fun j => capturedIpaRounds.getD j.val (0, 0),\n  ipaC := ");
    s.append(field::fp(scalars[last - 1]).as_str());
    s.append(",\n  ipaF := ");
    s.append(field::fp(scalars[last]).as_str());
    s.append(" }\n\n");
    s
}

fn challenge_def(challenges: &[Fp]) -> (s: String)
    requires
        challenges@.len() >= schedule::IPA_ROUND_BASE,
    ensures
        s@ == challenges_text(challenges@),
{
    let rounds = slice_subrange(challenges, schedule::IPA_ROUND_BASE, challenges.len());
    assert(rounds@ =~= challenges@.skip(schedule::IPA_ROUND_BASE as int));
    let mut s = "def ch : Challenges shape.k Fp := {\n  theta := ".to_owned();
    s.append(field::fp(challenges[schedule::THETA]).as_str());
    s.append(", beta := ");
    s.append(field::fp(challenges[schedule::BETA]).as_str());
    s.append(", gamma := ");
    s.append(field::fp(challenges[schedule::GAMMA]).as_str());
    s.append(", y := ");
    s.append(field::fp(challenges[schedule::Y]).as_str());
    s.append(", x := ");
    s.append(field::fp(challenges[schedule::X]).as_str());
    s.append(",\n  x1 := ");
    s.append(field::fp(challenges[schedule::X1]).as_str());
    s.append(", x2 := ");
    s.append(field::fp(challenges[schedule::X2]).as_str());
    s.append(", x3 := ");
    s.append(field::fp(challenges[schedule::X3]).as_str());
    s.append(", x4 := ");
    s.append(field::fp(challenges[schedule::X4]).as_str());
    s.append(",\n  xi := ");
    s.append(field::fp(challenges[schedule::XI]).as_str());
    s.append(", z := ");
    s.append(field::fp(challenges[schedule::Z]).as_str());
    s.append(",\n  ipaRound := fun j => ([");
    s.append(field::join_fps(rounds).as_str());
    s.append("] : List Fp).getD j.val 0 }\n\n");
    s
}

fn transcript_defs(c: &Capture, table: &mut PointTable) -> (s: String)
    requires
        c.wf(),
        old(table).wf(),
        c.covered_by(old(table)@),
    ensures
        final(table).wf(),
        final(table)@ == old(table)@,
        s@ == transcript_text(*c, final(table)@),
{
    let events = c.recorder.events.as_slice();
    let len: usize = events.len();
    let init_len: usize = 1 + c.recorder.common_points.len();
    proof {
        points::known_points_change_nothing(table@, transcript::all_points(events@));
        assert forall|i: int| 0 <= i < events@.len() && i < init_len implies transcript::is_common(
            #[trigger] events@[i],
        ) by {
            if i > 0 {
                assert(c.recorder.events@[1 + (i - 1)] is CommonPoint);
            }
        }
    }
    let (init, entries) = transcript::render_transcript_capture(table, events, init_len);
    let mut s = "/-- Captured verifier Fiat-Shamir prefix before the proof-derived transcript suffix.\nGenerated from `ChallengeRecorder`'s verification-key and instance absorb events. -/\ndef capturedInit : List (TranscriptElt Fp G) :=\n  [".to_owned();
    s.append(text::join(init.as_slice()).as_str());
    s.append("]\n\ntheorem capturedInit_startsWith_vkTranscriptRepr :\n    capturedInit.head? = some (TranscriptElt.scalar capturedVkTranscriptRepr) := by native_decide\n\n/-- Captured verifier Fiat-Shamir schedule, including the captured prefix.\nGenerated from `ChallengeRecorder`'s ordered absorb/squeeze events. After each\nsqueeze the captured challenge is appended as an abstract separator (mirroring\n`deriveChallenges`); the deployed Blake2b transcript uses a domain-prefix byte. -/\ndef capturedScheduleEntries : List (List (TranscriptElt Fp G) × Fp) :=\n  [");
    s.append(text::join(entries.as_slice()).as_str());
    s.append("]\n\n");
    s
}

fn term_literals(msm: &MSM, table: &PointTable) -> (r: Vec<String>)
    requires
        msm.bases_valid(),
        table.wf(),
        points::holds_all(table@, msm.bases()),
    ensures
        text::contents(r@) == term_texts(*msm, table@),
{
    let bases = msm.base_points();
    let mut r: Vec<String> = Vec::new();
    let mut i: usize = 0;
    while i < msm.other.len()
        invariant
            bases@ == msm.bases(),
            table.wf(),
            points::holds_all(table@, msm.bases()),
            i <= msm.other@.len(),
            text::contents(r@) =~= term_texts(*msm, table@).take(i as int),
        decreases msm.other@.len() - i,
    {
        let ghost before = text::contents(r@);
        let mut s = "(".to_owned();
        s.append(field::fp(msm.other[i].0).as_str());
        s.append(", ");
        s.append(table.known_ref(bases[i]).as_str());
        s.append(")");
        let ghost rendered = s@;
        r.push(s);
        i = i + 1;
        assert(text::contents(r@) =~= before.push(rendered));
    }
    assert(term_texts(*msm, table@).take(msm.other@.len() as int) =~= term_texts(*msm, table@));
    r
}

fn msm_def(msm: &MSM, table: &PointTable) -> (s: String)
    requires
        msm.bases_valid(),
        msm.g_scalars is Some,
        msm.w_scalar is Some,
        msm.u_scalar is Some,
        table.wf(),
        points::holds_all(table@, msm.bases()),
    ensures
        s@ == msm_text(*msm, table@),
{
    let terms = term_literals(msm, table);
    let generators = match &msm.g_scalars {
        Some(gs) => field::join_fps(gs.as_slice()),
        None => String::new(),
    };
    let w = msm.w_scalar.unwrap();
    let u = msm.u_scalar.unwrap();
    let mut s = "def capturedMsm : Msm shape.k Fp G := {\n  gScalars := fun i => (#[".to_owned();
    s.append(generators.as_str());
    s.append("] : Array Fp)[i.val]!,\n  wScalar := ");
    s.append(field::fp(w).as_str());
    s.append(",\n  uScalar := ");
    s.append(field::fp(u).as_str());
    s.append(",\n  other := [");
    s.append(text::join(terms.as_slice()).as_str());
    s.append("] }\n\n");
    s
}

fn theorems(lean_namespace: &str) -> (s: String)
    ensures
        s@ == theorems_text(lean_namespace@),
{
    let mut s = "theorem fingerprint_matches : MsmMatch (assemble vk ps ch) capturedMsm := by native_decide\n\ntheorem capturedMsm_eval_eq_zero : capturedMsm.evalNat capturedURS = 0 := by native_decide\n\n/-- Meaningful jointly with `fingerprint_matches`: `assemble`'s zero-MSM rejection\nfallback also evaluates to zero, so this statement alone is not acceptance. -/\ntheorem assembledMsm_eval_eq_zero : (assemble vk ps ch).evalNat capturedURS = 0 := by\n  rw [msmMatch_evalNat capturedURS fingerprint_matches]\n  exact capturedMsm_eval_eq_zero\n\nend ".to_owned();
    s.append(lean_namespace);
    s.append("\n");
    s
}

/// What an exportable capture guarantees of its parts.
proof fn lemma_exportable(
    key: VerifyingKey,
    lean_namespace: Seq<char>,
    circuit_id: Seq<char>,
    k: u32,
    num_proofs: usize,
    recorder: ChallengeRecorder,
    msm: MSM,
)
    requires
        key.fault(lean_namespace, circuit_id, k, num_proofs, recorder, msm) is None,
        msm.params.g@.len() <= u64::MAX,
    ensures
        capture::capture(&key, k, num_proofs, &recorder, &msm).wf(),
{
    if k >= 64 {
        lemma2_to64_rest();
        if k > 64 {
            lemma_pow2_strictly_increases(64, k as nat);
        }
    }
}

impl VerifyingKey {
    /// Emit the Vesta Lean fixture for one captured proof.
    ///
    /// `recorder` supplies the ordered transcript events, the proof elements (points and scalars in
    /// read order), the instance commitments, and the squeezed challenges captured during the
    /// verifier run; `captured_msm` is the assembled verifier fingerprint together with its exact
    /// parameter set. Only *accepting* runs are exported: `captured_msm` is the group identity, so
    /// the fixture always proves `capturedMsm.evalNat = 0`. Every point of the fixture is on the
    /// curve, and the commitments that became terms are all distinct and non-identity.
    ///
    /// [`VerifyingKey::try_dump_vesta_lean_fixture`] is for captures that were not checked.
    pub fn dump_vesta_lean_fixture(
        &self,
        lean_namespace: &str,
        circuit_id: &str,
        k: u32,
        num_proofs: usize,
        recorder: &ChallengeRecorder,
        captured_msm: &MSM<'_>,
    ) -> (out: String)
        requires
            self.fault(
                lean_namespace@,
                circuit_id@,
                k,
                num_proofs,
                *recorder,
                *captured_msm,
            ) is None,
        ensures
            out@ == fixture_text(
                lean_namespace@,
                circuit_id@,
                capture::capture(self, k, num_proofs, recorder, captured_msm),
            ),
            points::all_on_curve(
                capture::capture(self, k, num_proofs, recorder, captured_msm).table(),
            ),
            slots::commitments_distinct(
                self.base_slots(self.shape(k, num_proofs), *recorder),
            ),
    {
        assert(captured_msm.params.g@.len() == captured_msm.params.g.len());
        assert(recorder.points@.len() == recorder.points.len());
        assert(recorder.scalars@.len() == recorder.scalars.len());
        proof {
            lemma_exportable(
                *self,
                lean_namespace@,
                circuit_id@,
                k,
                num_proofs,
                *recorder,
                *captured_msm,
            );
        }
        let shape = self.proof_shape(k, num_proofs);
        let c = Capture { key: self, shape, recorder, msm: captured_msm };
        let blocks = shape.point_blocks().unwrap();
        let evals = shape.scalar_blocks().unwrap();
        let mut table = c.point_table(&blocks);
        proof {
            capture::table_is_complete(c);
            slots::nothing_was_collapsed(self.base_slots(shape, *recorder), captured_msm.bases());
        }
        let transcript = transcript_defs(&c, &mut table);
        let mut out = header(lean_namespace, circuit_id, &table);
        out.append(shape_def(&c).as_str());
        out.append(urs_defs(&c, &table).as_str());
        out.append(commitment_defs(&c, &table).as_str());
        out.append(key_def(&c).as_str());
        out.append(proof_point_defs(&c, &table, &blocks).as_str());
        out.append(column_eval_defs(&c, &evals).as_str());
        out.append(set_eval_def(&c, &evals).as_str());
        out.append(lookup_eval_def(&c, &evals).as_str());
        out.append(multiopen_defs(&c, &table, &blocks, &evals).as_str());
        out.append(proof_def(&c, &table, &blocks, &evals).as_str());
        out.append(challenge_def(recorder.challenges.as_slice()).as_str());
        out.append(transcript.as_str());
        out.append(msm_def(captured_msm, &table).as_str());
        out.append(theorems(lean_namespace).as_str());
        out
    }

    /// Emit the Vesta Lean fixture for one captured proof, or say why the capture is refused.
    ///
    /// A refused capture yields the first fault in the order of the checks; every other capture
    /// yields what [`VerifyingKey::dump_vesta_lean_fixture`] writes.
    pub fn try_dump_vesta_lean_fixture(
        &self,
        lean_namespace: &str,
        circuit_id: &str,
        k: u32,
        num_proofs: usize,
        recorder: &ChallengeRecorder,
        captured_msm: &MSM<'_>,
    ) -> (r: Result<String, ExportError>)
        ensures
            match self.fault(
                lean_namespace@,
                circuit_id@,
                k,
                num_proofs,
                *recorder,
                *captured_msm,
            ) {
                Some(e) => r == Err::<String, ExportError>(e),
                None => r is Ok && r->Ok_0@ == fixture_text(
                    lean_namespace@,
                    circuit_id@,
                    capture::capture(self, k, num_proofs, recorder, captured_msm),
                ) && points::all_on_curve(
                    capture::capture(self, k, num_proofs, recorder, captured_msm).table(),
                ) && slots::commitments_distinct(
                    self.base_slots(self.shape(k, num_proofs), *recorder),
                ),
            },
    {
        match self.check_capture(
            lean_namespace,
            circuit_id,
            k,
            num_proofs,
            recorder,
            captured_msm,
        ) {
            Some(e) => Err(e),
            None => Ok(
                self.dump_vesta_lean_fixture(
                    lean_namespace,
                    circuit_id,
                    k,
                    num_proofs,
                    recorder,
                    captured_msm,
                ),
            ),
        }
    }
}

} // verus!
