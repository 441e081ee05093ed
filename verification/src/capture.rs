//! A captured verifier run: its blocks, the points that it mentions, and the Lean records of its
//! evaluations.

use vstd::prelude::*;
use vstd::slice::*;
use vstd::string::*;

use crate::curve::EqAffine;
use crate::field;
use crate::field::Fp;
use crate::key::VerifyingKey;
use crate::msm::MSM;
use crate::points;
use crate::points::PointTable;
use crate::schedule;
use crate::schedule::{PointBlocks, Shape};
use crate::text;
use crate::transcript;
use crate::transcript::ChallengeRecorder;

verus! {

/// One captured verifier run: the key, the shape of the proof, what was recorded, and the
/// multi-scalar multiplication that it ended in.
pub struct Capture<'a> {
    /// The verifying key.
    pub key: &'a VerifyingKey,
    /// The shape of the proof.
    pub shape: Shape,
    /// What was recorded of the transcript.
    pub recorder: &'a ChallengeRecorder,
    /// The assembled verifier fingerprint.
    pub msm: &'a MSM<'a>,
}

/// The capture of a run with `2^k` generators and so many proofs.
pub open spec fn capture<'a>(
    key: &'a VerifyingKey,
    k: u32,
    num_proofs: usize,
    recorder: &'a ChallengeRecorder,
    msm: &'a MSM<'a>,
) -> Capture<'a> {
    Capture { key, shape: key.shape(k, num_proofs), recorder, msm }
}

/// The points at even positions of a list of pairs.
pub open spec fn pair_firsts(points: Seq<EqAffine>, n: nat) -> Seq<EqAffine> {
    Seq::new(n, |i: int| points[2 * i])
}

/// The points at odd positions of a list of pairs.
pub open spec fn pair_seconds(points: Seq<EqAffine>, n: nat) -> Seq<EqAffine> {
    Seq::new(n, |i: int| points[2 * i + 1])
}

/// The Lean pairs of a list of pairs of points.
pub open spec fn pair_texts(
    table: Seq<EqAffine>,
    points: Seq<EqAffine>,
    n: nat,
) -> Seq<Seq<char>> {
    Seq::new(
        n,
        |i: int|
            "("@ + points::ref_text(table, points[2 * i]) + ", "@ + points::ref_text(
                table,
                points[2 * i + 1],
            ) + ")"@,
    )
}

/// The Lean record of the evaluations of the permutation set at position `s` of `n`, where the
/// evaluations of the proof start at position `at`. The last set has no last evaluation.
pub open spec fn set_eval_text(evals: Seq<Fp>, at: int, s: int, n: nat) -> Seq<char> {
    "{ eval := "@ + field::fp_text(evals[at + 3 * s]) + ", nextEval := "@ + field::fp_text(
        evals[at + 3 * s + 1],
    ) + ", lastEval := "@ + (if s + 1 < n {
        "some "@ + field::fp_text(evals[at + 3 * s + 2])
    } else {
        "none"@
    }) + " }"@
}

/// The Lean records of the permutation set evaluations of the first `proofs` proofs with `n` sets
/// and `width` evaluations each.
pub open spec fn set_eval_texts(evals: Seq<Fp>, n: nat, width: nat, proofs: nat) -> Seq<Seq<char>>
    decreases proofs,
{
    if proofs == 0 {
        Seq::empty()
    } else {
        let p = (proofs - 1) as nat;
        set_eval_texts(evals, n, width, p) + Seq::new(
            n,
            |s: int| set_eval_text(evals, (p * width) as int, s, n),
        )
    }
}

/// The Lean record of five lookup evaluations.
pub open spec fn lookup_eval_text(evals: Seq<Fp>, at: int) -> Seq<char> {
    "{ productEval := "@ + field::fp_text(evals[at]) + ", productNextEval := "@ + field::fp_text(
        evals[at + 1],
    ) + ", permutedInputEval := "@ + field::fp_text(evals[at + 2]) + ", permutedInputInvEval := "@
        + field::fp_text(evals[at + 3]) + ", permutedTableEval := "@ + field::fp_text(
        evals[at + 4],
    ) + " }"@
}

/// The Lean records of the evaluations of `n` lookups.
pub open spec fn lookup_eval_texts(evals: Seq<Fp>, n: nat) -> Seq<Seq<char>> {
    Seq::new(n, |i: int| lookup_eval_text(evals, 5 * i))
}

impl<'a> Capture<'a> {
    /// What the blocks and counts of a capture rest on.
    pub open spec fn wf(self) -> bool {
        &&& self.shape == self.key.shape(self.shape.k, self.shape.num_proofs)
        &&& self.key.cs_degree >= 2
        &&& self.key.chunk_len() > 0 || self.key.cs.permutation_columns@.len() == 0
        &&& self.shape.k < 64
        &&& self.recorder.points@.len() == self.shape.num_points()
        &&& self.recorder.scalars@.len() >= self.shape.min_scalars()
        &&& self.recorder.challenges@.len() == schedule::IPA_ROUND_BASE + self.shape.k
        &&& self.msm.bases_valid()
        &&& self.msm.g_scalars is Some
        &&& self.msm.w_scalar is Some
        &&& self.msm.u_scalar is Some
        &&& self.recorder.starts_with_key(self.key.transcript_repr)
        &&& self.key.circuit_fault() is None
    }

    /// The advice commitments.
    pub open spec fn advice(self) -> Seq<EqAffine> {
        schedule::block(self.recorder.points@, 0, self.shape.advice_end())
    }

    /// The permuted lookup commitments: an input and a table for each lookup.
    pub open spec fn lookup_permuted(self) -> Seq<EqAffine> {
        schedule::block(
            self.recorder.points@,
            self.shape.advice_end(),
            self.shape.lookup_permuted_end(),
        )
    }

    /// The permutation products.
    pub open spec fn permutation_products(self) -> Seq<EqAffine> {
        schedule::block(
            self.recorder.points@,
            self.shape.lookup_permuted_end(),
            self.shape.permutation_end(),
        )
    }

    /// The lookup products.
    pub open spec fn lookup_products(self) -> Seq<EqAffine> {
        schedule::block(
            self.recorder.points@,
            self.shape.permutation_end(),
            self.shape.lookup_product_end(),
        )
    }

    /// The random vanishing commitment.
    pub open spec fn vanishing_random(self) -> EqAffine {
        self.recorder.points@[self.shape.lookup_product_end() as int]
    }

    /// The quotient pieces.
    pub open spec fn quotient_pieces(self) -> Seq<EqAffine> {
        schedule::block(
            self.recorder.points@,
            self.shape.vanishing_end(),
            self.shape.quotient_end(),
        )
    }

    /// The multiopen commitment.
    pub open spec fn q_prime(self) -> EqAffine {
        self.recorder.points@[self.shape.quotient_end() as int]
    }

    /// The blinding commitment of the inner product argument.
    pub open spec fn ipa_s(self) -> EqAffine {
        self.recorder.points@[self.shape.multiopen_end() as int]
    }

    /// The commitments of the rounds of the inner product argument, a pair for each.
    pub open spec fn ipa_rounds(self) -> Seq<EqAffine> {
        schedule::block(
            self.recorder.points@,
            self.shape.ipa_blind_end(),
            self.shape.num_points(),
        )
    }

    /// How many lookups all proofs have together.
    pub open spec fn all_lookups(self) -> nat {
        self.shape.num_proofs as nat * self.shape.num_lookups as nat
    }

    /// The scalars from one boundary to the next.
    pub open spec fn scalars(self, from: nat, to: nat) -> Seq<Fp> {
        schedule::block(self.recorder.scalars@, from, to)
    }

    /// How many scalars end the multiopen argument.
    pub open spec fn multiopen_scalars_end(self) -> nat {
        (self.recorder.scalars@.len() - 2) as nat
    }

    /// How many point sets the multiopen argument has.
    pub open spec fn num_point_sets(self) -> nat {
        (self.recorder.scalars@.len() - 2 - self.shape.lookup_eval_end()) as nat
    }

    /// The points of the parameters, of the key and of the proof, in the order the fixture first
    /// refers to them.
    pub open spec fn committed(self) -> Seq<EqAffine> {
        self.msm.params.g@ + seq![self.msm.params.w] + seq![self.msm.params.u]
            + self.key.fixed_commitments@ + self.recorder.common_points@
            + self.key.permutation_commitments@ + self.advice() + pair_firsts(
            self.lookup_permuted(),
            self.all_lookups(),
        ) + pair_seconds(self.lookup_permuted(), self.all_lookups()) + self.permutation_products()
            + self.lookup_products() + self.quotient_pieces() + seq![self.vanishing_random()]
            + seq![self.q_prime()] + seq![self.ipa_s()] + self.ipa_rounds()
    }

    /// All points that the fixture refers to, in the order it first refers to them.
    pub open spec fn mentioned(self) -> Seq<EqAffine> {
        self.committed() + transcript::all_points(self.recorder.events@) + self.msm.bases()
    }

    /// The points of the fixture in the order of their numbers: each where it is first referred
    /// to.
    pub open spec fn table(self) -> Seq<EqAffine> {
        points::interned_all(Seq::empty(), self.mentioned())
    }

    /// Whether a table holds the points of the parameters, of the key and of the proof.
    pub open spec fn commitments_covered_by(self, table: Seq<EqAffine>) -> bool {
        &&& points::holds_all(table, self.msm.params.g@)
        &&& table.contains(self.msm.params.w)
        &&& table.contains(self.msm.params.u)
        &&& points::holds_all(table, self.key.fixed_commitments@)
        &&& points::holds_all(table, self.recorder.common_points@)
        &&& points::holds_all(table, self.key.permutation_commitments@)
        &&& points::holds_all(table, self.advice())
        &&& points::holds_all(table, pair_firsts(self.lookup_permuted(), self.all_lookups()))
        &&& points::holds_all(table, pair_seconds(self.lookup_permuted(), self.all_lookups()))
        &&& points::holds_all(table, self.permutation_products())
        &&& points::holds_all(table, self.lookup_products())
        &&& points::holds_all(table, self.quotient_pieces())
        &&& table.contains(self.vanishing_random())
        &&& table.contains(self.q_prime())
        &&& table.contains(self.ipa_s())
        &&& points::holds_all(table, self.ipa_rounds())
    }

    /// Whether a table holds every point that the fixture refers to.
    pub open spec fn covered_by(self, table: Seq<EqAffine>) -> bool {
        &&& self.commitments_covered_by(table)
        &&& points::holds_all(table, transcript::all_points(self.recorder.events@))
        &&& points::holds_all(table, self.msm.bases())
    }
}

proof fn lemma_holds_pushed(table: Seq<EqAffine>, a: Seq<EqAffine>, p: EqAffine)
    ensures
        points::holds_all(table, a + seq![p]) <==> points::holds_all(table, a) && table.contains(p),
{
    points::holds_concatenation(table, a, seq![p]);
    if points::holds_all(table, seq![p]) {
        assert(seq![p][0] == p);
    }
}

/// A table that holds the list of these points holds each group of them.
pub proof fn groups_are_covered(c: Capture, t: Seq<EqAffine>)
    requires
        points::holds_all(t, c.committed()),
    ensures
        c.commitments_covered_by(t),
{
    let m0 = c.msm.params.g@;
    let m1 = m0 + seq![c.msm.params.w];
    let m2 = m1 + seq![c.msm.params.u];
    let m3 = m2 + c.key.fixed_commitments@;
    let m4 = m3 + c.recorder.common_points@;
    let m5 = m4 + c.key.permutation_commitments@;
    let m6 = m5 + c.advice();
    let m7 = m6 + pair_firsts(c.lookup_permuted(), c.all_lookups());
    let m8 = m7 + pair_seconds(c.lookup_permuted(), c.all_lookups());
    let m9 = m8 + c.permutation_products();
    let m10 = m9 + c.lookup_products();
    let m11 = m10 + c.quotient_pieces();
    let m12 = m11 + seq![c.vanishing_random()];
    let m13 = m12 + seq![c.q_prime()];
    let m14 = m13 + seq![c.ipa_s()];
    assert(m14 + c.ipa_rounds() == c.committed());
    points::holds_concatenation(t, m14, c.ipa_rounds());
    lemma_holds_pushed(t, m13, c.ipa_s());
    lemma_holds_pushed(t, m12, c.q_prime());
    lemma_holds_pushed(t, m11, c.vanishing_random());
    points::holds_concatenation(t, m10, c.quotient_pieces());
    points::holds_concatenation(t, m9, c.lookup_products());
    points::holds_concatenation(t, m8, c.permutation_products());
    points::holds_concatenation(t, m7, pair_seconds(c.lookup_permuted(), c.all_lookups()));
    points::holds_concatenation(t, m6, pair_firsts(c.lookup_permuted(), c.all_lookups()));
    points::holds_concatenation(t, m5, c.advice());
    points::holds_concatenation(t, m4, c.key.permutation_commitments@);
    points::holds_concatenation(t, m3, c.recorder.common_points@);
    points::holds_concatenation(t, m2, c.key.fixed_commitments@);
    lemma_holds_pushed(t, m1, c.msm.params.u);
    lemma_holds_pushed(t, m0, c.msm.params.w);
}

/// The table of a fixture holds every point that the fixture refers to, none of them twice.
pub proof fn table_is_complete(c: Capture)
    ensures
        c.covered_by(c.table()),
        c.table().no_duplicates(),
{
    let t = c.table();
    let events = transcript::all_points(c.recorder.events@);
    points::interning_keeps_the_table(Seq::empty(), c.mentioned());
    assert(points::holds_all(t, c.mentioned())) by {
        assert forall|i: int| 0 <= i < c.mentioned().len() implies t.contains(
            #[trigger] c.mentioned()[i],
        ) by {
            assert(c.mentioned().contains(c.mentioned()[i]));
        }
    }
    points::holds_concatenation(t, c.committed() + events, c.msm.bases());
    points::holds_concatenation(t, c.committed(), events);
    groups_are_covered(c, t);
}

/// The points at even positions of a list of pairs.
pub fn collect_firsts(points: &[EqAffine], n: usize) -> (r: Vec<EqAffine>)
    requires
        points@.len() == 2 * n,
    ensures
        r@ == pair_firsts(points@, n as nat),
{
    let mut r: Vec<EqAffine> = Vec::new();
    let len: usize = points.len();
    let mut i: usize = 0;
    while i < n
        invariant
            len == points@.len(),
            points@.len() == 2 * n,
            i <= n,
            r@ =~= pair_firsts(points@, n as nat).take(i as int),
        decreases n - i,
    {
        r.push(points[2 * i]);
        i = i + 1;
    }
    assert(pair_firsts(points@, n as nat).take(n as int) =~= pair_firsts(points@, n as nat));
    r
}

/// The points at odd positions of a list of pairs.
pub fn collect_seconds(points: &[EqAffine], n: usize) -> (r: Vec<EqAffine>)
    requires
        points@.len() == 2 * n,
    ensures
        r@ == pair_seconds(points@, n as nat),
{
    let mut r: Vec<EqAffine> = Vec::new();
    let len: usize = points.len();
    let mut i: usize = 0;
    while i < n
        invariant
            len == points@.len(),
            points@.len() == 2 * n,
            i <= n,
            r@ =~= pair_seconds(points@, n as nat).take(i as int),
        decreases n - i,
    {
        r.push(points[2 * i + 1]);
        i = i + 1;
    }
    assert(pair_seconds(points@, n as nat).take(n as int) =~= pair_seconds(points@, n as nat));
    r
}

/// The Lean pairs of a list of pairs of points.
pub fn pair_literals(table: &PointTable, points: &[EqAffine], n: usize) -> (r: Vec<String>)
    requires
        table.wf(),
        points::holds_all(table@, points@),
        points@.len() == 2 * n,
    ensures
        text::contents(r@) == pair_texts(table@, points@, n as nat),
{
    let mut r: Vec<String> = Vec::new();
    let len: usize = points.len();
    let mut i: usize = 0;
    while i < n
        invariant
            table.wf(),
            points::holds_all(table@, points@),
            len == points@.len(),
            points@.len() == 2 * n,
            i <= n,
            text::contents(r@) =~= pair_texts(table@, points@, n as nat).take(i as int),
        decreases n - i,
    {
        let ghost before = text::contents(r@);
        let mut s = "(".to_owned();
        s.append(table.known_ref(points[2 * i]).as_str());
        s.append(", ");
        s.append(table.known_ref(points[2 * i + 1]).as_str());
        s.append(")");
        let ghost rendered = s@;
        r.push(s);
        i = i + 1;
        assert(text::contents(r@) =~= before.push(rendered));
    }
    assert(pair_texts(table@, points@, n as nat).take(n as int) =~= pair_texts(
        table@,
        points@,
        n as nat,
    ));
    r
}

fn set_eval_literal(evals: &[Fp], at: usize, s: usize, n: usize) -> (r: String)
    requires
        s < n,
        at + 3 * n - 1 <= evals@.len(),
    ensures
        r@ == set_eval_text(evals@, at as int, s as int, n as nat),
{
    let len: usize = evals.len();
    assert(at + 3 * s + 1 < len);
    let first: usize = at + 3 * s;
    let mut r = "{ eval := ".to_owned();
    r.append(field::fp(evals[first]).as_str());
    r.append(", nextEval := ");
    r.append(field::fp(evals[first + 1]).as_str());
    r.append(", lastEval := ");
    if s + 1 < n {
        let mut last = "some ".to_owned();
        last.append(field::fp(evals[first + 2]).as_str());
        r.append(last.as_str());
    } else {
        r.append("none");
    }
    r.append(" }");
    r
}

/// The Lean records of the permutation set evaluations of all proofs.
pub fn set_eval_literals(evals: &[Fp], shape: &Shape) -> (r: Vec<String>)
    requires
        evals@.len() == shape.num_proofs as nat * shape.set_evals(),
    ensures
        text::contents(r@) == set_eval_texts(
            evals@,
            shape.num_permutation_sets as nat,
            shape.set_evals(),
            shape.num_proofs as nat,
        ),
{
    let n: usize = shape.num_permutation_sets;
    let proofs: usize = shape.num_proofs;
    let ghost width = shape.set_evals();
    let mut r: Vec<String> = Vec::new();
    let len: usize = evals.len();
    let mut at: usize = 0;
    let mut p: usize = 0;
    assert(text::contents(r@) =~= Seq::empty());
    while p < proofs
        invariant
            n == 0 ==> width == 0,
            n > 0 ==> width == 3 * n - 1,
            len == evals@.len(),
            evals@.len() == proofs as nat * width,
            p <= proofs,
            p < proofs ==> at == p as nat * width,
            text::contents(r@) == set_eval_texts(evals@, n as nat, width, p as nat),
        decreases proofs - p,
    {
        proof {
            let (pi, ni) = (p as nat, proofs as nat);
            assert((pi + 1) * width == pi * width + width) by (nonlinear_arith);
            assert((pi + 1) * width <= ni * width) by (nonlinear_arith)
                requires
                    pi + 1 <= ni,
            ;
        }
        let ghost earlier = text::contents(r@);
        let ghost own = Seq::new(n as nat, |s: int| set_eval_text(evals@, at as int, s, n as nat));
        let mut s: usize = 0;
        assert(earlier + own.take(0) =~= earlier);
        while s < n
            invariant
                n > 0 ==> width == 3 * n - 1,
                at + width <= evals@.len(),
                s <= n,
                own == Seq::new(
                    n as nat,
                    |s: int| set_eval_text(evals@, at as int, s, n as nat),
                ),
                text::contents(r@) =~= earlier + own.take(s as int),
            decreases n - s,
        {
            let ghost before = text::contents(r@);
            let literal = set_eval_literal(evals, at, s, n);
            let ghost rendered = literal@;
            r.push(literal);
            s = s + 1;
            assert(text::contents(r@) =~= before.push(rendered));
        }
        assert(own.take(n as int) =~= own);
        if n > 0 {
            at = at + (3 * n - 1);
        }
        p = p + 1;
    }
    r
}

/// The Lean records of the evaluations of `n` lookups.
pub fn lookup_eval_literals(evals: &[Fp], n: usize) -> (r: Vec<String>)
    requires
        evals@.len() == 5 * n,
    ensures
        text::contents(r@) == lookup_eval_texts(evals@, n as nat),
{
    let mut r: Vec<String> = Vec::new();
    let len: usize = evals.len();
    let mut i: usize = 0;
    while i < n
        invariant
            len == evals@.len(),
            evals@.len() == 5 * n,
            i <= n,
            text::contents(r@) =~= lookup_eval_texts(evals@, n as nat).take(i as int),
        decreases n - i,
    {
        let ghost before = text::contents(r@);
        let at: usize = 5 * i;
        let mut s = "{ productEval := ".to_owned();
        s.append(field::fp(evals[at]).as_str());
        s.append(", productNextEval := ");
        s.append(field::fp(evals[at + 1]).as_str());
        s.append(", permutedInputEval := ");
        s.append(field::fp(evals[at + 2]).as_str());
        s.append(", permutedInputInvEval := ");
        s.append(field::fp(evals[at + 3]).as_str());
        s.append(", permutedTableEval := ");
        s.append(field::fp(evals[at + 4]).as_str());
        s.append(" }");
        let ghost rendered = s@;
        r.push(s);
        i = i + 1;
        assert(text::contents(r@) =~= before.push(rendered));
    }
    assert(lookup_eval_texts(evals@, n as nat).take(n as int) =~= lookup_eval_texts(
        evals@,
        n as nat,
    ));
    r
}

impl<'a> Capture<'a> {
    /// The points of the fixture, each numbered where the fixture first refers to it.
    pub fn point_table(&self, blocks: &PointBlocks) -> (table: PointTable)
        requires
            self.wf(),
            blocks.of(self.shape),
        ensures
            table.wf(),
            table@ == self.table(),
    {
        proof {
            schedule::point_blocks_in_order(self.shape);
        }
        let points = self.recorder.points.as_slice();
        let lookup_permuted = slice_subrange(points, blocks.advice, blocks.lookup_permuted);
        let lookups: usize = lookup_permuted.len() / 2;
        let mut all: Vec<EqAffine> = Vec::new();
        all.extend_from_slice(self.msm.params.g.as_slice());
        assert(all@ =~= self.msm.params.g@);
        push_one(&mut all, self.msm.params.w);
        push_one(&mut all, self.msm.params.u);
        all.extend_from_slice(self.key.fixed_commitments.as_slice());
        all.extend_from_slice(self.recorder.common_points.as_slice());
        all.extend_from_slice(self.key.permutation_commitments.as_slice());
        all.extend_from_slice(slice_subrange(points, 0, blocks.advice));
        all.extend_from_slice(collect_firsts(lookup_permuted, lookups).as_slice());
        all.extend_from_slice(collect_seconds(lookup_permuted, lookups).as_slice());
        all.extend_from_slice(slice_subrange(points, blocks.lookup_permuted, blocks.permutation));
        all.extend_from_slice(slice_subrange(points, blocks.permutation, blocks.lookup_product));
        all.extend_from_slice(slice_subrange(points, blocks.vanishing, blocks.quotient));
        push_one(&mut all, points[blocks.lookup_product]);
        push_one(&mut all, points[blocks.quotient]);
        push_one(&mut all, points[blocks.multiopen]);
        all.extend_from_slice(slice_subrange(points, blocks.ipa_blind, blocks.total));
        all.extend_from_slice(
            transcript::collect_points(self.recorder.events.as_slice()).as_slice(),
        );
        all.extend_from_slice(self.msm.base_points().as_slice());
        assert(all@ == self.mentioned());
        let mut table = PointTable::new();
        table.intern(all.as_slice());
        table
    }
}

fn push_one(all: &mut Vec<EqAffine>, point: EqAffine)
    ensures
        final(all)@ == old(all)@ + seq![point],
{
    all.push(point);
    assert(all@ =~= old(all)@ + seq![point]);
}

} // verus!
