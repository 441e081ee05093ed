//! The order in which the verifier reads a proof: which reads make up which block, and which
//! squeeze stands at the end of which block.

use vstd::prelude::*;

use crate::curve::EqAffine;
use crate::field::Fp;
use crate::transcript;

verus! {

/// The squeeze of theta.
pub const THETA: usize = 0;

/// The squeeze of beta.
pub const BETA: usize = 1;

/// The squeeze of gamma.
pub const GAMMA: usize = 2;

/// The squeeze of y.
pub const Y: usize = 3;

/// The squeeze of x.
pub const X: usize = 4;

/// The squeeze of x1.
pub const X1: usize = 5;

/// The squeeze of x2.
pub const X2: usize = 6;

/// The squeeze of x3.
pub const X3: usize = 7;

/// The squeeze of x4.
pub const X4: usize = 8;

/// The squeeze of xi.
pub const XI: usize = 9;

/// The squeeze of z.
pub const Z: usize = 10;

/// The squeeze of the first round of the inner product argument; the others follow.
pub const IPA_ROUND_BASE: usize = 11;

/// The numbers that fix how many reads of each kind a proof has.
#[derive(Clone, Copy, Debug, PartialEq, Eq, Structural)]
pub struct Shape {
    /// The logarithm of the number of generators.
    pub k: u32,
    /// How many proofs are verified together.
    pub num_proofs: usize,
    /// How many advice columns there are.
    pub num_advice_columns: usize,
    /// How many lookup arguments there are.
    pub num_lookups: usize,
    /// How many sets the permutation columns fall into.
    pub num_permutation_sets: usize,
    /// How many permutation columns have a commitment.
    pub num_permutation_columns: usize,
    /// How many pieces the quotient polynomial has.
    pub num_quotient_pieces: usize,
    /// How many instance queries there are.
    pub num_instance_queries: usize,
    /// How many advice queries there are.
    pub num_advice_queries: usize,
    /// How many fixed queries there are.
    pub num_fixed_queries: usize,
}

impl Shape {
    /// How many points are read up to the end of the advice commitments.
    pub open spec fn advice_end(self) -> nat {
        self.num_proofs as nat * self.num_advice_columns as nat
    }

    /// How many points are read up to the end of the permuted lookup commitments.
    pub open spec fn lookup_permuted_end(self) -> nat {
        self.advice_end() + self.num_proofs as nat * self.num_lookups as nat * 2
    }

    /// How many points are read up to the end of the permutation products.
    pub open spec fn permutation_end(self) -> nat {
        self.lookup_permuted_end() + self.num_proofs as nat * self.num_permutation_sets as nat
    }

    /// How many points are read up to the end of the lookup products.
    pub open spec fn lookup_product_end(self) -> nat {
        self.permutation_end() + self.num_proofs as nat * self.num_lookups as nat
    }

    /// How many points are read up to the end of the random vanishing commitment.
    pub open spec fn vanishing_end(self) -> nat {
        self.lookup_product_end() + 1
    }

    /// How many points are read up to the end of the quotient pieces.
    pub open spec fn quotient_end(self) -> nat {
        self.vanishing_end() + self.num_quotient_pieces as nat
    }

    /// How many points are read up to the end of the multiopen commitment.
    pub open spec fn multiopen_end(self) -> nat {
        self.quotient_end() + 1
    }

    /// How many points are read up to the end of the blinding commitment of the inner product
    /// argument.
    pub open spec fn ipa_blind_end(self) -> nat {
        self.multiopen_end() + 1
    }

    /// How many points a proof has: a pair for each round of the inner product argument ends it.
    pub open spec fn num_points(self) -> nat {
        self.ipa_blind_end() + 2 * self.k as nat
    }

    /// How many scalars are read up to the end of the instance evaluations.
    pub open spec fn instance_eval_end(self) -> nat {
        self.num_proofs as nat * self.num_instance_queries as nat
    }

    /// How many scalars are read up to the end of the advice evaluations.
    pub open spec fn advice_eval_end(self) -> nat {
        self.instance_eval_end() + self.num_proofs as nat * self.num_advice_queries as nat
    }

    /// How many scalars are read up to the end of the fixed evaluations.
    pub open spec fn fixed_eval_end(self) -> nat {
        self.advice_eval_end() + self.num_fixed_queries as nat
    }

    /// How many scalars are read up to the end of the evaluation of the random vanishing
    /// commitment.
    pub open spec fn vanishing_eval_end(self) -> nat {
        self.fixed_eval_end() + 1
    }

    /// How many scalars are read up to the end of the common permutation evaluations.
    pub open spec fn permutation_common_end(self) -> nat {
        self.vanishing_eval_end() + self.num_permutation_columns as nat
    }

    /// How many evaluations the permutation sets of one proof have: three for each set, but two
    /// for the last.
    pub open spec fn set_evals(self) -> nat {
        if self.num_permutation_sets == 0 {
            0
        } else {
            (3 * self.num_permutation_sets as nat - 1) as nat
        }
    }

    /// How many scalars are read up to the end of the permutation set evaluations.
    pub open spec fn permutation_set_end(self) -> nat {
        self.permutation_common_end() + self.num_proofs as nat * self.set_evals()
    }

    /// How many scalars are read up to the end of the lookup evaluations.
    pub open spec fn lookup_eval_end(self) -> nat {
        self.permutation_set_end() + self.num_proofs as nat * self.num_lookups as nat * 5
    }

    /// The least number of scalars a proof has: two end the inner product argument.
    pub open spec fn min_scalars(self) -> nat {
        self.lookup_eval_end() + 2
    }

    /// How many points are read before a squeeze.
    pub open spec fn points_due(self, squeeze: int) -> nat {
        if squeeze == THETA {
            self.advice_end()
        } else if squeeze <= GAMMA {
            self.lookup_permuted_end()
        } else if squeeze == Y {
            self.vanishing_end()
        } else if squeeze <= X2 {
            self.quotient_end()
        } else if squeeze <= X4 {
            self.multiopen_end()
        } else if squeeze <= Z {
            self.ipa_blind_end()
        } else {
            (self.ipa_blind_end() + 2 * (squeeze - IPA_ROUND_BASE + 1)) as nat
        }
    }

    /// How many scalars are read before a squeeze from x1 on, in a proof with `n` scalars.
    pub open spec fn scalars_due(self, n: nat, squeeze: int) -> nat {
        if squeeze <= X3 {
            self.lookup_eval_end()
        } else {
            (n - 2) as nat
        }
    }

    /// Whether each squeeze stands where the blocks of points that were read before it end.
    pub open spec fn points_pinned(self, at: Seq<nat>) -> bool {
        &&& at[THETA as int] == self.advice_end()
        &&& at[BETA as int] == self.lookup_permuted_end()
        &&& at[GAMMA as int] == at[BETA as int]
        &&& at[Y as int] == self.vanishing_end()
        &&& at[X as int] == self.quotient_end()
        &&& at[X1 as int] == at[X as int]
        &&& at[X2 as int] == at[X as int]
        &&& at[X3 as int] == self.multiopen_end()
        &&& at[X4 as int] == at[X3 as int]
        &&& at[XI as int] == self.ipa_blind_end()
        &&& at[Z as int] == at[XI as int]
        &&& forall|round: int|
            0 <= round < self.k ==> #[trigger] at[IPA_ROUND_BASE + round] == self.ipa_blind_end()
                + 2 * (round + 1)
    }

    /// Whether each squeeze stands where the blocks of scalars that were read before it end, in a
    /// proof with `n` scalars: all evaluations before x1, all but the last two before x4.
    pub open spec fn scalars_pinned(self, n: nat, at: Seq<nat>) -> bool {
        &&& at[X1 as int] == self.lookup_eval_end()
        &&& at[X2 as int] == at[X1 as int]
        &&& at[X3 as int] == at[X1 as int]
        &&& at[X4 as int] == n - 2
        &&& at[XI as int] == n - 2
        &&& at[Z as int] == n - 2
        &&& forall|round: int|
            0 <= round < self.k ==> #[trigger] at[IPA_ROUND_BASE + round] == n - 2
    }
}

/// Where the blocks of points end.
pub struct PointBlocks {
    /// The end of the advice commitments.
    pub advice: usize,
    /// The end of the permuted lookup commitments.
    pub lookup_permuted: usize,
    /// The end of the permutation products.
    pub permutation: usize,
    /// The end of the lookup products.
    pub lookup_product: usize,
    /// The end of the random vanishing commitment.
    pub vanishing: usize,
    /// The end of the quotient pieces.
    pub quotient: usize,
    /// The end of the multiopen commitment.
    pub multiopen: usize,
    /// The end of the blinding commitment of the inner product argument.
    pub ipa_blind: usize,
    /// The end of all points.
    pub total: usize,
}

/// Where the blocks of scalars end.
pub struct ScalarBlocks {
    /// The end of the instance evaluations.
    pub instance: usize,
    /// The end of the advice evaluations.
    pub advice: usize,
    /// The end of the fixed evaluations.
    pub fixed: usize,
    /// The end of the evaluation of the random vanishing commitment.
    pub vanishing: usize,
    /// The end of the common permutation evaluations.
    pub permutation_common: usize,
    /// The end of the permutation set evaluations.
    pub permutation_set: usize,
    /// The end of the lookup evaluations.
    pub lookup: usize,
    /// The end of the shortest possible list of scalars.
    pub least: usize,
}

impl PointBlocks {
    /// Whether these are the ends of the blocks of a shape.
    pub open spec fn of(self, s: Shape) -> bool {
        &&& self.advice == s.advice_end()
        &&& self.lookup_permuted == s.lookup_permuted_end()
        &&& self.permutation == s.permutation_end()
        &&& self.lookup_product == s.lookup_product_end()
        &&& self.vanishing == s.vanishing_end()
        &&& self.quotient == s.quotient_end()
        &&& self.multiopen == s.multiopen_end()
        &&& self.ipa_blind == s.ipa_blind_end()
        &&& self.total == s.num_points()
    }
}

impl ScalarBlocks {
    /// Whether these are the ends of the blocks of a shape.
    pub open spec fn of(self, s: Shape) -> bool {
        &&& self.instance == s.instance_eval_end()
        &&& self.advice == s.advice_eval_end()
        &&& self.fixed == s.fixed_eval_end()
        &&& self.vanishing == s.vanishing_eval_end()
        &&& self.permutation_common == s.permutation_common_end()
        &&& self.permutation_set == s.permutation_set_end()
        &&& self.lookup == s.lookup_eval_end()
        &&& self.least == s.min_scalars()
    }
}

fn times(a: usize, b: usize) -> (r: Option<usize>)
    ensures
        r is Some <==> a as nat * b as nat <= usize::MAX,
        r matches Some(v) ==> v == a as nat * b as nat,
{
    a.checked_mul(b)
}

fn plus(a: usize, b: usize) -> (r: Option<usize>)
    ensures
        r is Some <==> a + b <= usize::MAX,
        r matches Some(v) ==> v == a + b,
{
    a.checked_add(b)
}

proof fn lemma_double_product(a: nat, b: nat, c: nat)
    ensures
        a * b >= 0,
        c >= 1 ==> a * b * c >= a * b,
        a * b * c == (a * b) * c,
{
    assert(a * b >= 0) by (nonlinear_arith);
    assert(c >= 1 ==> a * b * c >= a * b) by (nonlinear_arith)
        requires
            a * b >= 0,
    ;
}

impl Shape {
    /// Where the blocks of points end, if a proof with so many points could be held at all.
    pub fn point_blocks(&self) -> (r: Option<PointBlocks>)
        ensures
            r is Some <==> self.num_points() <= usize::MAX,
            r matches Some(b) ==> b.of(*self),
    {
        proof {
            let n = self.num_proofs as nat;
            lemma_double_product(n, self.num_advice_columns as nat, 1);
            lemma_double_product(n, self.num_lookups as nat, 2);
            lemma_double_product(n, self.num_permutation_sets as nat, 1);
        }
        let advice: usize = times(self.num_proofs, self.num_advice_columns)?;
        let lookups: usize = times(self.num_proofs, self.num_lookups)?;
        let lookup_permuted: usize = plus(advice, times(lookups, 2)?)?;
        let permutation: usize = plus(
            lookup_permuted,
            times(self.num_proofs, self.num_permutation_sets)?,
        )?;
        let lookup_product: usize = plus(permutation, lookups)?;
        let vanishing: usize = plus(lookup_product, 1)?;
        let quotient: usize = plus(vanishing, self.num_quotient_pieces)?;
        let multiopen: usize = plus(quotient, 1)?;
        let ipa_blind: usize = plus(multiopen, 1)?;
        let rounds: usize = times(self.k as usize, 2)?;
        let total: usize = plus(ipa_blind, rounds)?;
        Some(
            PointBlocks {
                advice,
                lookup_permuted,
                permutation,
                lookup_product,
                vanishing,
                quotient,
                multiopen,
                ipa_blind,
                total,
            },
        )
    }

    /// Where the blocks of scalars end, if a proof with so many scalars could be held at all.
    pub fn scalar_blocks(&self) -> (r: Option<ScalarBlocks>)
        ensures
            r is Some <==> self.min_scalars() <= usize::MAX,
            r matches Some(b) ==> b.of(*self),
    {
        proof {
            let n = self.num_proofs as nat;
            lemma_double_product(n, self.num_instance_queries as nat, 1);
            lemma_double_product(n, self.num_advice_queries as nat, 1);
            lemma_double_product(n, self.num_lookups as nat, 5);
            lemma_double_product(n, self.set_evals(), 1);
        }
        let instance: usize = times(self.num_proofs, self.num_instance_queries)?;
        let advice: usize = plus(instance, times(self.num_proofs, self.num_advice_queries)?)?;
        let fixed: usize = plus(advice, self.num_fixed_queries)?;
        let vanishing: usize = plus(fixed, 1)?;
        let permutation_common: usize = plus(vanishing, self.num_permutation_columns)?;
        let sets: usize = self.all_set_evals()?;
        let permutation_set: usize = plus(permutation_common, sets)?;
        let lookups: usize = times(self.num_proofs, self.num_lookups)?;
        let lookup: usize = plus(permutation_set, times(lookups, 5)?)?;
        let least: usize = plus(lookup, 2)?;
        Some(
            ScalarBlocks {
                instance,
                advice,
                fixed,
                vanishing,
                permutation_common,
                permutation_set,
                lookup,
                least,
            },
        )
    }

    /// How many evaluations the permutation sets of all proofs have.
    fn all_set_evals(&self) -> (r: Option<usize>)
        ensures
            r is Some <==> self.num_proofs as nat * self.set_evals() <= usize::MAX,
            r matches Some(v) ==> v == self.num_proofs as nat * self.set_evals(),
    {
        let ghost n = self.num_proofs as nat;
        let ghost e = self.set_evals();
        if self.num_proofs == 0 || self.num_permutation_sets == 0 {
            assert(n * e == 0) by (nonlinear_arith)
                requires
                    n == 0 || e == 0,
            ;
            return Some(0);
        }
        proof {
            assert(n * e >= e) by (nonlinear_arith)
                requires
                    n >= 1,
                    e >= 0,
            ;
        }
        // One less than three times the sets, without passing the largest machine number.
        let twice: usize = times(self.num_permutation_sets, 2)?;
        let each: usize = plus(twice, self.num_permutation_sets - 1)?;
        times(self.num_proofs, each)
    }

    /// Whether each squeeze stands where the blocks of points that were read before it end.
    pub fn are_points_pinned(&self, blocks: &PointBlocks, at: &Vec<usize>) -> (r: bool)
        requires
            blocks.of(*self),
            at@.len() == IPA_ROUND_BASE + self.k,
        ensures
            r == self.points_pinned(transcript::counts(at@)),
    {
        let ghost counts = transcript::counts(at@);
        assert(forall|i: int| 0 <= i < at@.len() ==> #[trigger] counts[i] == at@[i]);
        if at[THETA] != blocks.advice || at[BETA] != blocks.lookup_permuted || at[GAMMA]
            != at[BETA] || at[Y] != blocks.vanishing || at[X] != blocks.quotient || at[X1] != at[X]
            || at[X2] != at[X] || at[X3] != blocks.multiopen || at[X4] != at[X3] || at[XI]
            != blocks.ipa_blind || at[Z] != at[XI] {
            return false;
        }
        let mut round: usize = 0;
        while round < self.k as usize
            invariant
                blocks.of(*self),
                at@.len() == IPA_ROUND_BASE + self.k,
                counts == transcript::counts(at@),
                round <= self.k,
                forall|j: int|
                    0 <= j < round ==> #[trigger] counts[IPA_ROUND_BASE + j]
                        == self.ipa_blind_end() + 2 * (j + 1),
            decreases self.k - round,
        {
            assert(counts[IPA_ROUND_BASE + round] == at@[IPA_ROUND_BASE + round]);
            if at[IPA_ROUND_BASE + round] != blocks.ipa_blind + 2 * (round + 1) {
                return false;
            }
            round = round + 1;
        }
        true
    }

    /// Whether each squeeze stands where the blocks of scalars that were read before it end, in a
    /// proof with `n` scalars.
    pub fn are_scalars_pinned(&self, blocks: &ScalarBlocks, n: usize, at: &Vec<usize>) -> (r: bool)
        requires
            blocks.of(*self),
            n >= self.min_scalars(),
            at@.len() == IPA_ROUND_BASE + self.k,
        ensures
            r == self.scalars_pinned(n as nat, transcript::counts(at@)),
    {
        let ghost counts = transcript::counts(at@);
        assert(forall|i: int| 0 <= i < at@.len() ==> #[trigger] counts[i] == at@[i]);
        if at[X1] != blocks.lookup || at[X2] != at[X1] || at[X3] != at[X1] || at[X4] != n - 2
            || at[XI] != n - 2 || at[Z] != n - 2 {
            return false;
        }
        let len: usize = at.len();
        let mut round: usize = 0;
        while round < self.k as usize
            invariant
                n >= 2,
                len == at@.len(),
                at@.len() == IPA_ROUND_BASE + self.k,
                counts == transcript::counts(at@),
                round <= self.k,
                forall|j: int|
                    0 <= j < round ==> #[trigger] counts[IPA_ROUND_BASE + j] == n - 2,
            decreases self.k - round,
        {
            assert(counts[IPA_ROUND_BASE + round] == at@[IPA_ROUND_BASE + round]);
            if at[IPA_ROUND_BASE + round] != n - 2 {
                return false;
            }
            round = round + 1;
        }
        true
    }
}

/// The part of a list from one boundary to the next.
pub open spec fn block<T>(list: Seq<T>, from: nat, to: nat) -> Seq<T> {
    list.subrange(from as int, to as int)
}

/// The blocks of points follow one another without gap or overlap: put together they are the
/// points of the proof, in the order they were read.
pub proof fn point_blocks_partition(s: Shape, points: Seq<EqAffine>)
    requires
        points.len() == s.num_points(),
    ensures
        points == block(points, 0, s.advice_end()) + block(
            points,
            s.advice_end(),
            s.lookup_permuted_end(),
        ) + block(points, s.lookup_permuted_end(), s.permutation_end()) + block(
            points,
            s.permutation_end(),
            s.lookup_product_end(),
        ) + block(points, s.lookup_product_end(), s.vanishing_end()) + block(
            points,
            s.vanishing_end(),
            s.quotient_end(),
        ) + block(points, s.quotient_end(), s.multiopen_end()) + block(
            points,
            s.multiopen_end(),
            s.ipa_blind_end(),
        ) + block(points, s.ipa_blind_end(), s.num_points()),
{
    point_blocks_in_order(s);
    lemma_two_blocks(points, s.advice_end(), s.lookup_permuted_end());
    lemma_two_blocks(points, s.lookup_permuted_end(), s.permutation_end());
    lemma_two_blocks(points, s.permutation_end(), s.lookup_product_end());
    lemma_two_blocks(points, s.lookup_product_end(), s.vanishing_end());
    lemma_two_blocks(points, s.vanishing_end(), s.quotient_end());
    lemma_two_blocks(points, s.quotient_end(), s.multiopen_end());
    lemma_two_blocks(points, s.multiopen_end(), s.ipa_blind_end());
    lemma_two_blocks(points, s.ipa_blind_end(), s.num_points());
    assert(points.subrange(0, points.len() as int) =~= points);
}

/// The blocks of scalars follow one another without gap or overlap: put together they are the
/// scalars of the proof, in the order they were read.
pub proof fn scalar_blocks_partition(s: Shape, scalars: Seq<Fp>)
    requires
        scalars.len() >= s.min_scalars(),
    ensures
        scalars == block(scalars, 0, s.instance_eval_end()) + block(
            scalars,
            s.instance_eval_end(),
            s.advice_eval_end(),
        ) + block(scalars, s.advice_eval_end(), s.fixed_eval_end()) + block(
            scalars,
            s.fixed_eval_end(),
            s.vanishing_eval_end(),
        ) + block(scalars, s.vanishing_eval_end(), s.permutation_common_end()) + block(
            scalars,
            s.permutation_common_end(),
            s.permutation_set_end(),
        ) + block(scalars, s.permutation_set_end(), s.lookup_eval_end()) + block(
            scalars,
            s.lookup_eval_end(),
            (scalars.len() - 2) as nat,
        ) + block(scalars, (scalars.len() - 2) as nat, scalars.len()),
{
    scalar_blocks_in_order(s);
    lemma_two_blocks(scalars, s.instance_eval_end(), s.advice_eval_end());
    lemma_two_blocks(scalars, s.advice_eval_end(), s.fixed_eval_end());
    lemma_two_blocks(scalars, s.fixed_eval_end(), s.vanishing_eval_end());
    lemma_two_blocks(scalars, s.vanishing_eval_end(), s.permutation_common_end());
    lemma_two_blocks(scalars, s.permutation_common_end(), s.permutation_set_end());
    lemma_two_blocks(scalars, s.permutation_set_end(), s.lookup_eval_end());
    lemma_two_blocks(scalars, s.lookup_eval_end(), (scalars.len() - 2) as nat);
    lemma_two_blocks(scalars, (scalars.len() - 2) as nat, scalars.len());
    assert(scalars.subrange(0, scalars.len() as int) =~= scalars);
}

proof fn lemma_two_blocks<T>(list: Seq<T>, mid: nat, end: nat)
    requires
        mid <= end <= list.len(),
    ensures
        block(list, 0, mid) + block(list, mid, end) == block(list, 0, end),
{
    assert(block(list, 0, mid) + block(list, mid, end) =~= block(list, 0, end));
}

/// The blocks of points end one after the other.
pub proof fn point_blocks_in_order(s: Shape)
    ensures
        0 <= s.advice_end() <= s.lookup_permuted_end() <= s.permutation_end()
            <= s.lookup_product_end() < s.vanishing_end() <= s.quotient_end() < s.multiopen_end()
            < s.ipa_blind_end() <= s.num_points(),
{
    let n = s.num_proofs as nat;
    lemma_double_product(n, s.num_advice_columns as nat, 1);
    lemma_double_product(n, s.num_lookups as nat, 2);
    lemma_double_product(n, s.num_permutation_sets as nat, 1);
}

/// The blocks of scalars end one after the other.
pub proof fn scalar_blocks_in_order(s: Shape)
    ensures
        0 <= s.instance_eval_end() <= s.advice_eval_end() <= s.fixed_eval_end()
            < s.vanishing_eval_end() <= s.permutation_common_end() <= s.permutation_set_end()
            <= s.lookup_eval_end() < s.min_scalars(),
{
    let n = s.num_proofs as nat;
    lemma_double_product(n, s.num_instance_queries as nat, 1);
    lemma_double_product(n, s.num_advice_queries as nat, 1);
    lemma_double_product(n, s.num_lookups as nat, 5);
    lemma_double_product(n, s.set_evals(), 1);
}

} // verus!
