//! The multi-scalar multiplication that a verifier run ends in.

use vstd::prelude::*;

use crate::curve;
use crate::curve::EqAffine;
use crate::field::{Fp, Fq};

verus! {

/// The public parameters of the commitment scheme.
#[derive(Debug)]
pub struct Params {
    /// The logarithm of the number of generators.
    pub k: u32,
    /// The generators.
    pub g: Vec<EqAffine>,
    /// The blinding generator.
    pub w: EqAffine,
    /// The generator of the inner product argument.
    pub u: EqAffine,
}

/// A multi-scalar multiplication over the parameters and further bases.
#[derive(Debug)]
pub struct MSM<'a> {
    /// The parameters.
    pub params: &'a Params,
    /// The coefficients of the generators.
    pub g_scalars: Option<Vec<Fp>>,
    /// The coefficient of the blinding generator.
    pub w_scalar: Option<Fp>,
    /// The coefficient of the generator of the inner product argument.
    pub u_scalar: Option<Fp>,
    /// The further terms: a scalar and the coordinates of its base.
    pub other: Vec<(Fp, Fq, Fq)>,
}

/// The sum of scalar multiples of points; the empty sum is the identity.
pub open spec fn combination(terms: Seq<(nat, Option<(nat, nat)>)>) -> Option<(nat, nat)>
    decreases terms.len(),
{
    if terms.len() == 0 {
        None
    } else {
        curve::vesta_sum(
            combination(terms.drop_last()),
            curve::vesta_multiple(terms.last().1, terms.last().0),
        )
    }
}

/// One term, if there is a coefficient for it.
pub open spec fn optional_term(scalar: Option<Fp>, base: EqAffine) -> Seq<
    (nat, Option<(nat, nat)>),
> {
    match scalar {
        Some(s) => seq![(s@, base@)],
        None => Seq::empty(),
    }
}

impl<'a> MSM<'a> {
    /// The base of a further term.
    pub open spec fn base(self, i: int) -> EqAffine {
        EqAffine::at(self.other@[i].1, self.other@[i].2)
    }

    /// The bases of all further terms.
    pub open spec fn bases(self) -> Seq<EqAffine> {
        Seq::new(self.other@.len(), |i: int| self.base(i))
    }

    /// Whether the base of every further term is a point.
    pub open spec fn bases_valid(self) -> bool {
        forall|i: int|
            0 <= i < self.other@.len() ==> {
                let (_, x, y) = #[trigger] self.other@[i];
                (x@ == 0 && y@ == 0) || curve::on_curve(x@, y@)
            }
    }

    /// Whether no two further terms have one base.
    pub open spec fn bases_distinct(self) -> bool {
        self.bases().no_duplicates()
    }

    /// Whether there is a coefficient for every generator, if there are any.
    pub open spec fn generators_covered(self) -> bool {
        self.g_scalars matches Some(gs) ==> gs@.len() == self.params.g@.len()
    }

    /// The further terms.
    pub open spec fn other_terms(self) -> Seq<(nat, Option<(nat, nat)>)> {
        Seq::new(self.other@.len(), |i: int| (self.other@[i].0@, self.base(i)@))
    }

    /// The terms over the generators.
    pub open spec fn generator_terms(self) -> Seq<(nat, Option<(nat, nat)>)> {
        match self.g_scalars {
            Some(gs) => Seq::new(gs@.len(), |i: int| (gs@[i]@, self.params.g@[i]@)),
            None => Seq::empty(),
        }
    }

    /// All terms.
    pub open spec fn terms(self) -> Seq<(nat, Option<(nat, nat)>)> {
        self.other_terms() + optional_term(self.w_scalar, self.params.w) + optional_term(
            self.u_scalar,
            self.params.u,
        ) + self.generator_terms()
    }

    /// Whether the bases of the further terms are points.
    pub fn are_bases_valid(&self) -> (r: bool)
        ensures
            r == self.bases_valid(),
    {
        let mut i: usize = 0;
        while i < self.other.len()
            invariant
                i <= self.other@.len(),
                forall|j: int|
                    0 <= j < i ==> {
                        let (_, x, y) = #[trigger] self.other@[j];
                        (x@ == 0 && y@ == 0) || curve::on_curve(x@, y@)
                    },
            decreases self.other@.len() - i,
        {
            let (_, x, y) = self.other[i];
            if EqAffine::from_xy(x, y).is_none() {
                assert(self.other@[i as int] == (self.other@[i as int].0, x, y));
                return false;
            }
            i = i + 1;
        }
        true
    }

    /// The bases of the further terms.
    pub fn base_points(&self) -> (r: Vec<EqAffine>)
        requires
            self.bases_valid(),
        ensures
            r@ == self.bases(),
    {
        let mut r: Vec<EqAffine> = Vec::new();
        let mut i: usize = 0;
        while i < self.other.len()
            invariant
                self.bases_valid(),
                i <= self.other@.len(),
                r@ =~= self.bases().take(i as int),
            decreases self.other@.len() - i,
        {
            let (_, x, y) = self.other[i];
            assert(self.other@[i as int].1 == x && self.other@[i as int].2 == y);
            let point = EqAffine::from_xy(x, y).unwrap();
            r.push(point);
            i = i + 1;
        }
        assert(self.bases().take(self.other@.len() as int) =~= self.bases());
        r
    }

    /// Whether no two further terms have one base.
    pub fn are_bases_distinct(&self) -> (r: bool)
        requires
            self.bases_valid(),
        ensures
            r == self.bases_distinct(),
    {
        let bases = self.base_points();
        let mut i: usize = 0;
        while i < bases.len()
            invariant
                bases@ == self.bases(),
                i <= bases@.len(),
                forall|a: int, b: int| 0 <= a < b < i ==> bases@[a] != bases@[b],
            decreases bases@.len() - i,
        {
            let mut j: usize = 0;
            while j < i
                invariant
                    bases@ == self.bases(),
                    j <= i < bases@.len(),
                    forall|a: int| 0 <= a < j ==> bases@[a] != bases@[i as int],
                decreases i - j,
            {
                if curve::same_points(&bases[j], &bases[i]) {
                    return false;
                }
                j = j + 1;
            }
            i = i + 1;
        }
        true
    }

    /// Whether the terms sum to the identity of the group.
    ///
    /// A sum in which every coefficient is zero is the identity.
    pub fn eval(&self) -> (r: bool)
        requires
            self.bases_valid(),
            self.generators_covered(),
        ensures
            r == (combination(self.terms()) is None),
            (forall|i: int| 0 <= i < self.terms().len() ==> (#[trigger] self.terms()[i]).0 == 0)
                ==> r,
    {
        let bases = self.base_points();
        let mut acc = Accumulator::new();
        let mut i: usize = 0;
        while i < self.other.len()
            invariant
                bases@ == self.bases(),
                bases@.len() == self.other@.len(),
                i <= self.other@.len(),
                acc.wf(),
                acc@ =~= self.other_terms().take(i as int),
            decreases self.other@.len() - i,
        {
            acc.push(&self.other[i].0, &bases[i]);
            i = i + 1;
        }
        if let Some(w) = &self.w_scalar {
            acc.push(w, &self.params.w);
        }
        if let Some(u) = &self.u_scalar {
            acc.push(u, &self.params.u);
        }
        let ghost before = acc@;
        assert(before =~= self.other_terms() + optional_term(self.w_scalar, self.params.w)
            + optional_term(self.u_scalar, self.params.u));
        if let Some(gs) = &self.g_scalars {
            let mut j: usize = 0;
            while j < gs.len()
                invariant
                    self.g_scalars == Some(*gs),
                    gs@.len() == self.params.g@.len(),
                    j <= gs@.len(),
                    acc.wf(),
                    acc@ =~= before + self.generator_terms().take(j as int),
                decreases gs@.len() - j,
            {
                acc.push(&gs[j], &self.params.g[j]);
                j = j + 1;
            }
        }
        assert(acc@ =~= self.terms());
        acc.is_identity()
    }
}

/// A sum of scalar multiples in the making.
struct Accumulator {
    sum: EqAffine,
    terms: Ghost<Seq<(nat, Option<(nat, nat)>)>>,
}

impl Accumulator {
    spec fn view(&self) -> Seq<(nat, Option<(nat, nat)>)> {
        self.terms@
    }

    spec fn wf(&self) -> bool {
        &&& self.sum@ == combination(self@)
        &&& (forall|i: int| 0 <= i < self@.len() ==> (#[trigger] self@[i]).0 == 0)
            ==> self.sum@ is None
    }

    fn new() -> (acc: Accumulator)
        ensures
            acc.wf(),
            acc@ == Seq::<(nat, Option<(nat, nat)>)>::empty(),
    {
        Accumulator { sum: EqAffine::identity(), terms: Ghost(Seq::empty()) }
    }

    fn push(&mut self, scalar: &Fp, base: &EqAffine)
        requires
            old(self).wf(),
        ensures
            final(self).wf(),
            final(self)@ == old(self)@.push((scalar@, base@)),
    {
        let ghost before = self@;
        let ghost after = before.push((scalar@, base@));
        let multiple = base.times(scalar);
        self.sum = self.sum.plus(&multiple);
        proof {
            self.terms@ = after;
            assert(after.drop_last() =~= before);
            if forall|i: int| 0 <= i < after.len() ==> (#[trigger] after[i]).0 == 0 {
                assert forall|i: int| 0 <= i < before.len() implies (#[trigger] before[i]).0
                    == 0 by {
                    assert(after[i] == before[i]);
                }
                assert(after[before.len() as int].0 == 0);
            }
        }
    }

    fn is_identity(&self) -> (r: bool)
        requires
            self.wf(),
        ensures
            r == (combination(self@) is None),
            (forall|i: int| 0 <= i < self@.len() ==> (#[trigger] self@[i]).0 == 0) ==> r,
    {
        self.sum.coordinates().is_none()
    }
}

} // verus!
