//! What a captured multi-scalar multiplication consists of, and which commitments of the protocol
//! become its terms.

use vstd::prelude::*;

use crate::circuit::Query;
use crate::curve;
use crate::curve::EqAffine;
use crate::msm;
use crate::msm::MSM;
use crate::slots;

verus! {

/// The empty sum is the identity, and one more term adds the multiple of its own base by its own
/// coefficient.
pub proof fn sums_grow_term_by_term(
    terms: Seq<(nat, Option<(nat, nat)>)>,
    coefficient: nat,
    base: Option<(nat, nat)>,
)
    ensures
        msm::combination(Seq::empty()) is None,
        msm::combination(terms.push((coefficient, base))) == curve::vesta_sum(
            msm::combination(terms),
            curve::vesta_multiple(base, coefficient),
        ),
{
    assert(terms.push((coefficient, base)).drop_last() =~= terms);
}

/// The terms are those of the further bases, then that of the blinding generator, then that of the
/// generator of the inner product argument, then those of the generators, each with its own
/// coefficient.
pub proof fn terms_pair_coefficients_with_bases(msm: MSM, i: int)
    requires
        msm.g_scalars is Some,
        msm.w_scalar is Some,
        msm.u_scalar is Some,
    ensures
        msm.terms().len() == msm.other@.len() + 2 + msm.g_scalars->0@.len(),
        0 <= i < msm.other@.len() ==> {
            let (s, x, y) = msm.other@[i];
            &&& msm.terms()[i].0 == s@
            &&& x@ == 0 && y@ == 0 ==> msm.terms()[i].1 is None
            &&& x@ != 0 || y@ != 0 ==> msm.terms()[i].1 == Some((x@, y@))
        },
        msm.terms()[msm.other@.len() as int] == (msm.w_scalar->0@, msm.params.w@),
        msm.terms()[(msm.other@.len() + 1) as int] == (msm.u_scalar->0@, msm.params.u@),
        0 <= i < msm.g_scalars->0@.len() ==> msm.terms()[msm.other@.len() + 2 + i] == (
            msm.g_scalars->0@[i]@,
            msm.params.g@[i]@,
        ),
{
    if 0 <= i < msm.other@.len() {
        EqAffine::point_at_coordinates(msm.other@[i].1, msm.other@[i].2);
    }
}

/// Where a coefficient is missing there is no term for it, and the other terms keep their order.
pub proof fn missing_coefficients_have_no_terms(msm: MSM, i: int)
    ensures
        0 <= i < msm.other@.len() ==> {
            let (s, x, y) = msm.other@[i];
            &&& msm.terms()[i].0 == s@
            &&& x@ == 0 && y@ == 0 ==> msm.terms()[i].1 is None
            &&& x@ != 0 || y@ != 0 ==> msm.terms()[i].1 == Some((x@, y@))
        },
        msm.w_scalar matches Some(w) ==> msm.terms()[msm.other@.len() as int] == (
            w@,
            msm.params.w@,
        ),
        msm.w_scalar is None ==> (msm.u_scalar matches Some(u) ==> msm.terms()[(
        msm.other@.len()) as int] == (u@, msm.params.u@)),
        msm.g_scalars matches Some(gs) ==> (0 <= i < gs@.len() ==> msm.terms()[msm.terms().len()
            - gs@.len() + i] == (gs@[i]@, msm.params.g@[i]@)),
        msm.terms().len() == msm.other@.len() + (if msm.w_scalar is Some {
            1nat
        } else {
            0
        }) + (if msm.u_scalar is Some {
            1nat
        } else {
            0
        }) + (match msm.g_scalars {
            Some(gs) => gs@.len(),
            None => 0,
        }),
{
    if 0 <= i < msm.other@.len() {
        EqAffine::point_at_coordinates(msm.other@[i].1, msm.other@[i].2);
    }
}

/// A validated point has canonical coordinates that satisfy the curve equation, or is the identity;
/// a list is validated if every point of it is.
pub proof fn validated_points_are_on_the_curve(p: Option<(nat, nat)>, list: Seq<EqAffine>)
    ensures
        curve::is_point(p) <==> (p matches Some((x, y)) ==> {
            &&& x < crate::field::base_modulus()
            &&& y < crate::field::base_modulus()
            &&& curve::on_curve(x, y)
        }),
        crate::points::all_on_curve(list) <==> forall|i: int|
            0 <= i < list.len() ==> curve::is_point((#[trigger] list[i])@),
{
}

/// The base of a further term has the coordinates of the term; a base is valid if and only if
/// these are on the curve or both zero.
pub proof fn bases_have_the_coordinates(msm: MSM, i: int)
    requires
        0 <= i < msm.other@.len(),
    ensures
        msm.bases().len() == msm.other@.len(),
        msm.bases()[i]@ == (if msm.other@[i].1@ == 0 && msm.other@[i].2@ == 0 {
            None
        } else {
            Some((msm.other@[i].1@, msm.other@[i].2@))
        }),
        msm.bases_valid() ==> (msm.other@[i].1@ == 0 && msm.other@[i].2@ == 0) || curve::on_curve(
            msm.other@[i].1@,
            msm.other@[i].2@,
        ),
{
    EqAffine::point_at_coordinates(msm.other@[i].1, msm.other@[i].2);
    if msm.bases_valid() {
        let t = msm.other@[i];
    }
}

/// A point is on the curve if and only if its coordinates satisfy the curve equation.
pub proof fn curve_equation(x: nat, y: nat)
    ensures
        curve::on_curve(x, y) <==> (y * y - x * x * x - 5) % (crate::field::base_modulus() as int)
            == 0,
{
    let m = crate::field::base_modulus() as int;
    let (a, b) = ((y * y) as int, (x * x * x + 5) as int);
    vstd::arithmetic::div_mod::lemma_mod_equivalence(a, b, m);
    assert(a - b == y * y - x * x * x - 5);
}

/// Whether a list holds the point of a queried column, counted from an offset.
pub open spec fn queried_at(
    points: Seq<EqAffine>,
    offset: int,
    queries: Seq<Query>,
    p: EqAffine,
) -> bool {
    exists|i: int|
        0 <= i < queries.len() && p == points[offset + (#[trigger] queries[i]).column]
}

/// The picked points are those of the queried columns, and one for each distinct column.
pub proof fn picked_points_are_queried(points: Seq<EqAffine>, offset: int, queries: Seq<Query>)
    ensures
        slots::picked(points, offset, slots::queried_columns(queries)).len()
            == slots::queried_columns(queries).len(),
        forall|p: EqAffine| #[trigger]
            slots::picked(points, offset, slots::queried_columns(queries)).contains(p)
                <==> queried_at(points, offset, queries, p),
{
    let columns = slots::queried_columns(queries);
    let list = slots::picked(points, offset, columns);
    slots::queried_columns_are_sorted(queries);
    assert forall|p: EqAffine| #[trigger] list.contains(p) <==> queried_at(
        points,
        offset,
        queries,
        p,
    ) by {
        if list.contains(p) {
            let j = choose|j: int| 0 <= j < list.len() && list[j] == p;
            assert(columns.contains(columns[j]));
            let i = choose|i: int|
                0 <= i < queries.len() && (#[trigger] queries[i]).column == columns[j];
            assert(p == points[offset + queries[i].column]);
        }
        if queried_at(points, offset, queries, p) {
            let i = choose|i: int|
                0 <= i < queries.len() && p == points[offset + (#[trigger] queries[i]).column];
            assert(columns.contains(queries[i].column));
            let j = choose|j: int| 0 <= j < columns.len() && columns[j] == queries[i].column;
            assert(list[j] == p);
        }
    }
}

/// Two lists put together hold what either holds.
pub proof fn joined_lists_hold(a: Seq<EqAffine>, b: Seq<EqAffine>, p: EqAffine)
    ensures
        (a + b).contains(p) <==> a.contains(p) || b.contains(p),
{
    if a.contains(p) {
        let i = choose|i: int| 0 <= i < a.len() && a[i] == p;
        assert((a + b)[i] == p);
    }
    if b.contains(p) {
        let i = choose|i: int| 0 <= i < b.len() && b[i] == p;
        assert((a + b)[a.len() + i] == p);
    }
}

/// Whether one of the first proofs has a point in the queried columns.
pub open spec fn queried_in_proofs(
    points: Seq<EqAffine>,
    width: nat,
    queries: Seq<Query>,
    n: nat,
    p: EqAffine,
) -> bool {
    exists|r: nat| r < n && #[trigger] queried_at(points, (r * width) as int, queries, p)
}

/// The slots of the proofs are the instance and advice commitments of each proof in its queried
/// columns, one for each proof and distinct column.
pub proof fn proof_slots_are_queried(
    instance: Seq<EqAffine>,
    instance_width: nat,
    instance_queries: Seq<Query>,
    advice: Seq<EqAffine>,
    advice_width: nat,
    advice_queries: Seq<Query>,
    n: nat,
)
    ensures
        ({
            let (ic, ac) = (
                slots::queried_columns(instance_queries),
                slots::queried_columns(advice_queries),
            );
            let all = slots::proof_slots(
                instance,
                instance_width,
                ic,
                advice,
                advice_width,
                ac,
                n,
            );
            &&& all.len() == n * (ic.len() + ac.len())
            &&& forall|p: EqAffine| #[trigger]
                all.contains(p) <==> queried_in_proofs(
                    instance,
                    instance_width,
                    instance_queries,
                    n,
                    p,
                ) || queried_in_proofs(advice, advice_width, advice_queries, n, p)
        }),
    decreases n,
{
    let (ic, ac) = (
        slots::queried_columns(instance_queries),
        slots::queried_columns(advice_queries),
    );
    let all = slots::proof_slots(instance, instance_width, ic, advice, advice_width, ac, n);
    if n > 0 {
        let r = (n - 1) as nat;
        proof_slots_are_queried(
            instance,
            instance_width,
            instance_queries,
            advice,
            advice_width,
            advice_queries,
            r,
        );
        let earlier = slots::proof_slots(
            instance,
            instance_width,
            ic,
            advice,
            advice_width,
            ac,
            r,
        );
        let (io, ao) = ((r * instance_width) as int, (r * advice_width) as int);
        picked_points_are_queried(instance, io, instance_queries);
        picked_points_are_queried(advice, ao, advice_queries);
        let (pi, pa) = (slots::picked(instance, io, ic), slots::picked(advice, ao, ac));
        let w = ic.len() + ac.len();
        assert((r + 1) * w == r * w + w) by (nonlinear_arith);
        assert forall|p: EqAffine| #[trigger] all.contains(p) <==> queried_in_proofs(
            instance,
            instance_width,
            instance_queries,
            n,
            p,
        ) || queried_in_proofs(advice, advice_width, advice_queries, n, p) by {
            joined_lists_hold(earlier, pi, p);
            joined_lists_hold(earlier + pi, pa, p);
            lemma_one_more(instance, instance_width, instance_queries, r, p);
            lemma_one_more(advice, advice_width, advice_queries, r, p);
        }
    } else {
        let w = ic.len() + ac.len();
        assert(0 * w == 0) by (nonlinear_arith);
    }
}

proof fn lemma_one_more(
    points: Seq<EqAffine>,
    width: nat,
    queries: Seq<Query>,
    r: nat,
    p: EqAffine,
)
    ensures
        queried_in_proofs(points, width, queries, r + 1, p) <==> queried_in_proofs(
            points,
            width,
            queries,
            r,
            p,
        ) || queried_at(points, (r * width) as int, queries, p),
{
    if queried_in_proofs(points, width, queries, r, p) {
        let q = choose|q: nat|
            q < r && #[trigger] queried_at(points, (q * width) as int, queries, p);
        assert(queried_at(points, (q * width) as int, queries, p));
    }
}

/// No multiple of a point at all is the identity, and one more of it adds the point.
pub proof fn multiples_grow_one_by_one(p: Option<(nat, nat)>, n: nat)
    ensures
        curve::vesta_multiple(p, 0) is None,
        curve::vesta_multiple(p, n + 1) == curve::vesta_sum(curve::vesta_multiple(p, n), p),
{
}

/// Commitments are distinct if and only if any two slots hold different points and no slot holds
/// the identity.
pub proof fn distinct_commitments_differ(list: Seq<EqAffine>)
    ensures
        slots::commitments_distinct(list) <==> {
            &&& forall|i: int, j: int|
                0 <= i < j < list.len() ==> #[trigger] list[i] != #[trigger] list[j]
            &&& forall|i: int| 0 <= i < list.len() ==> (#[trigger] list[i])@ != None::<(nat, nat)>
        },
{
    if slots::commitments_distinct(list) {
        assert forall|i: int, j: int| 0 <= i < j < list.len() implies #[trigger] list[i]
            != #[trigger] list[j] by {}
    }
}

} // verus!
