//! The commitment slots of the protocol, held against the bases of the captured multi-scalar
//! multiplication.

use vstd::prelude::*;

use crate::circuit::Query;
use crate::curve;
use crate::curve::EqAffine;
use crate::points;

verus! {

/// An increasing list of columns with one more column in it.
pub open spec fn with_column(columns: Seq<usize>, column: usize) -> Seq<usize>
    decreases columns.len(),
{
    if columns.len() == 0 || columns.last() < column {
        columns.push(column)
    } else if columns.last() == column {
        columns
    } else {
        with_column(columns.drop_last(), column).push(columns.last())
    }
}

/// The columns that a layout queries, each once, in increasing order.
pub open spec fn queried_columns(queries: Seq<Query>) -> Seq<usize>
    decreases queries.len(),
{
    if queries.len() == 0 {
        Seq::empty()
    } else {
        with_column(queried_columns(queries.drop_last()), queries.last().column)
    }
}

/// Whether a list of columns is strictly increasing.
pub open spec fn increasing(columns: Seq<usize>) -> bool {
    forall|i: int, j: int| 0 <= i < j < columns.len() ==> columns[i] < columns[j]
}

proof fn lemma_with_column(columns: Seq<usize>, column: usize)
    requires
        increasing(columns),
    ensures
        increasing(with_column(columns, column)),
        forall|c: usize| #[trigger]
            with_column(columns, column).contains(c) <==> columns.contains(c) || c == column,
    decreases columns.len(),
{
    let after = with_column(columns, column);
    if columns.len() == 0 || columns.last() < column {
        assert(after[columns.len() as int] == column);
        assert forall|c: usize| #[trigger] after.contains(c) <==> columns.contains(c) || c
            == column by {
            if columns.contains(c) {
                let i = choose|i: int| 0 <= i < columns.len() && columns[i] == c;
                assert(after[i] == c);
            }
        }
    } else if columns.last() == column {
        assert(columns[columns.len() - 1] == column);
    } else {
        let shorter = columns.drop_last();
        let inner = with_column(shorter, column);
        lemma_with_column(shorter, column);
        assert forall|c: usize| inner.contains(c) implies c < columns.last() by {
            if shorter.contains(c) {
                let i = choose|i: int| 0 <= i < shorter.len() && shorter[i] == c;
                assert(columns[i] == c);
            }
        }
        assert forall|i: int, j: int| 0 <= i < j < after.len() implies after[i] < after[j] by {
            if j == after.len() - 1 {
                assert(inner.contains(inner[i]));
            }
        }
        assert forall|c: usize| #[trigger] after.contains(c) <==> columns.contains(c) || c
            == column by {
            if after.contains(c) {
                let i = choose|i: int| 0 <= i < after.len() && after[i] == c;
                if i < inner.len() {
                    assert(inner.contains(c));
                    if shorter.contains(c) {
                        let j = choose|j: int| 0 <= j < shorter.len() && shorter[j] == c;
                        assert(columns[j] == c);
                    }
                } else {
                    assert(columns[columns.len() - 1] == c);
                }
            }
            if columns.contains(c) || c == column {
                if columns.contains(c) && c != column {
                    let i = choose|i: int| 0 <= i < columns.len() && columns[i] == c;
                    if i < shorter.len() {
                        assert(shorter[i] == c);
                        assert(inner.contains(c));
                    } else {
                        assert(after[inner.len() as int] == c);
                    }
                } else {
                    assert(inner.contains(c));
                }
                if inner.contains(c) {
                    let i = choose|i: int| 0 <= i < inner.len() && inner[i] == c;
                    assert(after[i] == c);
                }
            }
        }
    }
}

/// The list of queried columns is strictly increasing and holds the queried columns, no others.
pub proof fn queried_columns_are_sorted(queries: Seq<Query>)
    ensures
        increasing(queried_columns(queries)),
        forall|c: usize| #[trigger]
            queried_columns(queries).contains(c) <==> exists|i: int|
                0 <= i < queries.len() && (#[trigger] queries[i]).column == c,
    decreases queries.len(),
{
    let all = queried_columns(queries);
    if queries.len() > 0 {
        let shorter = queries.drop_last();
        queried_columns_are_sorted(shorter);
        lemma_with_column(queried_columns(shorter), queries.last().column);
        assert forall|c: usize| #[trigger] all.contains(c) <==> exists|i: int|
            0 <= i < queries.len() && (#[trigger] queries[i]).column == c by {
            if all.contains(c) {
                if queried_columns(shorter).contains(c) {
                    let i = choose|i: int|
                        0 <= i < shorter.len() && (#[trigger] shorter[i]).column == c;
                    assert(queries[i].column == c);
                } else {
                    assert(queries[queries.len() - 1].column == c);
                }
            }
            if exists|i: int| 0 <= i < queries.len() && (#[trigger] queries[i]).column == c {
                let i = choose|i: int|
                    0 <= i < queries.len() && (#[trigger] queries[i]).column == c;
                if i < shorter.len() {
                    assert(shorter[i].column == c);
                    assert(queried_columns(shorter).contains(c));
                }
            }
        }
    }
}

fn insert_column(columns: &mut Vec<usize>, column: usize)
    ensures
        final(columns)@ == with_column(old(columns)@, column),
{
    let ghost start = columns@;
    let mut i: usize = columns.len();
    assert(start.take(i as int) =~= start);
    assert(start.skip(i as int) =~= Seq::empty());
    while i > 0 && columns[i - 1] > column
        invariant
            columns@ == start,
            i <= start.len(),
            with_column(start, column) =~= with_column(start.take(i as int), column) + start.skip(
                i as int,
            ),
        decreases i,
    {
        proof {
            let part = start.take(i as int);
            assert(part.drop_last() =~= start.take(i - 1));
            assert(start.skip(i - 1) =~= seq![part.last()] + start.skip(i as int));
        }
        i = i - 1;
    }
    let ghost part = start.take(i as int);
    if i > 0 && columns[i - 1] == column {
        assert(part.last() == column);
        assert(part + start.skip(i as int) =~= start);
    } else {
        columns.insert(i, column);
        assert(columns@ =~= part.push(column) + start.skip(i as int));
    }
}

/// The columns that a layout queries, each once, in increasing order.
pub fn distinct_columns(queries: &Vec<Query>) -> (columns: Vec<usize>)
    ensures
        columns@ == queried_columns(queries@),
{
    let mut columns: Vec<usize> = Vec::new();
    let mut i: usize = 0;
    assert(queries@.take(0) =~= Seq::empty());
    while i < queries.len()
        invariant
            i <= queries@.len(),
            columns@ == queried_columns(queries@.take(i as int)),
        decreases queries@.len() - i,
    {
        assert(queries@.take(i + 1).drop_last() =~= queries@.take(i as int));
        insert_column(&mut columns, queries[i].column);
        i = i + 1;
    }
    assert(queries@.take(queries@.len() as int) =~= queries@);
    columns
}

/// Whether a layout queries only columns below a bound.
pub open spec fn columns_below(queries: Seq<Query>, bound: nat) -> bool {
    forall|i: int| 0 <= i < queries.len() ==> (#[trigger] queries[i]).column < bound
}

/// Whether a layout queries only columns below a bound.
pub fn are_columns_below(queries: &Vec<Query>, bound: usize) -> (r: bool)
    ensures
        r == columns_below(queries@, bound as nat),
{
    let mut i: usize = 0;
    while i < queries.len()
        invariant
            i <= queries@.len(),
            forall|j: int| 0 <= j < i ==> (#[trigger] queries@[j]).column < bound,
        decreases queries@.len() - i,
    {
        if queries[i].column >= bound {
            return false;
        }
        i = i + 1;
    }
    true
}

/// The points of some columns in a list that holds one point for each column, from an offset on.
pub open spec fn picked(points: Seq<EqAffine>, offset: int, columns: Seq<usize>) -> Seq<EqAffine> {
    columns.map_values(|c: usize| points[offset + c])
}

/// The instance and advice slots of the first `n` proofs, proof after proof.
pub open spec fn proof_slots(
    instance: Seq<EqAffine>,
    instance_width: nat,
    instance_columns: Seq<usize>,
    advice: Seq<EqAffine>,
    advice_width: nat,
    advice_columns: Seq<usize>,
    n: nat,
) -> Seq<EqAffine>
    decreases n,
{
    if n == 0 {
        Seq::empty()
    } else {
        let p = (n - 1) as nat;
        proof_slots(
            instance,
            instance_width,
            instance_columns,
            advice,
            advice_width,
            advice_columns,
            p,
        ) + picked(instance, (p * instance_width) as int, instance_columns) + picked(
            advice,
            (p * advice_width) as int,
            advice_columns,
        )
    }
}

fn push_picked(
    out: &mut Vec<EqAffine>,
    points: &[EqAffine],
    offset: usize,
    width: usize,
    columns: &Vec<usize>,
)
    requires
        offset + width <= points@.len(),
        forall|i: int| 0 <= i < columns@.len() ==> #[trigger] columns@[i] < width,
    ensures
        final(out)@ == old(out)@ + picked(points@, offset as int, columns@),
{
    let ghost start = out@;
    let ghost all = picked(points@, offset as int, columns@);
    let mut i: usize = 0;
    assert(start + all.take(0) =~= start);
    while i < columns.len()
        invariant
            offset + width <= points@.len(),
            forall|i: int| 0 <= i < columns@.len() ==> #[trigger] columns@[i] < width,
            i <= columns@.len(),
            all == picked(points@, offset as int, columns@),
            out@ == start + all.take(i as int),
        decreases columns@.len() - i,
    {
        let column: usize = columns[i];
        assert(offset + column < points.len());
        out.push(points[offset + column]);
        i = i + 1;
        assert(all.take(i as int) =~= all.take(i - 1).push(all[i - 1]));
        assert(out@ =~= start + all.take(i as int));
    }
    assert(all.take(columns@.len() as int) =~= all);
}

/// The points of the queried columns in a list that holds one point for each column.
pub fn collect_picked(points: &[EqAffine], queries: &Vec<Query>) -> (r: Vec<EqAffine>)
    requires
        columns_below(queries@, points@.len()),
    ensures
        r@ == picked(points@, 0, queried_columns(queries@)),
{
    let columns = distinct_columns(queries);
    proof {
        queried_columns_are_sorted(queries@);
        assert forall|i: int| 0 <= i < columns@.len() implies #[trigger] columns@[i]
            < points@.len() by {
            assert(columns@.contains(columns@[i]));
        }
    }
    let mut r: Vec<EqAffine> = Vec::new();
    push_picked(&mut r, points, 0, points.len(), &columns);
    assert(r@ =~= picked(points@, 0, columns@));
    r
}

/// The instance and advice slots of all proofs, proof after proof.
pub fn collect_proof_slots(
    instance: &[EqAffine],
    instance_width: usize,
    instance_queries: &Vec<Query>,
    advice: &[EqAffine],
    advice_width: usize,
    advice_queries: &Vec<Query>,
    num_proofs: usize,
) -> (slots: Vec<EqAffine>)
    requires
        instance@.len() == num_proofs as nat * instance_width as nat,
        advice@.len() == num_proofs as nat * advice_width as nat,
        num_proofs > 0 ==> columns_below(instance_queries@, instance_width as nat),
        num_proofs > 0 ==> columns_below(advice_queries@, advice_width as nat),
    ensures
        slots@ == proof_slots(
            instance@,
            instance_width as nat,
            queried_columns(instance_queries@),
            advice@,
            advice_width as nat,
            queried_columns(advice_queries@),
            num_proofs as nat,
        ),
{
    let instance_columns = distinct_columns(instance_queries);
    let advice_columns = distinct_columns(advice_queries);
    proof {
        queried_columns_are_sorted(instance_queries@);
        queried_columns_are_sorted(advice_queries@);
        assert forall|i: int| num_proofs > 0 && 0 <= i < instance_columns@.len() implies (
        #[trigger] instance_columns@[i]) < instance_width by {
            assert(instance_columns@.contains(instance_columns@[i]));
        }
        assert forall|i: int| num_proofs > 0 && 0 <= i < advice_columns@.len() implies (
        #[trigger] advice_columns@[i]) < advice_width by {
            assert(advice_columns@.contains(advice_columns@[i]));
        }
    }
    let mut slots: Vec<EqAffine> = Vec::new();
    let mut instance_offset: usize = 0;
    let mut advice_offset: usize = 0;
    let mut p: usize = 0;
    while p < num_proofs
        invariant
            instance@.len() == num_proofs as nat * instance_width as nat,
            advice@.len() == num_proofs as nat * advice_width as nat,
            forall|i: int|
                num_proofs > 0 && 0 <= i < instance_columns@.len() ==> (
                #[trigger] instance_columns@[i]) < instance_width,
            forall|i: int|
                num_proofs > 0 && 0 <= i < advice_columns@.len() ==> (
                #[trigger] advice_columns@[i]) < advice_width,
            p <= num_proofs,
            p < num_proofs ==> instance_offset == p as nat * instance_width as nat,
            p < num_proofs ==> advice_offset == p as nat * advice_width as nat,
            slots@ == proof_slots(
                instance@,
                instance_width as nat,
                instance_columns@,
                advice@,
                advice_width as nat,
                advice_columns@,
                p as nat,
            ),
        decreases num_proofs - p,
    {
        proof {
            lemma_next_offset(p as nat, num_proofs as nat, instance_width as nat);
            lemma_next_offset(p as nat, num_proofs as nat, advice_width as nat);
        }
        assert(instance@.len() == instance.len() && advice@.len() == advice.len());
        push_picked(&mut slots, instance, instance_offset, instance_width, &instance_columns);
        push_picked(&mut slots, advice, advice_offset, advice_width, &advice_columns);
        instance_offset = instance_offset + instance_width;
        advice_offset = advice_offset + advice_width;
        p = p + 1;
    }
    slots
}

proof fn lemma_next_offset(p: nat, n: nat, width: nat)
    requires
        p < n,
    ensures
        (p + 1) * width == p * width + width,
        p * width + width <= n * width,
{
    assert((p + 1) * width == p * width + width) by (nonlinear_arith);
    assert((p + 1) * width <= n * width) by (nonlinear_arith)
        requires
            p + 1 <= n,
    ;
}

proof fn lemma_picked_are_held(
    table: Seq<EqAffine>,
    points: Seq<EqAffine>,
    offset: int,
    width: nat,
    queries: Seq<Query>,
)
    requires
        points::holds_all(table, points),
        0 <= offset,
        offset + width <= points.len(),
        columns_below(queries, width),
    ensures
        points::holds_all(table, picked(points, offset, queried_columns(queries))),
{
    let columns = queried_columns(queries);
    let list = picked(points, offset, columns);
    queried_columns_are_sorted(queries);
    assert forall|i: int| 0 <= i < list.len() implies table.contains(#[trigger] list[i]) by {
        assert(columns.contains(columns[i]));
        assert(list[i] == points[offset + columns[i]]);
    }
}

/// The points of queried columns come from the list of the columns.
pub proof fn picked_are_held(table: Seq<EqAffine>, points: Seq<EqAffine>, queries: Seq<Query>)
    requires
        points::holds_all(table, points),
        columns_below(queries, points.len()),
    ensures
        points::holds_all(table, picked(points, 0, queried_columns(queries))),
{
    lemma_picked_are_held(table, points, 0, points.len(), queries);
}

/// The instance and advice slots of proofs come from the instance and advice commitments.
pub proof fn proof_slots_are_held(
    table: Seq<EqAffine>,
    instance: Seq<EqAffine>,
    instance_width: nat,
    instance_queries: Seq<Query>,
    advice: Seq<EqAffine>,
    advice_width: nat,
    advice_queries: Seq<Query>,
    n: nat,
)
    requires
        points::holds_all(table, instance),
        points::holds_all(table, advice),
        instance.len() >= n * instance_width,
        advice.len() >= n * advice_width,
        n > 0 ==> columns_below(instance_queries, instance_width),
        n > 0 ==> columns_below(advice_queries, advice_width),
    ensures
        points::holds_all(
            table,
            proof_slots(
                instance,
                instance_width,
                queried_columns(instance_queries),
                advice,
                advice_width,
                queried_columns(advice_queries),
                n,
            ),
        ),
    decreases n,
{
    if n > 0 {
        let p = (n - 1) as nat;
        let (ic, ac) = (queried_columns(instance_queries), queried_columns(advice_queries));
        lemma_next_offset(p, n, instance_width);
        lemma_next_offset(p, n, advice_width);
        proof_slots_are_held(
            table,
            instance,
            instance_width,
            instance_queries,
            advice,
            advice_width,
            advice_queries,
            p,
        );
        let earlier = proof_slots(instance, instance_width, ic, advice, advice_width, ac, p);
        let (io, ao) = (p * instance_width, p * advice_width);
        lemma_picked_are_held(table, instance, io as int, instance_width, instance_queries);
        lemma_picked_are_held(table, advice, ao as int, advice_width, advice_queries);
        let own = picked(instance, io as int, ic);
        points::holds_concatenation(table, earlier, own);
        points::holds_concatenation(table, earlier + own, picked(advice, ao as int, ac));
    }
}

/// Whether the bases are exactly the points in the slots, leaving out the identity.
pub open spec fn slots_match_bases(slots: Seq<EqAffine>, bases: Seq<EqAffine>) -> bool {
    forall|p: EqAffine| #[trigger] bases.contains(p) <==> slots.contains(p) && p@ is Some
}

/// Whether no two slots share a commitment, and none holds the identity.
pub open spec fn commitments_distinct(slots: Seq<EqAffine>) -> bool {
    &&& slots.no_duplicates()
    &&& forall|i: int| 0 <= i < slots.len() ==> (#[trigger] slots[i])@ is Some
}

fn holds_point(list: &Vec<EqAffine>, point: &EqAffine) -> (r: bool)
    ensures
        r == list@.contains(*point),
{
    let mut i: usize = 0;
    while i < list.len()
        invariant
            i <= list@.len(),
            forall|j: int| 0 <= j < i ==> list@[j] != *point,
        decreases list@.len() - i,
    {
        if curve::same_points(&list[i], point) {
            return true;
        }
        i = i + 1;
    }
    false
}

/// Whether the bases are exactly the points in the slots, leaving out the identity.
pub fn do_slots_match_bases(slots: &Vec<EqAffine>, bases: &Vec<EqAffine>) -> (r: bool)
    ensures
        r == slots_match_bases(slots@, bases@),
{
    let mut i: usize = 0;
    while i < slots.len()
        invariant
            i <= slots@.len(),
            forall|j: int|
                0 <= j < i && (#[trigger] slots@[j])@ is Some ==> bases@.contains(slots@[j]),
        decreases slots@.len() - i,
    {
        if slots[i].coordinates().is_some() && !holds_point(bases, &slots[i]) {
            assert(slots@.contains(slots@[i as int]));
            return false;
        }
        i = i + 1;
    }
    let mut i: usize = 0;
    while i < bases.len()
        invariant
            forall|j: int|
                0 <= j < slots@.len() && (#[trigger] slots@[j])@ is Some ==> bases@.contains(
                    slots@[j],
                ),
            i <= bases@.len(),
            forall|j: int|
                0 <= j < i ==> (#[trigger] bases@[j])@ is Some && slots@.contains(bases@[j]),
        decreases bases@.len() - i,
    {
        if bases[i].coordinates().is_none() || !holds_point(slots, &bases[i]) {
            assert(bases@.contains(bases@[i as int]));
            return false;
        }
        i = i + 1;
    }
    true
}

/// Where as many bases were captured as there are slots, no two slots share a point and none
/// holds the identity: nothing was merged and nothing was dropped.
pub proof fn nothing_was_collapsed(slots: Seq<EqAffine>, bases: Seq<EqAffine>)
    requires
        bases.no_duplicates(),
        slots_match_bases(slots, bases),
        slots.len() == bases.len(),
    ensures
        commitments_distinct(slots),
{
    let (s, b) = (slots.to_set(), bases.to_set());
    bases.unique_seq_to_set();
    slots.lemma_cardinality_of_set();
    assert(b.subset_of(s)) by {
        assert forall|p: EqAffine| b.contains(p) implies s.contains(p) by {
            assert(bases.contains(p));
        }
    }
    vstd::seq_lib::seq_to_set_is_finite(slots);
    vstd::seq_lib::seq_to_set_is_finite(bases);
    vstd::set_lib::lemma_len_subset(b, s);
    vstd::set_lib::lemma_subset_equality(b, s);
    slots.lemma_no_dup_set_cardinality();
    assert forall|i: int| 0 <= i < slots.len() implies (#[trigger] slots[i])@ is Some by {
        assert(s.contains(slots[i]));
        assert(bases.contains(slots[i]));
    }
}

/// Where two slots share a point, or a slot holds the identity, fewer bases are captured than
/// there are slots.
pub proof fn collapse_is_noticed(slots: Seq<EqAffine>, bases: Seq<EqAffine>)
    requires
        bases.no_duplicates(),
        slots_match_bases(slots, bases),
        !commitments_distinct(slots),
    ensures
        bases.len() < slots.len(),
{
    let (s, b) = (slots.to_set(), bases.to_set());
    bases.unique_seq_to_set();
    slots.lemma_cardinality_of_set();
    assert(b.subset_of(s)) by {
        assert forall|p: EqAffine| b.contains(p) implies s.contains(p) by {
            assert(bases.contains(p));
        }
    }
    vstd::seq_lib::seq_to_set_is_finite(slots);
    vstd::set_lib::lemma_len_subset(b, s);
    if slots.len() == bases.len() {
        nothing_was_collapsed(slots, bases);
    }
}

} // verus!
