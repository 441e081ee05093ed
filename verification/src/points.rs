//! The table of distinct points that a fixture refers to by number.

use vstd::prelude::*;
use vstd::string::*;

use crate::curve;
use crate::curve::EqAffine;
use crate::field;
use crate::text;

verus! {

/// A table after a point was looked up in it: a point that it lacks is added at its end.
pub open spec fn interned(table: Seq<EqAffine>, point: EqAffine) -> Seq<EqAffine> {
    if table.contains(point) {
        table
    } else {
        table.push(point)
    }
}

/// A table after a list of points was looked up in it, one after the other.
pub open spec fn interned_all(table: Seq<EqAffine>, points: Seq<EqAffine>) -> Seq<EqAffine>
    decreases points.len(),
{
    if points.len() == 0 {
        table
    } else {
        interned(interned_all(table, points.drop_last()), points.last())
    }
}

/// The number of a point in a table that holds it.
pub open spec fn position(table: Seq<EqAffine>, point: EqAffine) -> nat
    decreases table.len(),
{
    if table.len() == 0 || table[0] == point {
        0
    } else {
        1 + position(table.drop_first(), point)
    }
}

/// The Lean term for a point of the table.
pub open spec fn ref_text(table: Seq<EqAffine>, point: EqAffine) -> Seq<char> {
    "capturedPoint "@ + text::decimal(position(table, point))
}

/// The Lean terms for a list of points of the table.
pub open spec fn ref_texts(table: Seq<EqAffine>, points: Seq<EqAffine>) -> Seq<Seq<char>> {
    points.map_values(|p: EqAffine| ref_text(table, p))
}

/// The Lean literal for the coordinates of a point, `(0, 0)` for the identity.
pub open spec fn coordinates_text(point: EqAffine) -> Seq<char> {
    match point@ {
        Some((x, y)) => "("@ + field::field_text("mkFq"@, x) + ", "@ + field::field_text(
            "mkFq"@,
            y,
        ) + ")"@,
        None => "(0, 0)"@,
    }
}

/// The Lean literals for the coordinates of all points of the table.
pub open spec fn coordinate_texts(table: Seq<EqAffine>) -> Seq<Seq<char>> {
    table.map_values(|p: EqAffine| coordinates_text(p))
}

/// Whether the coordinates of every point of a list are canonical and on the curve.
pub open spec fn all_on_curve(points: Seq<EqAffine>) -> bool {
    forall|i: int| 0 <= i < points.len() ==> curve::is_point((#[trigger] points[i])@)
}

/// Whether a table holds all points of a list.
pub open spec fn holds_all(table: Seq<EqAffine>, points: Seq<EqAffine>) -> bool {
    forall|i: int| 0 <= i < points.len() ==> table.contains(#[trigger] points[i])
}

/// A table holds two lists put together if and only if it holds both.
pub proof fn holds_concatenation(table: Seq<EqAffine>, a: Seq<EqAffine>, b: Seq<EqAffine>)
    ensures
        holds_all(table, a + b) <==> holds_all(table, a) && holds_all(table, b),
{
    if holds_all(table, a + b) {
        assert forall|i: int| 0 <= i < a.len() implies table.contains(#[trigger] a[i]) by {
            assert((a + b)[i] == a[i]);
        }
        assert forall|i: int| 0 <= i < b.len() implies table.contains(#[trigger] b[i]) by {
            assert((a + b)[a.len() + i] == b[i]);
        }
    }
}

/// Looking up points that a table holds leaves it as it is.
pub proof fn known_points_change_nothing(table: Seq<EqAffine>, points: Seq<EqAffine>)
    requires
        holds_all(table, points),
    ensures
        interned_all(table, points) == table,
    decreases points.len(),
{
    if points.len() > 0 {
        known_points_change_nothing(table, points.drop_last());
        assert(table.contains(points[points.len() - 1]));
    }
}

/// Looking up two lists put together is looking up the one and then the other.
pub proof fn interning_in_parts(table: Seq<EqAffine>, a: Seq<EqAffine>, b: Seq<EqAffine>)
    ensures
        interned_all(table, a + b) == interned_all(interned_all(table, a), b),
    decreases b.len(),
{
    if b.len() > 0 {
        interning_in_parts(table, a, b.drop_last());
        assert((a + b).drop_last() =~= a + b.drop_last());
    } else {
        assert(a + b =~= a);
    }
}

/// Looking up points keeps the table free of repeats, keeps what it held where it was, and adds
/// the points looked up and nothing else.
pub proof fn interning_keeps_the_table(table: Seq<EqAffine>, points: Seq<EqAffine>)
    requires
        table.no_duplicates(),
    ensures
        interned_all(table, points).no_duplicates(),
        table.is_prefix_of(interned_all(table, points)),
        forall|p: EqAffine| #[trigger]
            interned_all(table, points).contains(p) <==> table.contains(p) || points.contains(p),
    decreases points.len(),
{
    if points.len() > 0 {
        let before = interned_all(table, points.drop_last());
        let after = interned_all(table, points);
        interning_keeps_the_table(table, points.drop_last());
        assert(points =~= points.drop_last().push(points.last()));
        assert forall|p: EqAffine| #[trigger] after.contains(p) <==> table.contains(p)
            || points.contains(p) by {
            pushed_points(points.drop_last(), points.last(), p);
            pushed_points(before, points.last(), p);
        }
        assert(table.is_prefix_of(after)) by {
            assert(after.take(table.len() as int) =~= before.take(table.len() as int));
        }
    } else {
        assert(table.is_prefix_of(table)) by {
            assert(table.take(table.len() as int) =~= table);
        }
    }
}

/// A list with one more point holds this point and what it held before.
pub proof fn pushed_points(s: Seq<EqAffine>, last: EqAffine, p: EqAffine)
    ensures
        s.push(last).contains(p) <==> s.contains(p) || p == last,
{
    if s.contains(p) {
        let i = choose|i: int| 0 <= i < s.len() && s[i] == p;
        assert(s.push(last)[i] == p);
    }
    assert(s.push(last)[s.len() as int] == last);
}

/// The number of a point in a table leads back to the point, and no other number does.
pub proof fn reference_resolves(table: Seq<EqAffine>, point: EqAffine)
    requires
        table.no_duplicates(),
        table.contains(point),
    ensures
        position(table, point) < table.len(),
        table[position(table, point) as int] == point,
        forall|i: int| 0 <= i < table.len() && #[trigger] table[i] == point ==> i == position(
            table,
            point,
        ),
    decreases table.len(),
{
    let rest = table.drop_first();
    if table[0] != point {
        let i = choose|i: int| 0 <= i < table.len() && table[i] == point;
        assert(rest[i - 1] == point);
        reference_resolves(rest, point);
        assert(table[1 + position(rest, point) as int] == rest[position(rest, point) as int]);
    }
}

/// A reference once written stays right while the table grows.
pub proof fn reference_is_stable(table: Seq<EqAffine>, grown: Seq<EqAffine>, point: EqAffine)
    requires
        table.is_prefix_of(grown),
        table.contains(point),
    ensures
        position(grown, point) == position(table, point),
        ref_text(grown, point) == ref_text(table, point),
    decreases table.len(),
{
    assert(grown[0] == table[0]) by {
        assert(grown.take(table.len() as int)[0] == grown[0]);
    }
    if table[0] != point {
        let (rest, grown_rest) = (table.drop_first(), grown.drop_first());
        let i = choose|i: int| 0 <= i < table.len() && table[i] == point;
        assert(rest[i - 1] == point);
        assert(grown_rest.take(rest.len() as int) =~= grown.take(table.len() as int).drop_first());
        reference_is_stable(rest, grown_rest, point);
    }
}

/// References of a list of points once written stay right while the table grows.
pub proof fn references_are_stable(
    table: Seq<EqAffine>,
    grown: Seq<EqAffine>,
    points: Seq<EqAffine>,
)
    requires
        table.is_prefix_of(grown),
        forall|i: int| 0 <= i < points.len() ==> table.contains(#[trigger] points[i]),
    ensures
        ref_texts(grown, points) == ref_texts(table, points),
{
    assert forall|i: int| 0 <= i < points.len() implies #[trigger] ref_text(grown, points[i])
        == ref_text(table, points[i]) by {
        reference_is_stable(table, grown, points[i]);
    }
    assert(ref_texts(grown, points) =~= ref_texts(table, points));
}

/// Looking up a point adds it at the end if the table lacks it, and otherwise changes nothing.
pub proof fn lookup_adds_what_is_missing(table: Seq<EqAffine>, p: EqAffine)
    ensures
        interned(table, p).contains(p),
        table.contains(p) ==> interned(table, p) == table,
        !table.contains(p) ==> interned(table, p) == table + seq![p],
        interned_all(table, seq![p]) == interned(table, p),
        interned_all(table, Seq::empty()) == table,
{
    pushed_points(table, p, p);
    assert(table.push(p) =~= table + seq![p]);
    assert(seq![p].drop_last() =~= Seq::empty());
    assert(seq![p].last() == p);
    assert(interned_all(table, Seq::empty()) == table);
}

/// The term of a point names the place where the table holds it.
pub proof fn references_name_places(table: Seq<EqAffine>, i: int)
    requires
        table.no_duplicates(),
        0 <= i < table.len(),
    ensures
        ref_text(table, table[i]) == "capturedPoint "@ + text::decimal(i as nat),
{
    assert(table.contains(table[i]));
    reference_resolves(table, table[i]);
}

/// The terms of a list of points are those of its points, in order.
pub proof fn references_follow_the_list(
    table: Seq<EqAffine>,
    a: Seq<EqAffine>,
    b: Seq<EqAffine>,
    p: EqAffine,
)
    ensures
        ref_texts(table, a + b) == ref_texts(table, a) + ref_texts(table, b),
        ref_texts(table, seq![p]) == seq![ref_text(table, p)],
        ref_texts(table, Seq::empty()) == Seq::<Seq<char>>::empty(),
{
    assert(ref_texts(table, a + b) =~= ref_texts(table, a) + ref_texts(table, b));
    assert(ref_texts(table, seq![p]) =~= seq![ref_text(table, p)]);
    assert(ref_texts(table, Seq::empty()) =~= Seq::<Seq<char>>::empty());
}

/// The coordinates of a point are written as a pair of base field literals, x before y, those of
/// the identity as a pair of zeroes; the list of coordinates follows the table.
pub proof fn coordinates_are_pairs(table: Seq<EqAffine>, i: int)
    requires
        0 <= i < table.len(),
    ensures
        coordinate_texts(table).len() == table.len(),
        coordinate_texts(table)[i] == coordinates_text(table[i]),
        table[i]@ is None ==> coordinates_text(table[i]) == "(0, 0)"@,
        table[i]@ matches Some((x, y)) ==> coordinates_text(table[i]) == "("@
            + field::field_text("mkFq"@, x) + ", "@ + field::field_text("mkFq"@, y) + ")"@,
{
}

/// Deduplicated concrete curve points used by the generated Lean fixture. The generated terms have
/// type `VestaG`; the numeric indices are only source compression for repeated coordinate literals.
///
/// The view lists the points in the order of their numbers.
pub struct PointTable {
    keys: Vec<Vec<u8>>,
    points: Vec<EqAffine>,
}

impl View for PointTable {
    type V = Seq<EqAffine>;

    closed spec fn view(&self) -> Seq<EqAffine> {
        self.points@
    }
}

impl PointTable {
    /// No point occurs twice, and the key of each point is at hand.
    pub closed spec fn wf(&self) -> bool {
        &&& self.points@.no_duplicates()
        &&& self.keys@.len() == self.points@.len()
        &&& forall|i: int|
            0 <= i < self.points@.len() ==> (#[trigger] self.keys@[i])@ == curve::key_of(
                self.points@[i]@,
            )
    }

    /// No point of a table occurs twice.
    pub proof fn points_are_distinct(&self)
        requires
            self.wf(),
        ensures
            self@.no_duplicates(),
    {
    }

    /// A table without points.
    pub fn new() -> (table: PointTable)
        ensures
            table.wf(),
            table@ == Seq::<EqAffine>::empty(),
    {
        PointTable { keys: Vec::new(), points: Vec::new() }
    }

    /// The number of a point, if the table holds it.
    pub fn find(&self, point: EqAffine) -> (r: Option<usize>)
        requires
            self.wf(),
        ensures
            r is Some <==> self@.contains(point),
            r matches Some(id) ==> id == position(self@, point) && id < self@.len()
                && self@[id as int] == point,
    {
        let key = curve::point_key(point);
        let mut i: usize = 0;
        while i < self.points.len()
            invariant
                self.wf(),
                i <= self.points@.len(),
                key@ == curve::key_of(point@),
                forall|j: int| 0 <= j < i ==> self.points@[j] != point,
            decreases self.points@.len() - i,
        {
            proof {
                curve::point_keys_are_unique(self.points@[i as int], point);
            }
            if field::same_bytes(self.keys[i].as_slice(), key.as_slice()) {
                proof {
                    assert(self.points@.contains(point));
                    reference_resolves(self.points@, point);
                }
                return Some(i);
            }
            i = i + 1;
        }
        None
    }

    /// The number of a point, which is added if the table lacks it.
    pub fn id(&mut self, point: EqAffine) -> (id: usize)
        requires
            old(self).wf(),
        ensures
            final(self).wf(),
            final(self)@ == interned(old(self)@, point),
            id == position(final(self)@, point),
            id < final(self)@.len(),
            final(self)@[id as int] == point,
    {
        match self.find(point) {
            Some(id) => id,
            None => {
                let id: usize = self.points.len();
                self.keys.push(curve::point_key(point));
                self.points.push(point);
                proof {
                    assert(self.points@[id as int] == point);
                    reference_resolves(self.points@, point);
                }
                id
            },
        }
    }

    /// Adds those points of a list that the table lacks.
    pub fn intern(&mut self, points: &[EqAffine])
        requires
            old(self).wf(),
        ensures
            final(self).wf(),
            final(self)@ == interned_all(old(self)@, points@),
    {
        let mut i: usize = 0;
        assert(points@.take(0) =~= Seq::empty());
        while i < points.len()
            invariant
                i <= points@.len(),
                self.wf(),
                self@ == interned_all(old(self)@, points@.take(i as int)),
            decreases points@.len() - i,
        {
            assert(points@.take(i + 1).drop_last() =~= points@.take(i as int));
            let _ = self.id(points[i]);
            i = i + 1;
        }
        assert(points@.take(points@.len() as int) =~= points@);
    }

    /// The Lean term for a point of the table.
    pub fn known_ref(&self, point: EqAffine) -> (s: String)
        requires
            self.wf(),
            self@.contains(point),
        ensures
            s@ == ref_text(self@, point),
    {
        let id: usize = self.find(point).unwrap();
        let mut s = "capturedPoint ".to_owned();
        s.append(text::number(id as u64).as_str());
        s
    }

    /// The Lean terms for a list of points of the table.
    pub fn known_refs(&self, points: &[EqAffine]) -> (refs: Vec<String>)
        requires
            self.wf(),
            holds_all(self@, points@),
        ensures
            text::contents(refs@) == ref_texts(self@, points@),
    {
        let mut refs: Vec<String> = Vec::new();
        let mut i: usize = 0;
        while i < points.len()
            invariant
                self.wf(),
                holds_all(self@, points@),
                i <= points@.len(),
                text::contents(refs@) =~= ref_texts(self@, points@).take(i as int),
            decreases points@.len() - i,
        {
            let ghost before = text::contents(refs@);
            refs.push(self.known_ref(points[i]));
            i = i + 1;
            assert(text::contents(refs@) =~= before.push(ref_text(self@, points@[i - 1])));
        }
        assert(ref_texts(self@, points@).take(points@.len() as int) =~= ref_texts(self@, points@));
        refs
    }

    /// The Lean term for a point, which is added if the table lacks it.
    pub fn point_ref(&mut self, point: EqAffine) -> (s: String)
        requires
            old(self).wf(),
        ensures
            final(self).wf(),
            final(self)@ == interned(old(self)@, point),
            s@ == ref_text(final(self)@, point),
    {
        let id: usize = self.id(point);
        let mut s = "capturedPoint ".to_owned();
        s.append(text::number(id as u64).as_str());
        s
    }

    /// The Lean terms for a list of points, each of which is added if the table lacks it.
    pub fn point_refs(&mut self, points: &[EqAffine]) -> (refs: Vec<String>)
        requires
            old(self).wf(),
        ensures
            final(self).wf(),
            final(self)@ == interned_all(old(self)@, points@),
            text::contents(refs@) == ref_texts(final(self)@, points@),
    {
        let mut refs: Vec<String> = Vec::new();
        let mut i: usize = 0;
        assert(points@.take(0) =~= Seq::empty());
        while i < points.len()
            invariant
                i <= points@.len(),
                old(self).wf(),
                self.wf(),
                self@ == interned_all(old(self)@, points@.take(i as int)),
                text::contents(refs@) =~= ref_texts(self@, points@.take(i as int)),
            decreases points@.len() - i,
        {
            let ghost seen = points@.take(i as int);
            let ghost table = self@;
            let ghost before = text::contents(refs@);
            refs.push(self.point_ref(points[i]));
            i = i + 1;
            proof {
                let now = points@.take(i as int);
                assert(now.drop_last() =~= seen);
                assert(now =~= seen.push(points@[i - 1]));
                interning_keeps_the_table(old(self)@, seen);
                interning_keeps_the_table(table, seq![points@[i - 1]]);
                assert(seq![points@[i - 1]].drop_last() =~= Seq::empty());
                assert(interned_all(table, Seq::empty()) == table);
                assert(interned_all(table, seq![points@[i - 1]]) == self@);
                assert forall|j: int| 0 <= j < seen.len() implies table.contains(
                    #[trigger] seen[j],
                ) by {
                    assert(seen.contains(seen[j]));
                }
                references_are_stable(table, self@, seen);
                assert(text::contents(refs@) =~= before.push(ref_text(self@, points@[i - 1])));
            }
        }
        assert(points@.take(points@.len() as int) =~= points@);
        refs
    }

    /// The coordinates of every point of the table, in the order of their numbers. All of them
    /// are on the curve.
    pub fn coordinate_literals(&self) -> (literals: Vec<String>)
        ensures
            text::contents(literals@) == coordinate_texts(self@),
            all_on_curve(self@),
    {
        let mut literals: Vec<String> = Vec::new();
        let mut i: usize = 0;
        while i < self.points.len()
            invariant
                i <= self.points@.len(),
                text::contents(literals@) =~= coordinate_texts(self@).take(i as int),
                all_on_curve(self@.take(i as int)),
            decreases self.points@.len() - i,
        {
            let ghost before = text::contents(literals@);
            let literal = match self.points[i].coordinates() {
                Some((x, y)) => {
                    let mut s = "(".to_owned();
                    s.append(field::fq(x).as_str());
                    s.append(", ");
                    s.append(field::fq(y).as_str());
                    s.append(")");
                    s
                },
                None => "(0, 0)".to_owned(),
            };
            literals.push(literal);
            i = i + 1;
            assert(text::contents(literals@) =~= before.push(coordinates_text(self@[i - 1])));
            assert(self@.take(i as int) =~= self@.take(i - 1).push(self@[i - 1]));
        }
        assert(self@.take(self@.len() as int) =~= self@);
        assert(coordinate_texts(self@).take(self@.len() as int) =~= coordinate_texts(self@));
        literals
    }
}

} // verus!
