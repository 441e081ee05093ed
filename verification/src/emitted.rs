//! What stands in the file of an exported capture, in terms of the key and of what was recorded.

use vstd::arithmetic::power2::*;
use vstd::prelude::*;
use vstd::string::*;

use crate::capture;
use crate::capture::Capture;
use crate::circuit;
use crate::circuit::ConstraintSystem;
use crate::curve::EqAffine;
use crate::field;
use crate::field::Fp;
use crate::fixture;
use crate::key::VerifyingKey;
use crate::laws;
use crate::msm::MSM;
use crate::points;
use crate::refusals;
use crate::schedule;
use crate::text;
use crate::transcript;
use crate::transcript::ChallengeRecorder;

verus! {

/// Whether a text holds another one, all of it in one place.
pub open spec fn holds(whole: Seq<char>, part: Seq<char>) -> bool {
    exists|before: Seq<char>, after: Seq<char>| whole == #[trigger] (before + part + after)
}

/// A text with the parts of a list from a place on put behind it.
spec fn chained(start: Seq<char>, parts: Seq<Seq<char>>, i: int) -> Seq<char>
    decreases parts.len() - i,
{
    if i >= parts.len() {
        start
    } else {
        chained(start + parts[i], parts, i + 1)
    }
}

/// Three parts that follow one another.
spec fn window(parts: Seq<Seq<char>>, j: int) -> Seq<char> {
    parts[j] + parts[j + 1] + parts[j + 2]
}

proof fn lemma_chained_prefix(start: Seq<char>, parts: Seq<Seq<char>>, i: int)
    ensures
        start.is_prefix_of(chained(start, parts, i)),
    decreases parts.len() - i,
{
    if i < parts.len() {
        let (next, all) = (start + parts[i], chained(start, parts, i));
        lemma_chained_prefix(next, parts, i + 1);
        assert(all.take(start.len() as int) =~= all.take(next.len() as int).take(
            start.len() as int,
        ));
        assert(next.take(start.len() as int) =~= start);
    } else {
        assert(start.take(start.len() as int) =~= start);
    }
}

proof fn lemma_holds_after(whole: Seq<char>, before: Seq<char>, part: Seq<char>)
    requires
        (before + part).is_prefix_of(whole),
    ensures
        holds(whole, part),
{
    let after = whole.skip((before + part).len() as int);
    assert(whole =~= before + part + after);
}

proof fn lemma_holds_within(whole: Seq<char>, mid: Seq<char>, part: Seq<char>)
    requires
        holds(whole, mid),
        holds(mid, part),
    ensures
        holds(whole, part),
{
    let (a, b) = choose|a: Seq<char>, b: Seq<char>| whole == #[trigger] (a + mid + b);
    let (c, d) = choose|c: Seq<char>, d: Seq<char>| mid == #[trigger] (c + part + d);
    assert(whole =~= (a + c) + part + (d + b));
}

proof fn lemma_chained_holds(start: Seq<char>, parts: Seq<Seq<char>>, i: int, j: int)
    requires
        0 <= i <= j,
    ensures
        j < parts.len() ==> holds(chained(start, parts, i), parts[j]),
        j + 2 < parts.len() ==> holds(chained(start, parts, i), window(parts, j)),
    decreases j - i,
{
    let all = chained(start, parts, i);
    if i < j {
        if i < parts.len() {
            lemma_chained_holds(start + parts[i], parts, i + 1, j);
        }
    } else {
        if j < parts.len() {
            lemma_chained_prefix(start + parts[j], parts, j + 1);
            lemma_holds_after(all, start, parts[j]);
        }
        if j + 2 < parts.len() {
            reveal_with_fuel(chained, 4);
            let three = start + parts[j] + parts[j + 1] + parts[j + 2];
            lemma_chained_prefix(three, parts, j + 3);
            assert(three =~= start + window(parts, j));
            lemma_holds_after(all, start, window(parts, j));
        }
    }
}

proof fn lemma_windows(file: Seq<char>, part: Seq<char>, parts: Seq<Seq<char>>)
    requires
        parts.len() > 0,
        holds(file, part),
        part == chained(parts[0], parts, 1),
    ensures
        forall|j: int|
            0 <= j && j + 2 < parts.len() ==> holds(file, #[trigger] window(parts, j)),
        forall|j: int| 0 <= j < parts.len() ==> holds(file, #[trigger] parts[j]),
{
    let none = Seq::<char>::empty();
    assert(none + parts[0] =~= parts[0]);
    assert(chained(none, parts, 0) == part);
    assert forall|j: int| 0 <= j && j + 2 < parts.len() implies holds(
        file,
        #[trigger] window(parts, j),
    ) by {
        lemma_chained_holds(none, parts, 0, j);
        lemma_holds_within(file, part, window(parts, j));
    }
    assert forall|j: int| 0 <= j < parts.len() implies holds(file, #[trigger] parts[j]) by {
        lemma_chained_holds(none, parts, 0, j);
        lemma_holds_within(file, part, parts[j]);
    }
}

/// A text of fifteen parts holds each of them, and each next to the one after it.
proof fn lemma_fifteen(
    a: Seq<char>,
    b: Seq<char>,
    c: Seq<char>,
    d: Seq<char>,
    e: Seq<char>,
    f: Seq<char>,
    g: Seq<char>,
    h: Seq<char>,
    i: Seq<char>,
    j: Seq<char>,
    k: Seq<char>,
    l: Seq<char>,
    m: Seq<char>,
    n: Seq<char>,
    o: Seq<char>,
)
    ensures
        ({
            let whole = a + b + c + d + e + f + g + h + i + j + k + l + m + n + o;
            &&& holds(whole, a)
            &&& holds(whole, b)
            &&& holds(whole, c)
            &&& holds(whole, d)
            &&& holds(whole, e)
            &&& holds(whole, f)
            &&& holds(whole, g)
            &&& holds(whole, h)
            &&& holds(whole, i)
            &&& holds(whole, j)
            &&& holds(whole, k)
            &&& holds(whole, l)
            &&& holds(whole, m)
            &&& holds(whole, n)
            &&& holds(whole, o)
            &&& holds(whole, a + b)
            &&& holds(whole, b + c)
            &&& holds(whole, c + d)
            &&& holds(whole, d + e)
            &&& holds(whole, e + f)
            &&& holds(whole, f + g)
            &&& holds(whole, g + h)
            &&& holds(whole, h + i)
            &&& holds(whole, i + j)
            &&& holds(whole, j + k)
            &&& holds(whole, k + l)
            &&& holds(whole, l + m)
            &&& holds(whole, m + n)
            &&& holds(whole, n + o)
        }),
{
    let whole = a + b + c + d + e + f + g + h + i + j + k + l + m + n + o;
    let none = Seq::<char>::empty();
    let parts = seq![a, b, c, d, e, f, g, h, i, j, k, l, m, n, o];
    assert(whole == chained(parts[0], parts, 1)) by {
        reveal_with_fuel(chained, 16);
    }
    assert(whole =~= none + whole + none);
    lemma_windows(whole, whole, parts);
    assert(holds(whole, parts[0]));
    assert(holds(whole, parts[1]));
    assert(holds(whole, parts[2]));
    assert(holds(whole, parts[3]));
    assert(holds(whole, parts[4]));
    assert(holds(whole, parts[5]));
    assert(holds(whole, parts[6]));
    assert(holds(whole, parts[7]));
    assert(holds(whole, parts[8]));
    assert(holds(whole, parts[9]));
    assert(holds(whole, parts[10]));
    assert(holds(whole, parts[11]));
    assert(holds(whole, parts[12]));
    assert(holds(whole, parts[13]));
    assert(holds(whole, parts[14]));
    assert(holds(whole, window(parts, 0)));
    lemma_two_of_three(whole, a, b, c);
    assert(holds(whole, window(parts, 1)));
    lemma_two_of_three(whole, b, c, d);
    assert(holds(whole, window(parts, 2)));
    lemma_two_of_three(whole, c, d, e);
    assert(holds(whole, window(parts, 3)));
    lemma_two_of_three(whole, d, e, f);
    assert(holds(whole, window(parts, 4)));
    lemma_two_of_three(whole, e, f, g);
    assert(holds(whole, window(parts, 5)));
    lemma_two_of_three(whole, f, g, h);
    assert(holds(whole, window(parts, 6)));
    lemma_two_of_three(whole, g, h, i);
    assert(holds(whole, window(parts, 7)));
    lemma_two_of_three(whole, h, i, j);
    assert(holds(whole, window(parts, 8)));
    lemma_two_of_three(whole, i, j, k);
    assert(holds(whole, window(parts, 9)));
    lemma_two_of_three(whole, j, k, l);
    assert(holds(whole, window(parts, 10)));
    lemma_two_of_three(whole, k, l, m);
    assert(holds(whole, window(parts, 11)));
    lemma_two_of_three(whole, l, m, n);
    assert(holds(whole, window(parts, 12)));
    lemma_two_of_three(whole, m, n, o);
}

proof fn lemma_two_of_three(whole: Seq<char>, a: Seq<char>, b: Seq<char>, c: Seq<char>)
    requires
        holds(whole, a + b + c),
    ensures
        holds(whole, a + b),
        holds(whole, b + c),
{
    let none = Seq::<char>::empty();
    assert(a + b + c =~= none + (a + b) + c);
    assert(a + b + c =~= a + (b + c) + none);
    lemma_holds_within(whole, a + b + c, a + b);
    lemma_holds_within(whole, a + b + c, b + c);
}

proof fn lemma_has_header(lean_namespace: Seq<char>, circuit_id: Seq<char>, c: Capture)
    ensures
        holds(
            fixture::fixture_text(lean_namespace, circuit_id, c),
            fixture::header_text(lean_namespace, circuit_id, c.table()),
        ),
{
    lemma_fifteen(
        fixture::header_text(lean_namespace, circuit_id, c.table()),
        fixture::shape_text(c),
        fixture::urs_text(c, c.table()),
        fixture::commitments_text(c, c.table()),
        fixture::key_text(c),
        fixture::proof_points_text(c, c.table()),
        fixture::column_evals_text(c),
        fixture::set_evals_text(c),
        fixture::lookup_evals_text(c),
        fixture::multiopen_text(c, c.table()),
        fixture::proof_text(c, c.table()),
        fixture::challenges_text(c.recorder.challenges@),
        fixture::transcript_text(c, c.table()),
        fixture::msm_text(*c.msm, c.table()),
        fixture::theorems_text(lean_namespace),
    );
}

proof fn lemma_has_shape(lean_namespace: Seq<char>, circuit_id: Seq<char>, c: Capture)
    ensures
        holds(
            fixture::fixture_text(lean_namespace, circuit_id, c),
            fixture::shape_text(c),
        ),
{
    lemma_fifteen(
        fixture::header_text(lean_namespace, circuit_id, c.table()),
        fixture::shape_text(c),
        fixture::urs_text(c, c.table()),
        fixture::commitments_text(c, c.table()),
        fixture::key_text(c),
        fixture::proof_points_text(c, c.table()),
        fixture::column_evals_text(c),
        fixture::set_evals_text(c),
        fixture::lookup_evals_text(c),
        fixture::multiopen_text(c, c.table()),
        fixture::proof_text(c, c.table()),
        fixture::challenges_text(c.recorder.challenges@),
        fixture::transcript_text(c, c.table()),
        fixture::msm_text(*c.msm, c.table()),
        fixture::theorems_text(lean_namespace),
    );
}

proof fn lemma_has_urs(lean_namespace: Seq<char>, circuit_id: Seq<char>, c: Capture)
    ensures
        holds(
            fixture::fixture_text(lean_namespace, circuit_id, c),
            fixture::urs_text(c, c.table()),
        ),
{
    lemma_fifteen(
        fixture::header_text(lean_namespace, circuit_id, c.table()),
        fixture::shape_text(c),
        fixture::urs_text(c, c.table()),
        fixture::commitments_text(c, c.table()),
        fixture::key_text(c),
        fixture::proof_points_text(c, c.table()),
        fixture::column_evals_text(c),
        fixture::set_evals_text(c),
        fixture::lookup_evals_text(c),
        fixture::multiopen_text(c, c.table()),
        fixture::proof_text(c, c.table()),
        fixture::challenges_text(c.recorder.challenges@),
        fixture::transcript_text(c, c.table()),
        fixture::msm_text(*c.msm, c.table()),
        fixture::theorems_text(lean_namespace),
    );
}

proof fn lemma_has_commitments(lean_namespace: Seq<char>, circuit_id: Seq<char>, c: Capture)
    ensures
        holds(
            fixture::fixture_text(lean_namespace, circuit_id, c),
            fixture::commitments_text(c, c.table()),
        ),
{
    lemma_fifteen(
        fixture::header_text(lean_namespace, circuit_id, c.table()),
        fixture::shape_text(c),
        fixture::urs_text(c, c.table()),
        fixture::commitments_text(c, c.table()),
        fixture::key_text(c),
        fixture::proof_points_text(c, c.table()),
        fixture::column_evals_text(c),
        fixture::set_evals_text(c),
        fixture::lookup_evals_text(c),
        fixture::multiopen_text(c, c.table()),
        fixture::proof_text(c, c.table()),
        fixture::challenges_text(c.recorder.challenges@),
        fixture::transcript_text(c, c.table()),
        fixture::msm_text(*c.msm, c.table()),
        fixture::theorems_text(lean_namespace),
    );
}

proof fn lemma_has_key(lean_namespace: Seq<char>, circuit_id: Seq<char>, c: Capture)
    ensures
        holds(
            fixture::fixture_text(lean_namespace, circuit_id, c),
            fixture::key_text(c),
        ),
{
    lemma_fifteen(
        fixture::header_text(lean_namespace, circuit_id, c.table()),
        fixture::shape_text(c),
        fixture::urs_text(c, c.table()),
        fixture::commitments_text(c, c.table()),
        fixture::key_text(c),
        fixture::proof_points_text(c, c.table()),
        fixture::column_evals_text(c),
        fixture::set_evals_text(c),
        fixture::lookup_evals_text(c),
        fixture::multiopen_text(c, c.table()),
        fixture::proof_text(c, c.table()),
        fixture::challenges_text(c.recorder.challenges@),
        fixture::transcript_text(c, c.table()),
        fixture::msm_text(*c.msm, c.table()),
        fixture::theorems_text(lean_namespace),
    );
}

proof fn lemma_has_proof_points(lean_namespace: Seq<char>, circuit_id: Seq<char>, c: Capture)
    ensures
        holds(
            fixture::fixture_text(lean_namespace, circuit_id, c),
            fixture::proof_points_text(c, c.table()),
        ),
{
    lemma_fifteen(
        fixture::header_text(lean_namespace, circuit_id, c.table()),
        fixture::shape_text(c),
        fixture::urs_text(c, c.table()),
        fixture::commitments_text(c, c.table()),
        fixture::key_text(c),
        fixture::proof_points_text(c, c.table()),
        fixture::column_evals_text(c),
        fixture::set_evals_text(c),
        fixture::lookup_evals_text(c),
        fixture::multiopen_text(c, c.table()),
        fixture::proof_text(c, c.table()),
        fixture::challenges_text(c.recorder.challenges@),
        fixture::transcript_text(c, c.table()),
        fixture::msm_text(*c.msm, c.table()),
        fixture::theorems_text(lean_namespace),
    );
}

proof fn lemma_has_column_evals(lean_namespace: Seq<char>, circuit_id: Seq<char>, c: Capture)
    ensures
        holds(
            fixture::fixture_text(lean_namespace, circuit_id, c),
            fixture::column_evals_text(c),
        ),
{
    lemma_fifteen(
        fixture::header_text(lean_namespace, circuit_id, c.table()),
        fixture::shape_text(c),
        fixture::urs_text(c, c.table()),
        fixture::commitments_text(c, c.table()),
        fixture::key_text(c),
        fixture::proof_points_text(c, c.table()),
        fixture::column_evals_text(c),
        fixture::set_evals_text(c),
        fixture::lookup_evals_text(c),
        fixture::multiopen_text(c, c.table()),
        fixture::proof_text(c, c.table()),
        fixture::challenges_text(c.recorder.challenges@),
        fixture::transcript_text(c, c.table()),
        fixture::msm_text(*c.msm, c.table()),
        fixture::theorems_text(lean_namespace),
    );
}

proof fn lemma_has_set_evals(lean_namespace: Seq<char>, circuit_id: Seq<char>, c: Capture)
    ensures
        holds(
            fixture::fixture_text(lean_namespace, circuit_id, c),
            fixture::set_evals_text(c),
        ),
{
    lemma_fifteen(
        fixture::header_text(lean_namespace, circuit_id, c.table()),
        fixture::shape_text(c),
        fixture::urs_text(c, c.table()),
        fixture::commitments_text(c, c.table()),
        fixture::key_text(c),
        fixture::proof_points_text(c, c.table()),
        fixture::column_evals_text(c),
        fixture::set_evals_text(c),
        fixture::lookup_evals_text(c),
        fixture::multiopen_text(c, c.table()),
        fixture::proof_text(c, c.table()),
        fixture::challenges_text(c.recorder.challenges@),
        fixture::transcript_text(c, c.table()),
        fixture::msm_text(*c.msm, c.table()),
        fixture::theorems_text(lean_namespace),
    );
}

proof fn lemma_has_lookup_evals(lean_namespace: Seq<char>, circuit_id: Seq<char>, c: Capture)
    ensures
        holds(
            fixture::fixture_text(lean_namespace, circuit_id, c),
            fixture::lookup_evals_text(c),
        ),
{
    lemma_fifteen(
        fixture::header_text(lean_namespace, circuit_id, c.table()),
        fixture::shape_text(c),
        fixture::urs_text(c, c.table()),
        fixture::commitments_text(c, c.table()),
        fixture::key_text(c),
        fixture::proof_points_text(c, c.table()),
        fixture::column_evals_text(c),
        fixture::set_evals_text(c),
        fixture::lookup_evals_text(c),
        fixture::multiopen_text(c, c.table()),
        fixture::proof_text(c, c.table()),
        fixture::challenges_text(c.recorder.challenges@),
        fixture::transcript_text(c, c.table()),
        fixture::msm_text(*c.msm, c.table()),
        fixture::theorems_text(lean_namespace),
    );
}

proof fn lemma_has_multiopen(lean_namespace: Seq<char>, circuit_id: Seq<char>, c: Capture)
    ensures
        holds(
            fixture::fixture_text(lean_namespace, circuit_id, c),
            fixture::multiopen_text(c, c.table()),
        ),
{
    lemma_fifteen(
        fixture::header_text(lean_namespace, circuit_id, c.table()),
        fixture::shape_text(c),
        fixture::urs_text(c, c.table()),
        fixture::commitments_text(c, c.table()),
        fixture::key_text(c),
        fixture::proof_points_text(c, c.table()),
        fixture::column_evals_text(c),
        fixture::set_evals_text(c),
        fixture::lookup_evals_text(c),
        fixture::multiopen_text(c, c.table()),
        fixture::proof_text(c, c.table()),
        fixture::challenges_text(c.recorder.challenges@),
        fixture::transcript_text(c, c.table()),
        fixture::msm_text(*c.msm, c.table()),
        fixture::theorems_text(lean_namespace),
    );
}

proof fn lemma_has_proof(lean_namespace: Seq<char>, circuit_id: Seq<char>, c: Capture)
    ensures
        holds(
            fixture::fixture_text(lean_namespace, circuit_id, c),
            fixture::proof_text(c, c.table()),
        ),
{
    lemma_fifteen(
        fixture::header_text(lean_namespace, circuit_id, c.table()),
        fixture::shape_text(c),
        fixture::urs_text(c, c.table()),
        fixture::commitments_text(c, c.table()),
        fixture::key_text(c),
        fixture::proof_points_text(c, c.table()),
        fixture::column_evals_text(c),
        fixture::set_evals_text(c),
        fixture::lookup_evals_text(c),
        fixture::multiopen_text(c, c.table()),
        fixture::proof_text(c, c.table()),
        fixture::challenges_text(c.recorder.challenges@),
        fixture::transcript_text(c, c.table()),
        fixture::msm_text(*c.msm, c.table()),
        fixture::theorems_text(lean_namespace),
    );
}

proof fn lemma_has_challenges(lean_namespace: Seq<char>, circuit_id: Seq<char>, c: Capture)
    ensures
        holds(
            fixture::fixture_text(lean_namespace, circuit_id, c),
            fixture::challenges_text(c.recorder.challenges@),
        ),
{
    lemma_fifteen(
        fixture::header_text(lean_namespace, circuit_id, c.table()),
        fixture::shape_text(c),
        fixture::urs_text(c, c.table()),
        fixture::commitments_text(c, c.table()),
        fixture::key_text(c),
        fixture::proof_points_text(c, c.table()),
        fixture::column_evals_text(c),
        fixture::set_evals_text(c),
        fixture::lookup_evals_text(c),
        fixture::multiopen_text(c, c.table()),
        fixture::proof_text(c, c.table()),
        fixture::challenges_text(c.recorder.challenges@),
        fixture::transcript_text(c, c.table()),
        fixture::msm_text(*c.msm, c.table()),
        fixture::theorems_text(lean_namespace),
    );
}

proof fn lemma_has_transcript(lean_namespace: Seq<char>, circuit_id: Seq<char>, c: Capture)
    ensures
        holds(
            fixture::fixture_text(lean_namespace, circuit_id, c),
            fixture::transcript_text(c, c.table()),
        ),
{
    lemma_fifteen(
        fixture::header_text(lean_namespace, circuit_id, c.table()),
        fixture::shape_text(c),
        fixture::urs_text(c, c.table()),
        fixture::commitments_text(c, c.table()),
        fixture::key_text(c),
        fixture::proof_points_text(c, c.table()),
        fixture::column_evals_text(c),
        fixture::set_evals_text(c),
        fixture::lookup_evals_text(c),
        fixture::multiopen_text(c, c.table()),
        fixture::proof_text(c, c.table()),
        fixture::challenges_text(c.recorder.challenges@),
        fixture::transcript_text(c, c.table()),
        fixture::msm_text(*c.msm, c.table()),
        fixture::theorems_text(lean_namespace),
    );
}

proof fn lemma_has_msm(lean_namespace: Seq<char>, circuit_id: Seq<char>, c: Capture)
    ensures
        holds(
            fixture::fixture_text(lean_namespace, circuit_id, c),
            fixture::msm_text(*c.msm, c.table()),
        ),
{
    lemma_fifteen(
        fixture::header_text(lean_namespace, circuit_id, c.table()),
        fixture::shape_text(c),
        fixture::urs_text(c, c.table()),
        fixture::commitments_text(c, c.table()),
        fixture::key_text(c),
        fixture::proof_points_text(c, c.table()),
        fixture::column_evals_text(c),
        fixture::set_evals_text(c),
        fixture::lookup_evals_text(c),
        fixture::multiopen_text(c, c.table()),
        fixture::proof_text(c, c.table()),
        fixture::challenges_text(c.recorder.challenges@),
        fixture::transcript_text(c, c.table()),
        fixture::msm_text(*c.msm, c.table()),
        fixture::theorems_text(lean_namespace),
    );
}

proof fn lemma_has_theorems(lean_namespace: Seq<char>, circuit_id: Seq<char>, c: Capture)
    ensures
        holds(
            fixture::fixture_text(lean_namespace, circuit_id, c),
            fixture::theorems_text(lean_namespace),
        ),
{
    lemma_fifteen(
        fixture::header_text(lean_namespace, circuit_id, c.table()),
        fixture::shape_text(c),
        fixture::urs_text(c, c.table()),
        fixture::commitments_text(c, c.table()),
        fixture::key_text(c),
        fixture::proof_points_text(c, c.table()),
        fixture::column_evals_text(c),
        fixture::set_evals_text(c),
        fixture::lookup_evals_text(c),
        fixture::multiopen_text(c, c.table()),
        fixture::proof_text(c, c.table()),
        fixture::challenges_text(c.recorder.challenges@),
        fixture::transcript_text(c, c.table()),
        fixture::msm_text(*c.msm, c.table()),
        fixture::theorems_text(lean_namespace),
    );
}

/// The sections of a file follow one another: the definitions that others refer to come first.
pub proof fn sections_follow_one_another(
    lean_namespace: Seq<char>,
    circuit_id: Seq<char>,
    c: Capture,
)
    ensures
        ({
            let file = fixture::fixture_text(lean_namespace, circuit_id, c);
            &&& holds(
                file,
                fixture::header_text(lean_namespace, circuit_id, c.table())
                    + fixture::shape_text(c),
            )
            &&& holds(
                file,
                fixture::shape_text(c)
                    + fixture::urs_text(c, c.table()),
            )
            &&& holds(
                file,
                fixture::urs_text(c, c.table())
                    + fixture::commitments_text(c, c.table()),
            )
            &&& holds(
                file,
                fixture::commitments_text(c, c.table())
                    + fixture::key_text(c),
            )
            &&& holds(
                file,
                fixture::key_text(c)
                    + fixture::proof_points_text(c, c.table()),
            )
            &&& holds(
                file,
                fixture::proof_points_text(c, c.table())
                    + fixture::column_evals_text(c),
            )
            &&& holds(
                file,
                fixture::column_evals_text(c)
                    + fixture::set_evals_text(c),
            )
            &&& holds(
                file,
                fixture::set_evals_text(c)
                    + fixture::lookup_evals_text(c),
            )
            &&& holds(
                file,
                fixture::lookup_evals_text(c)
                    + fixture::multiopen_text(c, c.table()),
            )
            &&& holds(
                file,
                fixture::multiopen_text(c, c.table())
                    + fixture::proof_text(c, c.table()),
            )
            &&& holds(
                file,
                fixture::proof_text(c, c.table())
                    + fixture::challenges_text(c.recorder.challenges@),
            )
            &&& holds(
                file,
                fixture::challenges_text(c.recorder.challenges@)
                    + fixture::transcript_text(c, c.table()),
            )
            &&& holds(
                file,
                fixture::transcript_text(c, c.table())
                    + fixture::msm_text(*c.msm, c.table()),
            )
            &&& holds(
                file,
                fixture::msm_text(*c.msm, c.table())
                    + fixture::theorems_text(lean_namespace),
            )
        }),
{
    lemma_fifteen(
        fixture::header_text(lean_namespace, circuit_id, c.table()),
        fixture::shape_text(c),
        fixture::urs_text(c, c.table()),
        fixture::commitments_text(c, c.table()),
        fixture::key_text(c),
        fixture::proof_points_text(c, c.table()),
        fixture::column_evals_text(c),
        fixture::set_evals_text(c),
        fixture::lookup_evals_text(c),
        fixture::multiopen_text(c, c.table()),
        fixture::proof_text(c, c.table()),
        fixture::challenges_text(c.recorder.challenges@),
        fixture::transcript_text(c, c.table()),
        fixture::msm_text(*c.msm, c.table()),
        fixture::theorems_text(lean_namespace),
    );
}

/// Whether a file lists entries by rows of a width, and reads the list with this width, so that the
/// entry of each row and place is the one meant for it and no two share a place.
pub open spec fn rows_are_read(
    file: Seq<char>,
    list_head: Seq<char>,
    list_end: Seq<char>,
    reader_head: Seq<char>,
    reader_end: Seq<char>,
    entries: Seq<Seq<char>>,
    rows: nat,
    width: nat,
    entry: spec_fn(nat, nat) -> Seq<char>,
) -> bool {
    &&& holds(file, list_head + text::comma_separated(entries) + list_end)
    &&& holds(file, reader_head + text::decimal(width) + reader_end)
    &&& entries.len() == rows * width
    &&& forall|p: nat, i: nat|
        p < rows && i < width ==> (#[trigger] laws::row_index(p, width, i)) < entries.len()
            && entries[laws::row_index(p, width, i) as int] == entry(p, i)
    &&& forall|p: nat, i: nat, q: nat, j: nat|
        i < width && j < width && #[trigger] laws::row_index(p, width, i)
            == #[trigger] laws::row_index(q, width, j) ==> p == q && i == j
}

proof fn lemma_rows(rows: nat, width: nat)
    ensures
        forall|p: nat, i: nat|
            p < rows && i < width ==> #[trigger] laws::row_index(p, width, i) < rows * width,
        forall|p: nat, i: nat, q: nat, j: nat|
            i < width && j < width && #[trigger] laws::row_index(p, width, i)
                == #[trigger] laws::row_index(q, width, j) ==> p == q && i == j,
{
    assert forall|p: nat, i: nat| p < rows && i < width implies #[trigger] laws::row_index(
        p,
        width,
        i,
    ) < rows * width by {
        assert(p * width + i < rows * width) by (nonlinear_arith)
            requires
                p < rows,
                i < width,
        ;
    }
    assert forall|p: nat, i: nat, q: nat, j: nat|
        i < width && j < width && #[trigger] laws::row_index(p, width, i)
            == #[trigger] laws::row_index(q, width, j) implies p == q && i == j by {
        assert(p == q) by (nonlinear_arith)
            requires
                p * width + i == q * width + j,
                i < width,
                j < width,
        ;
    }
}

proof fn lemma_rows_are_read(
    file: Seq<char>,
    list_head: Seq<char>,
    list_end: Seq<char>,
    reader_head: Seq<char>,
    reader_end: Seq<char>,
    entries: Seq<Seq<char>>,
    rows: nat,
    width: nat,
    entry: spec_fn(nat, nat) -> Seq<char>,
)
    requires
        holds(file, list_head + text::comma_separated(entries) + list_end),
        holds(file, reader_head + text::decimal(width) + reader_end),
        entries.len() == rows * width,
        forall|p: nat, i: nat|
            p < rows && i < width && laws::row_index(p, width, i) < rows * width
                ==> entries[#[trigger] laws::row_index(p, width, i) as int] == entry(p, i),
    ensures
        rows_are_read(
            file,
            list_head,
            list_end,
            reader_head,
            reader_end,
            entries,
            rows,
            width,
            entry,
        ),
{
    lemma_rows(rows, width);
}

proof fn lemma_set_records(evals: Seq<Fp>, n: nat, width: nat, proofs: nat)
    ensures
        capture::set_eval_texts(evals, n, width, proofs).len() == proofs * n,
    decreases proofs,
{
    if proofs > 0 {
        let p = (proofs - 1) as nat;
        lemma_set_records(evals, n, width, p);
        assert((p + 1) * n == p * n + n) by (nonlinear_arith);
    } else {
        assert(0 * n == 0) by (nonlinear_arith);
    }
}

/// The record of a permutation set holds its own evaluations: the sets of a proof take three each,
/// but the last one takes two and has no last evaluation.
pub proof fn set_records_are_spelled_out(
    evals: Seq<Fp>,
    n: nat,
    width: nat,
    proofs: nat,
    p: nat,
    s: nat,
)
    requires
        p < proofs,
        s < n,
    ensures
        p * n + s < capture::set_eval_texts(evals, n, width, proofs).len(),
        capture::set_eval_texts(evals, n, width, proofs)[(p * n + s) as int] == "{ eval := "@
            + field::fp_text(evals[(p * width + 3 * s) as int]) + ", nextEval := "@
            + field::fp_text(evals[(p * width + 3 * s + 1) as int]) + ", lastEval := "@ + (if s + 1
            < n {
            "some "@ + field::fp_text(evals[(p * width + 3 * s + 2) as int])
        } else {
            "none"@
        }) + " }"@,
    decreases proofs,
{
    let last = (proofs - 1) as nat;
    lemma_set_records(evals, n, width, last);
    lemma_set_records(evals, n, width, proofs);
    assert((last + 1) * n == last * n + n) by (nonlinear_arith);
    if p < last {
        set_records_are_spelled_out(evals, n, width, last, p, s);
    } else {
        let own = Seq::new(
            n,
            |s: int| capture::set_eval_text(evals, (last * width) as int, s, n),
        );
        assert(capture::set_eval_texts(evals, n, width, proofs)[(last * n + s) as int]
            == own[s as int]);
    }
}

/// The records of the permutation sets, in terms of the list that the evaluations come from.
proof fn lemma_set_rows(scalars: Seq<Fp>, from: nat, sets: nat, width: nat, proofs: nat)
    requires
        from + proofs * width <= scalars.len(),
        sets > 0 ==> width == 3 * sets - 1,
    ensures
        ({
            let evals = scalars.subrange(from as int, (from + proofs * width) as int);
            let records = capture::set_eval_texts(evals, sets, width, proofs);
            &&& records.len() == proofs * sets
            &&& forall|p: nat, i: nat|
                p < proofs && i < sets ==> records[#[trigger] laws::row_index(p, sets, i) as int]
                    == "{ eval := "@ + field::fp_text(
                    scalars[(from + (p * width + 3 * i)) as int],
                ) + ", nextEval := "@ + field::fp_text(
                    scalars[(from + (p * width + 3 * i + 1)) as int],
                ) + ", lastEval := "@ + (if i + 1 < sets {
                    "some "@ + field::fp_text(scalars[(from + (p * width + 3 * i + 2)) as int])
                } else {
                    "none"@
                }) + " }"@
        }),
{
    let evals = scalars.subrange(from as int, (from + proofs * width) as int);
    let records = capture::set_eval_texts(evals, sets, width, proofs);
    lemma_set_records(evals, sets, width, proofs);
    assert forall|p: nat, i: nat|
        p < proofs && i < sets implies records[#[trigger] laws::row_index(p, sets, i) as int]
        == "{ eval := "@ + field::fp_text(scalars[(from + (p * width + 3 * i)) as int])
        + ", nextEval := "@ + field::fp_text(scalars[(from + (p * width + 3 * i + 1)) as int])
        + ", lastEval := "@ + (if i + 1 < sets {
        "some "@ + field::fp_text(scalars[(from + (p * width + 3 * i + 2)) as int])
    } else {
        "none"@
    }) + " }"@ by {
        set_records_are_spelled_out(evals, sets, width, proofs, p, i);
        assert(p * width + width <= proofs * width) by (nonlinear_arith)
            requires
                p < proofs,
        ;
    }
}

/// The sizes of an exported capture that its lists rest on.
spec fn sized(
    key: VerifyingKey,
    k: u32,
    num_proofs: usize,
    recorder: ChallengeRecorder,
    msm: MSM,
) -> bool {
    let s = key.shape(k, num_proofs);
    &&& key.cs_degree >= 2
    &&& recorder.common_points@.len() == num_proofs as nat * key.cs.num_instance_columns as nat
    &&& recorder.challenges@.len() == 11 + k
    &&& recorder.points@.len() == s.num_points()
    &&& recorder.scalars@.len() >= s.min_scalars()
    &&& msm.params.g@.len() == pow2(k as nat)
    &&& msm.g_scalars is Some
    &&& msm.g_scalars->0@.len() == pow2(k as nat)
    &&& msm.w_scalar is Some
    &&& msm.u_scalar is Some
}

proof fn lemma_sized(
    key: VerifyingKey,
    lean_namespace: Seq<char>,
    circuit_id: Seq<char>,
    k: u32,
    num_proofs: usize,
    recorder: ChallengeRecorder,
    msm: MSM,
)
    requires
        key.fault(lean_namespace, circuit_id, k, num_proofs, recorder, msm) is None,
    ensures
        sized(key, k, num_proofs, recorder, msm),
{
}

/// The records of the lookups, in terms of the list that the evaluations come from.
proof fn lemma_lookup_rows(scalars: Seq<Fp>, from: nat, n: nat)
    requires
        from + 5 * n <= scalars.len(),
    ensures
        capture::lookup_eval_texts(
            scalars.subrange(from as int, (from + 5 * n) as int),
            n,
        ) == Seq::new(n, |i: int| "{ productEval := "@ + field::fp_text(scalars[from + 5 * i])
            + ", productNextEval := "@ + field::fp_text(scalars[from + 5 * i + 1])
            + ", permutedInputEval := "@ + field::fp_text(scalars[from + 5 * i + 2])
            + ", permutedInputInvEval := "@ + field::fp_text(scalars[from + 5 * i + 3])
            + ", permutedTableEval := "@ + field::fp_text(scalars[from + 5 * i + 4]) + " }"@),
{
    let evals = scalars.subrange(from as int, (from + 5 * n) as int);
    let left = capture::lookup_eval_texts(evals, n);
    let right = Seq::new(n, |i: int| "{ productEval := "@ + field::fp_text(scalars[from
        + 5 * i]) + ", productNextEval := "@ + field::fp_text(scalars[from + 5 * i + 1])
        + ", permutedInputEval := "@ + field::fp_text(scalars[from + 5 * i + 2])
        + ", permutedInputInvEval := "@ + field::fp_text(scalars[from + 5 * i + 3])
        + ", permutedTableEval := "@ + field::fp_text(scalars[from + 5 * i + 4]) + " }"@);
    assert forall|i: int| 0 <= i < n implies left[i] == right[i] by {
        assert(evals[5 * i] == scalars[from + 5 * i]);
        assert(evals[5 * i + 1] == scalars[from + 5 * i + 1]);
        assert(evals[5 * i + 2] == scalars[from + 5 * i + 2]);
        assert(evals[5 * i + 3] == scalars[from + 5 * i + 3]);
        assert(evals[5 * i + 4] == scalars[from + 5 * i + 4]);
    }
    assert(left =~= right);
}

proof fn lemma_parts_1(
    file: Seq<char>,
    p0: Seq<char>,
)
    requires
        holds(file, p0),
    ensures
        holds(file, p0),
{
    let parts = seq![p0];
    assert(chained(parts[0], parts, 1) == p0) by {
        reveal_with_fuel(chained, 2);
    }
    lemma_windows(file, p0, parts);
    assert(holds(file, parts[0]));
}

proof fn lemma_parts_2(
    file: Seq<char>,
    p0: Seq<char>,
    p1: Seq<char>,
)
    requires
        holds(file, p0 + p1),
    ensures
        holds(file, p0),
        holds(file, p1),
{
    let parts = seq![p0, p1];
    assert(chained(parts[0], parts, 1) == p0 + p1) by {
        reveal_with_fuel(chained, 3);
    }
    lemma_windows(file, p0 + p1, parts);
    assert(holds(file, parts[0]));
    assert(holds(file, parts[1]));
}

proof fn lemma_parts_4(
    file: Seq<char>,
    p0: Seq<char>,
    p1: Seq<char>,
    p2: Seq<char>,
    p3: Seq<char>,
)
    requires
        holds(file, p0 + p1 + p2 + p3),
    ensures
        holds(file, p0),
        holds(file, p1),
        holds(file, p2),
        holds(file, p3),
{
    let parts = seq![p0, p1, p2, p3];
    assert(chained(parts[0], parts, 1) == p0 + p1 + p2 + p3) by {
        reveal_with_fuel(chained, 5);
    }
    lemma_windows(file, p0 + p1 + p2 + p3, parts);
    assert(holds(file, parts[0]));
    assert(holds(file, parts[1]));
    assert(holds(file, parts[2]));
    assert(holds(file, parts[3]));
}

proof fn lemma_parts_6(
    file: Seq<char>,
    p0: Seq<char>,
    p1: Seq<char>,
    p2: Seq<char>,
    p3: Seq<char>,
    p4: Seq<char>,
    p5: Seq<char>,
)
    requires
        holds(file, p0 + p1 + p2 + p3 + p4 + p5),
    ensures
        holds(file, p0),
        holds(file, p1),
        holds(file, p2),
        holds(file, p3),
        holds(file, p4),
        holds(file, p5),
{
    let parts = seq![p0, p1, p2, p3, p4, p5];
    assert(chained(parts[0], parts, 1) == p0 + p1 + p2 + p3 + p4 + p5) by {
        reveal_with_fuel(chained, 7);
    }
    lemma_windows(file, p0 + p1 + p2 + p3 + p4 + p5, parts);
    assert(holds(file, parts[0]));
    assert(holds(file, parts[1]));
    assert(holds(file, parts[2]));
    assert(holds(file, parts[3]));
    assert(holds(file, parts[4]));
    assert(holds(file, parts[5]));
}

proof fn lemma_chain_3(
    file: Seq<char>,
    p0: Seq<char>,
    p1: Seq<char>,
    p2: Seq<char>,
)
    requires
        holds(file, p0 + p1 + p2),
    ensures
        holds(file, p0 + p1 + p2),
{
    let parts = seq![p0, p1, p2];
    assert(chained(parts[0], parts, 1) == p0 + p1 + p2) by {
        reveal_with_fuel(chained, 4);
    }
    lemma_windows(file, p0 + p1 + p2, parts);
    assert(holds(file, window(parts, 0)));
}

proof fn lemma_chain_5(
    file: Seq<char>,
    p0: Seq<char>,
    p1: Seq<char>,
    p2: Seq<char>,
    p3: Seq<char>,
    p4: Seq<char>,
)
    requires
        holds(file, p0 + p1 + p2 + p3 + p4),
    ensures
        holds(file, p0 + p1 + p2),
        holds(file, p2 + p3 + p4),
{
    let parts = seq![p0, p1, p2, p3, p4];
    assert(chained(parts[0], parts, 1) == p0 + p1 + p2 + p3 + p4) by {
        reveal_with_fuel(chained, 6);
    }
    lemma_windows(file, p0 + p1 + p2 + p3 + p4, parts);
    assert(holds(file, window(parts, 0)));
    assert(holds(file, window(parts, 2)));
}

proof fn lemma_chain_7(
    file: Seq<char>,
    p0: Seq<char>,
    p1: Seq<char>,
    p2: Seq<char>,
    p3: Seq<char>,
    p4: Seq<char>,
    p5: Seq<char>,
    p6: Seq<char>,
)
    requires
        holds(file, p0 + p1 + p2 + p3 + p4 + p5 + p6),
    ensures
        holds(file, p0 + p1 + p2),
        holds(file, p2 + p3 + p4),
        holds(file, p4 + p5 + p6),
{
    let parts = seq![p0, p1, p2, p3, p4, p5, p6];
    assert(chained(parts[0], parts, 1) == p0 + p1 + p2 + p3 + p4 + p5 + p6) by {
        reveal_with_fuel(chained, 8);
    }
    lemma_windows(file, p0 + p1 + p2 + p3 + p4 + p5 + p6, parts);
    assert(holds(file, window(parts, 0)));
    assert(holds(file, window(parts, 2)));
    assert(holds(file, window(parts, 4)));
}

proof fn lemma_chain_9(
    file: Seq<char>,
    p0: Seq<char>,
    p1: Seq<char>,
    p2: Seq<char>,
    p3: Seq<char>,
    p4: Seq<char>,
    p5: Seq<char>,
    p6: Seq<char>,
    p7: Seq<char>,
    p8: Seq<char>,
)
    requires
        holds(file, p0 + p1 + p2 + p3 + p4 + p5 + p6 + p7 + p8),
    ensures
        holds(file, p0 + p1 + p2),
        holds(file, p2 + p3 + p4),
        holds(file, p4 + p5 + p6),
        holds(file, p6 + p7 + p8),
{
    let parts = seq![p0, p1, p2, p3, p4, p5, p6, p7, p8];
    assert(chained(parts[0], parts, 1) == p0 + p1 + p2 + p3 + p4 + p5 + p6 + p7 + p8) by {
        reveal_with_fuel(chained, 10);
    }
    lemma_windows(file, p0 + p1 + p2 + p3 + p4 + p5 + p6 + p7 + p8, parts);
    assert(holds(file, window(parts, 0)));
    assert(holds(file, window(parts, 2)));
    assert(holds(file, window(parts, 4)));
    assert(holds(file, window(parts, 6)));
}

proof fn lemma_chain_11(
    file: Seq<char>,
    p0: Seq<char>,
    p1: Seq<char>,
    p2: Seq<char>,
    p3: Seq<char>,
    p4: Seq<char>,
    p5: Seq<char>,
    p6: Seq<char>,
    p7: Seq<char>,
    p8: Seq<char>,
    p9: Seq<char>,
    p10: Seq<char>,
)
    requires
        holds(file, p0 + p1 + p2 + p3 + p4 + p5 + p6 + p7 + p8 + p9 + p10),
    ensures
        holds(file, p0 + p1 + p2),
        holds(file, p2 + p3 + p4),
        holds(file, p4 + p5 + p6),
        holds(file, p6 + p7 + p8),
        holds(file, p8 + p9 + p10),
{
    let parts = seq![p0, p1, p2, p3, p4, p5, p6, p7, p8, p9, p10];
    assert(chained(parts[0], parts, 1) == p0 + p1 + p2 + p3 + p4 + p5 + p6 + p7 + p8 + p9
        + p10) by {
        reveal_with_fuel(chained, 12);
    }
    lemma_windows(file, p0 + p1 + p2 + p3 + p4 + p5 + p6 + p7 + p8 + p9 + p10, parts);
    assert(holds(file, window(parts, 0)));
    assert(holds(file, window(parts, 2)));
    assert(holds(file, window(parts, 4)));
    assert(holds(file, window(parts, 6)));
    assert(holds(file, window(parts, 8)));
}

proof fn lemma_chain_23(
    file: Seq<char>,
    p0: Seq<char>,
    p1: Seq<char>,
    p2: Seq<char>,
    p3: Seq<char>,
    p4: Seq<char>,
    p5: Seq<char>,
    p6: Seq<char>,
    p7: Seq<char>,
    p8: Seq<char>,
    p9: Seq<char>,
    p10: Seq<char>,
    p11: Seq<char>,
    p12: Seq<char>,
    p13: Seq<char>,
    p14: Seq<char>,
    p15: Seq<char>,
    p16: Seq<char>,
    p17: Seq<char>,
    p18: Seq<char>,
    p19: Seq<char>,
    p20: Seq<char>,
    p21: Seq<char>,
    p22: Seq<char>,
)
    requires
        holds(file, p0 + p1 + p2 + p3 + p4 + p5 + p6 + p7 + p8 + p9 + p10 + p11 + p12 + p13
            + p14 + p15 + p16 + p17 + p18 + p19 + p20 + p21 + p22),
    ensures
        holds(file, p0 + p1 + p2),
        holds(file, p2 + p3 + p4),
        holds(file, p4 + p5 + p6),
        holds(file, p6 + p7 + p8),
        holds(file, p8 + p9 + p10),
        holds(file, p10 + p11 + p12),
        holds(file, p12 + p13 + p14),
        holds(file, p14 + p15 + p16),
        holds(file, p16 + p17 + p18),
        holds(file, p18 + p19 + p20),
        holds(file, p20 + p21 + p22),
{
    let parts = seq![p0, p1, p2, p3, p4, p5, p6, p7, p8, p9, p10, p11, p12, p13, p14, p15, p16, p17, p18, p19, p20, p21, p22];
    assert(chained(parts[0], parts, 1) == p0 + p1 + p2 + p3 + p4 + p5 + p6 + p7 + p8 + p9 + p10
        + p11 + p12 + p13 + p14 + p15 + p16 + p17 + p18 + p19 + p20 + p21 + p22) by {
        reveal_with_fuel(chained, 24);
    }
    lemma_windows(file, p0 + p1 + p2 + p3 + p4 + p5 + p6 + p7 + p8 + p9 + p10 + p11 + p12 + p13
        + p14 + p15 + p16 + p17 + p18 + p19 + p20 + p21 + p22, parts);
    assert(holds(file, window(parts, 0)));
    assert(holds(file, window(parts, 2)));
    assert(holds(file, window(parts, 4)));
    assert(holds(file, window(parts, 6)));
    assert(holds(file, window(parts, 8)));
    assert(holds(file, window(parts, 10)));
    assert(holds(file, window(parts, 12)));
    assert(holds(file, window(parts, 14)));
    assert(holds(file, window(parts, 16)));
    assert(holds(file, window(parts, 18)));
    assert(holds(file, window(parts, 20)));
}

proof fn lemma_chain_25(
    file: Seq<char>,
    p0: Seq<char>,
    p1: Seq<char>,
    p2: Seq<char>,
    p3: Seq<char>,
    p4: Seq<char>,
    p5: Seq<char>,
    p6: Seq<char>,
    p7: Seq<char>,
    p8: Seq<char>,
    p9: Seq<char>,
    p10: Seq<char>,
    p11: Seq<char>,
    p12: Seq<char>,
    p13: Seq<char>,
    p14: Seq<char>,
    p15: Seq<char>,
    p16: Seq<char>,
    p17: Seq<char>,
    p18: Seq<char>,
    p19: Seq<char>,
    p20: Seq<char>,
    p21: Seq<char>,
    p22: Seq<char>,
    p23: Seq<char>,
    p24: Seq<char>,
)
    requires
        holds(file, p0 + p1 + p2 + p3 + p4 + p5 + p6 + p7 + p8 + p9 + p10 + p11 + p12 + p13
            + p14 + p15 + p16 + p17 + p18 + p19 + p20 + p21 + p22 + p23 + p24),
    ensures
        holds(file, p0 + p1 + p2),
        holds(file, p2 + p3 + p4),
        holds(file, p4 + p5 + p6),
        holds(file, p6 + p7 + p8),
        holds(file, p8 + p9 + p10),
        holds(file, p10 + p11 + p12),
        holds(file, p12 + p13 + p14),
        holds(file, p14 + p15 + p16),
        holds(file, p16 + p17 + p18),
        holds(file, p18 + p19 + p20),
        holds(file, p20 + p21 + p22),
        holds(file, p22 + p23 + p24),
{
    let parts = seq![p0, p1, p2, p3, p4, p5, p6, p7, p8, p9, p10, p11, p12, p13, p14, p15, p16, p17, p18, p19, p20, p21, p22, p23, p24];
    assert(chained(parts[0], parts, 1) == p0 + p1 + p2 + p3 + p4 + p5 + p6 + p7 + p8 + p9 + p10
        + p11 + p12 + p13 + p14 + p15 + p16 + p17 + p18 + p19 + p20 + p21 + p22 + p23
        + p24) by {
        reveal_with_fuel(chained, 26);
    }
    lemma_windows(file, p0 + p1 + p2 + p3 + p4 + p5 + p6 + p7 + p8 + p9 + p10 + p11 + p12 + p13
        + p14 + p15 + p16 + p17 + p18 + p19 + p20 + p21 + p22 + p23 + p24, parts);
    assert(holds(file, window(parts, 0)));
    assert(holds(file, window(parts, 2)));
    assert(holds(file, window(parts, 4)));
    assert(holds(file, window(parts, 6)));
    assert(holds(file, window(parts, 8)));
    assert(holds(file, window(parts, 10)));
    assert(holds(file, window(parts, 12)));
    assert(holds(file, window(parts, 14)));
    assert(holds(file, window(parts, 16)));
    assert(holds(file, window(parts, 18)));
    assert(holds(file, window(parts, 20)));
    assert(holds(file, window(parts, 22)));
}

proof fn lemma_chain_31(
    file: Seq<char>,
    p0: Seq<char>,
    p1: Seq<char>,
    p2: Seq<char>,
    p3: Seq<char>,
    p4: Seq<char>,
    p5: Seq<char>,
    p6: Seq<char>,
    p7: Seq<char>,
    p8: Seq<char>,
    p9: Seq<char>,
    p10: Seq<char>,
    p11: Seq<char>,
    p12: Seq<char>,
    p13: Seq<char>,
    p14: Seq<char>,
    p15: Seq<char>,
    p16: Seq<char>,
    p17: Seq<char>,
    p18: Seq<char>,
    p19: Seq<char>,
    p20: Seq<char>,
    p21: Seq<char>,
    p22: Seq<char>,
    p23: Seq<char>,
    p24: Seq<char>,
    p25: Seq<char>,
    p26: Seq<char>,
    p27: Seq<char>,
    p28: Seq<char>,
    p29: Seq<char>,
    p30: Seq<char>,
)
    requires
        holds(file, p0 + p1 + p2 + p3 + p4 + p5 + p6 + p7 + p8 + p9 + p10 + p11 + p12 + p13
            + p14 + p15 + p16 + p17 + p18 + p19 + p20 + p21 + p22 + p23 + p24 + p25 + p26 + p27
            + p28 + p29 + p30),
    ensures
        holds(file, p0 + p1 + p2),
        holds(file, p2 + p3 + p4),
        holds(file, p4 + p5 + p6),
        holds(file, p6 + p7 + p8),
        holds(file, p8 + p9 + p10),
        holds(file, p10 + p11 + p12),
        holds(file, p12 + p13 + p14),
        holds(file, p14 + p15 + p16),
        holds(file, p16 + p17 + p18),
        holds(file, p18 + p19 + p20),
        holds(file, p20 + p21 + p22),
        holds(file, p22 + p23 + p24),
        holds(file, p24 + p25 + p26),
        holds(file, p26 + p27 + p28),
        holds(file, p28 + p29 + p30),
{
    let parts = seq![p0, p1, p2, p3, p4, p5, p6, p7, p8, p9, p10, p11, p12, p13, p14, p15, p16, p17, p18, p19, p20, p21, p22, p23, p24, p25, p26, p27, p28, p29, p30];
    assert(chained(parts[0], parts, 1) == p0 + p1 + p2 + p3 + p4 + p5 + p6 + p7 + p8 + p9 + p10
        + p11 + p12 + p13 + p14 + p15 + p16 + p17 + p18 + p19 + p20 + p21 + p22 + p23 + p24
        + p25 + p26 + p27 + p28 + p29 + p30) by {
        reveal_with_fuel(chained, 32);
    }
    lemma_windows(file, p0 + p1 + p2 + p3 + p4 + p5 + p6 + p7 + p8 + p9 + p10 + p11 + p12 + p13
        + p14 + p15 + p16 + p17 + p18 + p19 + p20 + p21 + p22 + p23 + p24 + p25 + p26 + p27
        + p28 + p29 + p30, parts);
    assert(holds(file, window(parts, 0)));
    assert(holds(file, window(parts, 2)));
    assert(holds(file, window(parts, 4)));
    assert(holds(file, window(parts, 6)));
    assert(holds(file, window(parts, 8)));
    assert(holds(file, window(parts, 10)));
    assert(holds(file, window(parts, 12)));
    assert(holds(file, window(parts, 14)));
    assert(holds(file, window(parts, 16)));
    assert(holds(file, window(parts, 18)));
    assert(holds(file, window(parts, 20)));
    assert(holds(file, window(parts, 22)));
    assert(holds(file, window(parts, 24)));
    assert(holds(file, window(parts, 26)));
    assert(holds(file, window(parts, 28)));
}

proof fn lemma_transcript_is_written_list(
    key: VerifyingKey,
    lean_namespace: Seq<char>,
    circuit_id: Seq<char>,
    k: u32,
    num_proofs: usize,
    recorder: ChallengeRecorder,
    msm: MSM,
)
    requires
        key.fault(lean_namespace, circuit_id, k, num_proofs, recorder, msm) is None,
    ensures
        ({
            let c = capture::capture(&key, k, num_proofs, &recorder, &msm);
            let t = capture::capture(&key, k, num_proofs, &recorder, &msm).table();
            transcript::elt_texts(t, transcript::first_events(recorder.events@, 1
                + recorder.common_points@.len()))
                == seq!["TranscriptElt.scalar "@ + field::fp_text(key.transcript_repr)]
                    + Seq::new(num_proofs as nat * key.cs.num_instance_columns as nat,
                    |i: int| "TranscriptElt.point ("@
                    + points::ref_text(t, recorder.common_points@[i]) + ")"@)
        }),
{
    let c = capture::capture(&key, k, num_proofs, &recorder, &msm);
    let t = capture::capture(&key, k, num_proofs, &recorder, &msm).table();
    laws::transcript_prefix_is_key_and_instances(
        key, lean_namespace, circuit_id, k, num_proofs, recorder, msm, t,
    );
    assert(transcript::elt_texts(t, transcript::first_events(recorder.events@, 1
        + recorder.common_points@.len()))
        =~= seq!["TranscriptElt.scalar "@ + field::fp_text(key.transcript_repr)]
            + Seq::new(num_proofs as nat * key.cs.num_instance_columns as nat,
            |i: int| "TranscriptElt.point ("@ + points::ref_text(t, recorder.common_points@[i])
            + ")"@));
}

#[verifier::rlimit(30)]
proof fn lemma_transcript_is_written(
    file: Seq<char>,
    key: VerifyingKey,
    lean_namespace: Seq<char>,
    circuit_id: Seq<char>,
    k: u32,
    num_proofs: usize,
    recorder: ChallengeRecorder,
    msm: MSM,
)
    requires
        key.fault(lean_namespace, circuit_id, k, num_proofs, recorder, msm) is None,
        holds(file, fixture::transcript_text(capture::capture(&key, k, num_proofs, &recorder, &msm), capture::capture(&key, k, num_proofs, &recorder, &msm).table())),
    ensures
        ({
            let t = capture::capture(&key, k, num_proofs, &recorder, &msm).table();
            &&& holds(
                file,
                "/-- Captured verifier Fiat-Shamir prefix before the proof-derived transcript suffix.\nGenerated from `ChallengeRecorder`'s verification-key and instance absorb events. -/\ndef capturedInit : List (TranscriptElt Fp G) :=\n  ["@
                    + text::comma_separated(seq!["TranscriptElt.scalar "@
                        + field::fp_text(key.transcript_repr)]
                        + Seq::new(num_proofs as nat * key.cs.num_instance_columns as nat,
                        |i: int| "TranscriptElt.point ("@
                        + points::ref_text(t, recorder.common_points@[i]) + ")"@))
                    + "]\n\ntheorem capturedInit_startsWith_vkTranscriptRepr :\n    capturedInit.head? = some (TranscriptElt.scalar capturedVkTranscriptRepr) := by native_decide\n\n/-- Captured verifier Fiat-Shamir schedule, including the captured prefix.\nGenerated from `ChallengeRecorder`'s ordered absorb/squeeze events. After each\nsqueeze the captured challenge is appended as an abstract separator (mirroring\n`deriveChallenges`); the deployed Blake2b transcript uses a domain-prefix byte. -/\ndef capturedScheduleEntries : List (List (TranscriptElt Fp G) × Fp) :=\n  ["@,
            )
            &&& holds(
                file,
                "]\n\ntheorem capturedInit_startsWith_vkTranscriptRepr :\n    capturedInit.head? = some (TranscriptElt.scalar capturedVkTranscriptRepr) := by native_decide\n\n/-- Captured verifier Fiat-Shamir schedule, including the captured prefix.\nGenerated from `ChallengeRecorder`'s ordered absorb/squeeze events. After each\nsqueeze the captured challenge is appended as an abstract separator (mirroring\n`deriveChallenges`); the deployed Blake2b transcript uses a domain-prefix byte. -/\ndef capturedScheduleEntries : List (List (TranscriptElt Fp G) × Fp) :=\n  ["@
                    + text::comma_separated(transcript::schedule_texts(t, recorder.events@))
                    + "]\n\n"@,
            )
        }),
{
    let c = capture::capture(&key, k, num_proofs, &recorder, &msm);
    let t = capture::capture(&key, k, num_proofs, &recorder, &msm).table();
    lemma_transcript_is_written_list(key, lean_namespace, circuit_id, k, num_proofs, recorder, msm);
    lemma_chain_5(
        file,
        "/-- Captured verifier Fiat-Shamir prefix before the proof-derived transcript suffix.\nGenerated from `ChallengeRecorder`'s verification-key and instance absorb events. -/\ndef capturedInit : List (TranscriptElt Fp G) :=\n  ["@,
        text::comma_separated(seq!["TranscriptElt.scalar "@
            + field::fp_text(key.transcript_repr)]
            + Seq::new(num_proofs as nat * key.cs.num_instance_columns as nat,
            |i: int| "TranscriptElt.point ("@ + points::ref_text(t, recorder.common_points@[i])
            + ")"@)),
        "]\n\ntheorem capturedInit_startsWith_vkTranscriptRepr :\n    capturedInit.head? = some (TranscriptElt.scalar capturedVkTranscriptRepr) := by native_decide\n\n/-- Captured verifier Fiat-Shamir schedule, including the captured prefix.\nGenerated from `ChallengeRecorder`'s ordered absorb/squeeze events. After each\nsqueeze the captured challenge is appended as an abstract separator (mirroring\n`deriveChallenges`); the deployed Blake2b transcript uses a domain-prefix byte. -/\ndef capturedScheduleEntries : List (List (TranscriptElt Fp G) × Fp) :=\n  ["@,
        text::comma_separated(transcript::schedule_texts(t, recorder.events@)),
        "]\n\n"@,
    );
}

/// The transcript prefix in the file lists the scalar of the key and then every recorded instance
/// commitment, one for each proof and instance column, in order; the schedule lists an entry for
/// every squeeze.
#[verifier::rlimit(30)]
pub proof fn transcript_is_written(
    key: VerifyingKey,
    lean_namespace: Seq<char>,
    circuit_id: Seq<char>,
    k: u32,
    num_proofs: usize,
    recorder: ChallengeRecorder,
    msm: MSM,
)
    requires
        key.fault(lean_namespace, circuit_id, k, num_proofs, recorder, msm) is None,
    ensures
        ({
            let file = fixture::fixture_text(lean_namespace, circuit_id, capture::capture(&key, k, num_proofs, &recorder, &msm));
            let t = capture::capture(&key, k, num_proofs, &recorder, &msm).table();
            &&& holds(
                file,
                "/-- Captured verifier Fiat-Shamir prefix before the proof-derived transcript suffix.\nGenerated from `ChallengeRecorder`'s verification-key and instance absorb events. -/\ndef capturedInit : List (TranscriptElt Fp G) :=\n  ["@
                    + text::comma_separated(seq!["TranscriptElt.scalar "@
                        + field::fp_text(key.transcript_repr)]
                        + Seq::new(num_proofs as nat * key.cs.num_instance_columns as nat,
                        |i: int| "TranscriptElt.point ("@
                        + points::ref_text(t, recorder.common_points@[i]) + ")"@))
                    + "]\n\ntheorem capturedInit_startsWith_vkTranscriptRepr :\n    capturedInit.head? = some (TranscriptElt.scalar capturedVkTranscriptRepr) := by native_decide\n\n/-- Captured verifier Fiat-Shamir schedule, including the captured prefix.\nGenerated from `ChallengeRecorder`'s ordered absorb/squeeze events. After each\nsqueeze the captured challenge is appended as an abstract separator (mirroring\n`deriveChallenges`); the deployed Blake2b transcript uses a domain-prefix byte. -/\ndef capturedScheduleEntries : List (List (TranscriptElt Fp G) × Fp) :=\n  ["@,
            )
            &&& holds(
                file,
                "]\n\ntheorem capturedInit_startsWith_vkTranscriptRepr :\n    capturedInit.head? = some (TranscriptElt.scalar capturedVkTranscriptRepr) := by native_decide\n\n/-- Captured verifier Fiat-Shamir schedule, including the captured prefix.\nGenerated from `ChallengeRecorder`'s ordered absorb/squeeze events. After each\nsqueeze the captured challenge is appended as an abstract separator (mirroring\n`deriveChallenges`); the deployed Blake2b transcript uses a domain-prefix byte. -/\ndef capturedScheduleEntries : List (List (TranscriptElt Fp G) × Fp) :=\n  ["@
                    + text::comma_separated(transcript::schedule_texts(t, recorder.events@))
                    + "]\n\n"@,
            )
        }),
{
    let c = capture::capture(&key, k, num_proofs, &recorder, &msm);
    lemma_sized(key, lean_namespace, circuit_id, k, num_proofs, recorder, msm);
    lemma_has_transcript(lean_namespace, circuit_id, c);
    lemma_transcript_is_written(
        fixture::fixture_text(lean_namespace, circuit_id, capture::capture(&key, k, num_proofs, &recorder, &msm)),
        key, lean_namespace, circuit_id, k, num_proofs, recorder, msm,
    );
}

proof fn lemma_header_is_written_list(
    key: VerifyingKey,
    k: u32,
    num_proofs: usize,
    recorder: ChallengeRecorder,
    msm: MSM,
)
    requires
        sized(key, k, num_proofs, recorder, msm),
    ensures
        ({
            let c = capture::capture(&key, k, num_proofs, &recorder, &msm);
            let t = capture::capture(&key, k, num_proofs, &recorder, &msm).table();
            points::coordinate_texts(t)
                == Seq::new(t.len(), |i: int| points::coordinates_text(t[i]))
        }),
{
    let c = capture::capture(&key, k, num_proofs, &recorder, &msm);
    let t = capture::capture(&key, k, num_proofs, &recorder, &msm).table();
    assert(points::coordinate_texts(t)
        =~= Seq::new(t.len(), |i: int| points::coordinates_text(t[i])));
}

#[verifier::rlimit(30)]
proof fn lemma_header_is_written(
    file: Seq<char>,
    key: VerifyingKey,
    k: u32,
    num_proofs: usize,
    recorder: ChallengeRecorder,
    msm: MSM,
    lean_namespace: Seq<char>,
    circuit_id: Seq<char>,
)
    requires
        sized(key, k, num_proofs, recorder, msm),
        holds(file, fixture::header_text(lean_namespace, circuit_id, capture::capture(&key, k, num_proofs, &recorder, &msm).table())),
    ensures
        ({
            let t = capture::capture(&key, k, num_proofs, &recorder, &msm).table();
            &&& holds(
                file,
                "-- Auto-generated by halo2 `dump_vesta_lean_fixture`. Do not edit by hand.\nimport Zcash.Snark\n\nset_option maxRecDepth 1000000\n\nnamespace "@
                    + lean_namespace
                    + "\n\nopen Zcash.Snark\nopen CompElliptic.CurveForms.ShortWeierstrass\nopen CompElliptic.Curves.Pasta\nopen CompElliptic.Fields.Pasta\n\n/-- Scalar field element from four little-endian u64 limbs. -/\ndef mkFp (a b c d : ℕ) : Fp := (a : Fp) + (b : Fp) * (2 : Fp) ^ 64 + (c : Fp) * (2 : Fp) ^ 128 + (d : Fp) * (2 : Fp) ^ 192\n\nabbrev Fq := VestaBaseField\n\n/-- Vesta base field element from four little-endian u64 limbs. -/\ndef mkFq (a b c d : ℕ) : Fq := (a : Fq) + (b : Fq) * (2 : Fq) ^ 64 + (c : Fq) * (2 : Fq) ^ 128 + (d : Fq) * (2 : Fq) ^ 192\n\nabbrev G := VestaG\n\ninstance : Inhabited G := ⟨0⟩\n\ndef capturedCircuitId : String := \""@,
            )
            &&& holds(
                file,
                "\n\nopen Zcash.Snark\nopen CompElliptic.CurveForms.ShortWeierstrass\nopen CompElliptic.Curves.Pasta\nopen CompElliptic.Fields.Pasta\n\n/-- Scalar field element from four little-endian u64 limbs. -/\ndef mkFp (a b c d : ℕ) : Fp := (a : Fp) + (b : Fp) * (2 : Fp) ^ 64 + (c : Fp) * (2 : Fp) ^ 128 + (d : Fp) * (2 : Fp) ^ 192\n\nabbrev Fq := VestaBaseField\n\n/-- Vesta base field element from four little-endian u64 limbs. -/\ndef mkFq (a b c d : ℕ) : Fq := (a : Fq) + (b : Fq) * (2 : Fq) ^ 64 + (c : Fq) * (2 : Fq) ^ 128 + (d : Fq) * (2 : Fq) ^ 192\n\nabbrev G := VestaG\n\ninstance : Inhabited G := ⟨0⟩\n\ndef capturedCircuitId : String := \""@
                    + circuit_id
                    + "\"\n\n/-- Canonical affine coordinates for every distinct Vesta point used by this fixture. -/\ndef capturedPointCoordinates : List (Fq × Fq) := ["@,
            )
            &&& holds(
                file,
                "\"\n\n/-- Canonical affine coordinates for every distinct Vesta point used by this fixture. -/\ndef capturedPointCoordinates : List (Fq × Fq) := ["@
                    + text::comma_separated(Seq::new(t.len(),
                        |i: int| points::coordinates_text(t[i])))
                    + "]\n\ndef capturedPointCoordinatesValid : Bool :=\n  capturedPointCoordinates.all fun p => decide (OnCurve Vesta.a Vesta.b p) || decide (p = (0, 0))\n\ntheorem capturedPointCoordinatesValid_eq_true : capturedPointCoordinatesValid = true := by native_decide\n\ndef mkVestaPoint (p : Fq × Fq) : G :=\n  if h : OnCurve Vesta.a Vesta.b p then ⟨p.1, p.2, Or.inl h⟩\n  else if h0 : p = (0, 0) then ⟨p.1, p.2, Or.inr h0⟩ else 0\n\ndef capturedPoints : List G := capturedPointCoordinates.map mkVestaPoint\n\ndef capturedPoint (i : ℕ) : G := capturedPoints.getD i 0\n\n"@,
            )
        }),
{
    let c = capture::capture(&key, k, num_proofs, &recorder, &msm);
    let t = capture::capture(&key, k, num_proofs, &recorder, &msm).table();
    lemma_header_is_written_list(key, k, num_proofs, recorder, msm);
    lemma_chain_7(
        file,
        "-- Auto-generated by halo2 `dump_vesta_lean_fixture`. Do not edit by hand.\nimport Zcash.Snark\n\nset_option maxRecDepth 1000000\n\nnamespace "@,
        lean_namespace,
        "\n\nopen Zcash.Snark\nopen CompElliptic.CurveForms.ShortWeierstrass\nopen CompElliptic.Curves.Pasta\nopen CompElliptic.Fields.Pasta\n\n/-- Scalar field element from four little-endian u64 limbs. -/\ndef mkFp (a b c d : ℕ) : Fp := (a : Fp) + (b : Fp) * (2 : Fp) ^ 64 + (c : Fp) * (2 : Fp) ^ 128 + (d : Fp) * (2 : Fp) ^ 192\n\nabbrev Fq := VestaBaseField\n\n/-- Vesta base field element from four little-endian u64 limbs. -/\ndef mkFq (a b c d : ℕ) : Fq := (a : Fq) + (b : Fq) * (2 : Fq) ^ 64 + (c : Fq) * (2 : Fq) ^ 128 + (d : Fq) * (2 : Fq) ^ 192\n\nabbrev G := VestaG\n\ninstance : Inhabited G := ⟨0⟩\n\ndef capturedCircuitId : String := \""@,
        circuit_id,
        "\"\n\n/-- Canonical affine coordinates for every distinct Vesta point used by this fixture. -/\ndef capturedPointCoordinates : List (Fq × Fq) := ["@,
        text::comma_separated(Seq::new(t.len(), |i: int| points::coordinates_text(t[i]))),
        "]\n\ndef capturedPointCoordinatesValid : Bool :=\n  capturedPointCoordinates.all fun p => decide (OnCurve Vesta.a Vesta.b p) || decide (p = (0, 0))\n\ntheorem capturedPointCoordinatesValid_eq_true : capturedPointCoordinatesValid = true := by native_decide\n\ndef mkVestaPoint (p : Fq × Fq) : G :=\n  if h : OnCurve Vesta.a Vesta.b p then ⟨p.1, p.2, Or.inl h⟩\n  else if h0 : p = (0, 0) then ⟨p.1, p.2, Or.inr h0⟩ else 0\n\ndef capturedPoints : List G := capturedPointCoordinates.map mkVestaPoint\n\ndef capturedPoint (i : ℕ) : G := capturedPoints.getD i 0\n\n"@,
    );
}

/// The file opens the namespace, names the circuit, and lists the coordinates of all points of its
/// table in the order of their numbers.
#[verifier::rlimit(30)]
pub proof fn header_is_written(
    key: VerifyingKey,
    lean_namespace: Seq<char>,
    circuit_id: Seq<char>,
    k: u32,
    num_proofs: usize,
    recorder: ChallengeRecorder,
    msm: MSM,
)
    requires
        key.fault(lean_namespace, circuit_id, k, num_proofs, recorder, msm) is None,
    ensures
        ({
            let file = fixture::fixture_text(lean_namespace, circuit_id, capture::capture(&key, k, num_proofs, &recorder, &msm));
            let t = capture::capture(&key, k, num_proofs, &recorder, &msm).table();
            &&& holds(
                file,
                "-- Auto-generated by halo2 `dump_vesta_lean_fixture`. Do not edit by hand.\nimport Zcash.Snark\n\nset_option maxRecDepth 1000000\n\nnamespace "@
                    + lean_namespace
                    + "\n\nopen Zcash.Snark\nopen CompElliptic.CurveForms.ShortWeierstrass\nopen CompElliptic.Curves.Pasta\nopen CompElliptic.Fields.Pasta\n\n/-- Scalar field element from four little-endian u64 limbs. -/\ndef mkFp (a b c d : ℕ) : Fp := (a : Fp) + (b : Fp) * (2 : Fp) ^ 64 + (c : Fp) * (2 : Fp) ^ 128 + (d : Fp) * (2 : Fp) ^ 192\n\nabbrev Fq := VestaBaseField\n\n/-- Vesta base field element from four little-endian u64 limbs. -/\ndef mkFq (a b c d : ℕ) : Fq := (a : Fq) + (b : Fq) * (2 : Fq) ^ 64 + (c : Fq) * (2 : Fq) ^ 128 + (d : Fq) * (2 : Fq) ^ 192\n\nabbrev G := VestaG\n\ninstance : Inhabited G := ⟨0⟩\n\ndef capturedCircuitId : String := \""@,
            )
            &&& holds(
                file,
                "\n\nopen Zcash.Snark\nopen CompElliptic.CurveForms.ShortWeierstrass\nopen CompElliptic.Curves.Pasta\nopen CompElliptic.Fields.Pasta\n\n/-- Scalar field element from four little-endian u64 limbs. -/\ndef mkFp (a b c d : ℕ) : Fp := (a : Fp) + (b : Fp) * (2 : Fp) ^ 64 + (c : Fp) * (2 : Fp) ^ 128 + (d : Fp) * (2 : Fp) ^ 192\n\nabbrev Fq := VestaBaseField\n\n/-- Vesta base field element from four little-endian u64 limbs. -/\ndef mkFq (a b c d : ℕ) : Fq := (a : Fq) + (b : Fq) * (2 : Fq) ^ 64 + (c : Fq) * (2 : Fq) ^ 128 + (d : Fq) * (2 : Fq) ^ 192\n\nabbrev G := VestaG\n\ninstance : Inhabited G := ⟨0⟩\n\ndef capturedCircuitId : String := \""@
                    + circuit_id
                    + "\"\n\n/-- Canonical affine coordinates for every distinct Vesta point used by this fixture. -/\ndef capturedPointCoordinates : List (Fq × Fq) := ["@,
            )
            &&& holds(
                file,
                "\"\n\n/-- Canonical affine coordinates for every distinct Vesta point used by this fixture. -/\ndef capturedPointCoordinates : List (Fq × Fq) := ["@
                    + text::comma_separated(Seq::new(t.len(),
                        |i: int| points::coordinates_text(t[i])))
                    + "]\n\ndef capturedPointCoordinatesValid : Bool :=\n  capturedPointCoordinates.all fun p => decide (OnCurve Vesta.a Vesta.b p) || decide (p = (0, 0))\n\ntheorem capturedPointCoordinatesValid_eq_true : capturedPointCoordinatesValid = true := by native_decide\n\ndef mkVestaPoint (p : Fq × Fq) : G :=\n  if h : OnCurve Vesta.a Vesta.b p then ⟨p.1, p.2, Or.inl h⟩\n  else if h0 : p = (0, 0) then ⟨p.1, p.2, Or.inr h0⟩ else 0\n\ndef capturedPoints : List G := capturedPointCoordinates.map mkVestaPoint\n\ndef capturedPoint (i : ℕ) : G := capturedPoints.getD i 0\n\n"@,
            )
        }),
{
    let c = capture::capture(&key, k, num_proofs, &recorder, &msm);
    lemma_sized(key, lean_namespace, circuit_id, k, num_proofs, recorder, msm);
    lemma_has_header(lean_namespace, circuit_id, c);
    lemma_header_is_written(
        fixture::fixture_text(lean_namespace, circuit_id, capture::capture(&key, k, num_proofs, &recorder, &msm)),
        key, k, num_proofs, recorder, msm, lean_namespace, circuit_id,
    );
}

#[verifier::rlimit(30)]
proof fn lemma_shape_is_written(
    file: Seq<char>,
    key: VerifyingKey,
    k: u32,
    num_proofs: usize,
    recorder: ChallengeRecorder,
    msm: MSM,
)
    requires
        sized(key, k, num_proofs, recorder, msm),
        holds(file, fixture::shape_text(capture::capture(&key, k, num_proofs, &recorder, &msm))),
    ensures
        ({
            let np = num_proofs as nat;
            let nl = key.cs.lookups@.len();
            let sets = circuit::chunk_count(key.cs.permutation_columns@.len(), (key.cs_degree - 2) as nat);
            let width = (if sets == 0 { 0 } else { (3 * sets - 1) as nat });
            let instance_end = np * key.cs.instance_queries@.len();
            let advice_eval_end = instance_end + np * key.cs.advice_queries@.len();
            let fixed_end = advice_eval_end + key.cs.fixed_queries@.len();
            let common_end = fixed_end + 1 + key.permutation_commitments@.len();
            let set_end = common_end + np * width;
            let eval_end = set_end + 5 * (np * nl);
            &&& holds(
                file,
                "def shape : Shape := { k := "@
                    + text::decimal(k as nat)
                    + ", numProofs := "@,
            )
            &&& holds(
                file,
                ", numProofs := "@
                    + text::decimal(num_proofs as nat)
                    + ", numAdviceColumns := "@,
            )
            &&& holds(
                file,
                ", numAdviceColumns := "@
                    + text::decimal(key.cs.num_advice_columns as nat)
                    + ", numLookups := "@,
            )
            &&& holds(
                file,
                ", numLookups := "@
                    + text::decimal(nl)
                    + ", numPermutationSets := "@,
            )
            &&& holds(
                file,
                ", numPermutationSets := "@
                    + text::decimal(sets)
                    + ", numPermutationColumns := "@,
            )
            &&& holds(
                file,
                ", numPermutationColumns := "@
                    + text::decimal(key.permutation_commitments@.len())
                    + ", numQuotientPieces := "@,
            )
            &&& holds(
                file,
                ", numQuotientPieces := "@
                    + text::decimal(key.quotient_poly_degree as nat)
                    + ", numInstanceQueries := "@,
            )
            &&& holds(
                file,
                ", numInstanceQueries := "@
                    + text::decimal(key.cs.instance_queries@.len())
                    + ", numAdviceQueries := "@,
            )
            &&& holds(
                file,
                ", numAdviceQueries := "@
                    + text::decimal(key.cs.advice_queries@.len())
                    + ", numFixedQueries := "@,
            )
            &&& holds(
                file,
                ", numFixedQueries := "@
                    + text::decimal(key.cs.fixed_queries@.len())
                    + ", numPointSets := "@,
            )
            &&& holds(
                file,
                ", numPointSets := "@
                    + text::decimal((recorder.scalars@.len() - eval_end - 2) as nat)
                    + " }\n\n"@,
            )
        }),
{
    let c = capture::capture(&key, k, num_proofs, &recorder, &msm);
    let np = num_proofs as nat;
    let nl = key.cs.lookups@.len();
    let sets = circuit::chunk_count(key.cs.permutation_columns@.len(), (key.cs_degree - 2) as nat);
    let width = (if sets == 0 { 0 } else { (3 * sets - 1) as nat });
    let instance_end = np * key.cs.instance_queries@.len();
    let advice_eval_end = instance_end + np * key.cs.advice_queries@.len();
    let fixed_end = advice_eval_end + key.cs.fixed_queries@.len();
    let common_end = fixed_end + 1 + key.permutation_commitments@.len();
    let set_end = common_end + np * width;
    let eval_end = set_end + 5 * (np * nl);
    refusals::shape_is_that_of_the_key(key, k, num_proofs);
    refusals::blocks_have_the_sizes_of_the_protocol(c.shape);
    schedule::point_blocks_in_order(c.shape);
    schedule::scalar_blocks_in_order(c.shape);
    lemma_chain_23(
        file,
        "def shape : Shape := { k := "@,
        text::decimal(k as nat),
        ", numProofs := "@,
        text::decimal(num_proofs as nat),
        ", numAdviceColumns := "@,
        text::decimal(key.cs.num_advice_columns as nat),
        ", numLookups := "@,
        text::decimal(nl),
        ", numPermutationSets := "@,
        text::decimal(sets),
        ", numPermutationColumns := "@,
        text::decimal(key.permutation_commitments@.len()),
        ", numQuotientPieces := "@,
        text::decimal(key.quotient_poly_degree as nat),
        ", numInstanceQueries := "@,
        text::decimal(key.cs.instance_queries@.len()),
        ", numAdviceQueries := "@,
        text::decimal(key.cs.advice_queries@.len()),
        ", numFixedQueries := "@,
        text::decimal(key.cs.fixed_queries@.len()),
        ", numPointSets := "@,
        text::decimal((recorder.scalars@.len() - eval_end - 2) as nat),
        " }\n\n"@,
    );
}

/// The shape in the file has each number in its own place: those of the key, of the call, and the
/// number of scalars between the evaluations and the last two.
#[verifier::rlimit(30)]
pub proof fn shape_is_written(
    key: VerifyingKey,
    lean_namespace: Seq<char>,
    circuit_id: Seq<char>,
    k: u32,
    num_proofs: usize,
    recorder: ChallengeRecorder,
    msm: MSM,
)
    requires
        key.fault(lean_namespace, circuit_id, k, num_proofs, recorder, msm) is None,
    ensures
        ({
            let file = fixture::fixture_text(lean_namespace, circuit_id, capture::capture(&key, k, num_proofs, &recorder, &msm));
            let np = num_proofs as nat;
            let nl = key.cs.lookups@.len();
            let sets = circuit::chunk_count(key.cs.permutation_columns@.len(), (key.cs_degree - 2) as nat);
            let width = (if sets == 0 { 0 } else { (3 * sets - 1) as nat });
            let instance_end = np * key.cs.instance_queries@.len();
            let advice_eval_end = instance_end + np * key.cs.advice_queries@.len();
            let fixed_end = advice_eval_end + key.cs.fixed_queries@.len();
            let common_end = fixed_end + 1 + key.permutation_commitments@.len();
            let set_end = common_end + np * width;
            let eval_end = set_end + 5 * (np * nl);
            &&& holds(
                file,
                "def shape : Shape := { k := "@
                    + text::decimal(k as nat)
                    + ", numProofs := "@,
            )
            &&& holds(
                file,
                ", numProofs := "@
                    + text::decimal(num_proofs as nat)
                    + ", numAdviceColumns := "@,
            )
            &&& holds(
                file,
                ", numAdviceColumns := "@
                    + text::decimal(key.cs.num_advice_columns as nat)
                    + ", numLookups := "@,
            )
            &&& holds(
                file,
                ", numLookups := "@
                    + text::decimal(nl)
                    + ", numPermutationSets := "@,
            )
            &&& holds(
                file,
                ", numPermutationSets := "@
                    + text::decimal(sets)
                    + ", numPermutationColumns := "@,
            )
            &&& holds(
                file,
                ", numPermutationColumns := "@
                    + text::decimal(key.permutation_commitments@.len())
                    + ", numQuotientPieces := "@,
            )
            &&& holds(
                file,
                ", numQuotientPieces := "@
                    + text::decimal(key.quotient_poly_degree as nat)
                    + ", numInstanceQueries := "@,
            )
            &&& holds(
                file,
                ", numInstanceQueries := "@
                    + text::decimal(key.cs.instance_queries@.len())
                    + ", numAdviceQueries := "@,
            )
            &&& holds(
                file,
                ", numAdviceQueries := "@
                    + text::decimal(key.cs.advice_queries@.len())
                    + ", numFixedQueries := "@,
            )
            &&& holds(
                file,
                ", numFixedQueries := "@
                    + text::decimal(key.cs.fixed_queries@.len())
                    + ", numPointSets := "@,
            )
            &&& holds(
                file,
                ", numPointSets := "@
                    + text::decimal((recorder.scalars@.len() - eval_end - 2) as nat)
                    + " }\n\n"@,
            )
        }),
{
    let c = capture::capture(&key, k, num_proofs, &recorder, &msm);
    lemma_sized(key, lean_namespace, circuit_id, k, num_proofs, recorder, msm);
    lemma_has_shape(lean_namespace, circuit_id, c);
    lemma_shape_is_written(
        fixture::fixture_text(lean_namespace, circuit_id, capture::capture(&key, k, num_proofs, &recorder, &msm)),
        key, k, num_proofs, recorder, msm,
    );
}

proof fn lemma_generators_are_written_list(
    key: VerifyingKey,
    k: u32,
    num_proofs: usize,
    recorder: ChallengeRecorder,
    msm: MSM,
)
    requires
        sized(key, k, num_proofs, recorder, msm),
    ensures
        ({
            let c = capture::capture(&key, k, num_proofs, &recorder, &msm);
            let t = capture::capture(&key, k, num_proofs, &recorder, &msm).table();
            points::ref_texts(t, msm.params.g@)
                == Seq::new(pow2(k as nat), |i: int| points::ref_text(t, msm.params.g@[i]))
        }),
{
    let c = capture::capture(&key, k, num_proofs, &recorder, &msm);
    let t = capture::capture(&key, k, num_proofs, &recorder, &msm).table();
    refusals::shape_is_that_of_the_key(key, k, num_proofs);
    refusals::blocks_have_the_sizes_of_the_protocol(c.shape);
    schedule::point_blocks_in_order(c.shape);
    schedule::scalar_blocks_in_order(c.shape);
    assert(points::ref_texts(t, msm.params.g@)
        =~= Seq::new(pow2(k as nat), |i: int| points::ref_text(t, msm.params.g@[i])));
}

#[verifier::rlimit(30)]
proof fn lemma_generators_are_written(
    file: Seq<char>,
    key: VerifyingKey,
    k: u32,
    num_proofs: usize,
    recorder: ChallengeRecorder,
    msm: MSM,
)
    requires
        sized(key, k, num_proofs, recorder, msm),
        holds(file, fixture::urs_text(capture::capture(&key, k, num_proofs, &recorder, &msm), capture::capture(&key, k, num_proofs, &recorder, &msm).table())),
    ensures
        ({
            let t = capture::capture(&key, k, num_proofs, &recorder, &msm).table();
            &&& holds(
                file,
                "def capturedUrsG : List G := ["@
                    + text::comma_separated(Seq::new(pow2(k as nat),
                        |i: int| points::ref_text(t, msm.params.g@[i])))
                    + "]\n\ndef capturedURS : URS G := { k := "@,
            )
            &&& holds(
                file,
                "]\n\ndef capturedURS : URS G := { k := "@
                    + text::decimal(k as nat)
                    + ", g := fun i => capturedUrsG.getD i.val 0, w := "@,
            )
            &&& holds(
                file,
                ", g := fun i => capturedUrsG.getD i.val 0, w := "@
                    + points::ref_text(t, msm.params.w)
                    + ", u := "@,
            )
            &&& holds(
                file,
                ", u := "@
                    + points::ref_text(t, msm.params.u)
                    + " }\n\n/-- The captured URS lists exactly the `2 ^ k` generators the MSM evaluates\nagainst, so `capturedURS.g`'s `getD` never substitutes the identity for a\nmissing generator. -/\ntheorem capturedUrsG_length : capturedUrsG.length = 2 ^ shape.k := by native_decide\n\ndef capturedVkTranscriptRepr : Fp := "@,
            )
            &&& holds(
                file,
                " }\n\n/-- The captured URS lists exactly the `2 ^ k` generators the MSM evaluates\nagainst, so `capturedURS.g`'s `getD` never substitutes the identity for a\nmissing generator. -/\ntheorem capturedUrsG_length : capturedUrsG.length = 2 ^ shape.k := by native_decide\n\ndef capturedVkTranscriptRepr : Fp := "@
                    + field::fp_text(key.transcript_repr)
                    + "\n\n"@,
            )
        }),
{
    let c = capture::capture(&key, k, num_proofs, &recorder, &msm);
    let t = capture::capture(&key, k, num_proofs, &recorder, &msm).table();
    refusals::shape_is_that_of_the_key(key, k, num_proofs);
    refusals::blocks_have_the_sizes_of_the_protocol(c.shape);
    schedule::point_blocks_in_order(c.shape);
    schedule::scalar_blocks_in_order(c.shape);
    lemma_generators_are_written_list(key, k, num_proofs, recorder, msm);
    lemma_chain_11(
        file,
        "def capturedUrsG : List G := ["@,
        text::comma_separated(Seq::new(pow2(k as nat),
            |i: int| points::ref_text(t, msm.params.g@[i]))),
        "]\n\ndef capturedURS : URS G := { k := "@,
        text::decimal(k as nat),
        ", g := fun i => capturedUrsG.getD i.val 0, w := "@,
        points::ref_text(t, msm.params.w),
        ", u := "@,
        points::ref_text(t, msm.params.u),
        " }\n\n/-- The captured URS lists exactly the `2 ^ k` generators the MSM evaluates\nagainst, so `capturedURS.g`'s `getD` never substitutes the identity for a\nmissing generator. -/\ntheorem capturedUrsG_length : capturedUrsG.length = 2 ^ shape.k := by native_decide\n\ndef capturedVkTranscriptRepr : Fp := "@,
        field::fp_text(key.transcript_repr),
        "\n\n"@,
    );
}

/// The file lists all generators, and names the two further ones and the scalar of the key.
#[verifier::rlimit(30)]
pub proof fn generators_are_written(
    key: VerifyingKey,
    lean_namespace: Seq<char>,
    circuit_id: Seq<char>,
    k: u32,
    num_proofs: usize,
    recorder: ChallengeRecorder,
    msm: MSM,
)
    requires
        key.fault(lean_namespace, circuit_id, k, num_proofs, recorder, msm) is None,
    ensures
        ({
            let file = fixture::fixture_text(lean_namespace, circuit_id, capture::capture(&key, k, num_proofs, &recorder, &msm));
            let t = capture::capture(&key, k, num_proofs, &recorder, &msm).table();
            &&& holds(
                file,
                "def capturedUrsG : List G := ["@
                    + text::comma_separated(Seq::new(pow2(k as nat),
                        |i: int| points::ref_text(t, msm.params.g@[i])))
                    + "]\n\ndef capturedURS : URS G := { k := "@,
            )
            &&& holds(
                file,
                "]\n\ndef capturedURS : URS G := { k := "@
                    + text::decimal(k as nat)
                    + ", g := fun i => capturedUrsG.getD i.val 0, w := "@,
            )
            &&& holds(
                file,
                ", g := fun i => capturedUrsG.getD i.val 0, w := "@
                    + points::ref_text(t, msm.params.w)
                    + ", u := "@,
            )
            &&& holds(
                file,
                ", u := "@
                    + points::ref_text(t, msm.params.u)
                    + " }\n\n/-- The captured URS lists exactly the `2 ^ k` generators the MSM evaluates\nagainst, so `capturedURS.g`'s `getD` never substitutes the identity for a\nmissing generator. -/\ntheorem capturedUrsG_length : capturedUrsG.length = 2 ^ shape.k := by native_decide\n\ndef capturedVkTranscriptRepr : Fp := "@,
            )
            &&& holds(
                file,
                " }\n\n/-- The captured URS lists exactly the `2 ^ k` generators the MSM evaluates\nagainst, so `capturedURS.g`'s `getD` never substitutes the identity for a\nmissing generator. -/\ntheorem capturedUrsG_length : capturedUrsG.length = 2 ^ shape.k := by native_decide\n\ndef capturedVkTranscriptRepr : Fp := "@
                    + field::fp_text(key.transcript_repr)
                    + "\n\n"@,
            )
        }),
{
    let c = capture::capture(&key, k, num_proofs, &recorder, &msm);
    lemma_sized(key, lean_namespace, circuit_id, k, num_proofs, recorder, msm);
    lemma_has_urs(lean_namespace, circuit_id, c);
    lemma_generators_are_written(
        fixture::fixture_text(lean_namespace, circuit_id, capture::capture(&key, k, num_proofs, &recorder, &msm)),
        key, k, num_proofs, recorder, msm,
    );
}

proof fn lemma_commitments_are_written_list_0(
    key: VerifyingKey,
    k: u32,
    num_proofs: usize,
    recorder: ChallengeRecorder,
    msm: MSM,
)
    requires
        sized(key, k, num_proofs, recorder, msm),
    ensures
        ({
            let c = capture::capture(&key, k, num_proofs, &recorder, &msm);
            let t = capture::capture(&key, k, num_proofs, &recorder, &msm).table();
            points::ref_texts(t, key.fixed_commitments@)
                == Seq::new(key.fixed_commitments@.len(),
                    |i: int| points::ref_text(t, key.fixed_commitments@[i]))
        }),
{
    let c = capture::capture(&key, k, num_proofs, &recorder, &msm);
    let t = capture::capture(&key, k, num_proofs, &recorder, &msm).table();
    refusals::shape_is_that_of_the_key(key, k, num_proofs);
    refusals::blocks_have_the_sizes_of_the_protocol(c.shape);
    schedule::point_blocks_in_order(c.shape);
    schedule::scalar_blocks_in_order(c.shape);
    assert(points::ref_texts(t, key.fixed_commitments@)
        =~= Seq::new(key.fixed_commitments@.len(),
            |i: int| points::ref_text(t, key.fixed_commitments@[i])));
}

proof fn lemma_commitments_are_written_list_1(
    key: VerifyingKey,
    k: u32,
    num_proofs: usize,
    recorder: ChallengeRecorder,
    msm: MSM,
)
    requires
        sized(key, k, num_proofs, recorder, msm),
    ensures
        ({
            let c = capture::capture(&key, k, num_proofs, &recorder, &msm);
            let t = capture::capture(&key, k, num_proofs, &recorder, &msm).table();
            points::ref_texts(t, recorder.common_points@)
                == Seq::new(num_proofs as nat * key.cs.num_instance_columns as nat,
                    |i: int| points::ref_text(t, recorder.common_points@[i]))
        }),
{
    let c = capture::capture(&key, k, num_proofs, &recorder, &msm);
    let t = capture::capture(&key, k, num_proofs, &recorder, &msm).table();
    refusals::shape_is_that_of_the_key(key, k, num_proofs);
    refusals::blocks_have_the_sizes_of_the_protocol(c.shape);
    schedule::point_blocks_in_order(c.shape);
    schedule::scalar_blocks_in_order(c.shape);
    assert(points::ref_texts(t, recorder.common_points@)
        =~= Seq::new(num_proofs as nat * key.cs.num_instance_columns as nat,
            |i: int| points::ref_text(t, recorder.common_points@[i])));
}

proof fn lemma_commitments_are_written_list_2(
    key: VerifyingKey,
    k: u32,
    num_proofs: usize,
    recorder: ChallengeRecorder,
    msm: MSM,
)
    requires
        sized(key, k, num_proofs, recorder, msm),
    ensures
        ({
            let c = capture::capture(&key, k, num_proofs, &recorder, &msm);
            let t = capture::capture(&key, k, num_proofs, &recorder, &msm).table();
            points::ref_texts(t, key.permutation_commitments@)
                == Seq::new(key.permutation_commitments@.len(),
                    |i: int| points::ref_text(t, key.permutation_commitments@[i]))
        }),
{
    let c = capture::capture(&key, k, num_proofs, &recorder, &msm);
    let t = capture::capture(&key, k, num_proofs, &recorder, &msm).table();
    refusals::shape_is_that_of_the_key(key, k, num_proofs);
    refusals::blocks_have_the_sizes_of_the_protocol(c.shape);
    schedule::point_blocks_in_order(c.shape);
    schedule::scalar_blocks_in_order(c.shape);
    assert(points::ref_texts(t, key.permutation_commitments@)
        =~= Seq::new(key.permutation_commitments@.len(),
            |i: int| points::ref_text(t, key.permutation_commitments@[i])));
}

#[verifier::rlimit(30)]
proof fn lemma_commitments_are_written(
    file: Seq<char>,
    key: VerifyingKey,
    k: u32,
    num_proofs: usize,
    recorder: ChallengeRecorder,
    msm: MSM,
)
    requires
        sized(key, k, num_proofs, recorder, msm),
        holds(file, fixture::commitments_text(capture::capture(&key, k, num_proofs, &recorder, &msm), capture::capture(&key, k, num_proofs, &recorder, &msm).table())),
    ensures
        ({
            let t = capture::capture(&key, k, num_proofs, &recorder, &msm).table();
            &&& holds(
                file,
                "def capturedNumInstanceColumns : ℕ := "@
                    + text::decimal(key.cs.num_instance_columns as nat)
                    + "\n\ndef capturedFixedCommitments : List G := ["@,
            )
            &&& holds(
                file,
                "\n\ndef capturedFixedCommitments : List G := ["@
                    + text::comma_separated(Seq::new(key.fixed_commitments@.len(),
                        |i: int| points::ref_text(t, key.fixed_commitments@[i])))
                    + "]\n\ndef capturedInstanceCommitments : List G := ["@,
            )
            &&& holds(
                file,
                "]\n\ndef capturedInstanceCommitments : List G := ["@
                    + text::comma_separated(Seq::new(num_proofs as nat * key.cs.num_instance_columns as nat,
                        |i: int| points::ref_text(t, recorder.common_points@[i])))
                    + "]\n\ndef capturedPermutationCommonCommitments : List G := ["@,
            )
            &&& holds(
                file,
                "]\n\ndef capturedPermutationCommonCommitments : List G := ["@
                    + text::comma_separated(Seq::new(key.permutation_commitments@.len(),
                        |i: int| points::ref_text(t, key.permutation_commitments@[i])))
                    + "]\n\n"@,
            )
        }),
{
    let c = capture::capture(&key, k, num_proofs, &recorder, &msm);
    let t = capture::capture(&key, k, num_proofs, &recorder, &msm).table();
    refusals::shape_is_that_of_the_key(key, k, num_proofs);
    refusals::blocks_have_the_sizes_of_the_protocol(c.shape);
    schedule::point_blocks_in_order(c.shape);
    schedule::scalar_blocks_in_order(c.shape);
    lemma_commitments_are_written_list_0(key, k, num_proofs, recorder, msm);
    lemma_commitments_are_written_list_1(key, k, num_proofs, recorder, msm);
    lemma_commitments_are_written_list_2(key, k, num_proofs, recorder, msm);
    lemma_chain_9(
        file,
        "def capturedNumInstanceColumns : ℕ := "@,
        text::decimal(key.cs.num_instance_columns as nat),
        "\n\ndef capturedFixedCommitments : List G := ["@,
        text::comma_separated(Seq::new(key.fixed_commitments@.len(),
            |i: int| points::ref_text(t, key.fixed_commitments@[i]))),
        "]\n\ndef capturedInstanceCommitments : List G := ["@,
        text::comma_separated(Seq::new(num_proofs as nat * key.cs.num_instance_columns as nat,
            |i: int| points::ref_text(t, recorder.common_points@[i]))),
        "]\n\ndef capturedPermutationCommonCommitments : List G := ["@,
        text::comma_separated(Seq::new(key.permutation_commitments@.len(),
            |i: int| points::ref_text(t, key.permutation_commitments@[i]))),
        "]\n\n"@,
    );
}

/// The file lists the fixed commitments, the instance commitments of every proof and column, and
/// the permutation commitments, each list in its own order.
#[verifier::rlimit(30)]
pub proof fn commitments_are_written(
    key: VerifyingKey,
    lean_namespace: Seq<char>,
    circuit_id: Seq<char>,
    k: u32,
    num_proofs: usize,
    recorder: ChallengeRecorder,
    msm: MSM,
)
    requires
        key.fault(lean_namespace, circuit_id, k, num_proofs, recorder, msm) is None,
    ensures
        ({
            let file = fixture::fixture_text(lean_namespace, circuit_id, capture::capture(&key, k, num_proofs, &recorder, &msm));
            let t = capture::capture(&key, k, num_proofs, &recorder, &msm).table();
            &&& holds(
                file,
                "def capturedNumInstanceColumns : ℕ := "@
                    + text::decimal(key.cs.num_instance_columns as nat)
                    + "\n\ndef capturedFixedCommitments : List G := ["@,
            )
            &&& holds(
                file,
                "\n\ndef capturedFixedCommitments : List G := ["@
                    + text::comma_separated(Seq::new(key.fixed_commitments@.len(),
                        |i: int| points::ref_text(t, key.fixed_commitments@[i])))
                    + "]\n\ndef capturedInstanceCommitments : List G := ["@,
            )
            &&& holds(
                file,
                "]\n\ndef capturedInstanceCommitments : List G := ["@
                    + text::comma_separated(Seq::new(num_proofs as nat * key.cs.num_instance_columns as nat,
                        |i: int| points::ref_text(t, recorder.common_points@[i])))
                    + "]\n\ndef capturedPermutationCommonCommitments : List G := ["@,
            )
            &&& holds(
                file,
                "]\n\ndef capturedPermutationCommonCommitments : List G := ["@
                    + text::comma_separated(Seq::new(key.permutation_commitments@.len(),
                        |i: int| points::ref_text(t, key.permutation_commitments@[i])))
                    + "]\n\n"@,
            )
        }),
{
    let c = capture::capture(&key, k, num_proofs, &recorder, &msm);
    lemma_sized(key, lean_namespace, circuit_id, k, num_proofs, recorder, msm);
    lemma_has_commitments(lean_namespace, circuit_id, c);
    lemma_commitments_are_written(
        fixture::fixture_text(lean_namespace, circuit_id, capture::capture(&key, k, num_proofs, &recorder, &msm)),
        key, k, num_proofs, recorder, msm,
    );
}

proof fn lemma_key_lists(cs: ConstraintSystem)
    ensures
        circuit::layout_texts(cs.instance_queries@) == Seq::new(cs.instance_queries@.len(),
            |i: int| circuit::query_text(cs.instance_queries@[i])),
        circuit::layout_texts(cs.advice_queries@) == Seq::new(cs.advice_queries@.len(),
            |i: int| circuit::query_text(cs.advice_queries@[i])),
        circuit::layout_texts(cs.fixed_queries@) == Seq::new(cs.fixed_queries@.len(),
            |i: int| circuit::query_text(cs.fixed_queries@[i])),
        circuit::lookup_input_texts(cs.lookups@) == Seq::new(cs.lookups@.len(), |l: int| "["@
            + text::comma_separated(circuit::expr_texts(cs.lookups@[l].input_expressions@))
            + "]"@),
        circuit::lookup_table_texts(cs.lookups@) == Seq::new(cs.lookups@.len(), |l: int| "["@
            + text::comma_separated(circuit::expr_texts(cs.lookups@[l].table_expressions@))
            + "]"@),
{
    assert(circuit::layout_texts(cs.instance_queries@) =~= Seq::new(cs.instance_queries@.len(),
        |i: int| circuit::query_text(cs.instance_queries@[i])));
    assert(circuit::layout_texts(cs.advice_queries@) =~= Seq::new(cs.advice_queries@.len(),
        |i: int| circuit::query_text(cs.advice_queries@[i])));
    assert(circuit::layout_texts(cs.fixed_queries@) =~= Seq::new(cs.fixed_queries@.len(),
        |i: int| circuit::query_text(cs.fixed_queries@[i])));
    assert(circuit::lookup_input_texts(cs.lookups@) =~= Seq::new(cs.lookups@.len(),
        |l: int| "["@
        + text::comma_separated(circuit::expr_texts(cs.lookups@[l].input_expressions@))
        + "]"@));
    assert(circuit::lookup_table_texts(cs.lookups@) =~= Seq::new(cs.lookups@.len(),
        |l: int| "["@
        + text::comma_separated(circuit::expr_texts(cs.lookups@[l].table_expressions@))
        + "]"@));
}

#[verifier::rlimit(30)]
proof fn lemma_key_is_written(
    file: Seq<char>,
    key: VerifyingKey,
    k: u32,
    num_proofs: usize,
    recorder: ChallengeRecorder,
    msm: MSM,
)
    requires
        sized(key, k, num_proofs, recorder, msm),
        holds(file, fixture::key_text(capture::capture(&key, k, num_proofs, &recorder, &msm))),
    ensures
        ({
            let cs = key.cs;
            &&& holds(
                file,
                "def vk : VerifyingKey shape Fp G := {\n  omega := "@
                    + field::fp_text(key.omega)
                    + ",\n  n := "@,
            )
            &&& holds(
                file,
                ",\n  n := "@
                    + text::decimal(pow2(k as nat))
                    + ",\n  blindingFactors := "@,
            )
            &&& holds(
                file,
                ",\n  blindingFactors := "@
                    + text::decimal(cs.blinding_factors as nat)
                    + ",\n  delta := "@,
            )
            &&& holds(
                file,
                ",\n  delta := "@
                    + field::field_text("mkFp"@, field::delta_value())
                    + ",\n  chunkLen := "@,
            )
            &&& holds(
                file,
                ",\n  chunkLen := "@
                    + text::decimal((key.cs_degree - 2) as nat)
                    + ",\n  gates := ["@,
            )
            &&& holds(
                file,
                ",\n  gates := ["@
                    + text::comma_separated(circuit::expr_texts(circuit::gate_polynomials(cs.gates@)))
                    + "],\n  instanceQueryLayout := ["@,
            )
            &&& holds(
                file,
                "],\n  instanceQueryLayout := ["@
                    + text::comma_separated(Seq::new(cs.instance_queries@.len(),
                        |i: int| circuit::query_text(cs.instance_queries@[i])))
                    + "],\n  adviceQueryLayout := ["@,
            )
            &&& holds(
                file,
                "],\n  adviceQueryLayout := ["@
                    + text::comma_separated(Seq::new(cs.advice_queries@.len(),
                        |i: int| circuit::query_text(cs.advice_queries@[i])))
                    + "],\n  fixedQueryLayout := ["@,
            )
            &&& holds(
                file,
                "],\n  fixedQueryLayout := ["@
                    + text::comma_separated(Seq::new(cs.fixed_queries@.len(),
                        |i: int| circuit::query_text(cs.fixed_queries@[i])))
                    + "],\n  fixedCommitment := fun i => capturedFixedCommitments.getD i 0,\n  instanceCommitment := fun p i => capturedInstanceCommitments.getD (p.val * capturedNumInstanceColumns + i) 0,\n  permutationCommonCommitment := fun i => capturedPermutationCommonCommitments.getD i.val 0,\n  permutationChunks := ["@,
            )
            &&& holds(
                file,
                "],\n  fixedCommitment := fun i => capturedFixedCommitments.getD i 0,\n  instanceCommitment := fun p i => capturedInstanceCommitments.getD (p.val * capturedNumInstanceColumns + i) 0,\n  permutationCommonCommitment := fun i => capturedPermutationCommonCommitments.getD i.val 0,\n  permutationChunks := ["@
                    + text::comma_separated(cs.permutation_chunks((key.cs_degree - 2) as nat, 0))
                    + "],\n  lookupInputExprs := fun l => (["@,
            )
            &&& holds(
                file,
                "],\n  lookupInputExprs := fun l => (["@
                    + text::comma_separated(Seq::new(cs.lookups@.len(), |l: int| "["@
                        + text::comma_separated(circuit::expr_texts(cs.lookups@[l].input_expressions@))
                        + "]"@))
                    + "] : List (List (Expr Fp))).getD l.val [],\n  lookupTableExprs := fun l => (["@,
            )
            &&& holds(
                file,
                "] : List (List (Expr Fp))).getD l.val [],\n  lookupTableExprs := fun l => (["@
                    + text::comma_separated(Seq::new(cs.lookups@.len(), |l: int| "["@
                        + text::comma_separated(circuit::expr_texts(cs.lookups@[l].table_expressions@))
                        + "]"@))
                    + "] : List (List (Expr Fp))).getD l.val [] }\n\n"@,
            )
        }),
{
    let c = capture::capture(&key, k, num_proofs, &recorder, &msm);
    let cs = key.cs;
    lemma_key_lists(cs);
    lemma_chain_25(
        file,
        "def vk : VerifyingKey shape Fp G := {\n  omega := "@,
        field::fp_text(key.omega),
        ",\n  n := "@,
        text::decimal(pow2(k as nat)),
        ",\n  blindingFactors := "@,
        text::decimal(cs.blinding_factors as nat),
        ",\n  delta := "@,
        field::field_text("mkFp"@, field::delta_value()),
        ",\n  chunkLen := "@,
        text::decimal((key.cs_degree - 2) as nat),
        ",\n  gates := ["@,
        text::comma_separated(circuit::expr_texts(circuit::gate_polynomials(cs.gates@))),
        "],\n  instanceQueryLayout := ["@,
        text::comma_separated(Seq::new(cs.instance_queries@.len(),
            |i: int| circuit::query_text(cs.instance_queries@[i]))),
        "],\n  adviceQueryLayout := ["@,
        text::comma_separated(Seq::new(cs.advice_queries@.len(),
            |i: int| circuit::query_text(cs.advice_queries@[i]))),
        "],\n  fixedQueryLayout := ["@,
        text::comma_separated(Seq::new(cs.fixed_queries@.len(),
            |i: int| circuit::query_text(cs.fixed_queries@[i]))),
        "],\n  fixedCommitment := fun i => capturedFixedCommitments.getD i 0,\n  instanceCommitment := fun p i => capturedInstanceCommitments.getD (p.val * capturedNumInstanceColumns + i) 0,\n  permutationCommonCommitment := fun i => capturedPermutationCommonCommitments.getD i.val 0,\n  permutationChunks := ["@,
        text::comma_separated(cs.permutation_chunks((key.cs_degree - 2) as nat, 0)),
        "],\n  lookupInputExprs := fun l => (["@,
        text::comma_separated(Seq::new(cs.lookups@.len(), |l: int| "["@
            + text::comma_separated(circuit::expr_texts(cs.lookups@[l].input_expressions@))
            + "]"@)),
        "] : List (List (Expr Fp))).getD l.val [],\n  lookupTableExprs := fun l => (["@,
        text::comma_separated(Seq::new(cs.lookups@.len(), |l: int| "["@
            + text::comma_separated(circuit::expr_texts(cs.lookups@[l].table_expressions@))
            + "]"@)),
        "] : List (List (Expr Fp))).getD l.val [] }\n\n"@,
    );
}

/// The key in the file has each of its parts in its own place: the domain, the gates, the query
/// layouts of the three kinds, the permutation chunks, and the expressions of each lookup.
#[verifier::rlimit(30)]
pub proof fn key_is_written(
    key: VerifyingKey,
    lean_namespace: Seq<char>,
    circuit_id: Seq<char>,
    k: u32,
    num_proofs: usize,
    recorder: ChallengeRecorder,
    msm: MSM,
)
    requires
        key.fault(lean_namespace, circuit_id, k, num_proofs, recorder, msm) is None,
    ensures
        ({
            let file = fixture::fixture_text(lean_namespace, circuit_id, capture::capture(&key, k, num_proofs, &recorder, &msm));
            let cs = key.cs;
            &&& holds(
                file,
                "def vk : VerifyingKey shape Fp G := {\n  omega := "@
                    + field::fp_text(key.omega)
                    + ",\n  n := "@,
            )
            &&& holds(
                file,
                ",\n  n := "@
                    + text::decimal(pow2(k as nat))
                    + ",\n  blindingFactors := "@,
            )
            &&& holds(
                file,
                ",\n  blindingFactors := "@
                    + text::decimal(cs.blinding_factors as nat)
                    + ",\n  delta := "@,
            )
            &&& holds(
                file,
                ",\n  delta := "@
                    + field::field_text("mkFp"@, field::delta_value())
                    + ",\n  chunkLen := "@,
            )
            &&& holds(
                file,
                ",\n  chunkLen := "@
                    + text::decimal((key.cs_degree - 2) as nat)
                    + ",\n  gates := ["@,
            )
            &&& holds(
                file,
                ",\n  gates := ["@
                    + text::comma_separated(circuit::expr_texts(circuit::gate_polynomials(cs.gates@)))
                    + "],\n  instanceQueryLayout := ["@,
            )
            &&& holds(
                file,
                "],\n  instanceQueryLayout := ["@
                    + text::comma_separated(Seq::new(cs.instance_queries@.len(),
                        |i: int| circuit::query_text(cs.instance_queries@[i])))
                    + "],\n  adviceQueryLayout := ["@,
            )
            &&& holds(
                file,
                "],\n  adviceQueryLayout := ["@
                    + text::comma_separated(Seq::new(cs.advice_queries@.len(),
                        |i: int| circuit::query_text(cs.advice_queries@[i])))
                    + "],\n  fixedQueryLayout := ["@,
            )
            &&& holds(
                file,
                "],\n  fixedQueryLayout := ["@
                    + text::comma_separated(Seq::new(cs.fixed_queries@.len(),
                        |i: int| circuit::query_text(cs.fixed_queries@[i])))
                    + "],\n  fixedCommitment := fun i => capturedFixedCommitments.getD i 0,\n  instanceCommitment := fun p i => capturedInstanceCommitments.getD (p.val * capturedNumInstanceColumns + i) 0,\n  permutationCommonCommitment := fun i => capturedPermutationCommonCommitments.getD i.val 0,\n  permutationChunks := ["@,
            )
            &&& holds(
                file,
                "],\n  fixedCommitment := fun i => capturedFixedCommitments.getD i 0,\n  instanceCommitment := fun p i => capturedInstanceCommitments.getD (p.val * capturedNumInstanceColumns + i) 0,\n  permutationCommonCommitment := fun i => capturedPermutationCommonCommitments.getD i.val 0,\n  permutationChunks := ["@
                    + text::comma_separated(cs.permutation_chunks((key.cs_degree - 2) as nat, 0))
                    + "],\n  lookupInputExprs := fun l => (["@,
            )
            &&& holds(
                file,
                "],\n  lookupInputExprs := fun l => (["@
                    + text::comma_separated(Seq::new(cs.lookups@.len(), |l: int| "["@
                        + text::comma_separated(circuit::expr_texts(cs.lookups@[l].input_expressions@))
                        + "]"@))
                    + "] : List (List (Expr Fp))).getD l.val [],\n  lookupTableExprs := fun l => (["@,
            )
            &&& holds(
                file,
                "] : List (List (Expr Fp))).getD l.val [],\n  lookupTableExprs := fun l => (["@
                    + text::comma_separated(Seq::new(cs.lookups@.len(), |l: int| "["@
                        + text::comma_separated(circuit::expr_texts(cs.lookups@[l].table_expressions@))
                        + "]"@))
                    + "] : List (List (Expr Fp))).getD l.val [] }\n\n"@,
            )
        }),
{
    let c = capture::capture(&key, k, num_proofs, &recorder, &msm);
    lemma_sized(key, lean_namespace, circuit_id, k, num_proofs, recorder, msm);
    lemma_has_key(lean_namespace, circuit_id, c);
    lemma_key_is_written(
        fixture::fixture_text(lean_namespace, circuit_id, capture::capture(&key, k, num_proofs, &recorder, &msm)),
        key, k, num_proofs, recorder, msm,
    );
}

proof fn lemma_proof_points_are_written_list_0(
    key: VerifyingKey,
    k: u32,
    num_proofs: usize,
    recorder: ChallengeRecorder,
    msm: MSM,
)
    requires
        sized(key, k, num_proofs, recorder, msm),
    ensures
        ({
            let c = capture::capture(&key, k, num_proofs, &recorder, &msm);
            let t = capture::capture(&key, k, num_proofs, &recorder, &msm).table();
            let np = num_proofs as nat;
            let advice_end = np * key.cs.num_advice_columns as nat;
            points::ref_texts(t, c.advice())
                == Seq::new(advice_end, |i: int| points::ref_text(t, recorder.points@[i]))
        }),
{
    let c = capture::capture(&key, k, num_proofs, &recorder, &msm);
    let t = capture::capture(&key, k, num_proofs, &recorder, &msm).table();
    let np = num_proofs as nat;
    let advice_end = np * key.cs.num_advice_columns as nat;
    refusals::shape_is_that_of_the_key(key, k, num_proofs);
    refusals::blocks_have_the_sizes_of_the_protocol(c.shape);
    schedule::point_blocks_in_order(c.shape);
    schedule::scalar_blocks_in_order(c.shape);
    assert(points::ref_texts(t, c.advice())
        =~= Seq::new(advice_end, |i: int| points::ref_text(t, recorder.points@[i])));
}

proof fn lemma_proof_points_are_written_list_1(
    key: VerifyingKey,
    k: u32,
    num_proofs: usize,
    recorder: ChallengeRecorder,
    msm: MSM,
)
    requires
        sized(key, k, num_proofs, recorder, msm),
    ensures
        ({
            let c = capture::capture(&key, k, num_proofs, &recorder, &msm);
            let t = capture::capture(&key, k, num_proofs, &recorder, &msm).table();
            let np = num_proofs as nat;
            let nl = key.cs.lookups@.len();
            let advice_end = np * key.cs.num_advice_columns as nat;
            points::ref_texts(t, capture::pair_firsts(c.lookup_permuted(), c.all_lookups()))
                == Seq::new(np * nl, |i: int| points::ref_text(t, recorder.points@[advice_end
                    + 2 * i]))
        }),
{
    let c = capture::capture(&key, k, num_proofs, &recorder, &msm);
    let t = capture::capture(&key, k, num_proofs, &recorder, &msm).table();
    let np = num_proofs as nat;
    let nl = key.cs.lookups@.len();
    let advice_end = np * key.cs.num_advice_columns as nat;
    refusals::shape_is_that_of_the_key(key, k, num_proofs);
    refusals::blocks_have_the_sizes_of_the_protocol(c.shape);
    schedule::point_blocks_in_order(c.shape);
    schedule::scalar_blocks_in_order(c.shape);
    assert(points::ref_texts(t, capture::pair_firsts(c.lookup_permuted(), c.all_lookups()))
        =~= Seq::new(np * nl, |i: int| points::ref_text(t, recorder.points@[advice_end + 2 * i])));
}

proof fn lemma_proof_points_are_written_list_2(
    key: VerifyingKey,
    k: u32,
    num_proofs: usize,
    recorder: ChallengeRecorder,
    msm: MSM,
)
    requires
        sized(key, k, num_proofs, recorder, msm),
    ensures
        ({
            let c = capture::capture(&key, k, num_proofs, &recorder, &msm);
            let t = capture::capture(&key, k, num_proofs, &recorder, &msm).table();
            let np = num_proofs as nat;
            let nl = key.cs.lookups@.len();
            let advice_end = np * key.cs.num_advice_columns as nat;
            points::ref_texts(t, capture::pair_seconds(c.lookup_permuted(), c.all_lookups()))
                == Seq::new(np * nl, |i: int| points::ref_text(t, recorder.points@[advice_end
                    + 2 * i + 1]))
        }),
{
    let c = capture::capture(&key, k, num_proofs, &recorder, &msm);
    let t = capture::capture(&key, k, num_proofs, &recorder, &msm).table();
    let np = num_proofs as nat;
    let nl = key.cs.lookups@.len();
    let advice_end = np * key.cs.num_advice_columns as nat;
    refusals::shape_is_that_of_the_key(key, k, num_proofs);
    refusals::blocks_have_the_sizes_of_the_protocol(c.shape);
    schedule::point_blocks_in_order(c.shape);
    schedule::scalar_blocks_in_order(c.shape);
    assert(points::ref_texts(t, capture::pair_seconds(c.lookup_permuted(), c.all_lookups()))
        =~= Seq::new(np * nl, |i: int| points::ref_text(t, recorder.points@[advice_end + 2 * i
            + 1])));
}

proof fn lemma_proof_points_are_written_list_3(
    key: VerifyingKey,
    k: u32,
    num_proofs: usize,
    recorder: ChallengeRecorder,
    msm: MSM,
)
    requires
        sized(key, k, num_proofs, recorder, msm),
    ensures
        ({
            let c = capture::capture(&key, k, num_proofs, &recorder, &msm);
            let t = capture::capture(&key, k, num_proofs, &recorder, &msm).table();
            let np = num_proofs as nat;
            let nl = key.cs.lookups@.len();
            let sets = circuit::chunk_count(key.cs.permutation_columns@.len(), (key.cs_degree - 2) as nat);
            let advice_end = np * key.cs.num_advice_columns as nat;
            let permuted_end = advice_end + 2 * (np * nl);
            points::ref_texts(t, c.permutation_products())
                == Seq::new(np * sets,
                    |i: int| points::ref_text(t, recorder.points@[permuted_end + i]))
        }),
{
    let c = capture::capture(&key, k, num_proofs, &recorder, &msm);
    let t = capture::capture(&key, k, num_proofs, &recorder, &msm).table();
    let np = num_proofs as nat;
    let nl = key.cs.lookups@.len();
    let sets = circuit::chunk_count(key.cs.permutation_columns@.len(), (key.cs_degree - 2) as nat);
    let advice_end = np * key.cs.num_advice_columns as nat;
    let permuted_end = advice_end + 2 * (np * nl);
    refusals::shape_is_that_of_the_key(key, k, num_proofs);
    refusals::blocks_have_the_sizes_of_the_protocol(c.shape);
    schedule::point_blocks_in_order(c.shape);
    schedule::scalar_blocks_in_order(c.shape);
    assert(points::ref_texts(t, c.permutation_products())
        =~= Seq::new(np * sets, |i: int| points::ref_text(t, recorder.points@[permuted_end + i])));
}

proof fn lemma_proof_points_are_written_list_4(
    key: VerifyingKey,
    k: u32,
    num_proofs: usize,
    recorder: ChallengeRecorder,
    msm: MSM,
)
    requires
        sized(key, k, num_proofs, recorder, msm),
    ensures
        ({
            let c = capture::capture(&key, k, num_proofs, &recorder, &msm);
            let t = capture::capture(&key, k, num_proofs, &recorder, &msm).table();
            let np = num_proofs as nat;
            let nl = key.cs.lookups@.len();
            let sets = circuit::chunk_count(key.cs.permutation_columns@.len(), (key.cs_degree - 2) as nat);
            let advice_end = np * key.cs.num_advice_columns as nat;
            let permuted_end = advice_end + 2 * (np * nl);
            let product_end = permuted_end + np * sets;
            points::ref_texts(t, c.lookup_products())
                == Seq::new(np * nl, |i: int| points::ref_text(t, recorder.points@[product_end
                    + i]))
        }),
{
    let c = capture::capture(&key, k, num_proofs, &recorder, &msm);
    let t = capture::capture(&key, k, num_proofs, &recorder, &msm).table();
    let np = num_proofs as nat;
    let nl = key.cs.lookups@.len();
    let sets = circuit::chunk_count(key.cs.permutation_columns@.len(), (key.cs_degree - 2) as nat);
    let advice_end = np * key.cs.num_advice_columns as nat;
    let permuted_end = advice_end + 2 * (np * nl);
    let product_end = permuted_end + np * sets;
    refusals::shape_is_that_of_the_key(key, k, num_proofs);
    refusals::blocks_have_the_sizes_of_the_protocol(c.shape);
    schedule::point_blocks_in_order(c.shape);
    schedule::scalar_blocks_in_order(c.shape);
    assert(points::ref_texts(t, c.lookup_products())
        =~= Seq::new(np * nl, |i: int| points::ref_text(t, recorder.points@[product_end + i])));
}

proof fn lemma_proof_points_are_written_list_5(
    key: VerifyingKey,
    k: u32,
    num_proofs: usize,
    recorder: ChallengeRecorder,
    msm: MSM,
)
    requires
        sized(key, k, num_proofs, recorder, msm),
    ensures
        ({
            let c = capture::capture(&key, k, num_proofs, &recorder, &msm);
            let t = capture::capture(&key, k, num_proofs, &recorder, &msm).table();
            let np = num_proofs as nat;
            let nl = key.cs.lookups@.len();
            let sets = circuit::chunk_count(key.cs.permutation_columns@.len(), (key.cs_degree - 2) as nat);
            let advice_end = np * key.cs.num_advice_columns as nat;
            let permuted_end = advice_end + 2 * (np * nl);
            let product_end = permuted_end + np * sets;
            let lookup_end = product_end + np * nl;
            points::ref_texts(t, c.quotient_pieces())
                == Seq::new(key.quotient_poly_degree as nat,
                    |i: int| points::ref_text(t, recorder.points@[lookup_end + 1 + i]))
        }),
{
    let c = capture::capture(&key, k, num_proofs, &recorder, &msm);
    let t = capture::capture(&key, k, num_proofs, &recorder, &msm).table();
    let np = num_proofs as nat;
    let nl = key.cs.lookups@.len();
    let sets = circuit::chunk_count(key.cs.permutation_columns@.len(), (key.cs_degree - 2) as nat);
    let advice_end = np * key.cs.num_advice_columns as nat;
    let permuted_end = advice_end + 2 * (np * nl);
    let product_end = permuted_end + np * sets;
    let lookup_end = product_end + np * nl;
    refusals::shape_is_that_of_the_key(key, k, num_proofs);
    refusals::blocks_have_the_sizes_of_the_protocol(c.shape);
    schedule::point_blocks_in_order(c.shape);
    schedule::scalar_blocks_in_order(c.shape);
    assert(points::ref_texts(t, c.quotient_pieces())
        =~= Seq::new(key.quotient_poly_degree as nat,
            |i: int| points::ref_text(t, recorder.points@[lookup_end + 1 + i])));
}

#[verifier::rlimit(30)]
proof fn lemma_proof_points_are_written(
    file: Seq<char>,
    key: VerifyingKey,
    k: u32,
    num_proofs: usize,
    recorder: ChallengeRecorder,
    msm: MSM,
)
    requires
        sized(key, k, num_proofs, recorder, msm),
        holds(file, fixture::proof_points_text(capture::capture(&key, k, num_proofs, &recorder, &msm), capture::capture(&key, k, num_proofs, &recorder, &msm).table())),
    ensures
        ({
            let t = capture::capture(&key, k, num_proofs, &recorder, &msm).table();
            let np = num_proofs as nat;
            let nl = key.cs.lookups@.len();
            let sets = circuit::chunk_count(key.cs.permutation_columns@.len(), (key.cs_degree - 2) as nat);
            let advice_end = np * key.cs.num_advice_columns as nat;
            let permuted_end = advice_end + 2 * (np * nl);
            let product_end = permuted_end + np * sets;
            let lookup_end = product_end + np * nl;
            &&& holds(
                file,
                "def capturedAdviceCommitments : List G := ["@
                    + text::comma_separated(Seq::new(advice_end,
                    |i: int| points::ref_text(t, recorder.points@[i]))) + "]\n\n"@,
            )
            &&& holds(
                file,
                "def capturedLookupPermutedInput : List G := ["@
                    + text::comma_separated(Seq::new(np * nl,
                    |i: int| points::ref_text(t, recorder.points@[advice_end + 2 * i])))
                    + "]\n\n"@,
            )
            &&& holds(
                file,
                "def capturedLookupPermutedTable : List G := ["@
                    + text::comma_separated(Seq::new(np * nl,
                    |i: int| points::ref_text(t, recorder.points@[advice_end + 2 * i + 1])))
                    + "]\n\n"@,
            )
            &&& holds(
                file,
                "def capturedPermutationProducts : List G := ["@
                    + text::comma_separated(Seq::new(np * sets,
                    |i: int| points::ref_text(t, recorder.points@[permuted_end + i])))
                    + "]\n\n"@,
            )
            &&& holds(
                file,
                "def capturedLookupProducts : List G := ["@
                    + text::comma_separated(Seq::new(np * nl,
                    |i: int| points::ref_text(t, recorder.points@[product_end + i])))
                    + "]\n\n"@,
            )
            &&& holds(
                file,
                "def capturedHPieces : List G := ["@
                    + text::comma_separated(Seq::new(key.quotient_poly_degree as nat,
                    |i: int| points::ref_text(t, recorder.points@[lookup_end + 1 + i])))
                    + "]\n\n"@,
            )
        }),
{
    let c = capture::capture(&key, k, num_proofs, &recorder, &msm);
    let t = capture::capture(&key, k, num_proofs, &recorder, &msm).table();
    let np = num_proofs as nat;
    let nl = key.cs.lookups@.len();
    let sets = circuit::chunk_count(key.cs.permutation_columns@.len(), (key.cs_degree - 2) as nat);
    let advice_end = np * key.cs.num_advice_columns as nat;
    let permuted_end = advice_end + 2 * (np * nl);
    let product_end = permuted_end + np * sets;
    let lookup_end = product_end + np * nl;
    refusals::shape_is_that_of_the_key(key, k, num_proofs);
    refusals::blocks_have_the_sizes_of_the_protocol(c.shape);
    schedule::point_blocks_in_order(c.shape);
    schedule::scalar_blocks_in_order(c.shape);
    lemma_proof_points_are_written_list_0(key, k, num_proofs, recorder, msm);
    lemma_proof_points_are_written_list_1(key, k, num_proofs, recorder, msm);
    lemma_proof_points_are_written_list_2(key, k, num_proofs, recorder, msm);
    lemma_proof_points_are_written_list_3(key, k, num_proofs, recorder, msm);
    lemma_proof_points_are_written_list_4(key, k, num_proofs, recorder, msm);
    lemma_proof_points_are_written_list_5(key, k, num_proofs, recorder, msm);
    lemma_parts_6(
        file,
        "def capturedAdviceCommitments : List G := ["@
            + text::comma_separated(Seq::new(advice_end,
            |i: int| points::ref_text(t, recorder.points@[i]))) + "]\n\n"@,
        "def capturedLookupPermutedInput : List G := ["@
            + text::comma_separated(Seq::new(np * nl,
            |i: int| points::ref_text(t, recorder.points@[advice_end + 2 * i]))) + "]\n\n"@,
        "def capturedLookupPermutedTable : List G := ["@
            + text::comma_separated(Seq::new(np * nl,
            |i: int| points::ref_text(t, recorder.points@[advice_end + 2 * i + 1]))) + "]\n\n"@,
        "def capturedPermutationProducts : List G := ["@
            + text::comma_separated(Seq::new(np * sets,
            |i: int| points::ref_text(t, recorder.points@[permuted_end + i]))) + "]\n\n"@,
        "def capturedLookupProducts : List G := ["@ + text::comma_separated(Seq::new(np * nl,
            |i: int| points::ref_text(t, recorder.points@[product_end + i]))) + "]\n\n"@,
        "def capturedHPieces : List G := ["@
            + text::comma_separated(Seq::new(key.quotient_poly_degree as nat,
            |i: int| points::ref_text(t, recorder.points@[lookup_end + 1 + i]))) + "]\n\n"@,
    );
}

/// The lists of the points of the proof hold what was read, in the order of the protocol: the advice
/// commitments of all proofs, then an input and a table for each lookup in turn, then the permutation
/// products, the lookup products, and, after one more point, the quotient pieces.
#[verifier::rlimit(30)]
pub proof fn proof_points_are_written(
    key: VerifyingKey,
    lean_namespace: Seq<char>,
    circuit_id: Seq<char>,
    k: u32,
    num_proofs: usize,
    recorder: ChallengeRecorder,
    msm: MSM,
)
    requires
        key.fault(lean_namespace, circuit_id, k, num_proofs, recorder, msm) is None,
    ensures
        ({
            let file = fixture::fixture_text(lean_namespace, circuit_id, capture::capture(&key, k, num_proofs, &recorder, &msm));
            let t = capture::capture(&key, k, num_proofs, &recorder, &msm).table();
            let np = num_proofs as nat;
            let nl = key.cs.lookups@.len();
            let sets = circuit::chunk_count(key.cs.permutation_columns@.len(), (key.cs_degree - 2) as nat);
            let advice_end = np * key.cs.num_advice_columns as nat;
            let permuted_end = advice_end + 2 * (np * nl);
            let product_end = permuted_end + np * sets;
            let lookup_end = product_end + np * nl;
            &&& holds(
                file,
                "def capturedAdviceCommitments : List G := ["@
                    + text::comma_separated(Seq::new(advice_end,
                    |i: int| points::ref_text(t, recorder.points@[i]))) + "]\n\n"@,
            )
            &&& holds(
                file,
                "def capturedLookupPermutedInput : List G := ["@
                    + text::comma_separated(Seq::new(np * nl,
                    |i: int| points::ref_text(t, recorder.points@[advice_end + 2 * i])))
                    + "]\n\n"@,
            )
            &&& holds(
                file,
                "def capturedLookupPermutedTable : List G := ["@
                    + text::comma_separated(Seq::new(np * nl,
                    |i: int| points::ref_text(t, recorder.points@[advice_end + 2 * i + 1])))
                    + "]\n\n"@,
            )
            &&& holds(
                file,
                "def capturedPermutationProducts : List G := ["@
                    + text::comma_separated(Seq::new(np * sets,
                    |i: int| points::ref_text(t, recorder.points@[permuted_end + i])))
                    + "]\n\n"@,
            )
            &&& holds(
                file,
                "def capturedLookupProducts : List G := ["@
                    + text::comma_separated(Seq::new(np * nl,
                    |i: int| points::ref_text(t, recorder.points@[product_end + i])))
                    + "]\n\n"@,
            )
            &&& holds(
                file,
                "def capturedHPieces : List G := ["@
                    + text::comma_separated(Seq::new(key.quotient_poly_degree as nat,
                    |i: int| points::ref_text(t, recorder.points@[lookup_end + 1 + i])))
                    + "]\n\n"@,
            )
        }),
{
    let c = capture::capture(&key, k, num_proofs, &recorder, &msm);
    lemma_sized(key, lean_namespace, circuit_id, k, num_proofs, recorder, msm);
    lemma_has_proof_points(lean_namespace, circuit_id, c);
    lemma_proof_points_are_written(
        fixture::fixture_text(lean_namespace, circuit_id, capture::capture(&key, k, num_proofs, &recorder, &msm)),
        key, k, num_proofs, recorder, msm,
    );
}

proof fn lemma_column_evals_are_written_list_0(
    key: VerifyingKey,
    k: u32,
    num_proofs: usize,
    recorder: ChallengeRecorder,
    msm: MSM,
)
    requires
        sized(key, k, num_proofs, recorder, msm),
    ensures
        ({
            let c = capture::capture(&key, k, num_proofs, &recorder, &msm);
            let np = num_proofs as nat;
            let instance_end = np * key.cs.instance_queries@.len();
            field::fp_texts(c.scalars(0, c.shape.instance_eval_end()))
                == Seq::new(instance_end, |i: int| field::fp_text(recorder.scalars@[i]))
        }),
{
    let c = capture::capture(&key, k, num_proofs, &recorder, &msm);
    let np = num_proofs as nat;
    let instance_end = np * key.cs.instance_queries@.len();
    refusals::shape_is_that_of_the_key(key, k, num_proofs);
    refusals::blocks_have_the_sizes_of_the_protocol(c.shape);
    schedule::point_blocks_in_order(c.shape);
    schedule::scalar_blocks_in_order(c.shape);
    assert(field::fp_texts(c.scalars(0, c.shape.instance_eval_end()))
        =~= Seq::new(instance_end, |i: int| field::fp_text(recorder.scalars@[i])));
}

proof fn lemma_column_evals_are_written_list_1(
    key: VerifyingKey,
    k: u32,
    num_proofs: usize,
    recorder: ChallengeRecorder,
    msm: MSM,
)
    requires
        sized(key, k, num_proofs, recorder, msm),
    ensures
        ({
            let c = capture::capture(&key, k, num_proofs, &recorder, &msm);
            let np = num_proofs as nat;
            let instance_end = np * key.cs.instance_queries@.len();
            field::fp_texts(c.scalars(c.shape.instance_eval_end(), c.shape.advice_eval_end()))
                == Seq::new(np * key.cs.advice_queries@.len(),
                    |i: int| field::fp_text(recorder.scalars@[instance_end + i]))
        }),
{
    let c = capture::capture(&key, k, num_proofs, &recorder, &msm);
    let np = num_proofs as nat;
    let instance_end = np * key.cs.instance_queries@.len();
    refusals::shape_is_that_of_the_key(key, k, num_proofs);
    refusals::blocks_have_the_sizes_of_the_protocol(c.shape);
    schedule::point_blocks_in_order(c.shape);
    schedule::scalar_blocks_in_order(c.shape);
    assert(field::fp_texts(c.scalars(c.shape.instance_eval_end(), c.shape.advice_eval_end()))
        =~= Seq::new(np * key.cs.advice_queries@.len(),
            |i: int| field::fp_text(recorder.scalars@[instance_end + i])));
}

proof fn lemma_column_evals_are_written_list_2(
    key: VerifyingKey,
    k: u32,
    num_proofs: usize,
    recorder: ChallengeRecorder,
    msm: MSM,
)
    requires
        sized(key, k, num_proofs, recorder, msm),
    ensures
        ({
            let c = capture::capture(&key, k, num_proofs, &recorder, &msm);
            let np = num_proofs as nat;
            let instance_end = np * key.cs.instance_queries@.len();
            let advice_eval_end = instance_end + np * key.cs.advice_queries@.len();
            field::fp_texts(c.scalars(c.shape.advice_eval_end(), c.shape.fixed_eval_end()))
                == Seq::new(key.cs.fixed_queries@.len(),
                    |i: int| field::fp_text(recorder.scalars@[advice_eval_end + i]))
        }),
{
    let c = capture::capture(&key, k, num_proofs, &recorder, &msm);
    let np = num_proofs as nat;
    let instance_end = np * key.cs.instance_queries@.len();
    let advice_eval_end = instance_end + np * key.cs.advice_queries@.len();
    refusals::shape_is_that_of_the_key(key, k, num_proofs);
    refusals::blocks_have_the_sizes_of_the_protocol(c.shape);
    schedule::point_blocks_in_order(c.shape);
    schedule::scalar_blocks_in_order(c.shape);
    assert(field::fp_texts(c.scalars(c.shape.advice_eval_end(), c.shape.fixed_eval_end()))
        =~= Seq::new(key.cs.fixed_queries@.len(),
            |i: int| field::fp_text(recorder.scalars@[advice_eval_end + i])));
}

proof fn lemma_column_evals_are_written_list_3(
    key: VerifyingKey,
    k: u32,
    num_proofs: usize,
    recorder: ChallengeRecorder,
    msm: MSM,
)
    requires
        sized(key, k, num_proofs, recorder, msm),
    ensures
        ({
            let c = capture::capture(&key, k, num_proofs, &recorder, &msm);
            let np = num_proofs as nat;
            let instance_end = np * key.cs.instance_queries@.len();
            let advice_eval_end = instance_end + np * key.cs.advice_queries@.len();
            let fixed_end = advice_eval_end + key.cs.fixed_queries@.len();
            field::fp_texts(c.scalars(c.shape.vanishing_eval_end(), c.shape.permutation_common_end()))
                == Seq::new(key.permutation_commitments@.len(),
                    |i: int| field::fp_text(recorder.scalars@[fixed_end + 1 + i]))
        }),
{
    let c = capture::capture(&key, k, num_proofs, &recorder, &msm);
    let np = num_proofs as nat;
    let instance_end = np * key.cs.instance_queries@.len();
    let advice_eval_end = instance_end + np * key.cs.advice_queries@.len();
    let fixed_end = advice_eval_end + key.cs.fixed_queries@.len();
    refusals::shape_is_that_of_the_key(key, k, num_proofs);
    refusals::blocks_have_the_sizes_of_the_protocol(c.shape);
    schedule::point_blocks_in_order(c.shape);
    schedule::scalar_blocks_in_order(c.shape);
    assert(field::fp_texts(c.scalars(c.shape.vanishing_eval_end(), c.shape.permutation_common_end()))
        =~= Seq::new(key.permutation_commitments@.len(),
            |i: int| field::fp_text(recorder.scalars@[fixed_end + 1 + i])));
}

#[verifier::rlimit(30)]
proof fn lemma_column_evals_are_written(
    file: Seq<char>,
    key: VerifyingKey,
    k: u32,
    num_proofs: usize,
    recorder: ChallengeRecorder,
    msm: MSM,
)
    requires
        sized(key, k, num_proofs, recorder, msm),
        holds(file, fixture::column_evals_text(capture::capture(&key, k, num_proofs, &recorder, &msm))),
    ensures
        ({
            let np = num_proofs as nat;
            let instance_end = np * key.cs.instance_queries@.len();
            let advice_eval_end = instance_end + np * key.cs.advice_queries@.len();
            let fixed_end = advice_eval_end + key.cs.fixed_queries@.len();
            &&& holds(
                file,
                "def capturedInstanceEvals : List Fp := ["@
                    + text::comma_separated(Seq::new(instance_end,
                    |i: int| field::fp_text(recorder.scalars@[i]))) + "]\n\n"@,
            )
            &&& holds(
                file,
                "def capturedAdviceEvals : List Fp := ["@
                    + text::comma_separated(Seq::new(np * key.cs.advice_queries@.len(),
                    |i: int| field::fp_text(recorder.scalars@[instance_end + i]))) + "]\n\n"@,
            )
            &&& holds(
                file,
                "def capturedFixedEvals : List Fp := ["@
                    + text::comma_separated(Seq::new(key.cs.fixed_queries@.len(),
                    |i: int| field::fp_text(recorder.scalars@[advice_eval_end + i])))
                    + "]\n\n"@,
            )
            &&& holds(
                file,
                "def capturedPermutationCommonEvals : List Fp := ["@
                    + text::comma_separated(Seq::new(key.permutation_commitments@.len(),
                    |i: int| field::fp_text(recorder.scalars@[fixed_end + 1 + i]))) + "]\n\n"@,
            )
        }),
{
    let c = capture::capture(&key, k, num_proofs, &recorder, &msm);
    let np = num_proofs as nat;
    let instance_end = np * key.cs.instance_queries@.len();
    let advice_eval_end = instance_end + np * key.cs.advice_queries@.len();
    let fixed_end = advice_eval_end + key.cs.fixed_queries@.len();
    refusals::shape_is_that_of_the_key(key, k, num_proofs);
    refusals::blocks_have_the_sizes_of_the_protocol(c.shape);
    schedule::point_blocks_in_order(c.shape);
    schedule::scalar_blocks_in_order(c.shape);
    lemma_column_evals_are_written_list_0(key, k, num_proofs, recorder, msm);
    lemma_column_evals_are_written_list_1(key, k, num_proofs, recorder, msm);
    lemma_column_evals_are_written_list_2(key, k, num_proofs, recorder, msm);
    lemma_column_evals_are_written_list_3(key, k, num_proofs, recorder, msm);
    lemma_parts_4(
        file,
        "def capturedInstanceEvals : List Fp := ["@
            + text::comma_separated(Seq::new(instance_end,
            |i: int| field::fp_text(recorder.scalars@[i]))) + "]\n\n"@,
        "def capturedAdviceEvals : List Fp := ["@
            + text::comma_separated(Seq::new(np * key.cs.advice_queries@.len(),
            |i: int| field::fp_text(recorder.scalars@[instance_end + i]))) + "]\n\n"@,
        "def capturedFixedEvals : List Fp := ["@
            + text::comma_separated(Seq::new(key.cs.fixed_queries@.len(),
            |i: int| field::fp_text(recorder.scalars@[advice_eval_end + i]))) + "]\n\n"@,
        "def capturedPermutationCommonEvals : List Fp := ["@
            + text::comma_separated(Seq::new(key.permutation_commitments@.len(),
            |i: int| field::fp_text(recorder.scalars@[fixed_end + 1 + i]))) + "]\n\n"@,
    );
}

/// The lists of the column evaluations hold what was read, in the order of the protocol: the instance
/// queries of all proofs, the advice queries of all proofs, the fixed queries, and, after one more
/// scalar, the permutation columns.
#[verifier::rlimit(30)]
pub proof fn column_evals_are_written(
    key: VerifyingKey,
    lean_namespace: Seq<char>,
    circuit_id: Seq<char>,
    k: u32,
    num_proofs: usize,
    recorder: ChallengeRecorder,
    msm: MSM,
)
    requires
        key.fault(lean_namespace, circuit_id, k, num_proofs, recorder, msm) is None,
    ensures
        ({
            let file = fixture::fixture_text(lean_namespace, circuit_id, capture::capture(&key, k, num_proofs, &recorder, &msm));
            let np = num_proofs as nat;
            let instance_end = np * key.cs.instance_queries@.len();
            let advice_eval_end = instance_end + np * key.cs.advice_queries@.len();
            let fixed_end = advice_eval_end + key.cs.fixed_queries@.len();
            &&& holds(
                file,
                "def capturedInstanceEvals : List Fp := ["@
                    + text::comma_separated(Seq::new(instance_end,
                    |i: int| field::fp_text(recorder.scalars@[i]))) + "]\n\n"@,
            )
            &&& holds(
                file,
                "def capturedAdviceEvals : List Fp := ["@
                    + text::comma_separated(Seq::new(np * key.cs.advice_queries@.len(),
                    |i: int| field::fp_text(recorder.scalars@[instance_end + i]))) + "]\n\n"@,
            )
            &&& holds(
                file,
                "def capturedFixedEvals : List Fp := ["@
                    + text::comma_separated(Seq::new(key.cs.fixed_queries@.len(),
                    |i: int| field::fp_text(recorder.scalars@[advice_eval_end + i])))
                    + "]\n\n"@,
            )
            &&& holds(
                file,
                "def capturedPermutationCommonEvals : List Fp := ["@
                    + text::comma_separated(Seq::new(key.permutation_commitments@.len(),
                    |i: int| field::fp_text(recorder.scalars@[fixed_end + 1 + i]))) + "]\n\n"@,
            )
        }),
{
    let c = capture::capture(&key, k, num_proofs, &recorder, &msm);
    lemma_sized(key, lean_namespace, circuit_id, k, num_proofs, recorder, msm);
    lemma_has_column_evals(lean_namespace, circuit_id, c);
    lemma_column_evals_are_written(
        fixture::fixture_text(lean_namespace, circuit_id, capture::capture(&key, k, num_proofs, &recorder, &msm)),
        key, k, num_proofs, recorder, msm,
    );
}

#[verifier::rlimit(30)]
proof fn lemma_set_evals_are_written(
    file: Seq<char>,
    key: VerifyingKey,
    k: u32,
    num_proofs: usize,
    recorder: ChallengeRecorder,
    msm: MSM,
)
    requires
        sized(key, k, num_proofs, recorder, msm),
        holds(file, fixture::set_evals_text(capture::capture(&key, k, num_proofs, &recorder, &msm))),
    ensures
        ({
            let np = num_proofs as nat;
            let sets = circuit::chunk_count(key.cs.permutation_columns@.len(), (key.cs_degree - 2) as nat);
            let width = (if sets == 0 { 0 } else { (3 * sets - 1) as nat });
            let instance_end = np * key.cs.instance_queries@.len();
            let advice_eval_end = instance_end + np * key.cs.advice_queries@.len();
            let fixed_end = advice_eval_end + key.cs.fixed_queries@.len();
            let common_end = fixed_end + 1 + key.permutation_commitments@.len();
            let set_end = common_end + np * width;
            &&& holds(
                file,
                "def capturedPermutationSetEvals : List (PermSetEval Fp) := ["@
                    + text::comma_separated(capture::set_eval_texts(recorder.scalars@.subrange(common_end as int, set_end as int), sets, width, np))
                    + "]\n\n"@,
            )
        }),
{
    let c = capture::capture(&key, k, num_proofs, &recorder, &msm);
    let np = num_proofs as nat;
    let sets = circuit::chunk_count(key.cs.permutation_columns@.len(), (key.cs_degree - 2) as nat);
    let width = (if sets == 0 { 0 } else { (3 * sets - 1) as nat });
    let instance_end = np * key.cs.instance_queries@.len();
    let advice_eval_end = instance_end + np * key.cs.advice_queries@.len();
    let fixed_end = advice_eval_end + key.cs.fixed_queries@.len();
    let common_end = fixed_end + 1 + key.permutation_commitments@.len();
    let set_end = common_end + np * width;
    refusals::shape_is_that_of_the_key(key, k, num_proofs);
    refusals::blocks_have_the_sizes_of_the_protocol(c.shape);
    schedule::point_blocks_in_order(c.shape);
    schedule::scalar_blocks_in_order(c.shape);
    lemma_parts_1(
        file,
        "def capturedPermutationSetEvals : List (PermSetEval Fp) := ["@
            + text::comma_separated(capture::set_eval_texts(recorder.scalars@.subrange(common_end as int, set_end as int), sets, width, np))
            + "]\n\n"@,
    );
}

/// The list of the permutation set evaluations is made from the scalars that follow.
#[verifier::rlimit(30)]
pub proof fn set_evals_are_written(
    key: VerifyingKey,
    lean_namespace: Seq<char>,
    circuit_id: Seq<char>,
    k: u32,
    num_proofs: usize,
    recorder: ChallengeRecorder,
    msm: MSM,
)
    requires
        key.fault(lean_namespace, circuit_id, k, num_proofs, recorder, msm) is None,
    ensures
        ({
            let file = fixture::fixture_text(lean_namespace, circuit_id, capture::capture(&key, k, num_proofs, &recorder, &msm));
            let np = num_proofs as nat;
            let sets = circuit::chunk_count(key.cs.permutation_columns@.len(), (key.cs_degree - 2) as nat);
            let width = (if sets == 0 { 0 } else { (3 * sets - 1) as nat });
            let instance_end = np * key.cs.instance_queries@.len();
            let advice_eval_end = instance_end + np * key.cs.advice_queries@.len();
            let fixed_end = advice_eval_end + key.cs.fixed_queries@.len();
            let common_end = fixed_end + 1 + key.permutation_commitments@.len();
            let set_end = common_end + np * width;
            &&& holds(
                file,
                "def capturedPermutationSetEvals : List (PermSetEval Fp) := ["@
                    + text::comma_separated(capture::set_eval_texts(recorder.scalars@.subrange(common_end as int, set_end as int), sets, width, np))
                    + "]\n\n"@,
            )
        }),
{
    let c = capture::capture(&key, k, num_proofs, &recorder, &msm);
    lemma_sized(key, lean_namespace, circuit_id, k, num_proofs, recorder, msm);
    lemma_has_set_evals(lean_namespace, circuit_id, c);
    lemma_set_evals_are_written(
        fixture::fixture_text(lean_namespace, circuit_id, capture::capture(&key, k, num_proofs, &recorder, &msm)),
        key, k, num_proofs, recorder, msm,
    );
}

proof fn lemma_lookup_evals_are_written_list(
    key: VerifyingKey,
    k: u32,
    num_proofs: usize,
    recorder: ChallengeRecorder,
    msm: MSM,
)
    requires
        sized(key, k, num_proofs, recorder, msm),
    ensures
        ({
            let c = capture::capture(&key, k, num_proofs, &recorder, &msm);
            let np = num_proofs as nat;
            let nl = key.cs.lookups@.len();
            let sets = circuit::chunk_count(key.cs.permutation_columns@.len(), (key.cs_degree - 2) as nat);
            let width = (if sets == 0 { 0 } else { (3 * sets - 1) as nat });
            let instance_end = np * key.cs.instance_queries@.len();
            let advice_eval_end = instance_end + np * key.cs.advice_queries@.len();
            let fixed_end = advice_eval_end + key.cs.fixed_queries@.len();
            let common_end = fixed_end + 1 + key.permutation_commitments@.len();
            let set_end = common_end + np * width;
            capture::lookup_eval_texts(c.scalars(c.shape.permutation_set_end(), c.shape.lookup_eval_end()), c.all_lookups())
                == Seq::new(np * nl, |i: int| "{ productEval := "@
                    + field::fp_text(recorder.scalars@[set_end + 5 * i])
                    + ", productNextEval := "@ + field::fp_text(recorder.scalars@[set_end
                    + 5 * i + 1]) + ", permutedInputEval := "@
                    + field::fp_text(recorder.scalars@[set_end + 5 * i + 2])
                    + ", permutedInputInvEval := "@ + field::fp_text(recorder.scalars@[set_end
                    + 5 * i + 3]) + ", permutedTableEval := "@
                    + field::fp_text(recorder.scalars@[set_end + 5 * i + 4]) + " }"@)
        }),
{
    let c = capture::capture(&key, k, num_proofs, &recorder, &msm);
    let np = num_proofs as nat;
    let nl = key.cs.lookups@.len();
    let sets = circuit::chunk_count(key.cs.permutation_columns@.len(), (key.cs_degree - 2) as nat);
    let width = (if sets == 0 { 0 } else { (3 * sets - 1) as nat });
    let instance_end = np * key.cs.instance_queries@.len();
    let advice_eval_end = instance_end + np * key.cs.advice_queries@.len();
    let fixed_end = advice_eval_end + key.cs.fixed_queries@.len();
    let common_end = fixed_end + 1 + key.permutation_commitments@.len();
    let set_end = common_end + np * width;
    refusals::shape_is_that_of_the_key(key, k, num_proofs);
    refusals::blocks_have_the_sizes_of_the_protocol(c.shape);
    schedule::point_blocks_in_order(c.shape);
    schedule::scalar_blocks_in_order(c.shape);
    lemma_lookup_rows(recorder.scalars@, set_end, np * nl);
    assert(capture::lookup_eval_texts(c.scalars(c.shape.permutation_set_end(), c.shape.lookup_eval_end()), c.all_lookups())
        =~= Seq::new(np * nl, |i: int| "{ productEval := "@
            + field::fp_text(recorder.scalars@[set_end + 5 * i]) + ", productNextEval := "@
            + field::fp_text(recorder.scalars@[set_end + 5 * i + 1])
            + ", permutedInputEval := "@ + field::fp_text(recorder.scalars@[set_end + 5 * i
            + 2]) + ", permutedInputInvEval := "@ + field::fp_text(recorder.scalars@[set_end
            + 5 * i + 3]) + ", permutedTableEval := "@
            + field::fp_text(recorder.scalars@[set_end + 5 * i + 4]) + " }"@));
}

#[verifier::rlimit(30)]
proof fn lemma_lookup_evals_are_written(
    file: Seq<char>,
    key: VerifyingKey,
    k: u32,
    num_proofs: usize,
    recorder: ChallengeRecorder,
    msm: MSM,
)
    requires
        sized(key, k, num_proofs, recorder, msm),
        holds(file, fixture::lookup_evals_text(capture::capture(&key, k, num_proofs, &recorder, &msm))),
    ensures
        ({
            let np = num_proofs as nat;
            let nl = key.cs.lookups@.len();
            let sets = circuit::chunk_count(key.cs.permutation_columns@.len(), (key.cs_degree - 2) as nat);
            let width = (if sets == 0 { 0 } else { (3 * sets - 1) as nat });
            let instance_end = np * key.cs.instance_queries@.len();
            let advice_eval_end = instance_end + np * key.cs.advice_queries@.len();
            let fixed_end = advice_eval_end + key.cs.fixed_queries@.len();
            let common_end = fixed_end + 1 + key.permutation_commitments@.len();
            let set_end = common_end + np * width;
            &&& holds(
                file,
                "def capturedLookupEvals : List (LookupEval Fp) := ["@
                    + text::comma_separated(Seq::new(np * nl, |i: int| "{ productEval := "@
                    + field::fp_text(recorder.scalars@[set_end + 5 * i])
                    + ", productNextEval := "@ + field::fp_text(recorder.scalars@[set_end
                    + 5 * i + 1]) + ", permutedInputEval := "@
                    + field::fp_text(recorder.scalars@[set_end + 5 * i + 2])
                    + ", permutedInputInvEval := "@ + field::fp_text(recorder.scalars@[set_end
                    + 5 * i + 3]) + ", permutedTableEval := "@
                    + field::fp_text(recorder.scalars@[set_end + 5 * i + 4]) + " }"@))
                    + "]\n\n"@,
            )
        }),
{
    let c = capture::capture(&key, k, num_proofs, &recorder, &msm);
    let np = num_proofs as nat;
    let nl = key.cs.lookups@.len();
    let sets = circuit::chunk_count(key.cs.permutation_columns@.len(), (key.cs_degree - 2) as nat);
    let width = (if sets == 0 { 0 } else { (3 * sets - 1) as nat });
    let instance_end = np * key.cs.instance_queries@.len();
    let advice_eval_end = instance_end + np * key.cs.advice_queries@.len();
    let fixed_end = advice_eval_end + key.cs.fixed_queries@.len();
    let common_end = fixed_end + 1 + key.permutation_commitments@.len();
    let set_end = common_end + np * width;
    lemma_lookup_evals_are_written_list(key, k, num_proofs, recorder, msm);
    lemma_parts_1(
        file,
        "def capturedLookupEvals : List (LookupEval Fp) := ["@
            + text::comma_separated(Seq::new(np * nl, |i: int| "{ productEval := "@
            + field::fp_text(recorder.scalars@[set_end + 5 * i]) + ", productNextEval := "@
            + field::fp_text(recorder.scalars@[set_end + 5 * i + 1])
            + ", permutedInputEval := "@ + field::fp_text(recorder.scalars@[set_end + 5 * i
            + 2]) + ", permutedInputInvEval := "@ + field::fp_text(recorder.scalars@[set_end
            + 5 * i + 3]) + ", permutedTableEval := "@
            + field::fp_text(recorder.scalars@[set_end + 5 * i + 4]) + " }"@)) + "]\n\n"@,
    );
}

/// The list of the lookup evaluations takes five scalars for each lookup in turn.
#[verifier::rlimit(30)]
pub proof fn lookup_evals_are_written(
    key: VerifyingKey,
    lean_namespace: Seq<char>,
    circuit_id: Seq<char>,
    k: u32,
    num_proofs: usize,
    recorder: ChallengeRecorder,
    msm: MSM,
)
    requires
        key.fault(lean_namespace, circuit_id, k, num_proofs, recorder, msm) is None,
    ensures
        ({
            let file = fixture::fixture_text(lean_namespace, circuit_id, capture::capture(&key, k, num_proofs, &recorder, &msm));
            let np = num_proofs as nat;
            let nl = key.cs.lookups@.len();
            let sets = circuit::chunk_count(key.cs.permutation_columns@.len(), (key.cs_degree - 2) as nat);
            let width = (if sets == 0 { 0 } else { (3 * sets - 1) as nat });
            let instance_end = np * key.cs.instance_queries@.len();
            let advice_eval_end = instance_end + np * key.cs.advice_queries@.len();
            let fixed_end = advice_eval_end + key.cs.fixed_queries@.len();
            let common_end = fixed_end + 1 + key.permutation_commitments@.len();
            let set_end = common_end + np * width;
            &&& holds(
                file,
                "def capturedLookupEvals : List (LookupEval Fp) := ["@
                    + text::comma_separated(Seq::new(np * nl, |i: int| "{ productEval := "@
                    + field::fp_text(recorder.scalars@[set_end + 5 * i])
                    + ", productNextEval := "@ + field::fp_text(recorder.scalars@[set_end
                    + 5 * i + 1]) + ", permutedInputEval := "@
                    + field::fp_text(recorder.scalars@[set_end + 5 * i + 2])
                    + ", permutedInputInvEval := "@ + field::fp_text(recorder.scalars@[set_end
                    + 5 * i + 3]) + ", permutedTableEval := "@
                    + field::fp_text(recorder.scalars@[set_end + 5 * i + 4]) + " }"@))
                    + "]\n\n"@,
            )
        }),
{
    let c = capture::capture(&key, k, num_proofs, &recorder, &msm);
    lemma_sized(key, lean_namespace, circuit_id, k, num_proofs, recorder, msm);
    lemma_has_lookup_evals(lean_namespace, circuit_id, c);
    lemma_lookup_evals_are_written(
        fixture::fixture_text(lean_namespace, circuit_id, capture::capture(&key, k, num_proofs, &recorder, &msm)),
        key, k, num_proofs, recorder, msm,
    );
}

proof fn lemma_multiopen_is_written_list_0(
    key: VerifyingKey,
    k: u32,
    num_proofs: usize,
    recorder: ChallengeRecorder,
    msm: MSM,
)
    requires
        sized(key, k, num_proofs, recorder, msm),
    ensures
        ({
            let c = capture::capture(&key, k, num_proofs, &recorder, &msm);
            let np = num_proofs as nat;
            let nl = key.cs.lookups@.len();
            let sets = circuit::chunk_count(key.cs.permutation_columns@.len(), (key.cs_degree - 2) as nat);
            let width = (if sets == 0 { 0 } else { (3 * sets - 1) as nat });
            let instance_end = np * key.cs.instance_queries@.len();
            let advice_eval_end = instance_end + np * key.cs.advice_queries@.len();
            let fixed_end = advice_eval_end + key.cs.fixed_queries@.len();
            let common_end = fixed_end + 1 + key.permutation_commitments@.len();
            let set_end = common_end + np * width;
            let eval_end = set_end + 5 * (np * nl);
            field::fp_texts(c.scalars(c.shape.lookup_eval_end(), c.multiopen_scalars_end()))
                == Seq::new((recorder.scalars@.len() - eval_end - 2) as nat,
                    |i: int| field::fp_text(recorder.scalars@[eval_end + i]))
        }),
{
    let c = capture::capture(&key, k, num_proofs, &recorder, &msm);
    let np = num_proofs as nat;
    let nl = key.cs.lookups@.len();
    let sets = circuit::chunk_count(key.cs.permutation_columns@.len(), (key.cs_degree - 2) as nat);
    let width = (if sets == 0 { 0 } else { (3 * sets - 1) as nat });
    let instance_end = np * key.cs.instance_queries@.len();
    let advice_eval_end = instance_end + np * key.cs.advice_queries@.len();
    let fixed_end = advice_eval_end + key.cs.fixed_queries@.len();
    let common_end = fixed_end + 1 + key.permutation_commitments@.len();
    let set_end = common_end + np * width;
    let eval_end = set_end + 5 * (np * nl);
    refusals::shape_is_that_of_the_key(key, k, num_proofs);
    refusals::blocks_have_the_sizes_of_the_protocol(c.shape);
    schedule::point_blocks_in_order(c.shape);
    schedule::scalar_blocks_in_order(c.shape);
    assert(field::fp_texts(c.scalars(c.shape.lookup_eval_end(), c.multiopen_scalars_end()))
        =~= Seq::new((recorder.scalars@.len() - eval_end - 2) as nat,
            |i: int| field::fp_text(recorder.scalars@[eval_end + i])));
}

proof fn lemma_multiopen_is_written_list_1(
    key: VerifyingKey,
    k: u32,
    num_proofs: usize,
    recorder: ChallengeRecorder,
    msm: MSM,
)
    requires
        sized(key, k, num_proofs, recorder, msm),
    ensures
        ({
            let c = capture::capture(&key, k, num_proofs, &recorder, &msm);
            let t = capture::capture(&key, k, num_proofs, &recorder, &msm).table();
            let np = num_proofs as nat;
            let nl = key.cs.lookups@.len();
            let sets = circuit::chunk_count(key.cs.permutation_columns@.len(), (key.cs_degree - 2) as nat);
            let advice_end = np * key.cs.num_advice_columns as nat;
            let permuted_end = advice_end + 2 * (np * nl);
            let product_end = permuted_end + np * sets;
            let lookup_end = product_end + np * nl;
            let quotient_end = lookup_end + 1 + key.quotient_poly_degree as nat;
            capture::pair_texts(t, c.ipa_rounds(), k as nat)
                == Seq::new(k as nat, |i: int| "("@
                    + points::ref_text(t, recorder.points@[quotient_end + 2 + 2 * i]) + ", "@
                    + points::ref_text(t, recorder.points@[quotient_end + 2 + 2 * i + 1])
                    + ")"@)
        }),
{
    let c = capture::capture(&key, k, num_proofs, &recorder, &msm);
    let t = capture::capture(&key, k, num_proofs, &recorder, &msm).table();
    let np = num_proofs as nat;
    let nl = key.cs.lookups@.len();
    let sets = circuit::chunk_count(key.cs.permutation_columns@.len(), (key.cs_degree - 2) as nat);
    let advice_end = np * key.cs.num_advice_columns as nat;
    let permuted_end = advice_end + 2 * (np * nl);
    let product_end = permuted_end + np * sets;
    let lookup_end = product_end + np * nl;
    let quotient_end = lookup_end + 1 + key.quotient_poly_degree as nat;
    refusals::shape_is_that_of_the_key(key, k, num_proofs);
    refusals::blocks_have_the_sizes_of_the_protocol(c.shape);
    schedule::point_blocks_in_order(c.shape);
    schedule::scalar_blocks_in_order(c.shape);
    assert(capture::pair_texts(t, c.ipa_rounds(), k as nat)
        =~= Seq::new(k as nat, |i: int| "("@ + points::ref_text(t, recorder.points@[quotient_end
            + 2 + 2 * i]) + ", "@ + points::ref_text(t, recorder.points@[quotient_end + 2
            + 2 * i + 1]) + ")"@));
}

#[verifier::rlimit(30)]
proof fn lemma_multiopen_is_written(
    file: Seq<char>,
    key: VerifyingKey,
    k: u32,
    num_proofs: usize,
    recorder: ChallengeRecorder,
    msm: MSM,
)
    requires
        sized(key, k, num_proofs, recorder, msm),
        holds(file, fixture::multiopen_text(capture::capture(&key, k, num_proofs, &recorder, &msm), capture::capture(&key, k, num_proofs, &recorder, &msm).table())),
    ensures
        ({
            let t = capture::capture(&key, k, num_proofs, &recorder, &msm).table();
            let np = num_proofs as nat;
            let nl = key.cs.lookups@.len();
            let sets = circuit::chunk_count(key.cs.permutation_columns@.len(), (key.cs_degree - 2) as nat);
            let advice_end = np * key.cs.num_advice_columns as nat;
            let permuted_end = advice_end + 2 * (np * nl);
            let product_end = permuted_end + np * sets;
            let lookup_end = product_end + np * nl;
            let quotient_end = lookup_end + 1 + key.quotient_poly_degree as nat;
            let width = (if sets == 0 { 0 } else { (3 * sets - 1) as nat });
            let instance_end = np * key.cs.instance_queries@.len();
            let advice_eval_end = instance_end + np * key.cs.advice_queries@.len();
            let fixed_end = advice_eval_end + key.cs.fixed_queries@.len();
            let common_end = fixed_end + 1 + key.permutation_commitments@.len();
            let set_end = common_end + np * width;
            let eval_end = set_end + 5 * (np * nl);
            &&& holds(
                file,
                "def capturedMultiopenU : List Fp := ["@
                    + text::comma_separated(Seq::new((recorder.scalars@.len() - eval_end - 2) as nat,
                    |i: int| field::fp_text(recorder.scalars@[eval_end + i]))) + "]\n\n"@,
            )
            &&& holds(
                file,
                "def capturedIpaRounds : List (G × G) := ["@
                    + text::comma_separated(Seq::new(k as nat, |i: int| "("@
                    + points::ref_text(t, recorder.points@[quotient_end + 2 + 2 * i]) + ", "@
                    + points::ref_text(t, recorder.points@[quotient_end + 2 + 2 * i + 1])
                    + ")"@)) + "]\n\n"@,
            )
        }),
{
    let c = capture::capture(&key, k, num_proofs, &recorder, &msm);
    let t = capture::capture(&key, k, num_proofs, &recorder, &msm).table();
    let np = num_proofs as nat;
    let nl = key.cs.lookups@.len();
    let sets = circuit::chunk_count(key.cs.permutation_columns@.len(), (key.cs_degree - 2) as nat);
    let advice_end = np * key.cs.num_advice_columns as nat;
    let permuted_end = advice_end + 2 * (np * nl);
    let product_end = permuted_end + np * sets;
    let lookup_end = product_end + np * nl;
    let quotient_end = lookup_end + 1 + key.quotient_poly_degree as nat;
    let width = (if sets == 0 { 0 } else { (3 * sets - 1) as nat });
    let instance_end = np * key.cs.instance_queries@.len();
    let advice_eval_end = instance_end + np * key.cs.advice_queries@.len();
    let fixed_end = advice_eval_end + key.cs.fixed_queries@.len();
    let common_end = fixed_end + 1 + key.permutation_commitments@.len();
    let set_end = common_end + np * width;
    let eval_end = set_end + 5 * (np * nl);
    refusals::shape_is_that_of_the_key(key, k, num_proofs);
    refusals::blocks_have_the_sizes_of_the_protocol(c.shape);
    schedule::point_blocks_in_order(c.shape);
    schedule::scalar_blocks_in_order(c.shape);
    lemma_multiopen_is_written_list_0(key, k, num_proofs, recorder, msm);
    lemma_multiopen_is_written_list_1(key, k, num_proofs, recorder, msm);
    lemma_parts_2(
        file,
        "def capturedMultiopenU : List Fp := ["@
            + text::comma_separated(Seq::new((recorder.scalars@.len() - eval_end - 2) as nat,
            |i: int| field::fp_text(recorder.scalars@[eval_end + i]))) + "]\n\n"@,
        "def capturedIpaRounds : List (G × G) := ["@ + text::comma_separated(Seq::new(k as nat,
            |i: int| "("@ + points::ref_text(t, recorder.points@[quotient_end + 2 + 2 * i])
            + ", "@ + points::ref_text(t, recorder.points@[quotient_end + 2 + 2 * i + 1])
            + ")"@)) + "]\n\n"@,
    );
}

/// The multiopen evaluations are all scalars between the other evaluations and the last two, and the
/// rounds of the inner product argument are the pairs of points at the end.
#[verifier::rlimit(30)]
pub proof fn multiopen_is_written(
    key: VerifyingKey,
    lean_namespace: Seq<char>,
    circuit_id: Seq<char>,
    k: u32,
    num_proofs: usize,
    recorder: ChallengeRecorder,
    msm: MSM,
)
    requires
        key.fault(lean_namespace, circuit_id, k, num_proofs, recorder, msm) is None,
    ensures
        ({
            let file = fixture::fixture_text(lean_namespace, circuit_id, capture::capture(&key, k, num_proofs, &recorder, &msm));
            let t = capture::capture(&key, k, num_proofs, &recorder, &msm).table();
            let np = num_proofs as nat;
            let nl = key.cs.lookups@.len();
            let sets = circuit::chunk_count(key.cs.permutation_columns@.len(), (key.cs_degree - 2) as nat);
            let advice_end = np * key.cs.num_advice_columns as nat;
            let permuted_end = advice_end + 2 * (np * nl);
            let product_end = permuted_end + np * sets;
            let lookup_end = product_end + np * nl;
            let quotient_end = lookup_end + 1 + key.quotient_poly_degree as nat;
            let width = (if sets == 0 { 0 } else { (3 * sets - 1) as nat });
            let instance_end = np * key.cs.instance_queries@.len();
            let advice_eval_end = instance_end + np * key.cs.advice_queries@.len();
            let fixed_end = advice_eval_end + key.cs.fixed_queries@.len();
            let common_end = fixed_end + 1 + key.permutation_commitments@.len();
            let set_end = common_end + np * width;
            let eval_end = set_end + 5 * (np * nl);
            &&& holds(
                file,
                "def capturedMultiopenU : List Fp := ["@
                    + text::comma_separated(Seq::new((recorder.scalars@.len() - eval_end - 2) as nat,
                    |i: int| field::fp_text(recorder.scalars@[eval_end + i]))) + "]\n\n"@,
            )
            &&& holds(
                file,
                "def capturedIpaRounds : List (G × G) := ["@
                    + text::comma_separated(Seq::new(k as nat, |i: int| "("@
                    + points::ref_text(t, recorder.points@[quotient_end + 2 + 2 * i]) + ", "@
                    + points::ref_text(t, recorder.points@[quotient_end + 2 + 2 * i + 1])
                    + ")"@)) + "]\n\n"@,
            )
        }),
{
    let c = capture::capture(&key, k, num_proofs, &recorder, &msm);
    lemma_sized(key, lean_namespace, circuit_id, k, num_proofs, recorder, msm);
    lemma_has_multiopen(lean_namespace, circuit_id, c);
    lemma_multiopen_is_written(
        fixture::fixture_text(lean_namespace, circuit_id, capture::capture(&key, k, num_proofs, &recorder, &msm)),
        key, k, num_proofs, recorder, msm,
    );
}

#[verifier::rlimit(30)]
proof fn lemma_proof_string_is_written(
    file: Seq<char>,
    key: VerifyingKey,
    k: u32,
    num_proofs: usize,
    recorder: ChallengeRecorder,
    msm: MSM,
)
    requires
        sized(key, k, num_proofs, recorder, msm),
        holds(file, fixture::proof_text(capture::capture(&key, k, num_proofs, &recorder, &msm), capture::capture(&key, k, num_proofs, &recorder, &msm).table())),
    ensures
        ({
            let t = capture::capture(&key, k, num_proofs, &recorder, &msm).table();
            let np = num_proofs as nat;
            let nl = key.cs.lookups@.len();
            let sets = circuit::chunk_count(key.cs.permutation_columns@.len(), (key.cs_degree - 2) as nat);
            let advice_end = np * key.cs.num_advice_columns as nat;
            let permuted_end = advice_end + 2 * (np * nl);
            let product_end = permuted_end + np * sets;
            let lookup_end = product_end + np * nl;
            let quotient_end = lookup_end + 1 + key.quotient_poly_degree as nat;
            let instance_end = np * key.cs.instance_queries@.len();
            let advice_eval_end = instance_end + np * key.cs.advice_queries@.len();
            let fixed_end = advice_eval_end + key.cs.fixed_queries@.len();
            &&& holds(
                file,
                "def ps : ProofString shape Fp G := {\n  adviceCommitments := fun p c => capturedAdviceCommitments.getD (p.val * "@
                    + text::decimal(key.cs.num_advice_columns as nat)
                    + " + c.val) 0,\n  lookupPermutedInput := fun p l => capturedLookupPermutedInput.getD (p.val * "@,
            )
            &&& holds(
                file,
                " + c.val) 0,\n  lookupPermutedInput := fun p l => capturedLookupPermutedInput.getD (p.val * "@
                    + text::decimal(nl)
                    + " + l.val) 0,\n  lookupPermutedTable := fun p l => capturedLookupPermutedTable.getD (p.val * "@,
            )
            &&& holds(
                file,
                " + l.val) 0,\n  lookupPermutedTable := fun p l => capturedLookupPermutedTable.getD (p.val * "@
                    + text::decimal(nl)
                    + " + l.val) 0,\n  permutationProduct := fun p s => capturedPermutationProducts.getD (p.val * "@,
            )
            &&& holds(
                file,
                " + l.val) 0,\n  permutationProduct := fun p s => capturedPermutationProducts.getD (p.val * "@
                    + text::decimal(sets)
                    + " + s.val) 0,\n  lookupProduct := fun p l => capturedLookupProducts.getD (p.val * "@,
            )
            &&& holds(
                file,
                " + s.val) 0,\n  lookupProduct := fun p l => capturedLookupProducts.getD (p.val * "@
                    + text::decimal(nl)
                    + " + l.val) 0,\n  vanishingRandom := "@,
            )
            &&& holds(
                file,
                " + l.val) 0,\n  vanishingRandom := "@
                    + points::ref_text(t, recorder.points@[lookup_end as int])
                    + ",\n  hPieces := fun i => capturedHPieces.getD i.val 0,\n  instanceEvals := fun p q => capturedInstanceEvals.getD (p.val * "@,
            )
            &&& holds(
                file,
                ",\n  hPieces := fun i => capturedHPieces.getD i.val 0,\n  instanceEvals := fun p q => capturedInstanceEvals.getD (p.val * "@
                    + text::decimal(key.cs.instance_queries@.len())
                    + " + q.val) 0,\n  adviceEvals := fun p q => capturedAdviceEvals.getD (p.val * "@,
            )
            &&& holds(
                file,
                " + q.val) 0,\n  adviceEvals := fun p q => capturedAdviceEvals.getD (p.val * "@
                    + text::decimal(key.cs.advice_queries@.len())
                    + " + q.val) 0,\n  fixedEvals := fun q => capturedFixedEvals.getD q.val 0,\n  vanishingRandomEval := "@,
            )
            &&& holds(
                file,
                " + q.val) 0,\n  fixedEvals := fun q => capturedFixedEvals.getD q.val 0,\n  vanishingRandomEval := "@
                    + field::fp_text(recorder.scalars@[fixed_end as int])
                    + ",\n  permutationCommonEvals := fun i => capturedPermutationCommonEvals.getD i.val 0,\n  permutationSetEvals := fun p s => capturedPermutationSetEvals.getD (p.val * "@,
            )
            &&& holds(
                file,
                ",\n  permutationCommonEvals := fun i => capturedPermutationCommonEvals.getD i.val 0,\n  permutationSetEvals := fun p s => capturedPermutationSetEvals.getD (p.val * "@
                    + text::decimal(sets)
                    + " + s.val) { eval := 0, nextEval := 0, lastEval := none },\n  lookupEvals := fun p l => capturedLookupEvals.getD (p.val * "@,
            )
            &&& holds(
                file,
                " + s.val) { eval := 0, nextEval := 0, lastEval := none },\n  lookupEvals := fun p l => capturedLookupEvals.getD (p.val * "@
                    + text::decimal(nl)
                    + " + l.val) { productEval := 0, productNextEval := 0, permutedInputEval := 0, permutedInputInvEval := 0, permutedTableEval := 0 },\n  multiopenQPrime := "@,
            )
            &&& holds(
                file,
                " + l.val) { productEval := 0, productNextEval := 0, permutedInputEval := 0, permutedInputInvEval := 0, permutedTableEval := 0 },\n  multiopenQPrime := "@
                    + points::ref_text(t, recorder.points@[quotient_end as int])
                    + ",\n  multiopenU := fun s => capturedMultiopenU.getD s.val 0,\n  ipaS := "@,
            )
            &&& holds(
                file,
                ",\n  multiopenU := fun s => capturedMultiopenU.getD s.val 0,\n  ipaS := "@
                    + points::ref_text(t, recorder.points@[quotient_end + 1int])
                    + ",\n  ipaRounds := fun j => capturedIpaRounds.getD j.val (0, 0),\n  ipaC := "@,
            )
            &&& holds(
                file,
                ",\n  ipaRounds := fun j => capturedIpaRounds.getD j.val (0, 0),\n  ipaC := "@
                    + field::fp_text(recorder.scalars@[recorder.scalars@.len() - 2])
                    + ",\n  ipaF := "@,
            )
            &&& holds(
                file,
                ",\n  ipaF := "@
                    + field::fp_text(recorder.scalars@[recorder.scalars@.len() - 1])
                    + " }\n\n"@,
            )
        }),
{
    let c = capture::capture(&key, k, num_proofs, &recorder, &msm);
    let t = capture::capture(&key, k, num_proofs, &recorder, &msm).table();
    let np = num_proofs as nat;
    let nl = key.cs.lookups@.len();
    let sets = circuit::chunk_count(key.cs.permutation_columns@.len(), (key.cs_degree - 2) as nat);
    let advice_end = np * key.cs.num_advice_columns as nat;
    let permuted_end = advice_end + 2 * (np * nl);
    let product_end = permuted_end + np * sets;
    let lookup_end = product_end + np * nl;
    let quotient_end = lookup_end + 1 + key.quotient_poly_degree as nat;
    let instance_end = np * key.cs.instance_queries@.len();
    let advice_eval_end = instance_end + np * key.cs.advice_queries@.len();
    let fixed_end = advice_eval_end + key.cs.fixed_queries@.len();
    refusals::shape_is_that_of_the_key(key, k, num_proofs);
    refusals::blocks_have_the_sizes_of_the_protocol(c.shape);
    schedule::point_blocks_in_order(c.shape);
    schedule::scalar_blocks_in_order(c.shape);
    lemma_chain_31(
        file,
        "def ps : ProofString shape Fp G := {\n  adviceCommitments := fun p c => capturedAdviceCommitments.getD (p.val * "@,
        text::decimal(key.cs.num_advice_columns as nat),
        " + c.val) 0,\n  lookupPermutedInput := fun p l => capturedLookupPermutedInput.getD (p.val * "@,
        text::decimal(nl),
        " + l.val) 0,\n  lookupPermutedTable := fun p l => capturedLookupPermutedTable.getD (p.val * "@,
        text::decimal(nl),
        " + l.val) 0,\n  permutationProduct := fun p s => capturedPermutationProducts.getD (p.val * "@,
        text::decimal(sets),
        " + s.val) 0,\n  lookupProduct := fun p l => capturedLookupProducts.getD (p.val * "@,
        text::decimal(nl),
        " + l.val) 0,\n  vanishingRandom := "@,
        points::ref_text(t, recorder.points@[lookup_end as int]),
        ",\n  hPieces := fun i => capturedHPieces.getD i.val 0,\n  instanceEvals := fun p q => capturedInstanceEvals.getD (p.val * "@,
        text::decimal(key.cs.instance_queries@.len()),
        " + q.val) 0,\n  adviceEvals := fun p q => capturedAdviceEvals.getD (p.val * "@,
        text::decimal(key.cs.advice_queries@.len()),
        " + q.val) 0,\n  fixedEvals := fun q => capturedFixedEvals.getD q.val 0,\n  vanishingRandomEval := "@,
        field::fp_text(recorder.scalars@[fixed_end as int]),
        ",\n  permutationCommonEvals := fun i => capturedPermutationCommonEvals.getD i.val 0,\n  permutationSetEvals := fun p s => capturedPermutationSetEvals.getD (p.val * "@,
        text::decimal(sets),
        " + s.val) { eval := 0, nextEval := 0, lastEval := none },\n  lookupEvals := fun p l => capturedLookupEvals.getD (p.val * "@,
        text::decimal(nl),
        " + l.val) { productEval := 0, productNextEval := 0, permutedInputEval := 0, permutedInputInvEval := 0, permutedTableEval := 0 },\n  multiopenQPrime := "@,
        points::ref_text(t, recorder.points@[quotient_end as int]),
        ",\n  multiopenU := fun s => capturedMultiopenU.getD s.val 0,\n  ipaS := "@,
        points::ref_text(t, recorder.points@[quotient_end + 1int]),
        ",\n  ipaRounds := fun j => capturedIpaRounds.getD j.val (0, 0),\n  ipaC := "@,
        field::fp_text(recorder.scalars@[recorder.scalars@.len() - 2]),
        ",\n  ipaF := "@,
        field::fp_text(recorder.scalars@[recorder.scalars@.len() - 1]),
        " }\n\n"@,
    );
}

/// The proof string in the file reads each list with the width of its rows: the advice columns, the
/// lookups, the permutation sets, the instance queries and the advice queries; and it names the single
/// points and scalars of the proof.
#[verifier::rlimit(30)]
pub proof fn proof_string_is_written(
    key: VerifyingKey,
    lean_namespace: Seq<char>,
    circuit_id: Seq<char>,
    k: u32,
    num_proofs: usize,
    recorder: ChallengeRecorder,
    msm: MSM,
)
    requires
        key.fault(lean_namespace, circuit_id, k, num_proofs, recorder, msm) is None,
    ensures
        ({
            let file = fixture::fixture_text(lean_namespace, circuit_id, capture::capture(&key, k, num_proofs, &recorder, &msm));
            let t = capture::capture(&key, k, num_proofs, &recorder, &msm).table();
            let np = num_proofs as nat;
            let nl = key.cs.lookups@.len();
            let sets = circuit::chunk_count(key.cs.permutation_columns@.len(), (key.cs_degree - 2) as nat);
            let advice_end = np * key.cs.num_advice_columns as nat;
            let permuted_end = advice_end + 2 * (np * nl);
            let product_end = permuted_end + np * sets;
            let lookup_end = product_end + np * nl;
            let quotient_end = lookup_end + 1 + key.quotient_poly_degree as nat;
            let instance_end = np * key.cs.instance_queries@.len();
            let advice_eval_end = instance_end + np * key.cs.advice_queries@.len();
            let fixed_end = advice_eval_end + key.cs.fixed_queries@.len();
            &&& holds(
                file,
                "def ps : ProofString shape Fp G := {\n  adviceCommitments := fun p c => capturedAdviceCommitments.getD (p.val * "@
                    + text::decimal(key.cs.num_advice_columns as nat)
                    + " + c.val) 0,\n  lookupPermutedInput := fun p l => capturedLookupPermutedInput.getD (p.val * "@,
            )
            &&& holds(
                file,
                " + c.val) 0,\n  lookupPermutedInput := fun p l => capturedLookupPermutedInput.getD (p.val * "@
                    + text::decimal(nl)
                    + " + l.val) 0,\n  lookupPermutedTable := fun p l => capturedLookupPermutedTable.getD (p.val * "@,
            )
            &&& holds(
                file,
                " + l.val) 0,\n  lookupPermutedTable := fun p l => capturedLookupPermutedTable.getD (p.val * "@
                    + text::decimal(nl)
                    + " + l.val) 0,\n  permutationProduct := fun p s => capturedPermutationProducts.getD (p.val * "@,
            )
            &&& holds(
                file,
                " + l.val) 0,\n  permutationProduct := fun p s => capturedPermutationProducts.getD (p.val * "@
                    + text::decimal(sets)
                    + " + s.val) 0,\n  lookupProduct := fun p l => capturedLookupProducts.getD (p.val * "@,
            )
            &&& holds(
                file,
                " + s.val) 0,\n  lookupProduct := fun p l => capturedLookupProducts.getD (p.val * "@
                    + text::decimal(nl)
                    + " + l.val) 0,\n  vanishingRandom := "@,
            )
            &&& holds(
                file,
                " + l.val) 0,\n  vanishingRandom := "@
                    + points::ref_text(t, recorder.points@[lookup_end as int])
                    + ",\n  hPieces := fun i => capturedHPieces.getD i.val 0,\n  instanceEvals := fun p q => capturedInstanceEvals.getD (p.val * "@,
            )
            &&& holds(
                file,
                ",\n  hPieces := fun i => capturedHPieces.getD i.val 0,\n  instanceEvals := fun p q => capturedInstanceEvals.getD (p.val * "@
                    + text::decimal(key.cs.instance_queries@.len())
                    + " + q.val) 0,\n  adviceEvals := fun p q => capturedAdviceEvals.getD (p.val * "@,
            )
            &&& holds(
                file,
                " + q.val) 0,\n  adviceEvals := fun p q => capturedAdviceEvals.getD (p.val * "@
                    + text::decimal(key.cs.advice_queries@.len())
                    + " + q.val) 0,\n  fixedEvals := fun q => capturedFixedEvals.getD q.val 0,\n  vanishingRandomEval := "@,
            )
            &&& holds(
                file,
                " + q.val) 0,\n  fixedEvals := fun q => capturedFixedEvals.getD q.val 0,\n  vanishingRandomEval := "@
                    + field::fp_text(recorder.scalars@[fixed_end as int])
                    + ",\n  permutationCommonEvals := fun i => capturedPermutationCommonEvals.getD i.val 0,\n  permutationSetEvals := fun p s => capturedPermutationSetEvals.getD (p.val * "@,
            )
            &&& holds(
                file,
                ",\n  permutationCommonEvals := fun i => capturedPermutationCommonEvals.getD i.val 0,\n  permutationSetEvals := fun p s => capturedPermutationSetEvals.getD (p.val * "@
                    + text::decimal(sets)
                    + " + s.val) { eval := 0, nextEval := 0, lastEval := none },\n  lookupEvals := fun p l => capturedLookupEvals.getD (p.val * "@,
            )
            &&& holds(
                file,
                " + s.val) { eval := 0, nextEval := 0, lastEval := none },\n  lookupEvals := fun p l => capturedLookupEvals.getD (p.val * "@
                    + text::decimal(nl)
                    + " + l.val) { productEval := 0, productNextEval := 0, permutedInputEval := 0, permutedInputInvEval := 0, permutedTableEval := 0 },\n  multiopenQPrime := "@,
            )
            &&& holds(
                file,
                " + l.val) { productEval := 0, productNextEval := 0, permutedInputEval := 0, permutedInputInvEval := 0, permutedTableEval := 0 },\n  multiopenQPrime := "@
                    + points::ref_text(t, recorder.points@[quotient_end as int])
                    + ",\n  multiopenU := fun s => capturedMultiopenU.getD s.val 0,\n  ipaS := "@,
            )
            &&& holds(
                file,
                ",\n  multiopenU := fun s => capturedMultiopenU.getD s.val 0,\n  ipaS := "@
                    + points::ref_text(t, recorder.points@[quotient_end + 1int])
                    + ",\n  ipaRounds := fun j => capturedIpaRounds.getD j.val (0, 0),\n  ipaC := "@,
            )
            &&& holds(
                file,
                ",\n  ipaRounds := fun j => capturedIpaRounds.getD j.val (0, 0),\n  ipaC := "@
                    + field::fp_text(recorder.scalars@[recorder.scalars@.len() - 2])
                    + ",\n  ipaF := "@,
            )
            &&& holds(
                file,
                ",\n  ipaF := "@
                    + field::fp_text(recorder.scalars@[recorder.scalars@.len() - 1])
                    + " }\n\n"@,
            )
        }),
{
    let c = capture::capture(&key, k, num_proofs, &recorder, &msm);
    lemma_sized(key, lean_namespace, circuit_id, k, num_proofs, recorder, msm);
    lemma_has_proof(lean_namespace, circuit_id, c);
    lemma_proof_string_is_written(
        fixture::fixture_text(lean_namespace, circuit_id, capture::capture(&key, k, num_proofs, &recorder, &msm)),
        key, k, num_proofs, recorder, msm,
    );
}

proof fn lemma_challenges_are_written_list(
    key: VerifyingKey,
    k: u32,
    num_proofs: usize,
    recorder: ChallengeRecorder,
    msm: MSM,
)
    requires
        sized(key, k, num_proofs, recorder, msm),
    ensures
        ({
            let c = capture::capture(&key, k, num_proofs, &recorder, &msm);
            let ch = recorder.challenges@;
            field::fp_texts(ch.skip(11))
                == Seq::new(k as nat, |i: int| field::fp_text(ch[11 + i]))
        }),
{
    let c = capture::capture(&key, k, num_proofs, &recorder, &msm);
    let ch = recorder.challenges@;
    refusals::shape_is_that_of_the_key(key, k, num_proofs);
    refusals::blocks_have_the_sizes_of_the_protocol(c.shape);
    schedule::point_blocks_in_order(c.shape);
    schedule::scalar_blocks_in_order(c.shape);
    assert(field::fp_texts(ch.skip(11))
        =~= Seq::new(k as nat, |i: int| field::fp_text(ch[11 + i])));
}

#[verifier::rlimit(30)]
proof fn lemma_challenges_are_written(
    file: Seq<char>,
    key: VerifyingKey,
    k: u32,
    num_proofs: usize,
    recorder: ChallengeRecorder,
    msm: MSM,
)
    requires
        sized(key, k, num_proofs, recorder, msm),
        holds(file, fixture::challenges_text(capture::capture(&key, k, num_proofs, &recorder, &msm).recorder.challenges@)),
    ensures
        ({
            let ch = recorder.challenges@;
            &&& holds(
                file,
                "def ch : Challenges shape.k Fp := {\n  theta := "@
                    + field::fp_text(ch[0])
                    + ", beta := "@,
            )
            &&& holds(
                file,
                ", beta := "@
                    + field::fp_text(ch[1])
                    + ", gamma := "@,
            )
            &&& holds(
                file,
                ", gamma := "@
                    + field::fp_text(ch[2])
                    + ", y := "@,
            )
            &&& holds(
                file,
                ", y := "@
                    + field::fp_text(ch[3])
                    + ", x := "@,
            )
            &&& holds(
                file,
                ", x := "@
                    + field::fp_text(ch[4])
                    + ",\n  x1 := "@,
            )
            &&& holds(
                file,
                ",\n  x1 := "@
                    + field::fp_text(ch[5])
                    + ", x2 := "@,
            )
            &&& holds(
                file,
                ", x2 := "@
                    + field::fp_text(ch[6])
                    + ", x3 := "@,
            )
            &&& holds(
                file,
                ", x3 := "@
                    + field::fp_text(ch[7])
                    + ", x4 := "@,
            )
            &&& holds(
                file,
                ", x4 := "@
                    + field::fp_text(ch[8])
                    + ",\n  xi := "@,
            )
            &&& holds(
                file,
                ",\n  xi := "@
                    + field::fp_text(ch[9])
                    + ", z := "@,
            )
            &&& holds(
                file,
                ", z := "@
                    + field::fp_text(ch[10])
                    + ",\n  ipaRound := fun j => (["@,
            )
            &&& holds(
                file,
                ",\n  ipaRound := fun j => (["@
                    + text::comma_separated(Seq::new(k as nat, |i: int| field::fp_text(ch[11 + i])))
                    + "] : List Fp).getD j.val 0 }\n\n"@,
            )
        }),
{
    let c = capture::capture(&key, k, num_proofs, &recorder, &msm);
    let ch = recorder.challenges@;
    refusals::shape_is_that_of_the_key(key, k, num_proofs);
    refusals::blocks_have_the_sizes_of_the_protocol(c.shape);
    schedule::point_blocks_in_order(c.shape);
    schedule::scalar_blocks_in_order(c.shape);
    lemma_challenges_are_written_list(key, k, num_proofs, recorder, msm);
    lemma_chain_25(
        file,
        "def ch : Challenges shape.k Fp := {\n  theta := "@,
        field::fp_text(ch[0]),
        ", beta := "@,
        field::fp_text(ch[1]),
        ", gamma := "@,
        field::fp_text(ch[2]),
        ", y := "@,
        field::fp_text(ch[3]),
        ", x := "@,
        field::fp_text(ch[4]),
        ",\n  x1 := "@,
        field::fp_text(ch[5]),
        ", x2 := "@,
        field::fp_text(ch[6]),
        ", x3 := "@,
        field::fp_text(ch[7]),
        ", x4 := "@,
        field::fp_text(ch[8]),
        ",\n  xi := "@,
        field::fp_text(ch[9]),
        ", z := "@,
        field::fp_text(ch[10]),
        ",\n  ipaRound := fun j => (["@,
        text::comma_separated(Seq::new(k as nat, |i: int| field::fp_text(ch[11 + i]))),
        "] : List Fp).getD j.val 0 }\n\n"@,
    );
}

/// The challenges in the file are the squeezed ones, in the order of the protocol; those from the
/// twelfth on belong to the rounds of the inner product argument.
#[verifier::rlimit(30)]
pub proof fn challenges_are_written(
    key: VerifyingKey,
    lean_namespace: Seq<char>,
    circuit_id: Seq<char>,
    k: u32,
    num_proofs: usize,
    recorder: ChallengeRecorder,
    msm: MSM,
)
    requires
        key.fault(lean_namespace, circuit_id, k, num_proofs, recorder, msm) is None,
    ensures
        ({
            let file = fixture::fixture_text(lean_namespace, circuit_id, capture::capture(&key, k, num_proofs, &recorder, &msm));
            let ch = recorder.challenges@;
            &&& holds(
                file,
                "def ch : Challenges shape.k Fp := {\n  theta := "@
                    + field::fp_text(ch[0])
                    + ", beta := "@,
            )
            &&& holds(
                file,
                ", beta := "@
                    + field::fp_text(ch[1])
                    + ", gamma := "@,
            )
            &&& holds(
                file,
                ", gamma := "@
                    + field::fp_text(ch[2])
                    + ", y := "@,
            )
            &&& holds(
                file,
                ", y := "@
                    + field::fp_text(ch[3])
                    + ", x := "@,
            )
            &&& holds(
                file,
                ", x := "@
                    + field::fp_text(ch[4])
                    + ",\n  x1 := "@,
            )
            &&& holds(
                file,
                ",\n  x1 := "@
                    + field::fp_text(ch[5])
                    + ", x2 := "@,
            )
            &&& holds(
                file,
                ", x2 := "@
                    + field::fp_text(ch[6])
                    + ", x3 := "@,
            )
            &&& holds(
                file,
                ", x3 := "@
                    + field::fp_text(ch[7])
                    + ", x4 := "@,
            )
            &&& holds(
                file,
                ", x4 := "@
                    + field::fp_text(ch[8])
                    + ",\n  xi := "@,
            )
            &&& holds(
                file,
                ",\n  xi := "@
                    + field::fp_text(ch[9])
                    + ", z := "@,
            )
            &&& holds(
                file,
                ", z := "@
                    + field::fp_text(ch[10])
                    + ",\n  ipaRound := fun j => (["@,
            )
            &&& holds(
                file,
                ",\n  ipaRound := fun j => (["@
                    + text::comma_separated(Seq::new(k as nat, |i: int| field::fp_text(ch[11 + i])))
                    + "] : List Fp).getD j.val 0 }\n\n"@,
            )
        }),
{
    let c = capture::capture(&key, k, num_proofs, &recorder, &msm);
    lemma_sized(key, lean_namespace, circuit_id, k, num_proofs, recorder, msm);
    lemma_has_challenges(lean_namespace, circuit_id, c);
    lemma_challenges_are_written(
        fixture::fixture_text(lean_namespace, circuit_id, capture::capture(&key, k, num_proofs, &recorder, &msm)),
        key, k, num_proofs, recorder, msm,
    );
}

proof fn lemma_msm_is_written_list_0(
    key: VerifyingKey,
    k: u32,
    num_proofs: usize,
    recorder: ChallengeRecorder,
    msm: MSM,
)
    requires
        sized(key, k, num_proofs, recorder, msm),
    ensures
        ({
            let c = capture::capture(&key, k, num_proofs, &recorder, &msm);
            field::fp_texts(msm.g_scalars->0@)
                == Seq::new(pow2(k as nat), |i: int| field::fp_text(msm.g_scalars->0@[i]))
        }),
{
    let c = capture::capture(&key, k, num_proofs, &recorder, &msm);
    refusals::shape_is_that_of_the_key(key, k, num_proofs);
    refusals::blocks_have_the_sizes_of_the_protocol(c.shape);
    schedule::point_blocks_in_order(c.shape);
    schedule::scalar_blocks_in_order(c.shape);
    assert(field::fp_texts(msm.g_scalars->0@)
        =~= Seq::new(pow2(k as nat), |i: int| field::fp_text(msm.g_scalars->0@[i])));
}

proof fn lemma_msm_is_written_list_1(
    key: VerifyingKey,
    k: u32,
    num_proofs: usize,
    recorder: ChallengeRecorder,
    msm: MSM,
)
    requires
        sized(key, k, num_proofs, recorder, msm),
    ensures
        ({
            let c = capture::capture(&key, k, num_proofs, &recorder, &msm);
            let t = capture::capture(&key, k, num_proofs, &recorder, &msm).table();
            fixture::term_texts(msm, t)
                == Seq::new(msm.other@.len(), |i: int| "("@ + field::fp_text(msm.other@[i].0)
                    + ", "@
                    + points::ref_text(t, EqAffine::at(msm.other@[i].1, msm.other@[i].2))
                    + ")"@)
        }),
{
    let c = capture::capture(&key, k, num_proofs, &recorder, &msm);
    let t = capture::capture(&key, k, num_proofs, &recorder, &msm).table();
    refusals::shape_is_that_of_the_key(key, k, num_proofs);
    refusals::blocks_have_the_sizes_of_the_protocol(c.shape);
    schedule::point_blocks_in_order(c.shape);
    schedule::scalar_blocks_in_order(c.shape);
    assert(fixture::term_texts(msm, t)
        =~= Seq::new(msm.other@.len(), |i: int| "("@ + field::fp_text(msm.other@[i].0) + ", "@
            + points::ref_text(t, EqAffine::at(msm.other@[i].1, msm.other@[i].2)) + ")"@));
}

#[verifier::rlimit(30)]
proof fn lemma_msm_is_written(
    file: Seq<char>,
    key: VerifyingKey,
    k: u32,
    num_proofs: usize,
    recorder: ChallengeRecorder,
    msm: MSM,
)
    requires
        sized(key, k, num_proofs, recorder, msm),
        holds(file, fixture::msm_text(*capture::capture(&key, k, num_proofs, &recorder, &msm).msm, capture::capture(&key, k, num_proofs, &recorder, &msm).table())),
    ensures
        ({
            let t = capture::capture(&key, k, num_proofs, &recorder, &msm).table();
            &&& holds(
                file,
                "def capturedMsm : Msm shape.k Fp G := {\n  gScalars := fun i => (#["@
                    + text::comma_separated(Seq::new(pow2(k as nat),
                        |i: int| field::fp_text(msm.g_scalars->0@[i])))
                    + "] : Array Fp)[i.val]!,\n  wScalar := "@,
            )
            &&& holds(
                file,
                "] : Array Fp)[i.val]!,\n  wScalar := "@
                    + field::fp_text(msm.w_scalar->0)
                    + ",\n  uScalar := "@,
            )
            &&& holds(
                file,
                ",\n  uScalar := "@
                    + field::fp_text(msm.u_scalar->0)
                    + ",\n  other := ["@,
            )
            &&& holds(
                file,
                ",\n  other := ["@
                    + text::comma_separated(Seq::new(msm.other@.len(), |i: int| "("@
                        + field::fp_text(msm.other@[i].0) + ", "@
                        + points::ref_text(t, EqAffine::at(msm.other@[i].1, msm.other@[i].2))
                        + ")"@))
                    + "] }\n\n"@,
            )
        }),
{
    let c = capture::capture(&key, k, num_proofs, &recorder, &msm);
    let t = capture::capture(&key, k, num_proofs, &recorder, &msm).table();
    refusals::shape_is_that_of_the_key(key, k, num_proofs);
    refusals::blocks_have_the_sizes_of_the_protocol(c.shape);
    schedule::point_blocks_in_order(c.shape);
    schedule::scalar_blocks_in_order(c.shape);
    lemma_msm_is_written_list_0(key, k, num_proofs, recorder, msm);
    lemma_msm_is_written_list_1(key, k, num_proofs, recorder, msm);
    lemma_chain_9(
        file,
        "def capturedMsm : Msm shape.k Fp G := {\n  gScalars := fun i => (#["@,
        text::comma_separated(Seq::new(pow2(k as nat),
            |i: int| field::fp_text(msm.g_scalars->0@[i]))),
        "] : Array Fp)[i.val]!,\n  wScalar := "@,
        field::fp_text(msm.w_scalar->0),
        ",\n  uScalar := "@,
        field::fp_text(msm.u_scalar->0),
        ",\n  other := ["@,
        text::comma_separated(Seq::new(msm.other@.len(), |i: int| "("@
            + field::fp_text(msm.other@[i].0) + ", "@
            + points::ref_text(t, EqAffine::at(msm.other@[i].1, msm.other@[i].2)) + ")"@)),
        "] }\n\n"@,
    );
}

/// The captured multi-scalar multiplication in the file has the coefficients of all generators in
/// order, those of the two further generators, and every further term with its own base.
#[verifier::rlimit(30)]
pub proof fn msm_is_written(
    key: VerifyingKey,
    lean_namespace: Seq<char>,
    circuit_id: Seq<char>,
    k: u32,
    num_proofs: usize,
    recorder: ChallengeRecorder,
    msm: MSM,
)
    requires
        key.fault(lean_namespace, circuit_id, k, num_proofs, recorder, msm) is None,
    ensures
        ({
            let file = fixture::fixture_text(lean_namespace, circuit_id, capture::capture(&key, k, num_proofs, &recorder, &msm));
            let t = capture::capture(&key, k, num_proofs, &recorder, &msm).table();
            &&& holds(
                file,
                "def capturedMsm : Msm shape.k Fp G := {\n  gScalars := fun i => (#["@
                    + text::comma_separated(Seq::new(pow2(k as nat),
                        |i: int| field::fp_text(msm.g_scalars->0@[i])))
                    + "] : Array Fp)[i.val]!,\n  wScalar := "@,
            )
            &&& holds(
                file,
                "] : Array Fp)[i.val]!,\n  wScalar := "@
                    + field::fp_text(msm.w_scalar->0)
                    + ",\n  uScalar := "@,
            )
            &&& holds(
                file,
                ",\n  uScalar := "@
                    + field::fp_text(msm.u_scalar->0)
                    + ",\n  other := ["@,
            )
            &&& holds(
                file,
                ",\n  other := ["@
                    + text::comma_separated(Seq::new(msm.other@.len(), |i: int| "("@
                        + field::fp_text(msm.other@[i].0) + ", "@
                        + points::ref_text(t, EqAffine::at(msm.other@[i].1, msm.other@[i].2))
                        + ")"@))
                    + "] }\n\n"@,
            )
        }),
{
    let c = capture::capture(&key, k, num_proofs, &recorder, &msm);
    lemma_sized(key, lean_namespace, circuit_id, k, num_proofs, recorder, msm);
    lemma_has_msm(lean_namespace, circuit_id, c);
    lemma_msm_is_written(
        fixture::fixture_text(lean_namespace, circuit_id, capture::capture(&key, k, num_proofs, &recorder, &msm)),
        key, k, num_proofs, recorder, msm,
    );
}

#[verifier::rlimit(30)]
proof fn lemma_theorems_are_written(
    file: Seq<char>,
    key: VerifyingKey,
    k: u32,
    num_proofs: usize,
    recorder: ChallengeRecorder,
    msm: MSM,
    lean_namespace: Seq<char>,
    circuit_id: Seq<char>,
)
    requires
        sized(key, k, num_proofs, recorder, msm),
        holds(file, fixture::theorems_text(lean_namespace)),
    ensures
        ({
            &&& holds(
                file,
                "theorem fingerprint_matches : MsmMatch (assemble vk ps ch) capturedMsm := by native_decide\n\ntheorem capturedMsm_eval_eq_zero : capturedMsm.evalNat capturedURS = 0 := by native_decide\n\n/-- Meaningful jointly with `fingerprint_matches`: `assemble`'s zero-MSM rejection\nfallback also evaluates to zero, so this statement alone is not acceptance. -/\ntheorem assembledMsm_eval_eq_zero : (assemble vk ps ch).evalNat capturedURS = 0 := by\n  rw [msmMatch_evalNat capturedURS fingerprint_matches]\n  exact capturedMsm_eval_eq_zero\n\nend "@
                    + lean_namespace
                    + "\n"@,
            )
        }),
{
    let c = capture::capture(&key, k, num_proofs, &recorder, &msm);
    lemma_chain_3(
        file,
        "theorem fingerprint_matches : MsmMatch (assemble vk ps ch) capturedMsm := by native_decide\n\ntheorem capturedMsm_eval_eq_zero : capturedMsm.evalNat capturedURS = 0 := by native_decide\n\n/-- Meaningful jointly with `fingerprint_matches`: `assemble`'s zero-MSM rejection\nfallback also evaluates to zero, so this statement alone is not acceptance. -/\ntheorem assembledMsm_eval_eq_zero : (assemble vk ps ch).evalNat capturedURS = 0 := by\n  rw [msmMatch_evalNat capturedURS fingerprint_matches]\n  exact capturedMsm_eval_eq_zero\n\nend "@,
        lean_namespace,
        "\n"@,
    );
}

/// The file ends with the three theorems and closes the namespace that it opened.
#[verifier::rlimit(30)]
pub proof fn theorems_are_written(
    key: VerifyingKey,
    lean_namespace: Seq<char>,
    circuit_id: Seq<char>,
    k: u32,
    num_proofs: usize,
    recorder: ChallengeRecorder,
    msm: MSM,
)
    requires
        key.fault(lean_namespace, circuit_id, k, num_proofs, recorder, msm) is None,
    ensures
        ({
            let file = fixture::fixture_text(lean_namespace, circuit_id, capture::capture(&key, k, num_proofs, &recorder, &msm));
            &&& holds(
                file,
                "theorem fingerprint_matches : MsmMatch (assemble vk ps ch) capturedMsm := by native_decide\n\ntheorem capturedMsm_eval_eq_zero : capturedMsm.evalNat capturedURS = 0 := by native_decide\n\n/-- Meaningful jointly with `fingerprint_matches`: `assemble`'s zero-MSM rejection\nfallback also evaluates to zero, so this statement alone is not acceptance. -/\ntheorem assembledMsm_eval_eq_zero : (assemble vk ps ch).evalNat capturedURS = 0 := by\n  rw [msmMatch_evalNat capturedURS fingerprint_matches]\n  exact capturedMsm_eval_eq_zero\n\nend "@
                    + lean_namespace
                    + "\n"@,
            )
        }),
{
    let c = capture::capture(&key, k, num_proofs, &recorder, &msm);
    lemma_sized(key, lean_namespace, circuit_id, k, num_proofs, recorder, msm);
    lemma_has_theorems(lean_namespace, circuit_id, c);
    lemma_theorems_are_written(
        fixture::fixture_text(lean_namespace, circuit_id, capture::capture(&key, k, num_proofs, &recorder, &msm)),
        key, k, num_proofs, recorder, msm, lean_namespace, circuit_id,
    );
}

proof fn lemma_point_rows_are_read_0(
    file: Seq<char>,
    key: VerifyingKey,
    k: u32,
    num_proofs: usize,
    recorder: ChallengeRecorder,
    msm: MSM,
)
    requires
        sized(key, k, num_proofs, recorder, msm),
        holds(file, fixture::proof_points_text(capture::capture(&key, k, num_proofs, &recorder, &msm), capture::capture(&key, k, num_proofs, &recorder, &msm).table())),
        holds(file, fixture::proof_text(capture::capture(&key, k, num_proofs, &recorder, &msm), capture::capture(&key, k, num_proofs, &recorder, &msm).table())),
    ensures
        ({
            let t = capture::capture(&key, k, num_proofs, &recorder, &msm).table();
            let np = num_proofs as nat;
            let advice_end = np * key.cs.num_advice_columns as nat;
            rows_are_read(
                file,
                "def capturedAdviceCommitments : List G := ["@,
                "]\n\n"@,
                "def ps : ProofString shape Fp G := {\n  adviceCommitments := fun p c => capturedAdviceCommitments.getD (p.val * "@,
                " + c.val) 0,\n  lookupPermutedInput := fun p l => capturedLookupPermutedInput.getD (p.val * "@,
                Seq::new(advice_end, |i: int| points::ref_text(t, recorder.points@[i])),
                np,
                key.cs.num_advice_columns as nat,
                |p: nat, i: nat| points::ref_text(t, recorder.points@[(p * (key.cs.num_advice_columns as nat)
                    + i) as int]),
            )
        }),
{
    let t = capture::capture(&key, k, num_proofs, &recorder, &msm).table();
    let np = num_proofs as nat;
    let advice_end = np * key.cs.num_advice_columns as nat;
    lemma_proof_points_are_written(file, key, k, num_proofs, recorder, msm);
    lemma_proof_string_is_written(file, key, k, num_proofs, recorder, msm);
    lemma_rows_are_read(
                file,
                "def capturedAdviceCommitments : List G := ["@,
                "]\n\n"@,
                "def ps : ProofString shape Fp G := {\n  adviceCommitments := fun p c => capturedAdviceCommitments.getD (p.val * "@,
                " + c.val) 0,\n  lookupPermutedInput := fun p l => capturedLookupPermutedInput.getD (p.val * "@,
                Seq::new(advice_end, |i: int| points::ref_text(t, recorder.points@[i])),
                np,
                key.cs.num_advice_columns as nat,
                |p: nat, i: nat| points::ref_text(t, recorder.points@[(p * (key.cs.num_advice_columns as nat)
                    + i) as int]),
    );
}

proof fn lemma_point_rows_are_read_1(
    file: Seq<char>,
    key: VerifyingKey,
    k: u32,
    num_proofs: usize,
    recorder: ChallengeRecorder,
    msm: MSM,
)
    requires
        sized(key, k, num_proofs, recorder, msm),
        holds(file, fixture::proof_points_text(capture::capture(&key, k, num_proofs, &recorder, &msm), capture::capture(&key, k, num_proofs, &recorder, &msm).table())),
        holds(file, fixture::proof_text(capture::capture(&key, k, num_proofs, &recorder, &msm), capture::capture(&key, k, num_proofs, &recorder, &msm).table())),
    ensures
        ({
            let t = capture::capture(&key, k, num_proofs, &recorder, &msm).table();
            let np = num_proofs as nat;
            let nl = key.cs.lookups@.len();
            let advice_end = np * key.cs.num_advice_columns as nat;
            rows_are_read(
                file,
                "def capturedLookupPermutedInput : List G := ["@,
                "]\n\n"@,
                " + c.val) 0,\n  lookupPermutedInput := fun p l => capturedLookupPermutedInput.getD (p.val * "@,
                " + l.val) 0,\n  lookupPermutedTable := fun p l => capturedLookupPermutedTable.getD (p.val * "@,
                Seq::new(np * nl, |i: int| points::ref_text(t, recorder.points@[advice_end
                    + 2 * i])),
                np,
                nl,
                |p: nat, i: nat| points::ref_text(t, recorder.points@[(advice_end + 2 * (p * nl
                    + i)) as int]),
            )
        }),
{
    let t = capture::capture(&key, k, num_proofs, &recorder, &msm).table();
    let np = num_proofs as nat;
    let nl = key.cs.lookups@.len();
    let advice_end = np * key.cs.num_advice_columns as nat;
    lemma_proof_points_are_written(file, key, k, num_proofs, recorder, msm);
    lemma_proof_string_is_written(file, key, k, num_proofs, recorder, msm);
    lemma_rows_are_read(
                file,
                "def capturedLookupPermutedInput : List G := ["@,
                "]\n\n"@,
                " + c.val) 0,\n  lookupPermutedInput := fun p l => capturedLookupPermutedInput.getD (p.val * "@,
                " + l.val) 0,\n  lookupPermutedTable := fun p l => capturedLookupPermutedTable.getD (p.val * "@,
                Seq::new(np * nl, |i: int| points::ref_text(t, recorder.points@[advice_end
                    + 2 * i])),
                np,
                nl,
                |p: nat, i: nat| points::ref_text(t, recorder.points@[(advice_end + 2 * (p * nl
                    + i)) as int]),
    );
}

proof fn lemma_point_rows_are_read_2(
    file: Seq<char>,
    key: VerifyingKey,
    k: u32,
    num_proofs: usize,
    recorder: ChallengeRecorder,
    msm: MSM,
)
    requires
        sized(key, k, num_proofs, recorder, msm),
        holds(file, fixture::proof_points_text(capture::capture(&key, k, num_proofs, &recorder, &msm), capture::capture(&key, k, num_proofs, &recorder, &msm).table())),
        holds(file, fixture::proof_text(capture::capture(&key, k, num_proofs, &recorder, &msm), capture::capture(&key, k, num_proofs, &recorder, &msm).table())),
    ensures
        ({
            let t = capture::capture(&key, k, num_proofs, &recorder, &msm).table();
            let np = num_proofs as nat;
            let nl = key.cs.lookups@.len();
            let advice_end = np * key.cs.num_advice_columns as nat;
            rows_are_read(
                file,
                "def capturedLookupPermutedTable : List G := ["@,
                "]\n\n"@,
                " + l.val) 0,\n  lookupPermutedTable := fun p l => capturedLookupPermutedTable.getD (p.val * "@,
                " + l.val) 0,\n  permutationProduct := fun p s => capturedPermutationProducts.getD (p.val * "@,
                Seq::new(np * nl, |i: int| points::ref_text(t, recorder.points@[advice_end
                    + 2 * i + 1])),
                np,
                nl,
                |p: nat, i: nat| points::ref_text(t, recorder.points@[(advice_end + 2 * (p * nl
                    + i) + 1) as int]),
            )
        }),
{
    let t = capture::capture(&key, k, num_proofs, &recorder, &msm).table();
    let np = num_proofs as nat;
    let nl = key.cs.lookups@.len();
    let advice_end = np * key.cs.num_advice_columns as nat;
    lemma_proof_points_are_written(file, key, k, num_proofs, recorder, msm);
    lemma_proof_string_is_written(file, key, k, num_proofs, recorder, msm);
    lemma_rows_are_read(
                file,
                "def capturedLookupPermutedTable : List G := ["@,
                "]\n\n"@,
                " + l.val) 0,\n  lookupPermutedTable := fun p l => capturedLookupPermutedTable.getD (p.val * "@,
                " + l.val) 0,\n  permutationProduct := fun p s => capturedPermutationProducts.getD (p.val * "@,
                Seq::new(np * nl, |i: int| points::ref_text(t, recorder.points@[advice_end
                    + 2 * i + 1])),
                np,
                nl,
                |p: nat, i: nat| points::ref_text(t, recorder.points@[(advice_end + 2 * (p * nl
                    + i) + 1) as int]),
    );
}

proof fn lemma_point_rows_are_read_3(
    file: Seq<char>,
    key: VerifyingKey,
    k: u32,
    num_proofs: usize,
    recorder: ChallengeRecorder,
    msm: MSM,
)
    requires
        sized(key, k, num_proofs, recorder, msm),
        holds(file, fixture::proof_points_text(capture::capture(&key, k, num_proofs, &recorder, &msm), capture::capture(&key, k, num_proofs, &recorder, &msm).table())),
        holds(file, fixture::proof_text(capture::capture(&key, k, num_proofs, &recorder, &msm), capture::capture(&key, k, num_proofs, &recorder, &msm).table())),
    ensures
        ({
            let t = capture::capture(&key, k, num_proofs, &recorder, &msm).table();
            let np = num_proofs as nat;
            let nl = key.cs.lookups@.len();
            let sets = circuit::chunk_count(key.cs.permutation_columns@.len(), (key.cs_degree - 2) as nat);
            let advice_end = np * key.cs.num_advice_columns as nat;
            let permuted_end = advice_end + 2 * (np * nl);
            rows_are_read(
                file,
                "def capturedPermutationProducts : List G := ["@,
                "]\n\n"@,
                " + l.val) 0,\n  permutationProduct := fun p s => capturedPermutationProducts.getD (p.val * "@,
                " + s.val) 0,\n  lookupProduct := fun p l => capturedLookupProducts.getD (p.val * "@,
                Seq::new(np * sets, |i: int| points::ref_text(t, recorder.points@[permuted_end
                    + i])),
                np,
                sets,
                |p: nat, i: nat| points::ref_text(t, recorder.points@[(permuted_end + (p * sets
                    + i)) as int]),
            )
        }),
{
    let t = capture::capture(&key, k, num_proofs, &recorder, &msm).table();
    let np = num_proofs as nat;
    let nl = key.cs.lookups@.len();
    let sets = circuit::chunk_count(key.cs.permutation_columns@.len(), (key.cs_degree - 2) as nat);
    let advice_end = np * key.cs.num_advice_columns as nat;
    let permuted_end = advice_end + 2 * (np * nl);
    lemma_proof_points_are_written(file, key, k, num_proofs, recorder, msm);
    lemma_proof_string_is_written(file, key, k, num_proofs, recorder, msm);
    lemma_rows_are_read(
                file,
                "def capturedPermutationProducts : List G := ["@,
                "]\n\n"@,
                " + l.val) 0,\n  permutationProduct := fun p s => capturedPermutationProducts.getD (p.val * "@,
                " + s.val) 0,\n  lookupProduct := fun p l => capturedLookupProducts.getD (p.val * "@,
                Seq::new(np * sets, |i: int| points::ref_text(t, recorder.points@[permuted_end
                    + i])),
                np,
                sets,
                |p: nat, i: nat| points::ref_text(t, recorder.points@[(permuted_end + (p * sets
                    + i)) as int]),
    );
}

proof fn lemma_point_rows_are_read_4(
    file: Seq<char>,
    key: VerifyingKey,
    k: u32,
    num_proofs: usize,
    recorder: ChallengeRecorder,
    msm: MSM,
)
    requires
        sized(key, k, num_proofs, recorder, msm),
        holds(file, fixture::proof_points_text(capture::capture(&key, k, num_proofs, &recorder, &msm), capture::capture(&key, k, num_proofs, &recorder, &msm).table())),
        holds(file, fixture::proof_text(capture::capture(&key, k, num_proofs, &recorder, &msm), capture::capture(&key, k, num_proofs, &recorder, &msm).table())),
    ensures
        ({
            let t = capture::capture(&key, k, num_proofs, &recorder, &msm).table();
            let np = num_proofs as nat;
            let nl = key.cs.lookups@.len();
            let sets = circuit::chunk_count(key.cs.permutation_columns@.len(), (key.cs_degree - 2) as nat);
            let advice_end = np * key.cs.num_advice_columns as nat;
            let permuted_end = advice_end + 2 * (np * nl);
            let product_end = permuted_end + np * sets;
            rows_are_read(
                file,
                "def capturedLookupProducts : List G := ["@,
                "]\n\n"@,
                " + s.val) 0,\n  lookupProduct := fun p l => capturedLookupProducts.getD (p.val * "@,
                " + l.val) 0,\n  vanishingRandom := "@,
                Seq::new(np * nl, |i: int| points::ref_text(t, recorder.points@[product_end + i])),
                np,
                nl,
                |p: nat, i: nat| points::ref_text(t, recorder.points@[(product_end + (p * nl
                    + i)) as int]),
            )
        }),
{
    let t = capture::capture(&key, k, num_proofs, &recorder, &msm).table();
    let np = num_proofs as nat;
    let nl = key.cs.lookups@.len();
    let sets = circuit::chunk_count(key.cs.permutation_columns@.len(), (key.cs_degree - 2) as nat);
    let advice_end = np * key.cs.num_advice_columns as nat;
    let permuted_end = advice_end + 2 * (np * nl);
    let product_end = permuted_end + np * sets;
    lemma_proof_points_are_written(file, key, k, num_proofs, recorder, msm);
    lemma_proof_string_is_written(file, key, k, num_proofs, recorder, msm);
    lemma_rows_are_read(
                file,
                "def capturedLookupProducts : List G := ["@,
                "]\n\n"@,
                " + s.val) 0,\n  lookupProduct := fun p l => capturedLookupProducts.getD (p.val * "@,
                " + l.val) 0,\n  vanishingRandom := "@,
                Seq::new(np * nl, |i: int| points::ref_text(t, recorder.points@[product_end + i])),
                np,
                nl,
                |p: nat, i: nat| points::ref_text(t, recorder.points@[(product_end + (p * nl
                    + i)) as int]),
    );
}

/// The proof string reads the point lists by rows: the entry of a proof and a column, lookup or
/// permutation set is the point that was read for it.
#[verifier::rlimit(30)]
pub proof fn point_rows_are_read(
    key: VerifyingKey,
    lean_namespace: Seq<char>,
    circuit_id: Seq<char>,
    k: u32,
    num_proofs: usize,
    recorder: ChallengeRecorder,
    msm: MSM,
)
    requires
        key.fault(lean_namespace, circuit_id, k, num_proofs, recorder, msm) is None,
    ensures
        ({
            let file = fixture::fixture_text(lean_namespace, circuit_id, capture::capture(&key, k, num_proofs, &recorder, &msm));
            let t = capture::capture(&key, k, num_proofs, &recorder, &msm).table();
            let np = num_proofs as nat;
            let nl = key.cs.lookups@.len();
            let sets = circuit::chunk_count(key.cs.permutation_columns@.len(), (key.cs_degree - 2) as nat);
            let advice_end = np * key.cs.num_advice_columns as nat;
            let permuted_end = advice_end + 2 * (np * nl);
            let product_end = permuted_end + np * sets;
            &&& rows_are_read(
                file,
                "def capturedAdviceCommitments : List G := ["@,
                "]\n\n"@,
                "def ps : ProofString shape Fp G := {\n  adviceCommitments := fun p c => capturedAdviceCommitments.getD (p.val * "@,
                " + c.val) 0,\n  lookupPermutedInput := fun p l => capturedLookupPermutedInput.getD (p.val * "@,
                Seq::new(advice_end, |i: int| points::ref_text(t, recorder.points@[i])),
                np,
                key.cs.num_advice_columns as nat,
                |p: nat, i: nat| points::ref_text(t, recorder.points@[(p * (key.cs.num_advice_columns as nat)
                    + i) as int]),
            )
            &&& rows_are_read(
                file,
                "def capturedLookupPermutedInput : List G := ["@,
                "]\n\n"@,
                " + c.val) 0,\n  lookupPermutedInput := fun p l => capturedLookupPermutedInput.getD (p.val * "@,
                " + l.val) 0,\n  lookupPermutedTable := fun p l => capturedLookupPermutedTable.getD (p.val * "@,
                Seq::new(np * nl, |i: int| points::ref_text(t, recorder.points@[advice_end
                    + 2 * i])),
                np,
                nl,
                |p: nat, i: nat| points::ref_text(t, recorder.points@[(advice_end + 2 * (p * nl
                    + i)) as int]),
            )
            &&& rows_are_read(
                file,
                "def capturedLookupPermutedTable : List G := ["@,
                "]\n\n"@,
                " + l.val) 0,\n  lookupPermutedTable := fun p l => capturedLookupPermutedTable.getD (p.val * "@,
                " + l.val) 0,\n  permutationProduct := fun p s => capturedPermutationProducts.getD (p.val * "@,
                Seq::new(np * nl, |i: int| points::ref_text(t, recorder.points@[advice_end
                    + 2 * i + 1])),
                np,
                nl,
                |p: nat, i: nat| points::ref_text(t, recorder.points@[(advice_end + 2 * (p * nl
                    + i) + 1) as int]),
            )
            &&& rows_are_read(
                file,
                "def capturedPermutationProducts : List G := ["@,
                "]\n\n"@,
                " + l.val) 0,\n  permutationProduct := fun p s => capturedPermutationProducts.getD (p.val * "@,
                " + s.val) 0,\n  lookupProduct := fun p l => capturedLookupProducts.getD (p.val * "@,
                Seq::new(np * sets, |i: int| points::ref_text(t, recorder.points@[permuted_end
                    + i])),
                np,
                sets,
                |p: nat, i: nat| points::ref_text(t, recorder.points@[(permuted_end + (p * sets
                    + i)) as int]),
            )
            &&& rows_are_read(
                file,
                "def capturedLookupProducts : List G := ["@,
                "]\n\n"@,
                " + s.val) 0,\n  lookupProduct := fun p l => capturedLookupProducts.getD (p.val * "@,
                " + l.val) 0,\n  vanishingRandom := "@,
                Seq::new(np * nl, |i: int| points::ref_text(t, recorder.points@[product_end + i])),
                np,
                nl,
                |p: nat, i: nat| points::ref_text(t, recorder.points@[(product_end + (p * nl
                    + i)) as int]),
            )
        }),
{
    let c = capture::capture(&key, k, num_proofs, &recorder, &msm);
    lemma_sized(key, lean_namespace, circuit_id, k, num_proofs, recorder, msm);
    lemma_has_proof_points(lean_namespace, circuit_id, c);
    lemma_has_proof(lean_namespace, circuit_id, c);
    lemma_point_rows_are_read_0(
        fixture::fixture_text(lean_namespace, circuit_id, capture::capture(&key, k, num_proofs, &recorder, &msm)),
        key, k, num_proofs, recorder, msm,
    );
    lemma_point_rows_are_read_1(
        fixture::fixture_text(lean_namespace, circuit_id, capture::capture(&key, k, num_proofs, &recorder, &msm)),
        key, k, num_proofs, recorder, msm,
    );
    lemma_point_rows_are_read_2(
        fixture::fixture_text(lean_namespace, circuit_id, capture::capture(&key, k, num_proofs, &recorder, &msm)),
        key, k, num_proofs, recorder, msm,
    );
    lemma_point_rows_are_read_3(
        fixture::fixture_text(lean_namespace, circuit_id, capture::capture(&key, k, num_proofs, &recorder, &msm)),
        key, k, num_proofs, recorder, msm,
    );
    lemma_point_rows_are_read_4(
        fixture::fixture_text(lean_namespace, circuit_id, capture::capture(&key, k, num_proofs, &recorder, &msm)),
        key, k, num_proofs, recorder, msm,
    );
}

proof fn lemma_column_eval_rows_are_read_0(
    file: Seq<char>,
    key: VerifyingKey,
    k: u32,
    num_proofs: usize,
    recorder: ChallengeRecorder,
    msm: MSM,
)
    requires
        sized(key, k, num_proofs, recorder, msm),
        holds(file, fixture::column_evals_text(capture::capture(&key, k, num_proofs, &recorder, &msm))),
        holds(file, fixture::proof_text(capture::capture(&key, k, num_proofs, &recorder, &msm), capture::capture(&key, k, num_proofs, &recorder, &msm).table())),
    ensures
        ({
            let np = num_proofs as nat;
            let instance_end = np * key.cs.instance_queries@.len();
            rows_are_read(
                file,
                "def capturedInstanceEvals : List Fp := ["@,
                "]\n\n"@,
                ",\n  hPieces := fun i => capturedHPieces.getD i.val 0,\n  instanceEvals := fun p q => capturedInstanceEvals.getD (p.val * "@,
                " + q.val) 0,\n  adviceEvals := fun p q => capturedAdviceEvals.getD (p.val * "@,
                Seq::new(instance_end, |i: int| field::fp_text(recorder.scalars@[i])),
                np,
                key.cs.instance_queries@.len(),
                |p: nat, i: nat| field::fp_text(recorder.scalars@[(p * key.cs.instance_queries@.len()
                    + i) as int]),
            )
        }),
{
    let np = num_proofs as nat;
    let instance_end = np * key.cs.instance_queries@.len();
    lemma_column_evals_are_written(file, key, k, num_proofs, recorder, msm);
    lemma_proof_string_is_written(file, key, k, num_proofs, recorder, msm);
    lemma_rows_are_read(
                file,
                "def capturedInstanceEvals : List Fp := ["@,
                "]\n\n"@,
                ",\n  hPieces := fun i => capturedHPieces.getD i.val 0,\n  instanceEvals := fun p q => capturedInstanceEvals.getD (p.val * "@,
                " + q.val) 0,\n  adviceEvals := fun p q => capturedAdviceEvals.getD (p.val * "@,
                Seq::new(instance_end, |i: int| field::fp_text(recorder.scalars@[i])),
                np,
                key.cs.instance_queries@.len(),
                |p: nat, i: nat| field::fp_text(recorder.scalars@[(p * key.cs.instance_queries@.len()
                    + i) as int]),
    );
}

proof fn lemma_column_eval_rows_are_read_1(
    file: Seq<char>,
    key: VerifyingKey,
    k: u32,
    num_proofs: usize,
    recorder: ChallengeRecorder,
    msm: MSM,
)
    requires
        sized(key, k, num_proofs, recorder, msm),
        holds(file, fixture::column_evals_text(capture::capture(&key, k, num_proofs, &recorder, &msm))),
        holds(file, fixture::proof_text(capture::capture(&key, k, num_proofs, &recorder, &msm), capture::capture(&key, k, num_proofs, &recorder, &msm).table())),
    ensures
        ({
            let np = num_proofs as nat;
            let instance_end = np * key.cs.instance_queries@.len();
            rows_are_read(
                file,
                "def capturedAdviceEvals : List Fp := ["@,
                "]\n\n"@,
                " + q.val) 0,\n  adviceEvals := fun p q => capturedAdviceEvals.getD (p.val * "@,
                " + q.val) 0,\n  fixedEvals := fun q => capturedFixedEvals.getD q.val 0,\n  vanishingRandomEval := "@,
                Seq::new(np * key.cs.advice_queries@.len(),
                    |i: int| field::fp_text(recorder.scalars@[instance_end + i])),
                np,
                key.cs.advice_queries@.len(),
                |p: nat, i: nat| field::fp_text(recorder.scalars@[(instance_end
                    + (p * key.cs.advice_queries@.len() + i)) as int]),
            )
        }),
{
    let np = num_proofs as nat;
    let instance_end = np * key.cs.instance_queries@.len();
    lemma_column_evals_are_written(file, key, k, num_proofs, recorder, msm);
    lemma_proof_string_is_written(file, key, k, num_proofs, recorder, msm);
    lemma_rows_are_read(
                file,
                "def capturedAdviceEvals : List Fp := ["@,
                "]\n\n"@,
                " + q.val) 0,\n  adviceEvals := fun p q => capturedAdviceEvals.getD (p.val * "@,
                " + q.val) 0,\n  fixedEvals := fun q => capturedFixedEvals.getD q.val 0,\n  vanishingRandomEval := "@,
                Seq::new(np * key.cs.advice_queries@.len(),
                    |i: int| field::fp_text(recorder.scalars@[instance_end + i])),
                np,
                key.cs.advice_queries@.len(),
                |p: nat, i: nat| field::fp_text(recorder.scalars@[(instance_end
                    + (p * key.cs.advice_queries@.len() + i)) as int]),
    );
}

/// The proof string reads the column evaluations by rows: the entry of a proof and a query is the
/// evaluation that was read for this query of this proof.
#[verifier::rlimit(30)]
pub proof fn column_eval_rows_are_read(
    key: VerifyingKey,
    lean_namespace: Seq<char>,
    circuit_id: Seq<char>,
    k: u32,
    num_proofs: usize,
    recorder: ChallengeRecorder,
    msm: MSM,
)
    requires
        key.fault(lean_namespace, circuit_id, k, num_proofs, recorder, msm) is None,
    ensures
        ({
            let file = fixture::fixture_text(lean_namespace, circuit_id, capture::capture(&key, k, num_proofs, &recorder, &msm));
            let np = num_proofs as nat;
            let instance_end = np * key.cs.instance_queries@.len();
            &&& rows_are_read(
                file,
                "def capturedInstanceEvals : List Fp := ["@,
                "]\n\n"@,
                ",\n  hPieces := fun i => capturedHPieces.getD i.val 0,\n  instanceEvals := fun p q => capturedInstanceEvals.getD (p.val * "@,
                " + q.val) 0,\n  adviceEvals := fun p q => capturedAdviceEvals.getD (p.val * "@,
                Seq::new(instance_end, |i: int| field::fp_text(recorder.scalars@[i])),
                np,
                key.cs.instance_queries@.len(),
                |p: nat, i: nat| field::fp_text(recorder.scalars@[(p * key.cs.instance_queries@.len()
                    + i) as int]),
            )
            &&& rows_are_read(
                file,
                "def capturedAdviceEvals : List Fp := ["@,
                "]\n\n"@,
                " + q.val) 0,\n  adviceEvals := fun p q => capturedAdviceEvals.getD (p.val * "@,
                " + q.val) 0,\n  fixedEvals := fun q => capturedFixedEvals.getD q.val 0,\n  vanishingRandomEval := "@,
                Seq::new(np * key.cs.advice_queries@.len(),
                    |i: int| field::fp_text(recorder.scalars@[instance_end + i])),
                np,
                key.cs.advice_queries@.len(),
                |p: nat, i: nat| field::fp_text(recorder.scalars@[(instance_end
                    + (p * key.cs.advice_queries@.len() + i)) as int]),
            )
        }),
{
    let c = capture::capture(&key, k, num_proofs, &recorder, &msm);
    lemma_sized(key, lean_namespace, circuit_id, k, num_proofs, recorder, msm);
    lemma_has_column_evals(lean_namespace, circuit_id, c);
    lemma_has_proof(lean_namespace, circuit_id, c);
    lemma_column_eval_rows_are_read_0(
        fixture::fixture_text(lean_namespace, circuit_id, capture::capture(&key, k, num_proofs, &recorder, &msm)),
        key, k, num_proofs, recorder, msm,
    );
    lemma_column_eval_rows_are_read_1(
        fixture::fixture_text(lean_namespace, circuit_id, capture::capture(&key, k, num_proofs, &recorder, &msm)),
        key, k, num_proofs, recorder, msm,
    );
}

proof fn lemma_argument_eval_rows_are_read_0(
    file: Seq<char>,
    key: VerifyingKey,
    k: u32,
    num_proofs: usize,
    recorder: ChallengeRecorder,
    msm: MSM,
)
    requires
        sized(key, k, num_proofs, recorder, msm),
        holds(file, fixture::set_evals_text(capture::capture(&key, k, num_proofs, &recorder, &msm))),
        holds(file, fixture::proof_text(capture::capture(&key, k, num_proofs, &recorder, &msm), capture::capture(&key, k, num_proofs, &recorder, &msm).table())),
    ensures
        ({
            let np = num_proofs as nat;
            let sets = circuit::chunk_count(key.cs.permutation_columns@.len(), (key.cs_degree - 2) as nat);
            let width = (if sets == 0 { 0 } else { (3 * sets - 1) as nat });
            let instance_end = np * key.cs.instance_queries@.len();
            let advice_eval_end = instance_end + np * key.cs.advice_queries@.len();
            let fixed_end = advice_eval_end + key.cs.fixed_queries@.len();
            let common_end = fixed_end + 1 + key.permutation_commitments@.len();
            let set_end = common_end + np * width;
            rows_are_read(
                file,
                "def capturedPermutationSetEvals : List (PermSetEval Fp) := ["@,
                "]\n\n"@,
                ",\n  permutationCommonEvals := fun i => capturedPermutationCommonEvals.getD i.val 0,\n  permutationSetEvals := fun p s => capturedPermutationSetEvals.getD (p.val * "@,
                " + s.val) { eval := 0, nextEval := 0, lastEval := none },\n  lookupEvals := fun p l => capturedLookupEvals.getD (p.val * "@,
                capture::set_eval_texts(recorder.scalars@.subrange(common_end as int, set_end as int), sets, width, np),
                np,
                sets,
                |p: nat, i: nat| "{ eval := "@ + field::fp_text(recorder.scalars@[(common_end
                    + (p * width + 3 * i)) as int]) + ", nextEval := "@
                    + field::fp_text(recorder.scalars@[(common_end + (p * width + 3 * i
                    + 1)) as int]) + ", lastEval := "@ + (if i + 1 < sets { "some "@
                    + field::fp_text(recorder.scalars@[(common_end + (p * width + 3 * i
                    + 2)) as int]) } else { "none"@ }) + " }"@,
            )
        }),
{
    let np = num_proofs as nat;
    let sets = circuit::chunk_count(key.cs.permutation_columns@.len(), (key.cs_degree - 2) as nat);
    let width = (if sets == 0 { 0 } else { (3 * sets - 1) as nat });
    let instance_end = np * key.cs.instance_queries@.len();
    let advice_eval_end = instance_end + np * key.cs.advice_queries@.len();
    let fixed_end = advice_eval_end + key.cs.fixed_queries@.len();
    let common_end = fixed_end + 1 + key.permutation_commitments@.len();
    let set_end = common_end + np * width;
    lemma_set_evals_are_written(file, key, k, num_proofs, recorder, msm);
    lemma_proof_string_is_written(file, key, k, num_proofs, recorder, msm);
    refusals::shape_is_that_of_the_key(key, k, num_proofs);
    refusals::blocks_have_the_sizes_of_the_protocol(key.shape(k, num_proofs));
    schedule::point_blocks_in_order(key.shape(k, num_proofs));
    schedule::scalar_blocks_in_order(key.shape(k, num_proofs));
    lemma_set_rows(recorder.scalars@, common_end, sets, width, np);
    lemma_rows_are_read(
                file,
                "def capturedPermutationSetEvals : List (PermSetEval Fp) := ["@,
                "]\n\n"@,
                ",\n  permutationCommonEvals := fun i => capturedPermutationCommonEvals.getD i.val 0,\n  permutationSetEvals := fun p s => capturedPermutationSetEvals.getD (p.val * "@,
                " + s.val) { eval := 0, nextEval := 0, lastEval := none },\n  lookupEvals := fun p l => capturedLookupEvals.getD (p.val * "@,
                capture::set_eval_texts(recorder.scalars@.subrange(common_end as int, set_end as int), sets, width, np),
                np,
                sets,
                |p: nat, i: nat| "{ eval := "@ + field::fp_text(recorder.scalars@[(common_end
                    + (p * width + 3 * i)) as int]) + ", nextEval := "@
                    + field::fp_text(recorder.scalars@[(common_end + (p * width + 3 * i
                    + 1)) as int]) + ", lastEval := "@ + (if i + 1 < sets { "some "@
                    + field::fp_text(recorder.scalars@[(common_end + (p * width + 3 * i
                    + 2)) as int]) } else { "none"@ }) + " }"@,
    );
}

proof fn lemma_argument_eval_rows_are_read_1(
    file: Seq<char>,
    key: VerifyingKey,
    k: u32,
    num_proofs: usize,
    recorder: ChallengeRecorder,
    msm: MSM,
)
    requires
        sized(key, k, num_proofs, recorder, msm),
        holds(file, fixture::lookup_evals_text(capture::capture(&key, k, num_proofs, &recorder, &msm))),
        holds(file, fixture::proof_text(capture::capture(&key, k, num_proofs, &recorder, &msm), capture::capture(&key, k, num_proofs, &recorder, &msm).table())),
    ensures
        ({
            let np = num_proofs as nat;
            let nl = key.cs.lookups@.len();
            let sets = circuit::chunk_count(key.cs.permutation_columns@.len(), (key.cs_degree - 2) as nat);
            let width = (if sets == 0 { 0 } else { (3 * sets - 1) as nat });
            let instance_end = np * key.cs.instance_queries@.len();
            let advice_eval_end = instance_end + np * key.cs.advice_queries@.len();
            let fixed_end = advice_eval_end + key.cs.fixed_queries@.len();
            let common_end = fixed_end + 1 + key.permutation_commitments@.len();
            let set_end = common_end + np * width;
            rows_are_read(
                file,
                "def capturedLookupEvals : List (LookupEval Fp) := ["@,
                "]\n\n"@,
                " + s.val) { eval := 0, nextEval := 0, lastEval := none },\n  lookupEvals := fun p l => capturedLookupEvals.getD (p.val * "@,
                " + l.val) { productEval := 0, productNextEval := 0, permutedInputEval := 0, permutedInputInvEval := 0, permutedTableEval := 0 },\n  multiopenQPrime := "@,
                Seq::new(np * nl, |i: int| "{ productEval := "@
                    + field::fp_text(recorder.scalars@[set_end + 5 * i])
                    + ", productNextEval := "@ + field::fp_text(recorder.scalars@[set_end
                    + 5 * i + 1]) + ", permutedInputEval := "@
                    + field::fp_text(recorder.scalars@[set_end + 5 * i + 2])
                    + ", permutedInputInvEval := "@ + field::fp_text(recorder.scalars@[set_end
                    + 5 * i + 3]) + ", permutedTableEval := "@
                    + field::fp_text(recorder.scalars@[set_end + 5 * i + 4]) + " }"@),
                np,
                nl,
                |p: nat, i: nat| "{ productEval := "@
                    + field::fp_text(recorder.scalars@[(set_end + 5 * (p * nl + i)) as int])
                    + ", productNextEval := "@ + field::fp_text(recorder.scalars@[(set_end
                    + 5 * (p * nl + i) + 1) as int]) + ", permutedInputEval := "@
                    + field::fp_text(recorder.scalars@[(set_end + 5 * (p * nl + i) + 2) as int])
                    + ", permutedInputInvEval := "@ + field::fp_text(recorder.scalars@[(set_end
                    + 5 * (p * nl + i) + 3) as int]) + ", permutedTableEval := "@
                    + field::fp_text(recorder.scalars@[(set_end + 5 * (p * nl + i) + 4) as int])
                    + " }"@,
            )
        }),
{
    let np = num_proofs as nat;
    let nl = key.cs.lookups@.len();
    let sets = circuit::chunk_count(key.cs.permutation_columns@.len(), (key.cs_degree - 2) as nat);
    let width = (if sets == 0 { 0 } else { (3 * sets - 1) as nat });
    let instance_end = np * key.cs.instance_queries@.len();
    let advice_eval_end = instance_end + np * key.cs.advice_queries@.len();
    let fixed_end = advice_eval_end + key.cs.fixed_queries@.len();
    let common_end = fixed_end + 1 + key.permutation_commitments@.len();
    let set_end = common_end + np * width;
    lemma_lookup_evals_are_written(file, key, k, num_proofs, recorder, msm);
    lemma_proof_string_is_written(file, key, k, num_proofs, recorder, msm);
    lemma_rows_are_read(
                file,
                "def capturedLookupEvals : List (LookupEval Fp) := ["@,
                "]\n\n"@,
                " + s.val) { eval := 0, nextEval := 0, lastEval := none },\n  lookupEvals := fun p l => capturedLookupEvals.getD (p.val * "@,
                " + l.val) { productEval := 0, productNextEval := 0, permutedInputEval := 0, permutedInputInvEval := 0, permutedTableEval := 0 },\n  multiopenQPrime := "@,
                Seq::new(np * nl, |i: int| "{ productEval := "@
                    + field::fp_text(recorder.scalars@[set_end + 5 * i])
                    + ", productNextEval := "@ + field::fp_text(recorder.scalars@[set_end
                    + 5 * i + 1]) + ", permutedInputEval := "@
                    + field::fp_text(recorder.scalars@[set_end + 5 * i + 2])
                    + ", permutedInputInvEval := "@ + field::fp_text(recorder.scalars@[set_end
                    + 5 * i + 3]) + ", permutedTableEval := "@
                    + field::fp_text(recorder.scalars@[set_end + 5 * i + 4]) + " }"@),
                np,
                nl,
                |p: nat, i: nat| "{ productEval := "@
                    + field::fp_text(recorder.scalars@[(set_end + 5 * (p * nl + i)) as int])
                    + ", productNextEval := "@ + field::fp_text(recorder.scalars@[(set_end
                    + 5 * (p * nl + i) + 1) as int]) + ", permutedInputEval := "@
                    + field::fp_text(recorder.scalars@[(set_end + 5 * (p * nl + i) + 2) as int])
                    + ", permutedInputInvEval := "@ + field::fp_text(recorder.scalars@[(set_end
                    + 5 * (p * nl + i) + 3) as int]) + ", permutedTableEval := "@
                    + field::fp_text(recorder.scalars@[(set_end + 5 * (p * nl + i) + 4) as int])
                    + " }"@,
    );
}

/// The proof string reads the permutation and lookup evaluations by rows: the record of a proof and a
/// permutation set or lookup holds the evaluations that were read for it, and only the last set of a
/// proof has no last evaluation.
#[verifier::rlimit(30)]
pub proof fn argument_eval_rows_are_read(
    key: VerifyingKey,
    lean_namespace: Seq<char>,
    circuit_id: Seq<char>,
    k: u32,
    num_proofs: usize,
    recorder: ChallengeRecorder,
    msm: MSM,
)
    requires
        key.fault(lean_namespace, circuit_id, k, num_proofs, recorder, msm) is None,
    ensures
        ({
            let file = fixture::fixture_text(lean_namespace, circuit_id, capture::capture(&key, k, num_proofs, &recorder, &msm));
            let np = num_proofs as nat;
            let nl = key.cs.lookups@.len();
            let sets = circuit::chunk_count(key.cs.permutation_columns@.len(), (key.cs_degree - 2) as nat);
            let width = (if sets == 0 { 0 } else { (3 * sets - 1) as nat });
            let instance_end = np * key.cs.instance_queries@.len();
            let advice_eval_end = instance_end + np * key.cs.advice_queries@.len();
            let fixed_end = advice_eval_end + key.cs.fixed_queries@.len();
            let common_end = fixed_end + 1 + key.permutation_commitments@.len();
            let set_end = common_end + np * width;
            &&& rows_are_read(
                file,
                "def capturedPermutationSetEvals : List (PermSetEval Fp) := ["@,
                "]\n\n"@,
                ",\n  permutationCommonEvals := fun i => capturedPermutationCommonEvals.getD i.val 0,\n  permutationSetEvals := fun p s => capturedPermutationSetEvals.getD (p.val * "@,
                " + s.val) { eval := 0, nextEval := 0, lastEval := none },\n  lookupEvals := fun p l => capturedLookupEvals.getD (p.val * "@,
                capture::set_eval_texts(recorder.scalars@.subrange(common_end as int, set_end as int), sets, width, np),
                np,
                sets,
                |p: nat, i: nat| "{ eval := "@ + field::fp_text(recorder.scalars@[(common_end
                    + (p * width + 3 * i)) as int]) + ", nextEval := "@
                    + field::fp_text(recorder.scalars@[(common_end + (p * width + 3 * i
                    + 1)) as int]) + ", lastEval := "@ + (if i + 1 < sets { "some "@
                    + field::fp_text(recorder.scalars@[(common_end + (p * width + 3 * i
                    + 2)) as int]) } else { "none"@ }) + " }"@,
            )
            &&& rows_are_read(
                file,
                "def capturedLookupEvals : List (LookupEval Fp) := ["@,
                "]\n\n"@,
                " + s.val) { eval := 0, nextEval := 0, lastEval := none },\n  lookupEvals := fun p l => capturedLookupEvals.getD (p.val * "@,
                " + l.val) { productEval := 0, productNextEval := 0, permutedInputEval := 0, permutedInputInvEval := 0, permutedTableEval := 0 },\n  multiopenQPrime := "@,
                Seq::new(np * nl, |i: int| "{ productEval := "@
                    + field::fp_text(recorder.scalars@[set_end + 5 * i])
                    + ", productNextEval := "@ + field::fp_text(recorder.scalars@[set_end
                    + 5 * i + 1]) + ", permutedInputEval := "@
                    + field::fp_text(recorder.scalars@[set_end + 5 * i + 2])
                    + ", permutedInputInvEval := "@ + field::fp_text(recorder.scalars@[set_end
                    + 5 * i + 3]) + ", permutedTableEval := "@
                    + field::fp_text(recorder.scalars@[set_end + 5 * i + 4]) + " }"@),
                np,
                nl,
                |p: nat, i: nat| "{ productEval := "@
                    + field::fp_text(recorder.scalars@[(set_end + 5 * (p * nl + i)) as int])
                    + ", productNextEval := "@ + field::fp_text(recorder.scalars@[(set_end
                    + 5 * (p * nl + i) + 1) as int]) + ", permutedInputEval := "@
                    + field::fp_text(recorder.scalars@[(set_end + 5 * (p * nl + i) + 2) as int])
                    + ", permutedInputInvEval := "@ + field::fp_text(recorder.scalars@[(set_end
                    + 5 * (p * nl + i) + 3) as int]) + ", permutedTableEval := "@
                    + field::fp_text(recorder.scalars@[(set_end + 5 * (p * nl + i) + 4) as int])
                    + " }"@,
            )
        }),
{
    let c = capture::capture(&key, k, num_proofs, &recorder, &msm);
    lemma_sized(key, lean_namespace, circuit_id, k, num_proofs, recorder, msm);
    lemma_has_set_evals(lean_namespace, circuit_id, c);
    lemma_has_lookup_evals(lean_namespace, circuit_id, c);
    lemma_has_proof(lean_namespace, circuit_id, c);
    lemma_argument_eval_rows_are_read_0(
        fixture::fixture_text(lean_namespace, circuit_id, capture::capture(&key, k, num_proofs, &recorder, &msm)),
        key, k, num_proofs, recorder, msm,
    );
    lemma_argument_eval_rows_are_read_1(
        fixture::fixture_text(lean_namespace, circuit_id, capture::capture(&key, k, num_proofs, &recorder, &msm)),
        key, k, num_proofs, recorder, msm,
    );
}

/// The points of the file are numbered as it first refers to them: the generators, the key, the
/// proof, then the transcript and the terms.
pub proof fn points_are_numbered_as_they_come(
    key: VerifyingKey,
    lean_namespace: Seq<char>,
    circuit_id: Seq<char>,
    k: u32,
    num_proofs: usize,
    recorder: ChallengeRecorder,
    msm: MSM,
)
    requires
        key.fault(lean_namespace, circuit_id, k, num_proofs, recorder, msm) is None,
    ensures
        ({
            let np = num_proofs as nat;
            let nl = key.cs.lookups@.len();
            let sets = circuit::chunk_count(key.cs.permutation_columns@.len(), (key.cs_degree - 2) as nat);
            let advice_end = np * key.cs.num_advice_columns as nat;
            let permuted_end = advice_end + 2 * (np * nl);
            let product_end = permuted_end + np * sets;
            let lookup_end = product_end + np * nl;
            let quotient_end = lookup_end + 1 + key.quotient_poly_degree as nat;
            capture::capture(&key, k, num_proofs, &recorder, &msm).table() == points::interned_all(
                Seq::empty(),
                msm.params.g@ + seq![msm.params.w] + seq![msm.params.u] + key.fixed_commitments@
                    + recorder.common_points@ + key.permutation_commitments@
                    + recorder.points@.take(advice_end as int) + Seq::new(np * nl,
                    |i: int| recorder.points@[advice_end + 2 * i]) + Seq::new(np * nl,
                    |i: int| recorder.points@[advice_end + 2 * i + 1])
                    + recorder.points@.subrange(permuted_end as int, product_end as int)
                    + recorder.points@.subrange(product_end as int, lookup_end as int)
                    + recorder.points@.subrange(lookup_end + 1int, quotient_end as int)
                    + seq![recorder.points@[lookup_end as int]]
                    + seq![recorder.points@[quotient_end as int]]
                    + seq![recorder.points@[quotient_end + 1int]]
                    + recorder.points@.skip(quotient_end + 2int)
                    + transcript::all_points(recorder.events@) + Seq::new(
                    msm.other@.len(),
                    |i: int| EqAffine::at(msm.other@[i].1, msm.other@[i].2),
                ),
            )
        }),
{
    let c = capture::capture(&key, k, num_proofs, &recorder, &msm);
    let np = num_proofs as nat;
    let nl = key.cs.lookups@.len();
    let sets = circuit::chunk_count(key.cs.permutation_columns@.len(), (key.cs_degree - 2) as nat);
    let advice_end = np * key.cs.num_advice_columns as nat;
    let permuted_end = advice_end + 2 * (np * nl);
    let product_end = permuted_end + np * sets;
    let lookup_end = product_end + np * nl;
    let quotient_end = lookup_end + 1 + key.quotient_poly_degree as nat;
    lemma_sized(key, lean_namespace, circuit_id, k, num_proofs, recorder, msm);
    refusals::shape_is_that_of_the_key(key, k, num_proofs);
    refusals::blocks_have_the_sizes_of_the_protocol(c.shape);
    schedule::point_blocks_in_order(c.shape);
    schedule::scalar_blocks_in_order(c.shape);
    assert(c.advice() =~= recorder.points@.take(advice_end as int));
    assert(capture::pair_firsts(c.lookup_permuted(), c.all_lookups()) =~= Seq::new(np * nl,
        |i: int| recorder.points@[advice_end + 2 * i]));
    assert(capture::pair_seconds(c.lookup_permuted(), c.all_lookups()) =~= Seq::new(np * nl,
        |i: int| recorder.points@[advice_end + 2 * i + 1]));
    assert(c.permutation_products() =~= recorder.points@.subrange(permuted_end as int, product_end as int));
    assert(c.lookup_products() =~= recorder.points@.subrange(product_end as int, lookup_end as int));
    assert(c.quotient_pieces() =~= recorder.points@.subrange(lookup_end
        + 1int, quotient_end as int));
    assert(c.ipa_rounds() =~= recorder.points@.skip(quotient_end + 2int));
    assert(msm.bases() =~= Seq::new(
        msm.other@.len(),
        |i: int| EqAffine::at(msm.other@[i].1, msm.other@[i].2),
    ));
}

} // verus!
