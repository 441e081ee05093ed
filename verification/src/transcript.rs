//! The recorded Fiat-Shamir transcript of a verifier run, and its Lean rendering.

use vstd::prelude::*;
use vstd::string::*;

use crate::curve;
use crate::curve::EqAffine;
use crate::field;
use crate::field::Fp;
use crate::points;
use crate::points::PointTable;
use crate::text;

verus! {

/// What the verifier did to its transcript, one step.
#[derive(Clone, Copy, Debug, PartialEq, Eq)]
pub enum TranscriptEvent {
    /// A point both sides know was absorbed.
    CommonPoint(EqAffine),
    /// A scalar both sides know was absorbed.
    CommonScalar(Fp),
    /// A point was read from the proof and absorbed.
    ReadPoint(EqAffine),
    /// A scalar was read from the proof and absorbed.
    ReadScalar(Fp),
    /// A challenge was squeezed.
    Squeeze(Fp),
}

/// What was recorded of a verifier run.
#[derive(Debug)]
pub struct ChallengeRecorder {
    /// The common points (instance commitments), in the order they were absorbed.
    pub common_points: Vec<EqAffine>,
    /// The points of the proof, in the order they were read.
    pub points: Vec<EqAffine>,
    /// The scalars of the proof, in the order they were read.
    pub scalars: Vec<Fp>,
    /// The squeezed challenges, in order.
    pub challenges: Vec<Fp>,
    /// All of these in one order.
    pub events: Vec<TranscriptEvent>,
}

/// Whether an event absorbs what both sides know.
pub open spec fn is_common(event: TranscriptEvent) -> bool {
    event is CommonPoint || event is CommonScalar
}

/// The common points of a transcript.
pub open spec fn common_points(events: Seq<TranscriptEvent>) -> Seq<EqAffine>
    decreases events.len(),
{
    if events.len() == 0 {
        Seq::empty()
    } else {
        match events.last() {
            TranscriptEvent::CommonPoint(p) => common_points(events.drop_last()).push(p),
            _ => common_points(events.drop_last()),
        }
    }
}

/// The points read from the proof.
pub open spec fn read_points(events: Seq<TranscriptEvent>) -> Seq<EqAffine>
    decreases events.len(),
{
    if events.len() == 0 {
        Seq::empty()
    } else {
        match events.last() {
            TranscriptEvent::ReadPoint(p) => read_points(events.drop_last()).push(p),
            _ => read_points(events.drop_last()),
        }
    }
}

/// The scalars read from the proof.
pub open spec fn read_scalars(events: Seq<TranscriptEvent>) -> Seq<Fp>
    decreases events.len(),
{
    if events.len() == 0 {
        Seq::empty()
    } else {
        match events.last() {
            TranscriptEvent::ReadScalar(s) => read_scalars(events.drop_last()).push(s),
            _ => read_scalars(events.drop_last()),
        }
    }
}

/// The squeezed challenges.
pub open spec fn squeezes(events: Seq<TranscriptEvent>) -> Seq<Fp>
    decreases events.len(),
{
    if events.len() == 0 {
        Seq::empty()
    } else {
        match events.last() {
            TranscriptEvent::Squeeze(c) => squeezes(events.drop_last()).push(c),
            _ => squeezes(events.drop_last()),
        }
    }
}

/// All points of a transcript.
pub open spec fn all_points(events: Seq<TranscriptEvent>) -> Seq<EqAffine>
    decreases events.len(),
{
    if events.len() == 0 {
        Seq::empty()
    } else {
        match events.last() {
            TranscriptEvent::CommonPoint(p) => all_points(events.drop_last()).push(p),
            TranscriptEvent::ReadPoint(p) => all_points(events.drop_last()).push(p),
            _ => all_points(events.drop_last()),
        }
    }
}

/// For each squeeze, how many points had been read from the proof before it.
pub open spec fn points_before_squeeze(events: Seq<TranscriptEvent>) -> Seq<nat>
    decreases events.len(),
{
    if events.len() == 0 {
        Seq::empty()
    } else {
        let before = points_before_squeeze(events.drop_last());
        if events.last() is Squeeze {
            before.push(read_points(events.drop_last()).len())
        } else {
            before
        }
    }
}

/// For each squeeze, how many scalars had been read from the proof before it.
pub open spec fn scalars_before_squeeze(events: Seq<TranscriptEvent>) -> Seq<nat>
    decreases events.len(),
{
    if events.len() == 0 {
        Seq::empty()
    } else {
        let before = scalars_before_squeeze(events.drop_last());
        if events.last() is Squeeze {
            before.push(read_scalars(events.drop_last()).len())
        } else {
            before
        }
    }
}

/// The Lean transcript element of a point.
pub open spec fn point_elt_text(table: Seq<EqAffine>, point: EqAffine) -> Seq<char> {
    "TranscriptElt.point ("@ + points::ref_text(table, point) + ")"@
}

/// The Lean transcript element of a scalar.
pub open spec fn scalar_elt_text(scalar: Fp) -> Seq<char> {
    "TranscriptElt.scalar "@ + field::fp_text(scalar)
}

/// The Lean transcript element of an event. A squeezed challenge stands in the transcript as a
/// scalar, which separates it from the next squeeze.
pub open spec fn elt_text(table: Seq<EqAffine>, event: TranscriptEvent) -> Seq<char> {
    match event {
        TranscriptEvent::CommonPoint(p) => point_elt_text(table, p),
        TranscriptEvent::CommonScalar(s) => scalar_elt_text(s),
        TranscriptEvent::ReadPoint(p) => point_elt_text(table, p),
        TranscriptEvent::ReadScalar(s) => scalar_elt_text(s),
        TranscriptEvent::Squeeze(c) => scalar_elt_text(c),
    }
}

/// The Lean transcript elements of a list of events.
pub open spec fn elt_texts(
    table: Seq<EqAffine>,
    events: Seq<TranscriptEvent>,
) -> Seq<Seq<char>> {
    events.map_values(|e: TranscriptEvent| elt_text(table, e))
}

/// The Lean schedule entry of a squeeze: everything in the transcript before it, and the
/// challenge.
pub open spec fn schedule_entry_text(
    table: Seq<EqAffine>,
    before: Seq<TranscriptEvent>,
    challenge: Fp,
) -> Seq<char> {
    "(["@ + text::comma_separated(elt_texts(table, before)) + "], "@ + field::fp_text(challenge)
        + ")"@
}

/// The Lean schedule entries of all squeezes.
pub open spec fn schedule_texts(
    table: Seq<EqAffine>,
    events: Seq<TranscriptEvent>,
) -> Seq<Seq<char>>
    decreases events.len(),
{
    if events.len() == 0 {
        Seq::empty()
    } else {
        let earlier = schedule_texts(table, events.drop_last());
        match events.last() {
            TranscriptEvent::Squeeze(c) => earlier.push(
                schedule_entry_text(table, events.drop_last(), c),
            ),
            _ => earlier,
        }
    }
}

/// The first `n` events, or all of them if there are fewer.
pub open spec fn first_events(
    events: Seq<TranscriptEvent>,
    n: nat,
) -> Seq<TranscriptEvent> {
    if n <= events.len() {
        events.take(n as int)
    } else {
        events
    }
}

/// Every squeeze has one schedule entry and one count of each kind.
pub proof fn one_entry_per_squeeze(table: Seq<EqAffine>, events: Seq<TranscriptEvent>)
    ensures
        schedule_texts(table, events).len() == squeezes(events).len(),
        points_before_squeeze(events).len() == squeezes(events).len(),
        scalars_before_squeeze(events).len() == squeezes(events).len(),
    decreases events.len(),
{
    if events.len() > 0 {
        one_entry_per_squeeze(table, events.drop_last());
    }
}

/// Reads never shrink: a later squeeze sees at least what an earlier one saw, and none sees more
/// than there is.
pub proof fn reads_only_grow(events: Seq<TranscriptEvent>)
    ensures
        forall|i: int, j: int|
            0 <= i <= j < points_before_squeeze(events).len() ==> #[trigger] points_before_squeeze(
                events,
            )[i] <= #[trigger] points_before_squeeze(events)[j],
        forall|i: int, j: int|
            0 <= i <= j < scalars_before_squeeze(events).len()
                ==> #[trigger] scalars_before_squeeze(events)[i]
                <= #[trigger] scalars_before_squeeze(events)[j],
        forall|i: int|
            0 <= i < points_before_squeeze(events).len() ==> #[trigger] points_before_squeeze(
                events,
            )[i] <= read_points(events).len(),
        forall|i: int|
            0 <= i < scalars_before_squeeze(events).len() ==> #[trigger] scalars_before_squeeze(
                events,
            )[i] <= read_scalars(events).len(),
    decreases events.len(),
{
    if events.len() > 0 {
        let shorter = events.drop_last();
        reads_only_grow(shorter);
        let (p, q) = (points_before_squeeze(shorter), points_before_squeeze(events));
        assert forall|i: int, j: int| 0 <= i <= j < q.len() implies #[trigger] q[i]
            <= #[trigger] q[j] by {
            if i < p.len() {
                assert(q[i] == p[i]);
            }
            if j < p.len() {
                assert(q[j] == p[j]);
            }
        }
        let (p, q) = (scalars_before_squeeze(shorter), scalars_before_squeeze(events));
        assert forall|i: int, j: int| 0 <= i <= j < q.len() implies #[trigger] q[i]
            <= #[trigger] q[j] by {
            if i < p.len() {
                assert(q[i] == p[i]);
            }
            if j < p.len() {
                assert(q[j] == p[j]);
            }
        }
    }
}

/// What a squeeze sees are the first reads of the proof, and the counts tell how many.
pub proof fn squeeze_delimits_reads(events: Seq<TranscriptEvent>, at: int)
    requires
        0 <= at < events.len(),
        events[at] is Squeeze,
    ensures
        ({
            let before = events.take(at);
            let j = squeezes(before).len() as int;
            &&& j < squeezes(events).len()
            &&& points_before_squeeze(events)[j] == read_points(before).len()
            &&& scalars_before_squeeze(events)[j] == read_scalars(before).len()
            &&& read_points(before).is_prefix_of(read_points(events))
            &&& read_scalars(before).is_prefix_of(read_scalars(events))
        }),
    decreases events.len(),
{
    let shorter = events.drop_last();
    let before = events.take(at);
    one_entry_per_squeeze(Seq::empty(), shorter);
    if at < events.len() - 1 {
        assert(shorter.take(at) =~= before);
        squeeze_delimits_reads(shorter, at);
        let (ps, qs) = (read_points(shorter), read_points(events));
        let n = read_points(before).len() as int;
        assert(qs.take(n) =~= ps.take(n));
        let (ss, ts) = (read_scalars(shorter), read_scalars(events));
        let m = read_scalars(before).len() as int;
        assert(ts.take(m) =~= ss.take(m));
    } else {
        assert(before =~= shorter);
        assert(read_points(events).take(read_points(before).len() as int) =~= read_points(before));
        assert(read_scalars(events).take(read_scalars(before).len() as int) =~= read_scalars(
            before,
        ));
    }
}

/// The schedule entry of a squeeze stands where its challenge stands among the challenges, and
/// holds everything that the transcript held before.
pub proof fn entry_of_a_squeeze(table: Seq<EqAffine>, events: Seq<TranscriptEvent>, at: int)
    requires
        0 <= at < events.len(),
        events[at] is Squeeze,
    ensures
        ({
            let before = events.take(at);
            let j = squeezes(before).len() as int;
            &&& j < squeezes(events).len()
            &&& squeezes(events)[j] == events[at]->Squeeze_0
            &&& schedule_texts(table, events)[j] == schedule_entry_text(
                table,
                before,
                squeezes(events)[j],
            )
        }),
    decreases events.len(),
{
    let shorter = events.drop_last();
    let before = events.take(at);
    one_entry_per_squeeze(table, shorter);
    if at < events.len() - 1 {
        assert(shorter.take(at) =~= before);
        entry_of_a_squeeze(table, shorter, at);
    } else {
        assert(before =~= shorter);
    }
}

/// Every point of a transcript is a common point or was read from the proof.
pub proof fn points_are_common_or_read(events: Seq<TranscriptEvent>, p: EqAffine)
    ensures
        all_points(events).contains(p) <==> common_points(events).contains(p) || read_points(
            events,
        ).contains(p),
    decreases events.len(),
{
    if events.len() > 0 {
        let shorter = events.drop_last();
        points_are_common_or_read(shorter, p);
        match events.last() {
            TranscriptEvent::CommonPoint(q) => {
                points::pushed_points(all_points(shorter), q, p);
                points::pushed_points(common_points(shorter), q, p);
            },
            TranscriptEvent::ReadPoint(q) => {
                points::pushed_points(all_points(shorter), q, p);
                points::pushed_points(read_points(shorter), q, p);
            },
            _ => {},
        }
    }
}

/// The entry of a squeeze stays the same whatever follows it.
pub proof fn schedule_is_causal(table: Seq<EqAffine>, events: Seq<TranscriptEvent>, n: int)
    requires
        0 <= n <= events.len(),
    ensures
        schedule_texts(table, events.take(n)).is_prefix_of(schedule_texts(table, events)),
    decreases events.len() - n,
{
    let (part, all) = (schedule_texts(table, events.take(n)), schedule_texts(table, events));
    if n < events.len() {
        schedule_is_causal(table, events, n + 1);
        let next = schedule_texts(table, events.take(n + 1));
        assert(events.take(n + 1).drop_last() =~= events.take(n));
        assert(part.is_prefix_of(next));
        assert(part =~= all.take(part.len() as int)) by {
            assert forall|i: int| 0 <= i < part.len() implies part[i] == all[i] by {
                assert(next[i] == part[i]);
                assert(all.take(next.len() as int)[i] == all[i]);
            }
        }
    } else {
        assert(events.take(n) =~= events);
        assert(all.take(all.len() as int) =~= all);
    }
}

proof fn lemma_all_points_prefix(events: Seq<TranscriptEvent>, n: int, p: EqAffine)
    requires
        0 <= n <= events.len(),
        all_points(events.take(n)).contains(p),
    ensures
        all_points(events).contains(p),
    decreases events.len() - n,
{
    if n < events.len() {
        let shorter = all_points(events.take(n));
        assert(events.take(n + 1).drop_last() =~= events.take(n));
        let i = choose|i: int| 0 <= i < shorter.len() && shorter[i] == p;
        assert(all_points(events.take(n + 1))[i] == p);
        lemma_all_points_prefix(events, n + 1, p);
    } else {
        assert(events.take(n) =~= events);
    }
}

proof fn lemma_point_is_listed(events: Seq<TranscriptEvent>, i: int)
    requires
        0 <= i < events.len(),
    ensures
        events[i] matches TranscriptEvent::CommonPoint(p) ==> all_points(events).contains(p),
        events[i] matches TranscriptEvent::ReadPoint(p) ==> all_points(events).contains(p),
{
    let upto = events.take(i + 1);
    assert(upto.last() == events[i]);
    match events[i] {
        TranscriptEvent::CommonPoint(p) | TranscriptEvent::ReadPoint(p) => {
            assert(all_points(upto).last() == p);
            assert(all_points(upto).contains(p));
            lemma_all_points_prefix(events, i + 1, p);
        },
        _ => {},
    }
}

/// Transcript elements once written stay right while the table grows.
pub proof fn elements_are_stable(
    table: Seq<EqAffine>,
    grown: Seq<EqAffine>,
    events: Seq<TranscriptEvent>,
)
    requires
        table.is_prefix_of(grown),
        forall|p: EqAffine| #[trigger] all_points(events).contains(p) ==> table.contains(p),
    ensures
        elt_texts(grown, events) == elt_texts(table, events),
        schedule_texts(grown, events) == schedule_texts(table, events),
    decreases events.len(),
{
    assert forall|i: int| 0 <= i < events.len() implies #[trigger] elt_text(grown, events[i])
        == elt_text(table, events[i]) by {
        lemma_point_is_listed(events, i);
        match events[i] {
            TranscriptEvent::CommonPoint(p) | TranscriptEvent::ReadPoint(p) => {
                points::reference_is_stable(table, grown, p);
            },
            _ => {},
        }
    }
    assert(elt_texts(grown, events) =~= elt_texts(table, events));
    if events.len() > 0 {
        let shorter = events.drop_last();
        assert(shorter =~= events.take(events.len() - 1));
        assert forall|p: EqAffine| #[trigger] all_points(shorter).contains(p) implies table.contains(
            p,
        ) by {
            lemma_all_points_prefix(events, events.len() - 1, p);
        }
        elements_are_stable(table, grown, shorter);
    }
}

/// The Lean transcript element of a point.
pub fn transcript_point(points: &mut PointTable, point: EqAffine) -> (s: String)
    requires
        old(points).wf(),
    ensures
        final(points).wf(),
        final(points)@ == points::interned(old(points)@, point),
        s@ == point_elt_text(final(points)@, point),
{
    let mut s = "TranscriptElt.point (".to_owned();
    s.append(points.point_ref(point).as_str());
    s.append(")");
    s
}

/// The Lean transcript element of a scalar.
pub fn transcript_scalar(scalar: Fp) -> (s: String)
    ensures
        s@ == scalar_elt_text(scalar),
{
    let mut s = "TranscriptElt.scalar ".to_owned();
    s.append(field::fp(scalar).as_str());
    s
}

/// Render the typed transcript prefix and each subsequent squeeze checkpoint. `init_len` is the
/// exact number of VK/instance events that precede verifier proof processing; it is intentionally
/// independent of when the first proof element is read, because valid circuits may have no advice
/// commitments before the first squeeze.
///
/// The VK/instance prefix holds no proof read and no squeeze.
pub fn render_transcript_capture(
    points: &mut PointTable,
    transcript_events: &[TranscriptEvent],
    init_len: usize,
) -> (r: (Vec<String>, Vec<String>))
    requires
        old(points).wf(),
        forall|i: int|
            0 <= i < transcript_events@.len() && i < init_len ==> is_common(
                #[trigger] transcript_events@[i],
            ),
    ensures
        final(points).wf(),
        final(points)@ == points::interned_all(old(points)@, all_points(transcript_events@)),
        text::contents(r.0@) == elt_texts(
            final(points)@,
            first_events(transcript_events@, init_len as nat),
        ),
        text::contents(r.1@) == schedule_texts(final(points)@, transcript_events@),
{
    let mut captured_init: Vec<String> = Vec::new();
    let mut prefix: Vec<String> = Vec::new();
    let mut schedule_entries: Vec<String> = Vec::new();
    let mut i: usize = 0;
    let ghost start = points@;
    proof {
        points.points_are_distinct();
    }
    assert(transcript_events@.take(0) =~= Seq::empty());
    while i < transcript_events.len()
        invariant
            i <= transcript_events@.len(),
            points.wf(),
            start.no_duplicates(),
            points@ == points::interned_all(start, all_points(transcript_events@.take(i as int))),
            text::contents(prefix@) =~= elt_texts(points@, transcript_events@.take(i as int)),
            text::contents(captured_init@) =~= elt_texts(
                points@,
                first_events(transcript_events@.take(i as int), init_len as nat),
            ),
            text::contents(schedule_entries@) =~= schedule_texts(
                points@,
                transcript_events@.take(i as int),
            ),
        decreases transcript_events@.len() - i,
    {
        let event = transcript_events[i];
        let ghost seen = transcript_events@.take(i as int);
        let ghost now = transcript_events@.take(i + 1);
        let ghost table = points@;
        let ghost prefix_before = text::contents(prefix@);
        let ghost init_before = text::contents(captured_init@);
        let ghost entries_before = text::contents(schedule_entries@);
        proof {
            assert(now.drop_last() =~= seen);
            assert(now =~= seen.push(event));
        }
        let elt = match event {
            TranscriptEvent::CommonPoint(point) => transcript_point(points, point),
            TranscriptEvent::CommonScalar(scalar) => transcript_scalar(scalar),
            TranscriptEvent::ReadPoint(point) => transcript_point(points, point),
            TranscriptEvent::ReadScalar(scalar) => transcript_scalar(scalar),
            TranscriptEvent::Squeeze(challenge) => {
                let mut entry = "([".to_owned();
                entry.append(text::join(prefix.as_slice()).as_str());
                entry.append("], ");
                entry.append(field::fp(challenge).as_str());
                entry.append(")");
                schedule_entries.push(entry);
                transcript_scalar(challenge)
            },
        };
        let ghost rendered = elt@;
        if i < init_len {
            captured_init.push(elt.clone());
        }
        prefix.push(elt);
        proof {
            let listed = all_points(now);
            assert(points@ == points::interned_all(start, listed)) by {
                match event {
                    TranscriptEvent::CommonPoint(p) | TranscriptEvent::ReadPoint(p) => {
                        assert(listed.drop_last() =~= all_points(seen));
                    },
                    _ => {},
                }
            }
            points::interning_keeps_the_table(start, all_points(seen));
            lemma_growth(table, points@, event);
            elements_are_stable(table, points@, seen);
            assert(rendered == elt_text(points@, event));
            assert(text::contents(prefix@) =~= prefix_before.push(rendered));
            if i < init_len {
                assert(text::contents(captured_init@) =~= init_before.push(rendered));
            }
            let first_seen = first_events(seen, init_len as nat);
            assert(elt_texts(points@, first_seen) =~= elt_texts(points@, seen).take(
                first_seen.len() as int,
            ));
            assert(elt_texts(table, first_seen) =~= elt_texts(table, seen).take(
                first_seen.len() as int,
            ));
            assert(first_events(now, init_len as nat) =~= (if i < init_len {
                first_seen.push(event)
            } else {
                first_seen
            }));
            match event {
                TranscriptEvent::Squeeze(c) => {
                    assert(text::contents(schedule_entries@) =~= entries_before.push(
                        schedule_entry_text(points@, seen, c),
                    ));
                },
                _ => {},
            }
        }
        i = i + 1;
    }
    assert(transcript_events@.take(transcript_events@.len() as int) =~= transcript_events@);
    (captured_init, schedule_entries)
}

/// One event lets the table grow at its end only.
proof fn lemma_growth(table: Seq<EqAffine>, grown: Seq<EqAffine>, event: TranscriptEvent)
    requires
        match event {
            TranscriptEvent::CommonPoint(p) => grown == points::interned(table, p),
            TranscriptEvent::ReadPoint(p) => grown == points::interned(table, p),
            _ => grown == table,
        },
    ensures
        table.is_prefix_of(grown),
{
    assert(grown.take(table.len() as int) =~= table);
}

/// The common points of a transcript.
pub fn collect_common_points(events: &[TranscriptEvent]) -> (r: Vec<EqAffine>)
    ensures
        r@ == common_points(events@),
{
    let mut r: Vec<EqAffine> = Vec::new();
    let mut i: usize = 0;
    assert(events@.take(0) =~= Seq::empty());
    while i < events.len()
        invariant
            i <= events@.len(),
            r@ == common_points(events@.take(i as int)),
        decreases events@.len() - i,
    {
        assert(events@.take(i + 1).drop_last() =~= events@.take(i as int));
        if let TranscriptEvent::CommonPoint(p) = events[i] {
            r.push(p);
        }
        i = i + 1;
    }
    assert(events@.take(events@.len() as int) =~= events@);
    r
}

/// The points read from the proof.
pub fn collect_read_points(events: &[TranscriptEvent]) -> (r: Vec<EqAffine>)
    ensures
        r@ == read_points(events@),
{
    let mut r: Vec<EqAffine> = Vec::new();
    let mut i: usize = 0;
    assert(events@.take(0) =~= Seq::empty());
    while i < events.len()
        invariant
            i <= events@.len(),
            r@ == read_points(events@.take(i as int)),
        decreases events@.len() - i,
    {
        assert(events@.take(i + 1).drop_last() =~= events@.take(i as int));
        if let TranscriptEvent::ReadPoint(p) = events[i] {
            r.push(p);
        }
        i = i + 1;
    }
    assert(events@.take(events@.len() as int) =~= events@);
    r
}

/// The scalars read from the proof.
pub fn collect_read_scalars(events: &[TranscriptEvent]) -> (r: Vec<Fp>)
    ensures
        r@ == read_scalars(events@),
{
    let mut r: Vec<Fp> = Vec::new();
    let mut i: usize = 0;
    assert(events@.take(0) =~= Seq::empty());
    while i < events.len()
        invariant
            i <= events@.len(),
            r@ == read_scalars(events@.take(i as int)),
        decreases events@.len() - i,
    {
        assert(events@.take(i + 1).drop_last() =~= events@.take(i as int));
        if let TranscriptEvent::ReadScalar(s) = events[i] {
            r.push(s);
        }
        i = i + 1;
    }
    assert(events@.take(events@.len() as int) =~= events@);
    r
}

/// The squeezed challenges.
pub fn collect_squeezes(events: &[TranscriptEvent]) -> (r: Vec<Fp>)
    ensures
        r@ == squeezes(events@),
{
    let mut r: Vec<Fp> = Vec::new();
    let mut i: usize = 0;
    assert(events@.take(0) =~= Seq::empty());
    while i < events.len()
        invariant
            i <= events@.len(),
            r@ == squeezes(events@.take(i as int)),
        decreases events@.len() - i,
    {
        assert(events@.take(i + 1).drop_last() =~= events@.take(i as int));
        if let TranscriptEvent::Squeeze(c) = events[i] {
            r.push(c);
        }
        i = i + 1;
    }
    assert(events@.take(events@.len() as int) =~= events@);
    r
}

/// All points of a transcript.
pub fn collect_points(events: &[TranscriptEvent]) -> (r: Vec<EqAffine>)
    ensures
        r@ == all_points(events@),
{
    let mut r: Vec<EqAffine> = Vec::new();
    let mut i: usize = 0;
    assert(events@.take(0) =~= Seq::empty());
    while i < events.len()
        invariant
            i <= events@.len(),
            r@ == all_points(events@.take(i as int)),
        decreases events@.len() - i,
    {
        assert(events@.take(i + 1).drop_last() =~= events@.take(i as int));
        match events[i] {
            TranscriptEvent::CommonPoint(p) => {
                r.push(p);
            },
            TranscriptEvent::ReadPoint(p) => {
                r.push(p);
            },
            _ => {},
        }
        i = i + 1;
    }
    assert(events@.take(events@.len() as int) =~= events@);
    r
}

/// Counts that a list of machine numbers holds.
pub open spec fn counts(ns: Seq<usize>) -> Seq<nat> {
    ns.map_values(|n: usize| n as nat)
}

/// For each squeeze, how many points and how many scalars had been read before it.
pub fn reads_before_squeezes(events: &[TranscriptEvent]) -> (r: (Vec<usize>, Vec<usize>))
    ensures
        counts(r.0@) == points_before_squeeze(events@),
        counts(r.1@) == scalars_before_squeeze(events@),
{
    let mut points_at: Vec<usize> = Vec::new();
    let mut scalars_at: Vec<usize> = Vec::new();
    let mut np: usize = 0;
    let mut ns: usize = 0;
    let mut i: usize = 0;
    assert(events@.take(0) =~= Seq::empty());
    while i < events.len()
        invariant
            i <= events@.len(),
            np == read_points(events@.take(i as int)).len(),
            ns == read_scalars(events@.take(i as int)).len(),
            np <= i,
            ns <= i,
            counts(points_at@) =~= points_before_squeeze(events@.take(i as int)),
            counts(scalars_at@) =~= scalars_before_squeeze(events@.take(i as int)),
        decreases events@.len() - i,
    {
        assert(events@.take(i + 1).drop_last() =~= events@.take(i as int));
        let ghost points_seen = counts(points_at@);
        let ghost scalars_seen = counts(scalars_at@);
        match events[i] {
            TranscriptEvent::ReadPoint(_) => {
                np = np + 1;
            },
            TranscriptEvent::ReadScalar(_) => {
                ns = ns + 1;
            },
            TranscriptEvent::Squeeze(_) => {
                points_at.push(np);
                scalars_at.push(ns);
                assert(counts(points_at@) =~= points_seen.push(np as nat));
                assert(counts(scalars_at@) =~= scalars_seen.push(ns as nat));
            },
            _ => {},
        }
        i = i + 1;
    }
    assert(events@.take(events@.len() as int) =~= events@);
    (points_at, scalars_at)
}

/// Whether two lists of points are the same.
pub fn same_point_lists(a: &Vec<EqAffine>, b: &Vec<EqAffine>) -> (r: bool)
    ensures
        r == (a@ == b@),
{
    if a.len() != b.len() {
        return false;
    }
    let mut i: usize = 0;
    while i < a.len()
        invariant
            a@.len() == b@.len(),
            i <= a@.len(),
            forall|j: int| 0 <= j < i ==> a@[j] == b@[j],
        decreases a@.len() - i,
    {
        if !curve::same_points(&a[i], &b[i]) {
            return false;
        }
        i = i + 1;
    }
    assert(a@ =~= b@);
    true
}

/// Whether two lists of scalars are the same.
pub fn same_scalar_lists(a: &Vec<Fp>, b: &Vec<Fp>) -> (r: bool)
    ensures
        r == (a@ == b@),
{
    if a.len() != b.len() {
        return false;
    }
    let mut i: usize = 0;
    while i < a.len()
        invariant
            a@.len() == b@.len(),
            i <= a@.len(),
            forall|j: int| 0 <= j < i ==> a@[j] == b@[j],
        decreases a@.len() - i,
    {
        if !a[i].equals(&b[i]) {
            return false;
        }
        i = i + 1;
    }
    assert(a@ =~= b@);
    true
}

impl ChallengeRecorder {
    /// Whether the four lists hold what the events hold, each in its order.
    pub open spec fn consistent(self) -> bool {
        &&& common_points(self.events@) == self.common_points@
        &&& read_points(self.events@) == self.points@
        &&& read_scalars(self.events@) == self.scalars@
        &&& squeezes(self.events@) == self.challenges@
    }

    /// Whether the transcript starts with the key's scalar and the common points.
    pub open spec fn starts_with_key(self, transcript_repr: Fp) -> bool {
        &&& self.events@.len() >= 1 + self.common_points@.len()
        &&& self.events@[0] == TranscriptEvent::CommonScalar(transcript_repr)
        &&& forall|i: int|
            0 <= i < self.common_points@.len() ==> #[trigger] self.events@[1 + i]
                == TranscriptEvent::CommonPoint(self.common_points@[i])
    }

    /// Whether the four lists hold what the events hold, each in its order.
    pub fn is_consistent(&self) -> (r: bool)
        ensures
            r == self.consistent(),
    {
        let events = self.events.as_slice();
        same_point_lists(&collect_common_points(events), &self.common_points)
            && same_point_lists(&collect_read_points(events), &self.points)
            && same_scalar_lists(&collect_read_scalars(events), &self.scalars)
            && same_scalar_lists(&collect_squeezes(events), &self.challenges)
    }

    /// Whether the transcript starts with the key's scalar and the common points.
    pub fn is_started_with_key(&self, transcript_repr: &Fp) -> (r: bool)
        ensures
            r == self.starts_with_key(*transcript_repr),
    {
        if self.events.len() == 0 || self.events.len() - 1 < self.common_points.len() {
            return false;
        }
        let started = match self.events[0] {
            TranscriptEvent::CommonScalar(s) => s.equals(transcript_repr),
            _ => false,
        };
        if !started {
            return false;
        }
        let mut i: usize = 0;
        while i < self.common_points.len()
            invariant
                i <= self.common_points@.len(),
                self.events@.len() >= 1 + self.common_points@.len(),
                forall|j: int|
                    0 <= j < i ==> #[trigger] self.events@[1 + j] == TranscriptEvent::CommonPoint(
                        self.common_points@[j],
                    ),
            decreases self.common_points@.len() - i,
        {
            let same = match self.events[1 + i] {
                TranscriptEvent::CommonPoint(p) => curve::same_points(&p, &self.common_points[i]),
                _ => false,
            };
            if !same {
                return false;
            }
            i = i + 1;
        }
        true
    }
}

} // verus!
