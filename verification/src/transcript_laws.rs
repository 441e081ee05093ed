//! What the recorded lists and the Lean rendering keep of a transcript.

use vstd::prelude::*;
use vstd::string::*;

use crate::curve::EqAffine;
use crate::field;
use crate::field::Fp;
use crate::points;
use crate::text;
use crate::transcript;
use crate::transcript::TranscriptEvent;

verus! {

/// Each kind of event goes to its own list and to no other.
pub proof fn events_go_to_their_lists(p: EqAffine, s: Fp)
    ensures
        transcript::common_points(seq![TranscriptEvent::CommonPoint(p)]) == seq![p],
        transcript::read_points(seq![TranscriptEvent::CommonPoint(p)]).len() == 0,
        transcript::read_scalars(seq![TranscriptEvent::CommonPoint(p)]).len() == 0,
        transcript::squeezes(seq![TranscriptEvent::CommonPoint(p)]).len() == 0,
        transcript::all_points(seq![TranscriptEvent::CommonPoint(p)]) == seq![p],
        transcript::common_points(seq![TranscriptEvent::CommonScalar(s)]).len() == 0,
        transcript::read_points(seq![TranscriptEvent::CommonScalar(s)]).len() == 0,
        transcript::read_scalars(seq![TranscriptEvent::CommonScalar(s)]).len() == 0,
        transcript::squeezes(seq![TranscriptEvent::CommonScalar(s)]).len() == 0,
        transcript::all_points(seq![TranscriptEvent::CommonScalar(s)]).len() == 0,
        transcript::common_points(seq![TranscriptEvent::ReadPoint(p)]).len() == 0,
        transcript::read_points(seq![TranscriptEvent::ReadPoint(p)]) == seq![p],
        transcript::read_scalars(seq![TranscriptEvent::ReadPoint(p)]).len() == 0,
        transcript::squeezes(seq![TranscriptEvent::ReadPoint(p)]).len() == 0,
        transcript::all_points(seq![TranscriptEvent::ReadPoint(p)]) == seq![p],
        transcript::common_points(seq![TranscriptEvent::ReadScalar(s)]).len() == 0,
        transcript::read_points(seq![TranscriptEvent::ReadScalar(s)]).len() == 0,
        transcript::read_scalars(seq![TranscriptEvent::ReadScalar(s)]) == seq![s],
        transcript::squeezes(seq![TranscriptEvent::ReadScalar(s)]).len() == 0,
        transcript::all_points(seq![TranscriptEvent::ReadScalar(s)]).len() == 0,
        transcript::common_points(seq![TranscriptEvent::Squeeze(s)]).len() == 0,
        transcript::read_points(seq![TranscriptEvent::Squeeze(s)]).len() == 0,
        transcript::read_scalars(seq![TranscriptEvent::Squeeze(s)]).len() == 0,
        transcript::squeezes(seq![TranscriptEvent::Squeeze(s)]) == seq![s],
        transcript::all_points(seq![TranscriptEvent::Squeeze(s)]).len() == 0,
{
    lemma_single(TranscriptEvent::CommonPoint(p));
    lemma_single(TranscriptEvent::CommonScalar(s));
    lemma_single(TranscriptEvent::ReadPoint(p));
    lemma_single(TranscriptEvent::ReadScalar(s));
    lemma_single(TranscriptEvent::Squeeze(s));
}

proof fn lemma_single(e: TranscriptEvent)
    ensures
        match e {
            TranscriptEvent::CommonPoint(p) => {
                &&& transcript::common_points(seq![e]) == seq![p]
                &&& transcript::read_points(seq![e]).len() == 0
                &&& transcript::read_scalars(seq![e]).len() == 0
                &&& transcript::squeezes(seq![e]).len() == 0
                &&& transcript::all_points(seq![e]) == seq![p]
            },
            TranscriptEvent::CommonScalar(_) => {
                &&& transcript::common_points(seq![e]).len() == 0
                &&& transcript::read_points(seq![e]).len() == 0
                &&& transcript::read_scalars(seq![e]).len() == 0
                &&& transcript::squeezes(seq![e]).len() == 0
                &&& transcript::all_points(seq![e]).len() == 0
            },
            TranscriptEvent::ReadPoint(p) => {
                &&& transcript::common_points(seq![e]).len() == 0
                &&& transcript::read_points(seq![e]) == seq![p]
                &&& transcript::read_scalars(seq![e]).len() == 0
                &&& transcript::squeezes(seq![e]).len() == 0
                &&& transcript::all_points(seq![e]) == seq![p]
            },
            TranscriptEvent::ReadScalar(s) => {
                &&& transcript::common_points(seq![e]).len() == 0
                &&& transcript::read_points(seq![e]).len() == 0
                &&& transcript::read_scalars(seq![e]) == seq![s]
                &&& transcript::squeezes(seq![e]).len() == 0
                &&& transcript::all_points(seq![e]).len() == 0
            },
            TranscriptEvent::Squeeze(s) => {
                &&& transcript::common_points(seq![e]).len() == 0
                &&& transcript::read_points(seq![e]).len() == 0
                &&& transcript::read_scalars(seq![e]).len() == 0
                &&& transcript::squeezes(seq![e]) == seq![s]
                &&& transcript::all_points(seq![e]).len() == 0
            },
        },
{
    assert(seq![e].drop_last() =~= Seq::empty());
    assert(seq![e].last() == e);
    reveal_with_fuel(transcript::common_points, 2);
    reveal_with_fuel(transcript::read_points, 2);
    reveal_with_fuel(transcript::read_scalars, 2);
    reveal_with_fuel(transcript::squeezes, 2);
    reveal_with_fuel(transcript::all_points, 2);
}

/// The lists of a transcript are the lists of its first part followed by those of the rest.
pub proof fn lists_follow_the_events(a: Seq<TranscriptEvent>, b: Seq<TranscriptEvent>)
    ensures
        transcript::common_points(a + b) == transcript::common_points(a)
            + transcript::common_points(b),
        transcript::read_points(a + b) == transcript::read_points(a) + transcript::read_points(b),
        transcript::read_scalars(a + b) == transcript::read_scalars(a)
            + transcript::read_scalars(b),
        transcript::squeezes(a + b) == transcript::squeezes(a) + transcript::squeezes(b),
        transcript::all_points(a + b) == transcript::all_points(a) + transcript::all_points(b),
    decreases b.len(),
{
    if b.len() > 0 {
        lists_follow_the_events(a, b.drop_last());
        assert((a + b).drop_last() =~= a + b.drop_last());
        assert((a + b).last() == b.last());
    } else {
        assert(a + b =~= a);
    }
    assert(transcript::common_points(a + b) =~= transcript::common_points(a)
        + transcript::common_points(b));
    assert(transcript::read_points(a + b) =~= transcript::read_points(a)
        + transcript::read_points(b));
    assert(transcript::read_scalars(a + b) =~= transcript::read_scalars(a)
        + transcript::read_scalars(b));
    assert(transcript::squeezes(a + b) =~= transcript::squeezes(a) + transcript::squeezes(b));
    assert(transcript::all_points(a + b) =~= transcript::all_points(a)
        + transcript::all_points(b));
}

/// Counted reads are the numbers counted.
pub proof fn counts_are_the_numbers(ns: Seq<usize>, i: int)
    requires
        0 <= i < ns.len(),
    ensures
        transcript::counts(ns).len() == ns.len(),
        transcript::counts(ns)[i] == ns[i],
{
}

/// A point stands in the transcript by its reference, a scalar by its literal, and a squeezed
/// challenge as a scalar; events stand in their order.
pub proof fn elements_are_spelled_out(
    table: Seq<EqAffine>,
    events: Seq<TranscriptEvent>,
    i: int,
)
    requires
        0 <= i < events.len(),
    ensures
        transcript::elt_texts(table, events).len() == events.len(),
        transcript::elt_texts(table, events)[i] == transcript::elt_text(table, events[i]),
        transcript::elt_text(table, events[i]) == match events[i] {
            TranscriptEvent::CommonPoint(p) => "TranscriptElt.point ("@ + points::ref_text(table, p)
                + ")"@,
            TranscriptEvent::ReadPoint(p) => "TranscriptElt.point ("@ + points::ref_text(table, p)
                + ")"@,
            TranscriptEvent::CommonScalar(s) => "TranscriptElt.scalar "@ + field::fp_text(s),
            TranscriptEvent::ReadScalar(s) => "TranscriptElt.scalar "@ + field::fp_text(s),
            TranscriptEvent::Squeeze(s) => "TranscriptElt.scalar "@ + field::fp_text(s),
        },
{
}

/// The first events are the first ones, as many as asked for, as far as there are any.
pub proof fn first_events_come_first(events: Seq<TranscriptEvent>, n: nat)
    ensures
        transcript::first_events(events, n).is_prefix_of(events),
        transcript::first_events(events, n).len() == (if n <= events.len() {
            n
        } else {
            events.len()
        }),
{
    let first = transcript::first_events(events, n);
    assert(events.take(first.len() as int) =~= first);
}

/// The schedule entry of a squeeze lists the elements of all events before it, and then the
/// challenge; the entries come in the order of the squeezes.
pub proof fn schedule_entries_are_spelled_out(
    table: Seq<EqAffine>,
    events: Seq<TranscriptEvent>,
    at: int,
    challenge: Fp,
)
    requires
        0 <= at < events.len(),
        events[at] == TranscriptEvent::Squeeze(challenge),
    ensures
        transcript::schedule_texts(table, events).len() == transcript::squeezes(events).len(),
        ({
            let j = transcript::squeezes(events.take(at)).len() as int;
            &&& 0 <= j < transcript::schedule_texts(table, events).len()
            &&& transcript::schedule_texts(table, events)[j] == "(["@ + text::comma_separated(
                Seq::new(at as nat, |i: int| transcript::elt_text(table, events[i])),
            ) + "], "@ + field::fp_text(challenge) + ")"@
        }),
{
    transcript::one_entry_per_squeeze(table, events);
    transcript::entry_of_a_squeeze(table, events, at);
    assert(transcript::elt_texts(table, events.take(at)) =~= Seq::new(
        at as nat,
        |i: int| transcript::elt_text(table, events[i]),
    ));
}

} // verus!
