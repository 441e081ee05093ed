use ff::PrimeField;
use group::prime::PrimeCurveAffine;
use pasta_curves::arithmetic::CurveAffine;

use vesta_fixture::curve::EqAffine;
use vesta_fixture::field::{fp, Fp, Fq};
use vesta_fixture::names::is_lean_ident;
use vesta_fixture::points::PointTable;
use vesta_fixture::transcript::{
    render_transcript_capture, transcript_point, transcript_scalar, TranscriptEvent,
};

fn scalar(v: u64) -> Fp {
    Fp::from_repr(pasta_curves::Fp::from(v).to_repr()).unwrap()
}

fn generator() -> EqAffine {
    let c = pasta_curves::EqAffine::generator().coordinates().unwrap();
    let x = Fq::from_repr(c.x().to_repr()).unwrap();
    let y = Fq::from_repr(c.y().to_repr()).unwrap();
    EqAffine::from_xy(x, y).unwrap()
}

#[test]
fn transcript_schedule_records_squeeze_before_first_proof_read() {
    let vk_repr = scalar(1);
    let theta = scalar(2);
    let beta = scalar(3);
    let events = [
        TranscriptEvent::CommonScalar(vk_repr),
        // A zero-advice circuit squeezes theta without first reading an advice commitment.
        TranscriptEvent::Squeeze(theta),
        TranscriptEvent::ReadPoint(generator()),
        TranscriptEvent::Squeeze(beta),
    ];
    let mut points = PointTable::new();

    let (captured_init, schedule_entries) = render_transcript_capture(&mut points, &events, 1);

    assert_eq!(captured_init, vec![transcript_scalar(vk_repr)]);
    assert_eq!(schedule_entries.len(), 2);
    assert!(schedule_entries[0].ends_with(&format!(", {})", fp(theta))));
    assert!(schedule_entries[1].ends_with(&format!(", {})", fp(beta))));
}

#[test]
fn lean_identifier_grammar() {
    // Accepted: letter/underscore start, ASCII alphanumerics and `_` thereafter.
    assert!(is_lean_ident("Halo2"));
    assert!(is_lean_ident("_private"));
    assert!(is_lean_ident("Fixture0"));
    // Rejected: empty, digit-leading, and any non-`_` punctuation (a dotted path is validated
    // segment-by-segment by the caller).
    assert!(!is_lean_ident(""));
    assert!(!is_lean_ident("123"));
    assert!(!is_lean_ident("0abc"));
    assert!(!is_lean_ident("has-hyphen"));
    assert!(!is_lean_ident("has.dot"));
    assert!(!is_lean_ident("has space"));
}

#[test]
fn schedule_entries_hold_everything_before_the_squeeze() {
    let events = [
        TranscriptEvent::CommonScalar(scalar(1)),
        TranscriptEvent::CommonPoint(generator()),
        TranscriptEvent::ReadScalar(scalar(4)),
        TranscriptEvent::Squeeze(scalar(2)),
        TranscriptEvent::Squeeze(scalar(3)),
    ];
    let mut points = PointTable::new();
    let (init, entries) = render_transcript_capture(&mut points, &events, 2);
    let point = "TranscriptElt.point (capturedPoint 0)";
    let lit = |n: u64| format!("(mkFp {} 0 0 0)", n);
    let elt = |n: u64| format!("TranscriptElt.scalar {}", lit(n));
    assert_eq!(init, vec![elt(1), point.to_string()]);
    assert_eq!(
        entries,
        vec![
            format!("([{}, {}, {}], {})", elt(1), point, elt(4), lit(2)),
            format!("([{}, {}, {}, {}], {})", elt(1), point, elt(4), elt(2), lit(3)),
        ]
    );
    assert_eq!(points.coordinate_literals().len(), 1);
}

#[test]
fn an_event_prefix_may_be_longer_than_the_transcript() {
    let events = [TranscriptEvent::CommonScalar(scalar(9))];
    let mut points = PointTable::new();
    let (init, entries) = render_transcript_capture(&mut points, &events, 7);
    assert_eq!(init, vec![transcript_scalar(scalar(9))]);
    assert!(entries.is_empty());
    assert_eq!(
        transcript_point(&mut points, generator()),
        "TranscriptElt.point (capturedPoint 0)"
    );
}
