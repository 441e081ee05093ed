//! The parts that a fixture is put together from, on concrete values.

use ff::{Field, PrimeField};
use group::prime::PrimeCurveAffine;
use group::Curve;
use pasta_curves::arithmetic::CurveAffine;

use vesta_fixture::capture::{
    collect_firsts, collect_seconds, lookup_eval_literals, pair_literals, set_eval_literals,
};
use vesta_fixture::circuit::{
    expr_list, expr_to_lean, is_selector_free, layout_literals, Any, Column, ConstraintSystem,
    Expression, Gate, LookupArgument, Query,
};
use vesta_fixture::curve::{point_key, same_points, EqAffine};
use vesta_fixture::field::{field, fp, fq, join_fps, Fp, Fq};
use vesta_fixture::key::{generator_count, ExportError};
use vesta_fixture::msm::{Params, MSM};
use vesta_fixture::names::{is_lean_path, is_slug};
use vesta_fixture::points::PointTable;
use vesta_fixture::schedule::Shape;
use vesta_fixture::slots::{
    are_columns_below, collect_picked, collect_proof_slots, distinct_columns, do_slots_match_bases,
};
use vesta_fixture::text::{join, number, signed_number};
use vesta_fixture::transcript::{
    collect_common_points, collect_points, collect_read_points, collect_read_scalars,
    collect_squeezes, reads_before_squeezes, transcript_point, transcript_scalar,
    ChallengeRecorder, TranscriptEvent,
};

type Scalar = pasta_curves::Fp;
type Base = pasta_curves::Fq;
type Point = pasta_curves::EqAffine;

fn scalar(s: Scalar) -> Fp {
    Fp::from_repr(s.to_repr()).unwrap()
}

fn small(v: u64) -> Fp {
    scalar(Scalar::from(v))
}

fn base(x: Base) -> Fq {
    Fq::from_repr(x.to_repr()).unwrap()
}

fn point(p: Point) -> EqAffine {
    let c = p.coordinates().unwrap();
    EqAffine::from_xy(base(*c.x()), base(*c.y())).unwrap()
}

fn multiple(m: u64) -> EqAffine {
    point((Point::generator() * Scalar::from(m)).to_affine())
}

fn strings(list: &[&str]) -> Vec<String> {
    list.iter().map(|s| s.to_string()).collect()
}

fn shape() -> Shape {
    Shape {
        k: 2,
        num_proofs: 2,
        num_advice_columns: 3,
        num_lookups: 1,
        num_permutation_sets: 2,
        num_permutation_columns: 4,
        num_quotient_pieces: 3,
        num_instance_queries: 1,
        num_advice_queries: 5,
        num_fixed_queries: 2,
    }
}

fn system() -> ConstraintSystem {
    ConstraintSystem {
        num_advice_columns: 2,
        num_instance_columns: 1,
        gates: vec![
            Gate { polynomials: vec![Expression::Fixed(0), Expression::Advice(1)] },
            Gate { polynomials: vec![] },
            Gate { polynomials: vec![Expression::Instance(2)] },
        ],
        advice_queries: vec![
            Query { column: 1, rotation: -1 },
            Query { column: 1, rotation: 0 },
            Query { column: 0, rotation: 0 },
        ],
        instance_queries: vec![Query { column: 0, rotation: 0 }],
        fixed_queries: vec![Query { column: 0, rotation: 1 }],
        permutation_columns: vec![
            Column { index: 0, column_type: Any::Advice },
            Column { index: 0, column_type: Any::Instance },
            Column { index: 1, column_type: Any::Advice },
        ],
        lookups: vec![LookupArgument {
            input_expressions: vec![Expression::Advice(0), Expression::Fixed(0)],
            table_expressions: vec![],
        }],
        blinding_factors: 5,
    }
}

#[test]
fn numerals_are_decimal() {
    assert_eq!(number(0), "0");
    assert_eq!(number(10), "10");
    assert_eq!(number(907), "907");
    assert_eq!(number(u64::MAX), "18446744073709551615");
    assert_eq!(signed_number(0), "0");
    assert_eq!(signed_number(-1), "-1");
    assert_eq!(signed_number(17), "17");
    assert_eq!(signed_number(i32::MIN), "-2147483648");
}

#[test]
fn lists_are_joined_with_commas() {
    assert_eq!(join(&[]), "");
    assert_eq!(join(&strings(&["a"])), "a");
    assert_eq!(join(&strings(&["a", "", "b"])), "a, , b");
    assert_eq!(join_fps(&[]), "");
    assert_eq!(join_fps(&[small(1), small(2)]), "(mkFp 1 0 0 0), (mkFp 2 0 0 0)");
}

#[test]
fn field_literals_have_four_limbs() {
    assert_eq!(fp(small(0)), "(mkFp 0 0 0 0)");
    assert_eq!(
        fp(scalar(-Scalar::ONE)),
        "(mkFp 11037532056220336128 2469829653914515739 0 4611686018427387904)"
    );
    assert_eq!(
        fq(base(-Base::ONE)),
        "(mkFq 10108024940646105088 2469829653919213789 0 4611686018427387904)"
    );
    assert_eq!(field("c", &[1, 0, 0, 0, 0, 0, 0, 0, 2, 3]), "(c 1 770 0 0)");
    assert_eq!(field("c", &[]), "(c 0 0 0 0)");
}

#[test]
fn limbs_give_the_number_back() {
    let x = Scalar::from(987654321).square().square().square().square();
    let literal = fp(scalar(x));
    let limbs: Vec<u64> = literal
        .trim_start_matches("(mkFp ")
        .trim_end_matches(')')
        .split(' ')
        .map(|l| l.parse().unwrap())
        .collect();
    let radix = Scalar::from(1 << 32).square();
    let sum = limbs.iter().rev().fold(Scalar::ZERO, |acc, l| acc * radix + Scalar::from(*l));
    assert_eq!(sum, x);
    assert_ne!(literal, fp(scalar(x + Scalar::ONE)));
}

#[test]
fn representations_beyond_the_modulus_are_refused() {
    // One more than the largest element of each field is its modulus.
    let mut repr = (-Scalar::ONE).to_repr();
    assert!(Fp::from_repr(repr).is_some());
    repr[0] += 1;
    assert!(Fp::from_repr(repr).is_none());
    let mut repr = (-Base::ONE).to_repr();
    assert!(Fq::from_repr(repr).is_some());
    repr[0] += 1;
    assert!(Fq::from_repr(repr).is_none());
    assert!(Fp::from_repr([0xff; 32]).is_none());
    assert!(Fq::from_repr([0xff; 32]).is_none());
}

#[test]
fn representations_are_kept() {
    let x = Scalar::from(5).invert().unwrap();
    assert_eq!(scalar(x).to_repr(), x.to_repr());
    let y = Base::from(5).invert().unwrap();
    assert_eq!(base(y).to_repr(), y.to_repr());
    assert!(scalar(x).equals(&scalar(x)));
    assert!(!scalar(x).equals(&small(5)));
}

#[test]
fn delta_is_the_constant_of_the_field() {
    assert_eq!(Fp::delta().to_repr(), Scalar::DELTA.to_repr());
    assert_eq!(
        fp(Fp::delta()),
        "(mkFp 7668729806543625122 17718555051450848822 13638407587763651741 753646016032844652)"
    );
}

#[test]
fn coordinates_are_validated() {
    let g = Point::generator().coordinates().unwrap();
    let p = EqAffine::from_xy(base(*g.x()), base(*g.y())).unwrap();
    let (x, y) = p.coordinates().unwrap();
    assert_eq!(x.to_repr(), g.x().to_repr());
    assert_eq!(y.to_repr(), g.y().to_repr());
    assert!(EqAffine::from_xy(base(*g.x() + Base::ONE), base(*g.y())).is_none());
    assert!(EqAffine::from_xy(base(Base::ZERO), base(Base::ONE)).is_none());
    // The origin stands for the identity, which has no coordinates.
    let origin = EqAffine::from_xy(base(Base::ZERO), base(Base::ZERO)).unwrap();
    assert!(origin.coordinates().is_none());
    assert_eq!(origin, EqAffine::identity());
}

#[test]
fn group_operations_are_those_of_the_curve() {
    assert_eq!(multiple(3).plus(&multiple(4)), multiple(7));
    assert_eq!(multiple(3).plus(&multiple(3)), multiple(6));
    assert_eq!(multiple(3).times(&small(5)), multiple(15));
    assert_eq!(multiple(3).times(&small(1)), multiple(3));
    let mut sum = EqAffine::identity();
    for n in 0..20 {
        assert_eq!(multiple(3).times(&small(n)), sum);
        sum = sum.plus(&multiple(3));
    }
    assert_eq!(multiple(3).times(&small(0)), EqAffine::identity());
    let opposite = multiple(3).times(&scalar(-Scalar::ONE));
    assert_eq!(multiple(3).plus(&opposite), EqAffine::identity());
    assert_eq!(multiple(3).plus(&EqAffine::identity()), multiple(3));
    assert_eq!(EqAffine::identity().plus(&multiple(3)), multiple(3));
    assert_eq!(EqAffine::identity().times(&small(9)), EqAffine::identity());
}

#[test]
fn keys_tell_points_apart() {
    let g = Point::generator().coordinates().unwrap();
    let key = point_key(multiple(1));
    assert_eq!(key.len(), 64);
    assert_eq!(&key[..32], &g.x().to_repr()[..]);
    assert_eq!(&key[32..], &g.y().to_repr()[..]);
    assert_eq!(point_key(EqAffine::identity()), vec![0u8]);
    // Opposite points share one coordinate.
    let opposite = multiple(1).times(&scalar(-Scalar::ONE));
    assert_ne!(point_key(opposite), key);
    assert!(same_points(&multiple(2), &multiple(1).plus(&multiple(1))));
    assert!(!same_points(&multiple(1), &opposite));
}

#[test]
fn table_numbers_each_point_once() {
    let mut table = PointTable::new();
    assert_eq!(table.id(multiple(4)), 0);
    assert_eq!(table.id(multiple(5)), 1);
    assert_eq!(table.id(multiple(4)), 0);
    assert_eq!(table.id(EqAffine::identity()), 2);
    let first = table.point_ref(multiple(5));
    assert_eq!(
        table.point_refs(&[multiple(6), multiple(5), multiple(6), multiple(4)]),
        strings(&["capturedPoint 3", "capturedPoint 1", "capturedPoint 3", "capturedPoint 0"])
    );
    assert_eq!(first, table.point_ref(multiple(5)));
    assert_eq!(table.find(multiple(6)), Some(3));
    assert_eq!(table.find(multiple(7)), None);
    let literals = table.coordinate_literals();
    assert_eq!(literals.len(), 4);
    assert_eq!(literals[2], "(0, 0)");
    let (x, y) = multiple(5).coordinates().unwrap();
    assert_eq!(literals[1], format!("({}, {})", fq(x), fq(y)));
}

#[test]
fn interning_adds_what_is_missing() {
    let mut table = PointTable::new();
    table.intern(&[multiple(2), multiple(3), multiple(2)]);
    table.intern(&[multiple(3), multiple(4)]);
    assert_eq!(table.coordinate_literals().len(), 3);
    assert_eq!(table.known_ref(multiple(4)), "capturedPoint 2");
    assert_eq!(
        table.known_refs(&[multiple(3), multiple(2)]),
        strings(&["capturedPoint 1", "capturedPoint 0"])
    );
    assert_eq!(
        pair_literals(&table, &[multiple(2), multiple(3), multiple(4), multiple(4)], 2),
        strings(&[
            "(capturedPoint 0, capturedPoint 1)",
            "(capturedPoint 2, capturedPoint 2)"
        ])
    );
}

#[test]
fn paths_and_slugs() {
    for path in ["A", "Halo2.Fixture", "_._1.x"] {
        assert!(is_lean_path(path), "{path}");
    }
    for path in ["", ".", "A.", ".A", "A..B", "A.1", "A-B", "A B", "\u{e9}"] {
        assert!(!is_lean_path(path), "{path}");
    }
    for id in ["a", "1", "-", "render_accept-2"] {
        assert!(is_slug(id), "{id}");
    }
    for id in ["", "a.b", "a\"", "a\\", "\u{e9}"] {
        assert!(!is_slug(id), "{id}");
    }
}

#[test]
fn expressions_become_lean_terms() {
    let product = Expression::Product(
        Box::new(Expression::Scaled(Box::new(Expression::Fixed(12)), small(3))),
        Box::new(Expression::Negated(Box::new(Expression::Sum(
            Box::new(Expression::Advice(0)),
            Box::new(Expression::Constant(small(7))),
        )))),
    );
    assert_eq!(
        expr_to_lean(&product),
        "(.product (.scaled (.fixed 12) (mkFp 3 0 0 0)) \
         (.negated (.sum (.advice 0) (.constant (mkFp 7 0 0 0)))))"
    );
    assert!(is_selector_free(&product));
    assert!(!is_selector_free(&Expression::Scaled(
        Box::new(Expression::Selector(0)),
        small(1)
    )));
    assert_eq!(expr_list(&vec![]), "[]");
    assert_eq!(
        expr_list(&vec![Expression::Instance(4), Expression::Instance(5)]),
        "[(.instance 4), (.instance 5)]"
    );
}

#[test]
fn layouts_and_chunks_become_lean_terms() {
    let cs = system();
    assert_eq!(
        layout_literals(&cs.advice_queries),
        strings(&["(1, (-1 : ℤ))", "(1, (0 : ℤ))", "(0, (0 : ℤ))"])
    );
    assert_eq!(cs.gate_literals(), strings(&["(.fixed 0)", "(.advice 1)", "(.instance 2)"]));
    assert_eq!(cs.lookup_input_literals(), strings(&["[(.advice 0), (.fixed 0)]"]));
    assert_eq!(cs.lookup_table_literals(), strings(&["[]"]));
    assert_eq!(
        cs.permutation_chunk_literals(2),
        strings(&["[((.advice 2), 0), ((.instance 0), 1)]", "[((.advice 1), 2)]"])
    );
    assert_eq!(cs.permutation_chunk_literals(3).len(), 1);
    assert_eq!(cs.permutation_chunk_literals(1).len(), 3);
}

#[test]
fn permutation_columns_are_queried_at_the_current_row() {
    let mut cs = system();
    let fixed = Column { index: 0, column_type: Any::Fixed };
    assert_eq!(cs.get_any_query_index(cs.permutation_columns[2]), Some(1));
    assert_eq!(cs.get_any_query_index(fixed), None);
    assert!(cs.is_permutation_queried());
    cs.permutation_columns.push(fixed);
    assert!(!cs.is_permutation_queried());
}

#[test]
fn evaluations_become_lean_records() {
    let s = shape();
    let evals: Vec<Fp> = (0..10).map(small).collect();
    let at = |i: u64| fp(small(i));
    assert_eq!(
        set_eval_literals(&evals, &s),
        vec![
            format!("{{ eval := {}, nextEval := {}, lastEval := some {} }}", at(0), at(1), at(2)),
            format!("{{ eval := {}, nextEval := {}, lastEval := none }}", at(3), at(4)),
            format!("{{ eval := {}, nextEval := {}, lastEval := some {} }}", at(5), at(6), at(7)),
            format!("{{ eval := {}, nextEval := {}, lastEval := none }}", at(8), at(9)),
        ]
    );
    let lookups = lookup_eval_literals(&evals, 2);
    assert_eq!(lookups.len(), 2);
    assert_eq!(
        lookups[1],
        format!(
            "{{ productEval := {}, productNextEval := {}, permutedInputEval := {}, permutedInputInvEval := {}, permutedTableEval := {} }}",
            at(5), at(6), at(7), at(8), at(9)
        )
    );
    let pairs = [multiple(1), multiple(2), multiple(3), multiple(4)];
    assert_eq!(collect_firsts(&pairs, 2), vec![multiple(1), multiple(3)]);
    assert_eq!(collect_seconds(&pairs, 2), vec![multiple(2), multiple(4)]);
}

#[test]
fn blocks_follow_the_read_order() {
    let s = shape();
    let p = s.point_blocks().unwrap();
    assert_eq!(
        [
            p.advice, p.lookup_permuted, p.permutation, p.lookup_product, p.vanishing, p.quotient,
            p.multiopen, p.ipa_blind, p.total
        ],
        [6, 10, 14, 16, 17, 20, 21, 22, 26]
    );
    let e = s.scalar_blocks().unwrap();
    assert_eq!(
        [
            e.instance, e.advice, e.fixed, e.vanishing, e.permutation_common, e.permutation_set,
            e.lookup, e.least
        ],
        [2, 12, 14, 15, 19, 29, 39, 41]
    );
    let huge = Shape { num_advice_columns: usize::MAX, ..s };
    assert!(huge.point_blocks().is_none());
    let huge = Shape { num_advice_queries: usize::MAX, ..s };
    assert!(huge.scalar_blocks().is_none());
    // The largest number of sets for which the evaluations of a single proof can be counted.
    let sets = Shape { num_proofs: 0, num_permutation_sets: usize::MAX, ..s };
    assert!(sets.scalar_blocks().is_some());
}

#[test]
fn squeezes_are_pinned_to_block_ends() {
    let s = shape();
    let blocks = s.point_blocks().unwrap();
    let evals = s.scalar_blocks().unwrap();
    let points_at = vec![6, 10, 10, 17, 20, 20, 20, 21, 21, 22, 22, 24, 26];
    assert!(s.are_points_pinned(&blocks, &points_at));
    let scalars_at = vec![0, 0, 0, 0, 0, 39, 39, 39, 43, 43, 43, 43, 43];
    assert!(s.are_scalars_pinned(&evals, 45, &scalars_at));
    for i in 0..points_at.len() {
        let mut moved = points_at.clone();
        moved[i] += 1;
        assert!(!s.are_points_pinned(&blocks, &moved), "{i}");
        let mut moved = scalars_at.clone();
        moved[i] += 1;
        // Scalars are pinned from the squeeze of x1 on.
        assert_eq!(s.are_scalars_pinned(&evals, 45, &moved), i < 5, "{i}");
    }
}

#[test]
fn events_are_told_apart() {
    let events = [
        TranscriptEvent::CommonScalar(small(1)),
        TranscriptEvent::CommonPoint(multiple(1)),
        TranscriptEvent::ReadPoint(multiple(2)),
        TranscriptEvent::Squeeze(small(2)),
        TranscriptEvent::ReadScalar(small(3)),
        TranscriptEvent::ReadPoint(multiple(3)),
        TranscriptEvent::Squeeze(small(4)),
    ];
    assert_eq!(collect_common_points(&events), vec![multiple(1)]);
    assert_eq!(collect_read_points(&events), vec![multiple(2), multiple(3)]);
    assert_eq!(collect_read_scalars(&events), vec![small(3)]);
    assert_eq!(collect_squeezes(&events), vec![small(2), small(4)]);
    assert_eq!(collect_points(&events), vec![multiple(1), multiple(2), multiple(3)]);
    assert_eq!(reads_before_squeezes(&events), (vec![1, 2], vec![0, 1]));
    let mut recorder = ChallengeRecorder {
        common_points: vec![multiple(1)],
        points: vec![multiple(2), multiple(3)],
        scalars: vec![small(3)],
        challenges: vec![small(2), small(4)],
        events: events.to_vec(),
    };
    assert!(recorder.is_consistent());
    assert!(recorder.is_started_with_key(&small(1)));
    assert!(!recorder.is_started_with_key(&small(2)));
    recorder.points.swap(0, 1);
    assert!(!recorder.is_consistent());
    recorder.points.swap(0, 1);
    recorder.challenges.pop();
    assert!(!recorder.is_consistent());
}

#[test]
fn transcript_elements_become_lean_terms() {
    let mut table = PointTable::new();
    let _ = table.id(multiple(9));
    assert_eq!(transcript_point(&mut table, multiple(8)), "TranscriptElt.point (capturedPoint 1)");
    assert_eq!(transcript_scalar(small(6)), "TranscriptElt.scalar (mkFp 6 0 0 0)");
}

#[test]
fn columns_are_distinct_and_sorted() {
    let queries: Vec<Query> = [4, 1, 4, 0, 9, 1]
        .iter()
        .map(|c| Query { column: *c, rotation: *c as i32 })
        .collect();
    assert_eq!(distinct_columns(&queries), vec![0, 1, 4, 9]);
    assert!(are_columns_below(&queries, 10));
    assert!(!are_columns_below(&queries, 9));
    assert!(distinct_columns(&vec![]).is_empty());
}

#[test]
fn slots_are_collected_proof_by_proof() {
    let at = |column: usize| Query { column, rotation: 0 };
    let instance: Vec<EqAffine> = (1..5).map(multiple).collect();
    let advice: Vec<EqAffine> = (10..16).map(multiple).collect();
    assert_eq!(
        collect_proof_slots(&instance, 2, &vec![at(1)], &advice, 3, &vec![at(2), at(0)], 2),
        vec![multiple(2), multiple(10), multiple(12), multiple(4), multiple(13), multiple(15)]
    );
    assert_eq!(
        collect_picked(&advice, &vec![at(5), at(1), at(5)]),
        vec![multiple(11), multiple(15)]
    );
}

#[test]
fn slots_are_held_against_bases() {
    let (a, b, none) = (multiple(1), multiple(2), EqAffine::identity());
    assert!(do_slots_match_bases(&vec![a, b], &vec![b, a]));
    // Merged commitments and dropped identities leave the set of bases as it is.
    assert!(do_slots_match_bases(&vec![a, b, a, none], &vec![a, b]));
    assert!(!do_slots_match_bases(&vec![a, b], &vec![a]));
    assert!(!do_slots_match_bases(&vec![a], &vec![a, b]));
    assert!(!do_slots_match_bases(&vec![a, none], &vec![a, none]));
}

#[test]
fn sums_are_evaluated() {
    let params = Params {
        k: 1,
        g: vec![multiple(2), multiple(3)],
        w: multiple(5),
        u: multiple(7),
    };
    let (x, y) = multiple(11).coordinates().unwrap();
    let mut msm = MSM {
        params: &params,
        g_scalars: Some(vec![small(1), small(2)]),
        w_scalar: Some(small(3)),
        u_scalar: Some(small(4)),
        other: vec![(small(5), x, y)],
    };
    assert!(!msm.eval());
    // 2 + 6 + 15 + 28 and then five times the last base.
    msm.other[0].0 = scalar(-Scalar::from(51) * Scalar::from(11).invert().unwrap());
    assert!(msm.eval());
    msm.u_scalar = None;
    assert!(!msm.eval());
    let nothing = MSM {
        params: &params,
        g_scalars: None,
        w_scalar: None,
        u_scalar: Some(small(0)),
        other: vec![],
    };
    assert!(nothing.eval());
}

#[test]
fn generators_are_counted() {
    assert_eq!(generator_count(0), Some(1));
    assert_eq!(generator_count(11), Some(2048));
    assert_eq!(generator_count(63), Some(1 << 63));
    assert_eq!(generator_count(64), None);
}

#[test]
fn refusals_say_why() {
    assert_eq!(
        ExportError::NotIdentity.message(),
        "captured MSM must evaluate to the identity; the emitted fixture proves it"
    );
    assert_eq!(
        ExportError::MsmBase.message(),
        "captured MSM base must be a valid affine point"
    );
    assert_eq!(
        ExportError::ZeroChunkLength.message(),
        "permutation columns present but chunk length is zero"
    );
    assert_eq!(
        ExportError::NoBlindingScalar.message(),
        "captured MSM must contain a blinding-generator coefficient"
    );
    assert_eq!(
        ExportError::Collapsed { slots: 12, terms: 9 }.message(),
        "captured MSM collapsed 12 protocol commitment slots into 9 terms by merging same-base \
         terms or dropping identity bases; the Lean assembly does neither, so the emitted \
         `fingerprint_matches` could not hold. Capture a proof whose commitments are all \
         distinct and non-identity."
    );
}
